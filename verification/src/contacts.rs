//! The contact handshake: what the local user asks for, and what peers send.

use crate::outbox::contact_requests;
use crate::peers::contains;
use crate::structs::{
    ContactRequestBody, Outbound, OutboundView, PeerRequest, PeerRequestView, State, StateView,
    outbox,
};
use vstd::prelude::*;

verus! {

/// The state after a packet of the peer `from` has come in. A packet of a
/// peer that is not admitted changes nothing. The identity inside a request or
/// an acceptance is not read: the sender is who the transport says it is.
pub open spec fn received(s: StateView, from: Seq<char>, packet: PeerRequestView) -> StateView {
    if !s.admits(from) {
        s
    } else {
        match packet {
            PeerRequestView::RequestPeer(_) => s.queue_request(from),
            PeerRequestView::PeerAccepted(_) => s.add_contact(from),
            PeerRequestView::PeerUpdate(entry) => s.record_score(from, entry),
        }
    }
}

/// Whether a packet of `source_node` is processed at all.
pub fn admits(state: &State, source_node: &String) -> (admitted: bool)
    ensures
        admitted == state@.admits(source_node@),
{
    state.discoverable || contains(&state.pending_contact_requests, source_node) || contains(
        &state.incoming_contact_requests,
        source_node,
    ) || contains(&state.contacts, source_node)
}

/// Takes in a handshake or reputation packet that `source_node` has sent.
pub fn handle_peer_message(source_node: &String, state: &mut State, preq: PeerRequest)
    ensures
        final(state)@ == received(old(state)@, source_node@, preq@),
{
    if admits(state, source_node) {
        match preq {
            PeerRequest::RequestPeer(_) => {
                state.append_incoming_contact_request(source_node.clone());
            },
            PeerRequest::PeerAccepted(_) => {
                state.add_contact(source_node.clone());
            },
            PeerRequest::PeerUpdate(entry) => {
                if contains(&state.contacts, source_node) {
                    state.stats.insert(source_node.clone(), entry);
                }
            },
        }
    }
}

/// The local user asks the peer named in `body` to become a contact. The
/// request is sent in any case; the peer joins the pending list unless it is
/// the node itself, a contact, or pending already.
pub fn handle_send_contact_request(state: &mut State, body: ContactRequestBody) -> (out: Vec<
    Outbound,
>)
    ensures
        final(state)@ == old(state)@.request_contact(body.node@),
        outbox(out@) == contact_requests(seq![body.node@]),
{
    let mut out: Vec<Outbound> = Vec::new();
    out.push(
        Outbound::Peer {
            node: body.node.clone(),
            request: PeerRequest::RequestPeer(body.node.clone()),
        },
    );
    assert(outbox(out@) =~= contact_requests(seq![body.node@]));
    state.append_outgoing_contact_request(body.node);
    out
}

/// What is sent when the local user accepts the request of `p`: the
/// acceptance, to `p`, where `p` has made a request, and nothing where it has
/// not.
pub open spec fn acceptance(s: StateView, p: Seq<char>) -> Seq<OutboundView> {
    if s.incoming_contact_requests.contains(p) {
        seq![OutboundView::Peer { node: p, request: PeerRequestView::PeerAccepted(p) }]
    } else {
        Seq::empty()
    }
}

/// The local user accepts the request of the peer named in `body`.
pub fn handle_accept_contact(state: &mut State, body: ContactRequestBody) -> (out: Vec<Outbound>)
    ensures
        final(state)@ == old(state)@.accept(body.node@),
        outbox(out@) == acceptance(old(state)@, body.node@),
{
    let mut out: Vec<Outbound> = Vec::new();
    if contains(&state.incoming_contact_requests, &body.node) {
        out.push(
            Outbound::Peer {
                node: body.node.clone(),
                request: PeerRequest::PeerAccepted(body.node.clone()),
            },
        );
    }
    assert(outbox(out@) =~= acceptance(old(state)@, body.node@));
    state.accept_contact_request(body.node);
    out
}

/// The local user declines the request of the peer named in `body`. Nothing
/// is sent.
pub fn handle_decline_contact(state: &mut State, body: ContactRequestBody)
    ensures
        final(state)@ == old(state)@.decline(body.node@),
{
    state.decline_contact(body.node);
}

} // verus!
