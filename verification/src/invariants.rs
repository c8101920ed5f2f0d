//! What holds of the node's state whatever happens to it.

use crate::contacts::received;
use crate::dispatch::{can_step, step_sends, stepped, HttpServerEvent, Incoming, LocalAction};
use crate::peers::{
    lemma_filter_members, lemma_filter_no_duplicates, lemma_filter_push, lemma_push_members,
    lemma_push_no_duplicates, none_of, other_than, without,
};
use crate::structs::{
    newest, ChatMessageView, OutboundView, PeerRequestView, StateView, TerryPacket,
    CHAT_HISTORY_CAP,
};
use vstd::prelude::*;

verus! {

/// A filter under which every element passes leaves the list as it is.
pub proof fn lemma_filter_all<A>(s: Seq<A>, pred: spec_fn(A) -> bool)
    requires
        forall|i: int| 0 <= i < s.len() ==> pred(#[trigger] s[i]),
    ensures
        s.filter(pred) == s,
    decreases s.len(),
{
    reveal(Seq::filter);
    if s.len() > 0 {
        let front = s.drop_last();
        assert forall|i: int| 0 <= i < front.len() implies pred(#[trigger] front[i]) by {
            assert(front[i] == s[i]);
        }
        lemma_filter_all(front, pred);
        assert(s =~= front.push(s.last()));
        lemma_filter_push(front, s.last(), pred);
    }
}

/// Removing a peer that a list does not name leaves the list as it is.
pub proof fn lemma_without_absent(s: Seq<Seq<char>>, p: Seq<char>)
    requires
        !s.contains(p),
    ensures
        without(s, p) == s,
{
    let pred = other_than(p);
    assert forall|i: int| 0 <= i < s.len() implies pred(#[trigger] s[i]) by {
        assert(s.contains(s[i]));
    }
    lemma_filter_all(s, pred);
}

/// Once a peer is removed from a list, the list does not name it.
pub proof fn lemma_without_removes(s: Seq<Seq<char>>, p: Seq<char>)
    ensures
        !without(s, p).contains(p),
        forall|q: Seq<char>| q != p ==> (#[trigger] without(s, p).contains(q) <==> s.contains(q)),
{
    lemma_filter_members(s, other_than(p));
}

/// Well-formedness is an invariant: every event takes a well-formed state to
/// a well-formed state. No list comes to name a peer twice, and the chat
/// history never exceeds its bound.
pub proof fn lemma_step_keeps_wf(s: StateView, event: Incoming)
    requires
        s.wf(),
    ensures
        stepped(s, event).wf(),
{
    match event {
        Incoming::Timer => {
            lemma_filter_no_duplicates(s.pending_contact_requests, none_of(s.contacts));
        },
        Incoming::HttpServer(report) => {
            match report {
                HttpServerEvent::WebSocketOpen(_) => {},
                HttpServerEvent::WebSocketPush(_, _) => {},
                HttpServerEvent::WebSocketClose(_) => {},
                HttpServerEvent::Http(action) => {
                    match action {
                        LocalAction::AddRespect => {},
                        LocalAction::SetDiscoverable => {},
                        LocalAction::SendContactRequest(body) => {
                            if s.may_request(body.node@) {
                                lemma_push_no_duplicates(s.pending_contact_requests, body.node@);
                            }
                        },
                        LocalAction::AcceptContact(body) => {
                            lemma_accept_keeps_wf(s, body.node@);
                        },
                        LocalAction::DeclineContact(body) => {
                            lemma_filter_no_duplicates(
                                s.incoming_contact_requests,
                                other_than(body.node@),
                            );
                        },
                        LocalAction::SendChatMessage(_, _) => {},
                    }
                },
            }
        },
        Incoming::Peer { source_node, packet } => {
            match packet {
                TerryPacket::ClientRequest(_) => {},
                TerryPacket::PeerRequest(request) => {
                    let from = source_node@;
                    if s.admits(from) {
                        match request@ {
                            PeerRequestView::RequestPeer(_) => {
                                if s.may_queue(from) {
                                    lemma_push_no_duplicates(s.incoming_contact_requests, from);
                                }
                            },
                            PeerRequestView::PeerAccepted(_) => {
                                if !s.contacts.contains(from) {
                                    lemma_push_no_duplicates(s.contacts, from);
                                }
                            },
                            PeerRequestView::PeerUpdate(_) => {},
                        }
                    }
                },
            }
        },
        Incoming::Chat { source_node, chat } => {},
    }
}

/// Accepting a request keeps the state well-formed.
pub proof fn lemma_accept_keeps_wf(s: StateView, p: Seq<char>)
    requires
        s.wf(),
    ensures
        s.accept(p).wf(),
{
    if s.incoming_contact_requests.contains(p) {
        lemma_filter_no_duplicates(s.incoming_contact_requests, other_than(p));
        if !s.contacts.contains(p) {
            lemma_push_no_duplicates(s.contacts, p);
        }
    }
}

/// The events after which a peer can stand in two lists at once: the local
/// user asks a peer that is itself waiting for an answer; a peer asks while the
/// local node's own request to it is pending; a peer's acceptance comes in,
/// which makes it a contact and leaves it on the list where it stood.
pub open spec fn opens_overlap(s: StateView, event: Incoming) -> bool {
    match event {
        Incoming::HttpServer(HttpServerEvent::Http(LocalAction::SendContactRequest(body))) => {
            s.may_request(body.node@) && s.incoming_contact_requests.contains(body.node@)
        },
        Incoming::Peer { source_node, packet: TerryPacket::PeerRequest(request) } => {
            s.admits(source_node@) && match request@ {
                PeerRequestView::RequestPeer(_) => s.may_queue(source_node@)
                    && s.pending_contact_requests.contains(source_node@),
                PeerRequestView::PeerAccepted(_) => !s.contacts.contains(source_node@) && (
                s.pending_contact_requests.contains(source_node@)
                    || s.incoming_contact_requests.contains(source_node@)),
                PeerRequestView::PeerUpdate(_) => false,
            }
        },
        _ => false,
    }
}

/// Where no peer is in more than one of the three lists, none is after an
/// event either, unless the event is one of those that `opens_overlap` names.
pub proof fn lemma_step_keeps_partition(s: StateView, event: Incoming)
    requires
        s.partitioned(),
        !opens_overlap(s, event),
    ensures
        stepped(s, event).partitioned(),
{
    let t = stepped(s, event);
    match event {
        Incoming::Timer => {
            lemma_filter_members(s.pending_contact_requests, none_of(s.contacts));
        },
        Incoming::HttpServer(report) => {
            match report {
                HttpServerEvent::WebSocketOpen(_) => {},
                HttpServerEvent::WebSocketPush(_, _) => {},
                HttpServerEvent::WebSocketClose(_) => {},
                HttpServerEvent::Http(action) => {
                    match action {
                        LocalAction::AddRespect => {},
                        LocalAction::SetDiscoverable => {},
                        LocalAction::SendContactRequest(body) => {
                            lemma_push_members(s.pending_contact_requests, body.node@);
                        },
                        LocalAction::AcceptContact(body) => {
                            lemma_without_removes(s.incoming_contact_requests, body.node@);
                            lemma_push_members(s.contacts, body.node@);
                        },
                        LocalAction::DeclineContact(body) => {
                            lemma_without_removes(s.incoming_contact_requests, body.node@);
                        },
                        LocalAction::SendChatMessage(_, _) => {},
                    }
                },
            }
        },
        Incoming::Peer { source_node, packet } => {
            match packet {
                TerryPacket::ClientRequest(_) => {},
                TerryPacket::PeerRequest(request) => {
                    lemma_push_members(s.incoming_contact_requests, source_node@);
                    lemma_push_members(s.contacts, source_node@);
                },
            }
        },
        Incoming::Chat { source_node, chat } => {},
    }
}

/// The events that `opens_overlap` names are the only ones to leave out:
/// after each of them some peer is in two lists.
pub proof fn lemma_overlap_is_opened(s: StateView, event: Incoming)
    requires
        opens_overlap(s, event),
    ensures
        !stepped(s, event).partitioned(),
{
    let t = stepped(s, event);
    match event {
        Incoming::HttpServer(HttpServerEvent::Http(LocalAction::SendContactRequest(body))) => {
            let p = body.node@;
            lemma_push_members(s.pending_contact_requests, p);
            assert(t.pending_contact_requests.contains(p));
            assert(t.incoming_contact_requests.contains(p));
        },
        Incoming::Peer { source_node, packet: TerryPacket::PeerRequest(request) } => {
            let p = source_node@;
            lemma_push_members(s.incoming_contact_requests, p);
            lemma_push_members(s.contacts, p);
            match request@ {
                PeerRequestView::RequestPeer(_) => {
                    assert(t.pending_contact_requests.contains(p));
                    assert(t.incoming_contact_requests.contains(p));
                },
                PeerRequestView::PeerAccepted(_) => {
                    assert(t.contacts.contains(p));
                    assert(t.pending_contact_requests.contains(p)
                        || t.incoming_contact_requests.contains(p));
                },
                PeerRequestView::PeerUpdate(_) => {},
            }
        },
        _ => {},
    }
}

/// After a tick no peer is both a contact and pending, whatever the state
/// was before.
pub proof fn lemma_tick_parts_pending_from_contacts(s: StateView)
    ensures
        forall|p: Seq<char>|
            !(#[trigger] s.settle_pending().contacts.contains(p)
                && s.settle_pending().pending_contact_requests.contains(p)),
{
    lemma_filter_members(s.pending_contact_requests, none_of(s.contacts));
}

/// The overlap that an acceptance opens lasts until the next tick: where no
/// peer is in two lists and `p` is pending, `p` is a contact and nothing else
/// once its acceptance has come in and the timer has fired, and again no peer
/// is in two lists.
pub proof fn lemma_accepted_then_tick(s: StateView, p: Seq<char>)
    requires
        s.partitioned(),
        s.pending_contact_requests.contains(p),
    ensures
        received(s, p, PeerRequestView::PeerAccepted(p)).settle_pending().partitioned(),
        received(s, p, PeerRequestView::PeerAccepted(p)).settle_pending().contacts.contains(p),
        !received(
            s,
            p,
            PeerRequestView::PeerAccepted(p),
        ).settle_pending().pending_contact_requests.contains(p),
{
    let mid = received(s, p, PeerRequestView::PeerAccepted(p));
    assert(s.admits(p));
    assert(!s.contacts.contains(p));
    lemma_push_members(s.contacts, p);
    lemma_filter_members(mid.pending_contact_requests, none_of(mid.contacts));
}

/// Asking a peer twice is asking it once: the second request changes nothing.
pub proof fn lemma_request_contact_idempotent(s: StateView, p: Seq<char>)
    ensures
        s.request_contact(p).request_contact(p) == s.request_contact(p),
{
    if s.may_request(p) {
        lemma_push_members(s.pending_contact_requests, p);
    }
}

/// To decline a peer right after accepting it changes nothing: the
/// acceptance has taken the peer off the list of those that wait.
pub proof fn lemma_decline_after_accept(s: StateView, p: Seq<char>)
    ensures
        s.accept(p).decline(p) == s.accept(p),
        !s.accept(p).decline(p).incoming_contact_requests.contains(p),
{
    lemma_without_removes(s.incoming_contact_requests, p);
    lemma_without_absent(s.accept(p).incoming_contact_requests, p);
}

/// The chat history is never longer than its bound, whatever it was before.
pub proof fn lemma_history_bounded(s: StateView, message: ChatMessageView)
    ensures
        s.with_message(message).client.chat_state.len() <= CHAT_HISTORY_CAP,
        s.with_message(message).client.chat_state.len() >= 1,
        s.with_message(message).client.chat_state.last() == message,
{
}

/// The state after the messages of `incoming` have joined the chat history
/// one after the other.
pub open spec fn with_messages(s: StateView, incoming: Seq<ChatMessageView>) -> StateView
    decreases incoming.len(),
{
    if incoming.len() == 0 {
        s
    } else {
        with_messages(s, incoming.drop_last()).with_message(incoming.last())
    }
}

/// After any number of messages the chat history holds the newest of all
/// that it ever held, as many as its bound allows, in the order in which they
/// came.
pub proof fn lemma_history_keeps_newest(s: StateView, incoming: Seq<ChatMessageView>)
    requires
        s.client.chat_state.len() <= CHAT_HISTORY_CAP,
    ensures
        with_messages(s, incoming).client.chat_state == newest(
            s.client.chat_state + incoming,
            CHAT_HISTORY_CAP as int,
        ),
    decreases incoming.len(),
{
    if incoming.len() == 0 {
        assert(s.client.chat_state + incoming =~= s.client.chat_state);
    } else {
        let front = incoming.drop_last();
        lemma_history_keeps_newest(s, front);
        let all = s.client.chat_state + incoming;
        assert((s.client.chat_state + front).push(incoming.last()) =~= all);
        assert(with_messages(s, incoming).client.chat_state =~= newest(
            all,
            CHAT_HISTORY_CAP as int,
        ));
    }
}

/// A contact stays a contact: no event takes a peer off the list of
/// contacts, and none moves a contact to another place on it.
pub proof fn lemma_contacts_only_grow(s: StateView, event: Incoming)
    ensures
        s.contacts.is_prefix_of(stepped(s, event).contacts),
        stepped(s, event).contacts.len() <= s.contacts.len() + 1,
{
}

/// Whether the event is a reputation packet that bears the node's own name
/// as its sender, while the node lists itself as a contact.
pub open spec fn overwrites_own_score(s: StateView, event: Incoming) -> bool {
    &&& event matches Incoming::Peer { source_node, packet: TerryPacket::PeerRequest(request) }
    &&& source_node@ == s.node_id
    &&& request@ is PeerUpdate
    &&& s.contacts.contains(s.node_id)
}

/// The local node's reputation never goes down: an event leaves it as it is
/// or, where the local user adds a respect, makes it one more. The one event
/// to leave out is a reputation packet under the node's own name.
pub proof fn lemma_local_respects_never_fall(s: StateView, event: Incoming)
    requires
        can_step(s, event),
        !overwrites_own_score(s, event),
    ensures
        stepped(s, event).local_respects() == if event matches Incoming::HttpServer(
            HttpServerEvent::Http(LocalAction::AddRespect),
        ) {
            s.local_respects() + 1
        } else {
            s.local_respects() as int
        },
        stepped(s, event).node_id == s.node_id,
{
}

/// A chat message that a peer has sent goes to the open channels and to
/// nobody else: the node never passes it on to another peer.
pub proof fn lemma_received_chat_stays_local(s: StateView, event: Incoming, out: Seq<OutboundView>)
    requires
        event is Chat,
        step_sends(s, event, out),
    ensures
        forall|i: int| 0 <= i < out.len() ==> #[trigger] out[i] is WsPush,
{
}

/// The state after the events of `events` have happened one after the other.
pub open spec fn ran(s: StateView, events: Seq<Incoming>) -> StateView
    decreases events.len(),
{
    if events.len() == 0 {
        s
    } else {
        stepped(ran(s, events.drop_last()), events.last())
    }
}

/// Whether some event of `events` opens an overlap in the state in which it
/// happens.
pub open spec fn run_opens_overlap(s: StateView, events: Seq<Incoming>) -> bool
    decreases events.len(),
{
    events.len() > 0 && (run_opens_overlap(s, events.drop_last()) || opens_overlap(
        ran(s, events.drop_last()),
        events.last(),
    ))
}

/// Whatever events happen to a well-formed state, in whatever order, the
/// state stays well-formed.
pub proof fn lemma_run_keeps_wf(s: StateView, events: Seq<Incoming>)
    requires
        s.wf(),
    ensures
        ran(s, events).wf(),
    decreases events.len(),
{
    if events.len() > 0 {
        lemma_run_keeps_wf(s, events.drop_last());
        lemma_step_keeps_wf(ran(s, events.drop_last()), events.last());
    }
}

/// Where no peer is in more than one of the three lists, none is after any
/// sequence of events of which none opens an overlap.
pub proof fn lemma_run_keeps_partition(s: StateView, events: Seq<Incoming>)
    requires
        s.partitioned(),
        !run_opens_overlap(s, events),
    ensures
        ran(s, events).partitioned(),
    decreases events.len(),
{
    if events.len() > 0 {
        lemma_run_keeps_partition(s, events.drop_last());
        lemma_step_keeps_partition(ran(s, events.drop_last()), events.last());
    }
}

/// A node that starts for the first time is well-formed, and none of its
/// lists names a peer.
pub proof fn lemma_initial_state_is_sound(node_id: Seq<char>)
    ensures
        StateView::initial(node_id).wf(),
        StateView::initial(node_id).partitioned(),
        StateView::initial(node_id).local_respects() == 0,
{
}

} // verus!
