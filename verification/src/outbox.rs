//! Lists of messages for the host to deliver: one packet for each peer of a
//! list, one event for each open channel.

use crate::peers::ids;
use crate::structs::{
    channel_list, ChatMessage, ChatRequest, ChatRequestView, LeaderboardEntry, Outbound,
    OutboundView, PeerRequest, PeerRequestView, WsUpdate, WsUpdateView, outbox,
};
use std::collections::HashSet;
use vstd::prelude::*;

verus! {

/// The local node's reputation entry, once for each of `nodes`, in their order.
pub open spec fn score_updates(nodes: Seq<Seq<char>>, entry: LeaderboardEntry) -> Seq<
    OutboundView,
> {
    Seq::new(
        nodes.len(),
        |i: int| OutboundView::Peer { node: nodes[i], request: PeerRequestView::PeerUpdate(entry) },
    )
}

/// A contact request for each of `nodes`, in their order.
pub open spec fn contact_requests(nodes: Seq<Seq<char>>) -> Seq<OutboundView> {
    Seq::new(
        nodes.len(),
        |i: int|
            OutboundView::Peer { node: nodes[i], request: PeerRequestView::RequestPeer(nodes[i]) },
    )
}

/// The chat packet `packet`, once for each of `nodes`, in their order.
pub open spec fn chat_packets(nodes: Seq<Seq<char>>, packet: ChatRequestView) -> Seq<OutboundView> {
    Seq::new(nodes.len(), |i: int| OutboundView::Chat { node: nodes[i], packet })
}

/// The event `update`, once for each of `channels`, in their order.
pub open spec fn pushes(channels: Seq<u32>, update: WsUpdateView) -> Seq<OutboundView> {
    Seq::new(channels.len(), |i: int| OutboundView::WsPush { channel: channels[i], update })
}

/// `order` names each member of `channels` once and nothing else.
pub open spec fn lists(order: Seq<u32>, channels: Set<u32>) -> bool {
    order.no_duplicates() && order.to_set() == channels
}

/// `out` is `fixed`, followed by the event `update` once for each member of
/// `channels`. The order in which the channels come is not fixed.
pub open spec fn delivers(
    out: Seq<OutboundView>,
    fixed: Seq<OutboundView>,
    channels: Set<u32>,
    update: WsUpdateView,
) -> bool {
    exists|order: Seq<u32>| #[trigger] lists(order, channels) && out == fixed + pushes(order, update)
}

/// The local node's reputation entry for each of `nodes`.
pub fn score_updates_for(nodes: &Vec<String>, entry: LeaderboardEntry) -> (out: Vec<Outbound>)
    ensures
        outbox(out@) == score_updates(ids(nodes@), entry),
{
    let mut out: Vec<Outbound> = Vec::new();
    let mut i: usize = 0;
    while i < nodes.len()
        invariant
            i <= nodes.len(),
            outbox(out@) == score_updates(ids(nodes@.take(i as int)), entry),
        decreases nodes.len() - i,
    {
        let ghost before = out@;
        out.push(Outbound::Peer { node: nodes[i].clone(), request: PeerRequest::PeerUpdate(entry) });
        proof {
            assert(nodes@.take(i + 1) =~= nodes@.take(i as int).push(nodes@[i as int]));
            assert(outbox(out@) =~= outbox(before).push(out@[i as int]@));
            assert(outbox(out@) =~= score_updates(ids(nodes@.take(i + 1)), entry));
        }
        i += 1;
    }
    assert(nodes@.take(nodes.len() as int) =~= nodes@);
    out
}

/// A contact request for each of `nodes`.
pub fn contact_requests_for(nodes: &Vec<String>) -> (out: Vec<Outbound>)
    ensures
        outbox(out@) == contact_requests(ids(nodes@)),
{
    let mut out: Vec<Outbound> = Vec::new();
    let mut i: usize = 0;
    while i < nodes.len()
        invariant
            i <= nodes.len(),
            outbox(out@) == contact_requests(ids(nodes@.take(i as int))),
        decreases nodes.len() - i,
    {
        let ghost before = out@;
        out.push(
            Outbound::Peer {
                node: nodes[i].clone(),
                request: PeerRequest::RequestPeer(nodes[i].clone()),
            },
        );
        proof {
            assert(nodes@.take(i + 1) =~= nodes@.take(i as int).push(nodes@[i as int]));
            assert(outbox(out@) =~= outbox(before).push(out@[i as int]@));
            assert(outbox(out@) =~= contact_requests(ids(nodes@.take(i + 1))));
        }
        i += 1;
    }
    assert(nodes@.take(nodes.len() as int) =~= nodes@);
    out
}

/// The chat message `message` as a packet for each of `nodes`.
pub fn chat_packets_for(nodes: &Vec<String>, message: &ChatMessage) -> (out: Vec<Outbound>)
    ensures
        outbox(out@) == chat_packets(ids(nodes@), ChatRequestView::ChatMessageReceived(message@)),
{
    let ghost packet = ChatRequestView::ChatMessageReceived(message@);
    let mut out: Vec<Outbound> = Vec::new();
    let mut i: usize = 0;
    while i < nodes.len()
        invariant
            i <= nodes.len(),
            packet == ChatRequestView::ChatMessageReceived(message@),
            outbox(out@) == chat_packets(ids(nodes@.take(i as int)), packet),
        decreases nodes.len() - i,
    {
        let ghost before = out@;
        out.push(
            Outbound::Chat {
                node: nodes[i].clone(),
                packet: ChatRequest::ChatMessageReceived(message.duplicate()),
            },
        );
        proof {
            assert(nodes@.take(i + 1) =~= nodes@.take(i as int).push(nodes@[i as int]));
            assert(outbox(out@) =~= outbox(before).push(out@[i as int]@));
            assert(outbox(out@) =~= chat_packets(ids(nodes@.take(i + 1)), packet));
        }
        i += 1;
    }
    assert(nodes@.take(nodes.len() as int) =~= nodes@);
    out
}

/// Puts the event `update` for every member of `channels` behind what `out`
/// holds.
pub fn push_to_all(out: &mut Vec<Outbound>, channels: &HashSet<u32>, update: &WsUpdate)
    ensures
        delivers(outbox(final(out)@), outbox(old(out)@), channels@, update@),
{
    let order = channel_list(channels);
    let ghost fixed = outbox(out@);
    let mut i: usize = 0;
    assert(outbox(out@) =~= fixed + pushes(order@.take(0), update@));
    while i < order.len()
        invariant
            i <= order.len(),
            outbox(out@) == fixed + pushes(order@.take(i as int), update@),
        decreases order.len() - i,
    {
        let ghost before = out@;
        out.push(Outbound::WsPush { channel: order[i], update: update.duplicate() });
        proof {
            assert(order@.take(i + 1) =~= order@.take(i as int).push(order@[i as int]));
            assert(outbox(out@) =~= outbox(before).push(out@[out@.len() - 1]@));
            assert(outbox(out@) =~= fixed + pushes(order@.take(i + 1), update@));
        }
        i += 1;
    }
    assert(order@.take(order.len() as int) =~= order@);
    assert(lists(order@, channels@));
}

} // verus!
