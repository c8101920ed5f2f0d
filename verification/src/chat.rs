//! The chat relay and the hub of locally connected channels.
//!
//! A message that the local user writes goes to every contact and to every
//! open channel. A message that a peer sends goes to the open channels only:
//! it is never passed on to other peers.

use crate::contacts::admits;
use crate::outbox::{chat_packets, chat_packets_for, delivers, push_to_all};
use crate::peers::lemma_push_members;
use crate::structs::{
    ChatMessage, ChatMessageBody, ChatMessageView, ChatRequest, ChatRequestView,
    ClientStateView, Outbound, OutboundView, State, StateView, Timestamp, WsUpdate, WsUpdateView,
    outbox,
};
use vstd::prelude::*;

verus! {

/// The message that the local node writes at `now` with the text `content`.
pub open spec fn authored(s: StateView, content: Seq<char>, now: Timestamp) -> ChatMessageView {
    ChatMessageView { sender: s.node_id, content, timestamp: now }
}

/// The state after the chat message `message` of the peer `from` has come in:
/// it joins the history where `from` is admitted. Its `sender` field is taken
/// as it is.
pub open spec fn chat_received(s: StateView, from: Seq<char>, message: ChatMessageView) -> StateView {
    if s.admits(from) {
        s.with_message(message)
    } else {
        s
    }
}

/// The event `update` for every open channel.
pub fn ws_broadcast(state: &State, update: WsUpdate) -> (out: Vec<Outbound>)
    ensures
        delivers(outbox(out@), Seq::empty(), state@.client.ws_channels, update@),
{
    let mut out: Vec<Outbound> = Vec::new();
    assert(outbox(out@) =~= Seq::empty());
    push_to_all(&mut out, &state.client.ws_channels, &update);
    out
}

/// Takes in a chat packet that `source_node` has sent. Where the sender is
/// admitted, the message joins the history and every open channel is told of
/// it; no peer is.
pub fn handle_chat_request(source_node: &String, state: &mut State, chat_request: ChatRequest) -> (out:
    Vec<Outbound>)
    ensures
        chat_request matches ChatRequest::ChatMessageReceived(message) && {
            &&& final(state)@ == chat_received(old(state)@, source_node@, message@)
            &&& if old(state)@.admits(source_node@) {
                delivers(
                    outbox(out@),
                    Seq::empty(),
                    old(state)@.client.ws_channels,
                    WsUpdateView::NewChatMessage(message@),
                )
            } else {
                outbox(out@) == Seq::<OutboundView>::empty()
            }
        },
{
    match chat_request {
        ChatRequest::ChatMessageReceived(message) => {
            if admits(state, source_node) {
                state.add_chat_message(message.duplicate());
                ws_broadcast(state, WsUpdate::NewChatMessage(message))
            } else {
                let out: Vec<Outbound> = Vec::new();
                assert(outbox(out@) =~= Seq::empty());
                out
            }
        },
    }
}

/// The local user sends a chat message with the text in `body`, written at
/// `now`. It joins the history, and it goes to every contact as a packet and
/// to every open channel as an event.
pub fn handle_send_chat_message(state: &mut State, body: ChatMessageBody, now: Timestamp) -> (out:
    Vec<Outbound>)
    ensures
        final(state)@ == old(state)@.with_message(authored(old(state)@, body.content@, now)),
        delivers(
            outbox(out@),
            chat_packets(
                old(state)@.contacts,
                ChatRequestView::ChatMessageReceived(authored(old(state)@, body.content@, now)),
            ),
            old(state)@.client.ws_channels,
            WsUpdateView::NewChatMessage(authored(old(state)@, body.content@, now)),
        ),
{
    let chat_message = ChatMessage {
        sender: state.node_id.clone(),
        content: body.content,
        timestamp: now,
    };
    state.add_chat_message(chat_message.duplicate());
    let mut out = chat_packets_for(&state.contacts, &chat_message);
    push_to_all(&mut out, &state.client.ws_channels, &WsUpdate::NewChatMessage(chat_message));
    out
}

/// The local user has written the text in `body` on an open channel, at
/// `now`. The message joins the history and every open channel is told of it.
pub fn handle_ws_push(state: &mut State, body: ChatMessageBody, now: Timestamp) -> (out: Vec<
    Outbound,
>)
    ensures
        final(state)@ == old(state)@.with_message(authored(old(state)@, body.content@, now)),
        delivers(
            outbox(out@),
            Seq::empty(),
            old(state)@.client.ws_channels,
            WsUpdateView::NewChatMessage(authored(old(state)@, body.content@, now)),
        ),
{
    let chat_message = ChatMessage {
        sender: state.node_id.clone(),
        content: body.content,
        timestamp: now,
    };
    state.add_chat_message(chat_message.duplicate());
    ws_broadcast(state, WsUpdate::NewChatMessage(chat_message))
}

/// A channel has been opened: it joins the open channels and is sent the
/// chat history as it stands.
pub fn ws_open(state: &mut State, channel_id: u32) -> (out: Vec<Outbound>)
    ensures
        final(state)@ == (StateView {
            client: ClientStateView {
                ws_channels: old(state)@.client.ws_channels.insert(channel_id),
                ..old(state)@.client
            },
            ..old(state)@
        }),
        outbox(out@) == seq![
            OutboundView::WsPush {
                channel: channel_id,
                update: WsUpdateView::ChatHistory(old(state)@.client.chat_state),
            },
        ],
{
    broadcast use vstd::std_specs::hash::group_hash_axioms;

    state.client.ws_channels.insert(channel_id);
    let mut out: Vec<Outbound> = Vec::new();
    out.push(
        Outbound::WsPush { channel: channel_id, update: WsUpdate::ChatHistory(state.chat_history()) },
    );
    assert(outbox(out@) =~= seq![
        OutboundView::WsPush {
            channel: channel_id,
            update: WsUpdateView::ChatHistory(old(state)@.client.chat_state),
        },
    ]);
    out
}

/// A channel has been closed: it leaves the open channels.
pub fn ws_close(state: &mut State, channel_id: u32)
    ensures
        final(state)@ == (StateView {
            client: ClientStateView {
                ws_channels: old(state)@.client.ws_channels.remove(channel_id),
                ..old(state)@.client
            },
            ..old(state)@
        }),
{
    broadcast use vstd::std_specs::hash::group_hash_axioms;

    state.client.ws_channels.remove(&channel_id);
}

/// The channels in `failed` did not take what was sent to them: they leave
/// the open channels.
pub fn drop_channels(state: &mut State, failed: &Vec<u32>)
    ensures
        final(state)@ == (StateView {
            client: ClientStateView {
                ws_channels: old(state)@.client.ws_channels.difference(failed@.to_set()),
                ..old(state)@.client
            },
            ..old(state)@
        }),
{
    broadcast use vstd::std_specs::hash::group_hash_axioms;

    let ghost start = state.client.ws_channels@;
    let mut i: usize = 0;
    assert(start.difference(failed@.take(0).to_set()) =~= start);
    while i < failed.len()
        invariant
            i <= failed.len(),
            state.client.ws_channels@ == start.difference(failed@.take(i as int).to_set()),
            state.client.chat_state == old(state).client.chat_state,
            state@.node_id == old(state)@.node_id,
            state@.discoverable == old(state)@.discoverable,
            state@.contacts == old(state)@.contacts,
            state@.stats == old(state)@.stats,
            state@.pending_contact_requests == old(state)@.pending_contact_requests,
            state@.incoming_contact_requests == old(state)@.incoming_contact_requests,
        decreases failed.len() - i,
    {
        state.client.ws_channels.remove(&failed[i]);
        proof {
            let tried = failed@.take(i as int);
            let channel = failed@[i as int];
            assert(failed@.take(i + 1) =~= tried.push(channel));
            lemma_push_members(tried, channel);
            assert(start.difference(tried.to_set()).remove(channel) =~= start.difference(
                tried.push(channel).to_set(),
            ));
        }
        i += 1;
    }
    assert(failed@.take(failed.len() as int) =~= failed@);
}

} // verus!
