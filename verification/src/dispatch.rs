//! The single point through which every event passes: a tick of the timer, an
//! action of the local user, a channel that opens or closes, a packet of a
//! peer.

use crate::chat::{
    authored, chat_received, handle_chat_request, handle_send_chat_message, handle_ws_push,
    ws_close, ws_open,
};
use crate::contacts::{
    acceptance, handle_accept_contact, handle_decline_contact, handle_peer_message,
    handle_send_contact_request, received,
};
use crate::outbox::{chat_packets, contact_requests, delivers};
use crate::presence::{handle_timer_events, tick_messages};
use crate::structs::{
    ChatMessageBody, ChatRequest, ChatRequestView, ClientRequest, ClientStateView,
    ContactRequestBody, Outbound, OutboundView, State, StateView, TerryPacket, Timestamp,
    WsUpdateView, outbox,
};
use vstd::prelude::*;
use vstd::string::StrSliceExecFns;

verus! {

/// What the local user can ask for.
#[derive(Debug, Clone, Copy, PartialEq, Eq)]
pub enum PostRoute {
    AddRespect,
    SendContactRequest,
    SetDiscoverable,
    AcceptContact,
    DeclineContact,
    SendChatMessage,
}

/// What the local user can look at.
#[derive(Debug, Clone, Copy, PartialEq, Eq)]
pub enum GetRoute {
    /// The whole state.
    Leaderboard,
    /// The chat history.
    Chat,
}

/// A request of the local user, by method and path.
#[derive(Debug, Clone, Copy, PartialEq, Eq)]
pub enum Route {
    Get(GetRoute),
    Post(PostRoute),
}

/// The action that the path name `path` stands for.
pub open spec fn post_route_of(path: Seq<char>) -> Option<PostRoute> {
    if path == "add_respect"@ {
        Some(PostRoute::AddRespect)
    } else if path == "send_contact_request"@ {
        Some(PostRoute::SendContactRequest)
    } else if path == "set_discoverable"@ {
        Some(PostRoute::SetDiscoverable)
    } else if path == "accept_contact"@ {
        Some(PostRoute::AcceptContact)
    } else if path == "decline_contact"@ {
        Some(PostRoute::DeclineContact)
    } else if path == "send_chat_message"@ {
        Some(PostRoute::SendChatMessage)
    } else {
        None
    }
}

/// The query that the path name `path` stands for.
pub open spec fn get_route_of(path: Seq<char>) -> Option<GetRoute> {
    if path == "get_leaderboard"@ {
        Some(GetRoute::Leaderboard)
    } else if path == "get_chat"@ {
        Some(GetRoute::Chat)
    } else {
        None
    }
}

/// The request that `method` and the path name `path` stand for.
pub open spec fn route_of(method: Seq<char>, path: Seq<char>) -> Option<Route> {
    if method == "GET"@ {
        match get_route_of(path) {
            Some(route) => Some(Route::Get(route)),
            None => None,
        }
    } else if method == "POST"@ {
        match post_route_of(path) {
            Some(route) => Some(Route::Post(route)),
            None => None,
        }
    } else {
        None
    }
}

/// What stands behind the last `/` of `path`; all of `path` where it has none.
pub open spec fn last_segment_of(path: Seq<char>) -> Seq<char>
    decreases path.len(),
{
    if path.len() == 0 {
        path
    } else if path.last() == '/' {
        Seq::empty()
    } else {
        last_segment_of(path.drop_last()).push(path.last())
    }
}

/// Where nothing from `start` on is a `/`, and `start` is the beginning of
/// `path` or stands right behind a `/`, the last segment of `path` is what
/// stands from `start` on.
pub proof fn lemma_last_segment(path: Seq<char>, start: int)
    requires
        0 <= start <= path.len(),
        forall|j: int| start <= j < path.len() ==> path[j] != '/',
        start == 0 || path[start - 1] == '/',
    ensures
        last_segment_of(path) == path.subrange(start, path.len() as int),
    decreases path.len(),
{
    if path.len() == start {
        assert(path.subrange(start, path.len() as int) =~= Seq::<char>::empty());
        if start == 0 {
            assert(path =~= Seq::<char>::empty());
        }
    } else {
        let front = path.drop_last();
        lemma_last_segment(front, start);
        assert(front.subrange(start, front.len() as int).push(path.last()) =~= path.subrange(
            start,
            path.len() as int,
        ));
    }
}

/// What stands behind the last `/` of `path`; all of `path` where it has none.
pub fn last_segment(path: &str) -> (segment: String)
    ensures
        segment@ == last_segment_of(path@),
{
    let end = path.unicode_len();
    let mut start: usize = end;
    while start > 0 && path.get_char(start - 1) != '/'
        invariant
            start <= end == path@.len(),
            forall|j: int| start <= j < end ==> path@[j] != '/',
        decreases start,
    {
        start -= 1;
    }
    proof {
        lemma_last_segment(path@, start as int);
    }
    path.substring_char(start, end).to_owned()
}

/// Whether `text` reads `name`.
fn reads(text: &str, name: &str) -> (same: bool)
    ensures
        same == (text@ == name@),
{
    text.to_owned() == name.to_owned()
}

/// The action that the path name `bound_path` stands for, if it is one.
pub fn post_route(bound_path: &str) -> (route: Option<PostRoute>)
    ensures
        route == post_route_of(bound_path@),
{
    if reads(bound_path, "add_respect") {
        Some(PostRoute::AddRespect)
    } else if reads(bound_path, "send_contact_request") {
        Some(PostRoute::SendContactRequest)
    } else if reads(bound_path, "set_discoverable") {
        Some(PostRoute::SetDiscoverable)
    } else if reads(bound_path, "accept_contact") {
        Some(PostRoute::AcceptContact)
    } else if reads(bound_path, "decline_contact") {
        Some(PostRoute::DeclineContact)
    } else if reads(bound_path, "send_chat_message") {
        Some(PostRoute::SendChatMessage)
    } else {
        None
    }
}

/// The query that the path name `bound_path` stands for, if it is one.
pub fn get_route(bound_path: &str) -> (route: Option<GetRoute>)
    ensures
        route == get_route_of(bound_path@),
{
    if reads(bound_path, "get_leaderboard") {
        Some(GetRoute::Leaderboard)
    } else if reads(bound_path, "get_chat") {
        Some(GetRoute::Chat)
    } else {
        None
    }
}

/// The request that `method` and the path name `bound_path` stand for, if
/// they stand for one.
pub fn process_http_request(method: &str, bound_path: &str) -> (route: Option<Route>)
    ensures
        route == route_of(method@, bound_path@),
{
    if reads(method, "GET") {
        match get_route(bound_path) {
            Some(route) => Some(Route::Get(route)),
            None => None,
        }
    } else if reads(method, "POST") {
        match post_route(bound_path) {
            Some(route) => Some(Route::Post(route)),
            None => None,
        }
    } else {
        None
    }
}

/// An action of the local user, with what it needs.
#[derive(Debug, Clone, PartialEq)]
pub enum LocalAction {
    /// One more respect for the local node.
    AddRespect,
    /// Discoverable becomes hidden, hidden becomes discoverable.
    SetDiscoverable,
    SendContactRequest(ContactRequestBody),
    AcceptContact(ContactRequestBody),
    DeclineContact(ContactRequestBody),
    /// A chat message and the instant at which it is written.
    SendChatMessage(ChatMessageBody, Timestamp),
}

/// What the local HTTP server reports.
#[derive(Debug, Clone, PartialEq)]
pub enum HttpServerEvent {
    /// A channel has been opened.
    WebSocketOpen(u32),
    /// A text has come in on a channel, at the given instant.
    WebSocketPush(ChatMessageBody, Timestamp),
    /// A channel has been closed.
    WebSocketClose(u32),
    /// The local user asks for an action.
    Http(LocalAction),
}

/// An event, as the host hands it to the node.
#[derive(Debug, Clone, PartialEq)]
pub enum Incoming {
    /// The timer has fired.
    Timer,
    /// The local HTTP server reports something.
    HttpServer(HttpServerEvent),
    /// The peer `source_node` has sent a handshake or reputation packet.
    Peer { source_node: String, packet: TerryPacket },
    /// The peer `source_node` has sent a chat packet.
    Chat { source_node: String, chat: ChatRequest },
}

/// Whether the action `action` can be taken in the state `s`: the reputation
/// counter has room for one more.
pub open spec fn can_act(s: StateView, action: LocalAction) -> bool {
    action is AddRespect ==> s.local_respects() < u64::MAX
}

/// The state after the local user's action `action`.
pub open spec fn acted(s: StateView, action: LocalAction) -> StateView {
    match action {
        LocalAction::AddRespect => s.add_respect(),
        LocalAction::SetDiscoverable => StateView { discoverable: !s.discoverable, ..s },
        LocalAction::SendContactRequest(body) => s.request_contact(body.node@),
        LocalAction::AcceptContact(body) => s.accept(body.node@),
        LocalAction::DeclineContact(body) => s.decline(body.node@),
        LocalAction::SendChatMessage(body, now) => s.with_message(authored(s, body.content@, now)),
    }
}

/// Whether `out` is what the local user's action `action` sends in the state
/// `s`.
pub open spec fn action_sends(s: StateView, action: LocalAction, out: Seq<OutboundView>) -> bool {
    match action {
        LocalAction::AddRespect => out == Seq::<OutboundView>::empty(),
        LocalAction::SetDiscoverable => out == Seq::<OutboundView>::empty(),
        LocalAction::SendContactRequest(body) => out == contact_requests(seq![body.node@]),
        LocalAction::AcceptContact(body) => out == acceptance(s, body.node@),
        LocalAction::DeclineContact(body) => out == Seq::<OutboundView>::empty(),
        LocalAction::SendChatMessage(body, now) => delivers(
            out,
            chat_packets(
                s.contacts,
                ChatRequestView::ChatMessageReceived(authored(s, body.content@, now)),
            ),
            s.client.ws_channels,
            WsUpdateView::NewChatMessage(authored(s, body.content@, now)),
        ),
    }
}

/// Whether the report `event` can be handled in the state `s`.
pub open spec fn can_serve(s: StateView, event: HttpServerEvent) -> bool {
    event matches HttpServerEvent::Http(action) ==> can_act(s, action)
}

/// The state after the HTTP server's report `event`.
pub open spec fn served(s: StateView, event: HttpServerEvent) -> StateView {
    match event {
        HttpServerEvent::WebSocketOpen(channel) => StateView {
            client: ClientStateView {
                ws_channels: s.client.ws_channels.insert(channel),
                ..s.client
            },
            ..s
        },
        HttpServerEvent::WebSocketPush(body, now) => s.with_message(
            authored(s, body.content@, now),
        ),
        HttpServerEvent::WebSocketClose(channel) => StateView {
            client: ClientStateView {
                ws_channels: s.client.ws_channels.remove(channel),
                ..s.client
            },
            ..s
        },
        HttpServerEvent::Http(action) => acted(s, action),
    }
}

/// Whether `out` is what the HTTP server's report `event` makes the node send
/// in the state `s`.
pub open spec fn report_sends(s: StateView, event: HttpServerEvent, out: Seq<OutboundView>) -> bool {
    match event {
        HttpServerEvent::WebSocketOpen(channel) => out == seq![
            OutboundView::WsPush {
                channel,
                update: WsUpdateView::ChatHistory(s.client.chat_state),
            },
        ],
        HttpServerEvent::WebSocketPush(body, now) => delivers(
            out,
            Seq::empty(),
            s.client.ws_channels,
            WsUpdateView::NewChatMessage(authored(s, body.content@, now)),
        ),
        HttpServerEvent::WebSocketClose(_) => out == Seq::<OutboundView>::empty(),
        HttpServerEvent::Http(action) => action_sends(s, action, out),
    }
}

/// Whether the event `event` can be handled in the state `s`.
pub open spec fn can_step(s: StateView, event: Incoming) -> bool {
    event matches Incoming::HttpServer(report) ==> can_serve(s, report)
}

/// The state after the event `event`.
pub open spec fn stepped(s: StateView, event: Incoming) -> StateView {
    match event {
        Incoming::Timer => s.settle_pending(),
        Incoming::HttpServer(report) => served(s, report),
        Incoming::Peer { source_node, packet } => match packet {
            TerryPacket::ClientRequest(_) => s,
            TerryPacket::PeerRequest(request) => received(s, source_node@, request@),
        },
        Incoming::Chat { source_node, chat } => match chat {
            ChatRequest::ChatMessageReceived(message) => chat_received(s, source_node@, message@),
        },
    }
}

/// Whether `out` is what the event `event` makes the node send in the state
/// `s`.
pub open spec fn step_sends(s: StateView, event: Incoming, out: Seq<OutboundView>) -> bool {
    match event {
        Incoming::Timer => out == tick_messages(s),
        Incoming::HttpServer(report) => report_sends(s, report, out),
        Incoming::Peer { source_node, packet } => out == Seq::<OutboundView>::empty(),
        Incoming::Chat { source_node, chat } => match chat {
            ChatRequest::ChatMessageReceived(message) => if s.admits(source_node@) {
                delivers(
                    out,
                    Seq::empty(),
                    s.client.ws_channels,
                    WsUpdateView::NewChatMessage(message@),
                )
            } else {
                out == Seq::<OutboundView>::empty()
            },
        },
    }
}

/// A packet that a client has wrapped for a peer. The node has nothing to do
/// for it.
pub fn handle_client_request(state: &mut State, creq: ClientRequest)
    ensures
        *final(state) == *old(state),
{
    match creq {
        ClientRequest::SendToPeer(_) => {},
    }
}

/// An action of the local user.
pub fn handle_post_request(state: &mut State, action: LocalAction) -> (out: Vec<Outbound>)
    requires
        can_act(old(state)@, action),
    ensures
        final(state)@ == acted(old(state)@, action),
        action_sends(old(state)@, action, outbox(out@)),
{
    match action {
        LocalAction::AddRespect => {
            state.add_respect();
            nothing()
        },
        LocalAction::SetDiscoverable => {
            state.set_discoverable(!state.discoverable);
            nothing()
        },
        LocalAction::SendContactRequest(body) => handle_send_contact_request(state, body),
        LocalAction::AcceptContact(body) => handle_accept_contact(state, body),
        LocalAction::DeclineContact(body) => {
            handle_decline_contact(state, body);
            nothing()
        },
        LocalAction::SendChatMessage(body, now) => handle_send_chat_message(state, body, now),
    }
}

/// A report of the local HTTP server.
pub fn handle_http_server_request(state: &mut State, event: HttpServerEvent) -> (out: Vec<Outbound>)
    requires
        can_serve(old(state)@, event),
    ensures
        final(state)@ == served(old(state)@, event),
        report_sends(old(state)@, event, outbox(out@)),
{
    match event {
        HttpServerEvent::WebSocketOpen(channel_id) => ws_open(state, channel_id),
        HttpServerEvent::WebSocketPush(body, now) => handle_ws_push(state, body, now),
        HttpServerEvent::WebSocketClose(channel_id) => {
            ws_close(state, channel_id);
            nothing()
        },
        HttpServerEvent::Http(action) => handle_post_request(state, action),
    }
}

/// One event, from whatever source.
pub fn handle_message(state: &mut State, event: Incoming) -> (out: Vec<Outbound>)
    requires
        can_step(old(state)@, event),
    ensures
        final(state)@ == stepped(old(state)@, event),
        step_sends(old(state)@, event, outbox(out@)),
{
    match event {
        Incoming::Timer => handle_timer_events(state),
        Incoming::HttpServer(report) => handle_http_server_request(state, report),
        Incoming::Peer { source_node, packet } => {
            match packet {
                TerryPacket::ClientRequest(creq) => handle_client_request(state, creq),
                TerryPacket::PeerRequest(preq) => handle_peer_message(&source_node, state, preq),
            }
            nothing()
        },
        Incoming::Chat { source_node, chat } => handle_chat_request(&source_node, state, chat),
    }
}

/// No message.
fn nothing() -> (out: Vec<Outbound>)
    ensures
        outbox(out@) == Seq::<OutboundView>::empty(),
{
    let out: Vec<Outbound> = Vec::new();
    assert(outbox(out@) =~= Seq::empty());
    out
}

} // verus!
