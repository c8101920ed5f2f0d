//! The node's data: reputation entries, chat messages, wire packets and the
//! root aggregate `State`, each with the mathematical value that contracts
//! speak of.

use crate::leaderboard::Leaderboard;
use crate::peers::{contains, ids, lemma_push_members, remove_all, without, without_all};
use std::collections::HashSet;
use vstd::prelude::*;
use vstd::std_specs::iter::IteratorSpec;

verus! {

/// How many messages the chat history holds at most.
pub const CHAT_HISTORY_CAP: usize = 50;

/// A wall-clock instant, as the time that has passed since the Unix epoch.
/// The host reads the clock; the library only hands the instant on.
#[derive(Debug, PartialEq, Eq, Clone, Copy)]
pub struct Timestamp {
    pub secs_since_epoch: u64,
    pub nanos_since_epoch: u32,
}

/// One node's reputation: how many respects it has collected.
#[derive(Debug, PartialEq, Clone, Copy)]
pub struct LeaderboardEntry {
    pub respects: u64,
}

/// A chat message. Immutable once created.
#[derive(Debug, Clone, PartialEq)]
pub struct ChatMessage {
    pub sender: String,
    pub content: String,
    pub timestamp: Timestamp,
}

/// What a `ChatMessage` holds.
pub struct ChatMessageView {
    pub sender: Seq<char>,
    pub content: Seq<char>,
    pub timestamp: Timestamp,
}

impl View for ChatMessage {
    type V = ChatMessageView;

    open spec fn view(&self) -> ChatMessageView {
        ChatMessageView { sender: self.sender@, content: self.content@, timestamp: self.timestamp }
    }
}

impl ChatMessage {
    /// A copy of this message.
    pub fn duplicate(&self) -> (copy: ChatMessage)
        ensures
            copy@ == self@,
    {
        ChatMessage {
            sender: self.sender.clone(),
            content: self.content.clone(),
            timestamp: self.timestamp,
        }
    }
}

/// What the messages of `v` hold, in order.
pub open spec fn messages(v: Seq<ChatMessage>) -> Seq<ChatMessageView> {
    v.map_values(|m: ChatMessage| m@)
}

/// A copy of the messages in `v`.
pub fn duplicate_messages(v: &Vec<ChatMessage>) -> (copy: Vec<ChatMessage>)
    ensures
        messages(copy@) == messages(v@),
{
    let mut copy: Vec<ChatMessage> = Vec::new();
    let mut i: usize = 0;
    while i < v.len()
        invariant
            i <= v.len(),
            messages(copy@) == messages(v@.take(i as int)),
        decreases v.len() - i,
    {
        let ghost before = copy@;
        copy.push(v[i].duplicate());
        assert(v@.take(i + 1) =~= v@.take(i as int).push(v@[i as int]));
        assert(messages(copy@) =~= messages(before).push(v@[i as int]@));
        assert(messages(v@.take(i + 1)) =~= messages(v@.take(i as int)).push(v@[i as int]@));
        i += 1;
    }
    assert(v@.take(v.len() as int) =~= v@);
    copy
}

/// A packet that one peer sends to another to negotiate a contact or to
/// publish its reputation.
#[derive(Debug, Clone, PartialEq)]
pub enum PeerRequest {
    /// The sender asks to become a contact.
    RequestPeer(String),
    /// The sender has accepted the receiver's request.
    PeerAccepted(String),
    /// The sender's current reputation entry.
    PeerUpdate(LeaderboardEntry),
}

/// What a `PeerRequest` holds.
pub enum PeerRequestView {
    RequestPeer(Seq<char>),
    PeerAccepted(Seq<char>),
    PeerUpdate(LeaderboardEntry),
}

impl View for PeerRequest {
    type V = PeerRequestView;

    open spec fn view(&self) -> PeerRequestView {
        match self {
            PeerRequest::RequestPeer(node) => PeerRequestView::RequestPeer(node@),
            PeerRequest::PeerAccepted(node) => PeerRequestView::PeerAccepted(node@),
            PeerRequest::PeerUpdate(entry) => PeerRequestView::PeerUpdate(*entry),
        }
    }
}

/// A request of the local client.
#[derive(Debug, Clone, PartialEq)]
pub enum ClientRequest {
    SendToPeer(PeerRequest),
}

/// The envelope of the packets that nodes exchange.
#[derive(Debug, Clone, PartialEq)]
pub enum TerryPacket {
    ClientRequest(ClientRequest),
    PeerRequest(PeerRequest),
}

/// A packet that carries a chat message from its author to a contact.
#[derive(Debug, Clone, PartialEq)]
pub enum ChatRequest {
    ChatMessageReceived(ChatMessage),
}

/// What a `ChatRequest` holds.
pub enum ChatRequestView {
    ChatMessageReceived(ChatMessageView),
}

impl View for ChatRequest {
    type V = ChatRequestView;

    open spec fn view(&self) -> ChatRequestView {
        match self {
            ChatRequest::ChatMessageReceived(message) => ChatRequestView::ChatMessageReceived(
                message@,
            ),
        }
    }
}

/// The body of a local request that names a peer.
#[derive(Debug, Clone, PartialEq)]
pub struct ContactRequestBody {
    pub node: String,
}

/// The body of a local request that carries the text of a chat message.
#[derive(Debug, Clone, PartialEq)]
pub struct ChatMessageBody {
    pub content: String,
}

/// An event that is pushed to the locally connected channels.
#[derive(Debug, Clone, PartialEq)]
pub enum WsUpdate {
    NewChatMessage(ChatMessage),
    ChatHistory(Vec<ChatMessage>),
    SubscribeAck,
}

/// What a `WsUpdate` holds.
pub enum WsUpdateView {
    NewChatMessage(ChatMessageView),
    ChatHistory(Seq<ChatMessageView>),
    SubscribeAck,
}

impl View for WsUpdate {
    type V = WsUpdateView;

    open spec fn view(&self) -> WsUpdateView {
        match self {
            WsUpdate::NewChatMessage(message) => WsUpdateView::NewChatMessage(message@),
            WsUpdate::ChatHistory(history) => WsUpdateView::ChatHistory(messages(history@)),
            WsUpdate::SubscribeAck => WsUpdateView::SubscribeAck,
        }
    }
}

impl WsUpdate {
    /// A copy of this event.
    pub fn duplicate(&self) -> (copy: WsUpdate)
        ensures
            copy@ == self@,
    {
        match self {
            WsUpdate::NewChatMessage(message) => WsUpdate::NewChatMessage(message.duplicate()),
            WsUpdate::ChatHistory(history) => WsUpdate::ChatHistory(duplicate_messages(history)),
            WsUpdate::SubscribeAck => WsUpdate::SubscribeAck,
        }
    }
}

/// A message that a handler asks the host to deliver.
#[derive(Debug, Clone, PartialEq)]
pub enum Outbound {
    /// A handshake or reputation packet for the peer `node`.
    Peer { node: String, request: PeerRequest },
    /// A chat packet for the peer `node`.
    Chat { node: String, packet: ChatRequest },
    /// An event for the local channel `channel`.
    WsPush { channel: u32, update: WsUpdate },
    /// The next tick is due after `millis` milliseconds.
    Timer { millis: u64 },
}

/// What an `Outbound` holds.
pub enum OutboundView {
    Peer { node: Seq<char>, request: PeerRequestView },
    Chat { node: Seq<char>, packet: ChatRequestView },
    WsPush { channel: u32, update: WsUpdateView },
    Timer { millis: u64 },
}

impl View for Outbound {
    type V = OutboundView;

    open spec fn view(&self) -> OutboundView {
        match self {
            Outbound::Peer { node, request } => OutboundView::Peer {
                node: node@,
                request: request@,
            },
            Outbound::Chat { node, packet } => OutboundView::Chat { node: node@, packet: packet@ },
            Outbound::WsPush { channel, update } => OutboundView::WsPush {
                channel: *channel,
                update: update@,
            },
            Outbound::Timer { millis } => OutboundView::Timer { millis: *millis },
        }
    }
}

/// What the messages of `v` hold, in order.
pub open spec fn outbox(v: Seq<Outbound>) -> Seq<OutboundView> {
    v.map_values(|o: Outbound| o@)
}

/// What the node keeps for the local user interface: the chat history,
/// oldest message first, and the channels that are open.
#[derive(Debug, PartialEq)]
pub struct ClientState {
    pub chat_state: Vec<ChatMessage>,
    pub ws_channels: HashSet<u32>,
}

/// What a `ClientState` holds.
pub struct ClientStateView {
    pub chat_state: Seq<ChatMessageView>,
    pub ws_channels: Set<u32>,
}

impl View for ClientState {
    type V = ClientStateView;

    open spec fn view(&self) -> ClientStateView {
        ClientStateView {
            chat_state: messages(self.chat_state@),
            ws_channels: self.ws_channels@,
        }
    }
}

/// The members of `set`, each once, in the order in which the set hands
/// them out. That order is not fixed: two calls may differ in it.
pub fn channel_list(set: &HashSet<u32>) -> (list: Vec<u32>)
    ensures
        list@.no_duplicates(),
        list@.to_set() == set@,
{
    broadcast use vstd::std_specs::hash::group_hash_axioms;

    let mut list: Vec<u32> = Vec::new();
    let ghost order = set.iter().remaining().unref();
    for channel in it: set.iter()
        invariant
            it.seq().unref() == order,
            order.to_set() == set@,
            list@ == order.take(it.index()),
    {
        list.push(*channel);
        assert(order.take(it.index() + 1) =~= order.take(it.index()).push(*channel));
    }
    assert(list@ =~= order);
    list
}

impl Clone for ClientState {
    fn clone(&self) -> (copy: ClientState)
        ensures
            copy@ == self@,
    {
        broadcast use vstd::std_specs::hash::group_hash_axioms;

        let list = channel_list(&self.ws_channels);
        let mut channels: HashSet<u32> = HashSet::new();
        let mut i: usize = 0;
        assert(list@.take(0).to_set() =~= Set::<u32>::empty());
        while i < list.len()
            invariant
                i <= list.len(),
                channels@ == list@.take(i as int).to_set(),
            decreases list.len() - i,
        {
            channels.insert(list[i]);
            assert(list@.take(i + 1) =~= list@.take(i as int).push(list@[i as int]));
            proof {
                lemma_push_members(list@.take(i as int), list@[i as int]);
                assert(list@.take(i + 1).to_set() =~= list@.take(i as int).to_set().insert(
                    list@[i as int],
                ));
            }
            i += 1;
        }
        assert(list@.take(list.len() as int) =~= list@);
        ClientState { chat_state: duplicate_messages(&self.chat_state), ws_channels: channels }
    }
}

impl Default for ClientState {
    fn default() -> (client: ClientState)
        ensures
            client@ == (ClientStateView { chat_state: Seq::empty(), ws_channels: Set::empty() }),
    {
        let client = ClientState { chat_state: Vec::new(), ws_channels: HashSet::new() };
        assert(client@.chat_state =~= Seq::empty());
        client
    }
}

/// The last `cap` elements of `s`, or all of `s` where it has no more.
pub open spec fn newest<A>(s: Seq<A>, cap: int) -> Seq<A> {
    if s.len() <= cap {
        s
    } else {
        s.subrange(s.len() - cap, s.len() as int)
    }
}

/// Everything the node knows.
#[derive(Debug, PartialEq)]
pub struct State {
    /// The local node's own identity.
    pub node_id: String,
    /// Whether packets of strangers are processed.
    pub discoverable: bool,
    /// The peers with which the handshake is complete.
    pub contacts: Vec<String>,
    /// The reputation entries of the local node and of its contacts.
    pub stats: Leaderboard,
    /// The peers that the local node has asked and that have not answered.
    pub pending_contact_requests: Vec<String>,
    /// The peers that have asked the local node and wait for its answer.
    pub incoming_contact_requests: Vec<String>,
    pub client: ClientState,
}

/// What a `State` holds.
pub struct StateView {
    pub node_id: Seq<char>,
    pub discoverable: bool,
    pub contacts: Seq<Seq<char>>,
    pub stats: Map<Seq<char>, LeaderboardEntry>,
    pub pending_contact_requests: Seq<Seq<char>>,
    pub incoming_contact_requests: Seq<Seq<char>>,
    pub client: ClientStateView,
}

impl View for State {
    type V = StateView;

    open spec fn view(&self) -> StateView {
        StateView {
            node_id: self.node_id@,
            discoverable: self.discoverable,
            contacts: ids(self.contacts@),
            stats: self.stats@,
            pending_contact_requests: ids(self.pending_contact_requests@),
            incoming_contact_requests: ids(self.incoming_contact_requests@),
            client: self.client@,
        }
    }
}

impl Default for State {
    fn default() -> (state: State)
        ensures
            state@ == (StateView {
                node_id: Seq::empty(),
                discoverable: false,
                contacts: Seq::empty(),
                stats: Map::empty(),
                pending_contact_requests: Seq::empty(),
                incoming_contact_requests: Seq::empty(),
                client: ClientStateView { chat_state: Seq::empty(), ws_channels: Set::empty() },
            }),
    {
        let state = State {
            node_id: String::new(),
            discoverable: false,
            contacts: Vec::new(),
            stats: Leaderboard::new(),
            pending_contact_requests: Vec::new(),
            incoming_contact_requests: Vec::new(),
            client: ClientState::default(),
        };
        assert(state@.contacts =~= Seq::empty());
        assert(state@.pending_contact_requests =~= Seq::empty());
        assert(state@.incoming_contact_requests =~= Seq::empty());
        state
    }
}

impl StateView {
    /// The state of a node that starts without a snapshot: its own reputation
    /// is 0, it is discoverable, and it knows nobody.
    pub open spec fn initial(node_id: Seq<char>) -> StateView {
        StateView {
            node_id,
            discoverable: true,
            contacts: Seq::empty(),
            stats: Map::empty().insert(node_id, LeaderboardEntry { respects: 0 }),
            pending_contact_requests: Seq::empty(),
            incoming_contact_requests: Seq::empty(),
            client: ClientStateView { chat_state: Seq::empty(), ws_channels: Set::empty() },
        }
    }

    /// No list names a peer twice, and the chat history is within its bound.
    pub open spec fn wf(self) -> bool {
        &&& self.contacts.no_duplicates()
        &&& self.pending_contact_requests.no_duplicates()
        &&& self.incoming_contact_requests.no_duplicates()
        &&& self.client.chat_state.len() <= CHAT_HISTORY_CAP
    }

    /// No peer is in more than one of the three lists.
    pub open spec fn partitioned(self) -> bool {
        forall|p: Seq<char>|
            #![trigger self.contacts.contains(p)]
            #![trigger self.pending_contact_requests.contains(p)]
            #![trigger self.incoming_contact_requests.contains(p)]
            {
                &&& !(self.contacts.contains(p) && self.pending_contact_requests.contains(p))
                &&& !(self.contacts.contains(p) && self.incoming_contact_requests.contains(p))
                &&& !(self.pending_contact_requests.contains(p)
                    && self.incoming_contact_requests.contains(p))
            }
    }

    /// The local node's own respects; 0 where the ledger has no entry for it.
    pub open spec fn local_respects(self) -> u64 {
        if self.stats.dom().contains(self.node_id) {
            self.stats[self.node_id].respects
        } else {
            0
        }
    }

    /// The local node's entry as it is sent to contacts.
    pub open spec fn gossip_payload(self) -> LeaderboardEntry {
        LeaderboardEntry { respects: self.local_respects() }
    }

    /// The local node's reputation grows by one.
    pub open spec fn add_respect(self) -> StateView {
        StateView {
            stats: self.stats.insert(
                self.node_id,
                LeaderboardEntry { respects: (self.local_respects() + 1) as u64 },
            ),
            ..self
        }
    }

    /// Whether the local node may ask `p` to become a contact: `p` is not the
    /// node itself, not a contact, and not asked already.
    pub open spec fn may_request(self, p: Seq<char>) -> bool {
        &&& p != self.node_id
        &&& !self.contacts.contains(p)
        &&& !self.pending_contact_requests.contains(p)
    }

    /// The local node asks `p` to become a contact.
    pub open spec fn request_contact(self, p: Seq<char>) -> StateView {
        if self.may_request(p) {
            StateView {
                pending_contact_requests: self.pending_contact_requests.push(p),
                ..self
            }
        } else {
            self
        }
    }

    /// Whether a request of `from` is taken up: `from` is not the node itself,
    /// not a contact, and not waiting already.
    pub open spec fn may_queue(self, from: Seq<char>) -> bool {
        &&& from != self.node_id
        &&& !self.contacts.contains(from)
        &&& !self.incoming_contact_requests.contains(from)
    }

    /// The peer `from` has asked the local node to become a contact.
    pub open spec fn queue_request(self, from: Seq<char>) -> StateView {
        if self.may_queue(from) {
            StateView {
                incoming_contact_requests: self.incoming_contact_requests.push(from),
                ..self
            }
        } else {
            self
        }
    }

    /// `p` becomes a contact, unless it is one.
    pub open spec fn add_contact(self, p: Seq<char>) -> StateView {
        if self.contacts.contains(p) {
            self
        } else {
            StateView { contacts: self.contacts.push(p), ..self }
        }
    }

    /// The local node accepts the request of `p`, where `p` has made one.
    pub open spec fn accept(self, p: Seq<char>) -> StateView {
        if self.incoming_contact_requests.contains(p) {
            StateView {
                incoming_contact_requests: without(self.incoming_contact_requests, p),
                ..self.add_contact(p)
            }
        } else {
            self
        }
    }

    /// The local node declines the request of `p`.
    pub open spec fn decline(self, p: Seq<char>) -> StateView {
        StateView {
            incoming_contact_requests: without(self.incoming_contact_requests, p),
            ..self
        }
    }

    /// The reputation entry that `from` has published replaces the one on
    /// record, where `from` is a contact.
    pub open spec fn record_score(self, from: Seq<char>, entry: LeaderboardEntry) -> StateView {
        if self.contacts.contains(from) {
            StateView { stats: self.stats.insert(from, entry), ..self }
        } else {
            self
        }
    }

    /// `message` joins the chat history; the oldest messages leave until the
    /// history is within its bound.
    pub open spec fn with_message(self, message: ChatMessageView) -> StateView {
        StateView {
            client: ClientStateView {
                chat_state: newest(self.client.chat_state.push(message), CHAT_HISTORY_CAP as int),
                ..self.client
            },
            ..self
        }
    }

    /// The peers that have become contacts leave the list of pending requests.
    pub open spec fn settle_pending(self) -> StateView {
        StateView {
            pending_contact_requests: without_all(self.pending_contact_requests, self.contacts),
            ..self
        }
    }

    /// Whether a packet of `from` is processed: the node is discoverable, or
    /// it knows `from` from one of its three lists.
    pub open spec fn admits(self, from: Seq<char>) -> bool {
        ||| self.discoverable
        ||| self.pending_contact_requests.contains(from)
        ||| self.incoming_contact_requests.contains(from)
        ||| self.contacts.contains(from)
    }
}

impl State {
    /// The state of a node that starts for the first time.
    pub fn new(node_id: String) -> (state: State)
        ensures
            state@ == StateView::initial(node_id@),
    {
        let mut stats = Leaderboard::new();
        stats.insert(node_id.clone(), LeaderboardEntry { respects: 0 });
        let state = State {
            node_id,
            discoverable: true,
            contacts: Vec::new(),
            stats,
            pending_contact_requests: Vec::new(),
            incoming_contact_requests: Vec::new(),
            client: ClientState::default(),
        };
        assert(state@.contacts =~= Seq::empty());
        assert(state@.pending_contact_requests =~= Seq::empty());
        assert(state@.incoming_contact_requests =~= Seq::empty());
        state
    }

    /// The state with which a node starts: the snapshot that the host has
    /// loaded, or, where there is none, the state of a first start.
    pub fn fetch(snapshot: Option<State>, our_node: String) -> (state: State)
        ensures
            match snapshot {
                Some(saved) => state == saved,
                None => state@ == StateView::initial(our_node@),
            },
    {
        match snapshot {
            Some(saved) => saved,
            None => State::new(our_node),
        }
    }

    /// The local node's own entry, as it is sent to contacts.
    pub fn gossip_payload(&self) -> (entry: LeaderboardEntry)
        ensures
            entry == self@.gossip_payload(),
    {
        match self.stats.get(&self.node_id) {
            Some(entry) => entry,
            None => LeaderboardEntry { respects: 0 },
        }
    }

    /// Adds one to the local node's reputation.
    pub fn add_respect(&mut self)
        requires
            old(self)@.local_respects() < u64::MAX,
        ensures
            final(self)@ == old(self)@.add_respect(),
    {
        let current = self.gossip_payload();
        self.stats.insert(self.node_id.clone(), LeaderboardEntry { respects: current.respects + 1 });
    }

    /// Sets whether packets of strangers are processed.
    pub fn set_discoverable(&mut self, discoverable: bool)
        ensures
            final(self)@ == (StateView { discoverable, ..old(self)@ }),
    {
        self.discoverable = discoverable;
    }

    /// Notes that the local node has asked `other_node` to become a contact.
    /// Nothing changes where `other_node` is the node itself, a contact, or
    /// asked already.
    pub fn append_outgoing_contact_request(&mut self, other_node: String)
        ensures
            final(self)@ == old(self)@.request_contact(other_node@),
    {
        if !(other_node == self.node_id) && !contains(&self.contacts, &other_node) && !contains(
            &self.pending_contact_requests,
            &other_node,
        ) {
            let ghost before = self.pending_contact_requests@;
            self.pending_contact_requests.push(other_node);
            assert(ids(self.pending_contact_requests@) =~= ids(before).push(other_node@));
        }
    }

    /// Notes that `other_node` has asked the local node to become a contact.
    /// Nothing changes where `other_node` is the node itself, a contact, or
    /// waiting already.
    pub fn append_incoming_contact_request(&mut self, other_node: String)
        ensures
            final(self)@ == old(self)@.queue_request(other_node@),
    {
        if !(other_node == self.node_id) && !contains(&self.contacts, &other_node) && !contains(
            &self.incoming_contact_requests,
            &other_node,
        ) {
            let ghost before = self.incoming_contact_requests@;
            self.incoming_contact_requests.push(other_node);
            assert(ids(self.incoming_contact_requests@) =~= ids(before).push(other_node@));
        }
    }

    /// Accepts the request of `other_node`, where it has made one: it becomes
    /// a contact and leaves the list of those that wait.
    pub fn accept_contact_request(&mut self, other_node: String)
        ensures
            final(self)@ == old(self)@.accept(other_node@),
    {
        if contains(&self.incoming_contact_requests, &other_node) {
            remove_all(&mut self.incoming_contact_requests, &other_node);
            self.add_contact(other_node);
        }
    }

    /// Makes `other_node` a contact, unless it is one.
    pub fn add_contact(&mut self, other_node: String)
        ensures
            final(self)@ == old(self)@.add_contact(other_node@),
    {
        if !contains(&self.contacts, &other_node) {
            let ghost before = self.contacts@;
            self.contacts.push(other_node);
            assert(ids(self.contacts@) =~= ids(before).push(other_node@));
        }
    }

    /// Declines the request of `other_node`: it leaves the list of those that
    /// wait. The peer is not told.
    pub fn decline_contact(&mut self, other_node: String)
        ensures
            final(self)@ == old(self)@.decline(other_node@),
    {
        remove_all(&mut self.incoming_contact_requests, &other_node);
    }

    /// Removes the reputation entry of `node_id`.
    pub fn remove_entry(&mut self, node_id: &String)
        ensures
            final(self)@ == (StateView { stats: old(self)@.stats.remove(node_id@), ..old(self)@ }),
    {
        self.stats.remove(node_id);
    }

    /// Puts `chat_message` at the end of the chat history and drops the
    /// oldest messages until the history is within its bound.
    pub fn add_chat_message(&mut self, chat_message: ChatMessage)
        ensures
            final(self)@ == old(self)@.with_message(chat_message@),
    {
        let ghost start = self.client.chat_state@;
        let ghost channels = self.client.ws_channels@;
        let mut dropped: usize = 0;
        assert(start.len() == self.client.chat_state.len());
        while self.client.chat_state.len() >= CHAT_HISTORY_CAP
            invariant
                dropped <= start.len() <= usize::MAX,
                self.client.chat_state@ == start.subrange(dropped as int, start.len() as int),
                self.client.ws_channels@ == channels,
                self@.node_id == old(self)@.node_id,
                self@.discoverable == old(self)@.discoverable,
                self@.contacts == old(self)@.contacts,
                self@.stats == old(self)@.stats,
                self@.pending_contact_requests == old(self)@.pending_contact_requests,
                self@.incoming_contact_requests == old(self)@.incoming_contact_requests,
                dropped == 0 || start.len() - dropped >= CHAT_HISTORY_CAP - 1,
            decreases self.client.chat_state.len(),
        {
            assert(self.client.chat_state@.len() == start.len() - dropped);
            self.client.chat_state.remove(0);
            dropped += 1;
            assert(self.client.chat_state@ =~= start.subrange(dropped as int, start.len() as int));
        }
        let ghost before = self.client.chat_state@;
        self.client.chat_state.push(chat_message);
        proof {
            let all = messages(start).push(chat_message@);
            assert(messages(self.client.chat_state@) =~= messages(before).push(chat_message@));
            assert(messages(before) =~= messages(start).subrange(
                dropped as int,
                start.len() as int,
            ));
            assert(messages(self.client.chat_state@) =~= newest(all, CHAT_HISTORY_CAP as int));
        }
    }

    /// The chat history, oldest message first.
    pub fn chat_history(&self) -> (history: Vec<ChatMessage>)
        ensures
            messages(history@) == self@.client.chat_state,
    {
        duplicate_messages(&self.client.chat_state)
    }
}

} // verus!
