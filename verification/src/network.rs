//! The node's contacts as connection endpoints: who they are, and at which
//! address each of them is reached once connected.

use crate::outbox::chat_packets;
use crate::peers::{ids, lemma_filter_push};
use crate::structs::{ChatMessage, ChatRequest, ChatRequestView, Outbound, State, outbox};
use vstd::prelude::*;
use vstd::string::StringExecFns;

verus! {

/// A contact and, once it is connected, the address of the connection.
#[derive(Debug, Clone, PartialEq)]
pub struct Contact {
    pub node_id: String,
    pub connection: Option<String>,
}

/// What a `Contact` holds.
pub struct ContactView {
    pub node_id: Seq<char>,
    pub connection: Option<Seq<char>>,
}

impl View for Contact {
    type V = ContactView;

    open spec fn view(&self) -> ContactView {
        ContactView {
            node_id: self.node_id@,
            connection: match self.connection {
                Some(address) => Some(address@),
                None => None,
            },
        }
    }
}

/// The local node and its contacts, each listed once.
#[derive(Debug, Clone, PartialEq)]
pub struct Network {
    pub our_node: String,
    pub contacts: Vec<Contact>,
}

/// What a `Network` holds.
pub struct NetworkView {
    pub our_node: Seq<char>,
    pub contacts: Seq<ContactView>,
}

/// What the contacts of `v` hold, in order.
pub open spec fn contact_views(v: Seq<Contact>) -> Seq<ContactView> {
    v.map_values(|c: Contact| c@)
}

impl View for Network {
    type V = NetworkView;

    open spec fn view(&self) -> NetworkView {
        NetworkView { our_node: self.our_node@, contacts: contact_views(self.contacts@) }
    }
}

/// The identities of `s`, each once, in the order in which they first occur.
pub open spec fn first_occurrences(s: Seq<Seq<char>>) -> Seq<Seq<char>>
    decreases s.len(),
{
    if s.len() == 0 {
        s
    } else {
        let front = first_occurrences(s.drop_last());
        if front.contains(s.last()) {
            front
        } else {
            front.push(s.last())
        }
    }
}

/// A contact that is not connected, for each of `nodes`.
pub open spec fn unconnected(nodes: Seq<Seq<char>>) -> Seq<ContactView> {
    Seq::new(nodes.len(), |i: int| ContactView { node_id: nodes[i], connection: None })
}

/// The address at which the node `node_id` takes connections.
pub open spec fn ws_url(node_id: Seq<char>) -> Seq<char> {
    "ws://"@ + node_id + ":websocket_port"@
}

/// The contacts of `contacts`, each connected at its address.
pub open spec fn connected(contacts: Seq<ContactView>) -> Seq<ContactView> {
    Seq::new(
        contacts.len(),
        |i: int|
            ContactView {
                node_id: contacts[i].node_id,
                connection: Some(ws_url(contacts[i].node_id)),
            },
    )
}

/// The test that a contact passes that is connected.
pub open spec fn is_connected() -> spec_fn(ContactView) -> bool {
    |c: ContactView| c.connection is Some
}

/// The identities of `contacts`, in order.
pub open spec fn node_ids(contacts: Seq<ContactView>) -> Seq<Seq<char>> {
    contacts.map_values(|c: ContactView| c.node_id)
}

impl Network {
    /// The network of `our_node` with the contacts `contacts`, none of them
    /// connected. A contact that is named more than once is listed once.
    pub fn new(our_node: String, contacts: Vec<String>) -> (network: Network)
        ensures
            network@.our_node == our_node@,
            network@.contacts == unconnected(first_occurrences(ids(contacts@))),
    {
        let mut listed: Vec<Contact> = Vec::new();
        let mut i: usize = 0;
        assert(ids(contacts@.take(0)) =~= Seq::<Seq<char>>::empty());
        assert(contact_views(listed@) =~= unconnected(first_occurrences(ids(contacts@.take(0)))));
        while i < contacts.len()
            invariant
                i <= contacts.len(),
                contact_views(listed@) == unconnected(
                    first_occurrences(ids(contacts@.take(i as int))),
                ),
            decreases contacts.len() - i,
        {
            let ghost before = listed@;
            let ghost seen = first_occurrences(ids(contacts@.take(i as int)));
            proof {
                assert(contacts@.take(i + 1) =~= contacts@.take(i as int).push(contacts@[i as int]));
                assert(ids(contacts@.take(i + 1)) =~= ids(contacts@.take(i as int)).push(
                    contacts@[i as int]@,
                ));
                assert(ids(contacts@.take(i + 1)).drop_last() =~= ids(contacts@.take(i as int)));
                assert(ids(contacts@.take(i + 1)).last() == contacts@[i as int]@);
                assert(node_ids(contact_views(listed@)) =~= seen);
                assert(first_occurrences(ids(contacts@.take(i + 1))) == if seen.contains(
                    contacts@[i as int]@,
                ) {
                    seen
                } else {
                    seen.push(contacts@[i as int]@)
                });
            }
            if !Self::lists(&listed, &contacts[i]) {
                listed.push(Contact { node_id: contacts[i].clone(), connection: None });
                assert(contact_views(listed@) =~= contact_views(before).push(
                    ContactView { node_id: contacts@[i as int]@, connection: None },
                ));
                assert(contact_views(listed@) =~= unconnected(seen.push(contacts@[i as int]@)));
            }
            i += 1;
        }
        assert(contacts@.take(contacts.len() as int) =~= contacts@);
        Network { our_node, contacts: listed }
    }

    /// Whether `listed` names `node`.
    fn lists(listed: &Vec<Contact>, node: &String) -> (found: bool)
        ensures
            found == node_ids(contact_views(listed@)).contains(node@),
    {
        let mut i: usize = 0;
        while i < listed.len()
            invariant
                i <= listed.len(),
                forall|k: int| 0 <= k < i ==> node_ids(contact_views(listed@))[k] != node@,
            decreases listed.len() - i,
        {
            if listed[i].node_id == *node {
                assert(node_ids(contact_views(listed@))[i as int] == node@);
                return true;
            }
            i += 1;
        }
        false
    }

    /// Notes for every contact the address at which it is connected. The host
    /// opens the connections.
    pub fn connect_to_contacts(&mut self)
        ensures
            final(self)@.our_node == old(self)@.our_node,
            final(self)@.contacts == connected(old(self)@.contacts),
    {
        let mut linked: Vec<Contact> = Vec::new();
        let mut i: usize = 0;
        assert(contact_views(linked@) =~= connected(contact_views(self.contacts@.take(0))));
        while i < self.contacts.len()
            invariant
                i <= self.contacts.len(),
                contact_views(linked@) == connected(contact_views(self.contacts@.take(i as int))),
            decreases self.contacts.len() - i,
        {
            let ghost before = linked@;
            let mut address = "ws://".to_owned();
            address.append(self.contacts[i].node_id.as_str());
            address.append(":websocket_port");
            linked.push(Contact { node_id: self.contacts[i].node_id.clone(), connection: Some(address) });
            proof {
                assert(self.contacts@.take(i + 1) =~= self.contacts@.take(i as int).push(
                    self.contacts@[i as int],
                ));
                assert(contact_views(linked@) =~= contact_views(before).push(
                    linked@[i as int]@,
                ));
                assert(contact_views(linked@) =~= connected(
                    contact_views(self.contacts@.take(i + 1)),
                ));
            }
            i += 1;
        }
        assert(self.contacts@.take(self.contacts.len() as int) =~= self.contacts@);
        self.contacts = linked;
    }

    /// The chat message `message` as a packet for every contact that is
    /// connected.
    pub fn send_message(&self, message: &ChatMessage) -> (out: Vec<Outbound>)
        ensures
            outbox(out@) == chat_packets(
                node_ids(self@.contacts.filter(is_connected())),
                ChatRequestView::ChatMessageReceived(message@),
            ),
    {
        let ghost packet = ChatRequestView::ChatMessageReceived(message@);
        let mut out: Vec<Outbound> = Vec::new();
        let mut i: usize = 0;
        proof {
            reveal(Seq::filter);
            assert(contact_views(self.contacts@.take(0)) =~= Seq::<ContactView>::empty());
            assert(outbox(out@) =~= chat_packets(
                node_ids(contact_views(self.contacts@.take(0)).filter(is_connected())),
                packet,
            ));
        }
        while i < self.contacts.len()
            invariant
                i <= self.contacts.len(),
                packet == ChatRequestView::ChatMessageReceived(message@),
                outbox(out@) == chat_packets(
                    node_ids(contact_views(self.contacts@.take(i as int)).filter(is_connected())),
                    packet,
                ),
            decreases self.contacts.len() - i,
        {
            let ghost before = out@;
            let ghost kept = contact_views(self.contacts@.take(i as int)).filter(is_connected());
            proof {
                assert(self.contacts@.take(i + 1) =~= self.contacts@.take(i as int).push(
                    self.contacts@[i as int],
                ));
                assert(contact_views(self.contacts@.take(i + 1)) =~= contact_views(
                    self.contacts@.take(i as int),
                ).push(self.contacts@[i as int]@));
                lemma_filter_push(
                    contact_views(self.contacts@.take(i as int)),
                    self.contacts@[i as int]@,
                    is_connected(),
                );
            }
            if self.contacts[i].connection.is_some() {
                out.push(
                    Outbound::Chat {
                        node: self.contacts[i].node_id.clone(),
                        packet: ChatRequest::ChatMessageReceived(message.duplicate()),
                    },
                );
                proof {
                    assert(outbox(out@) =~= outbox(before).push(out@[out@.len() - 1]@));
                    assert(node_ids(kept.push(self.contacts@[i as int]@)) =~= node_ids(kept).push(
                        self.contacts@[i as int]@.node_id,
                    ));
                    assert(outbox(out@) =~= chat_packets(
                        node_ids(kept.push(self.contacts@[i as int]@)),
                        packet,
                    ));
                }
            }
            i += 1;
        }
        assert(self.contacts@.take(self.contacts.len() as int) =~= self.contacts@);
        out
    }

    /// Takes in what a contact has sent: a chat packet, or nothing where the
    /// text could not be read as one. A message joins the chat history of
    /// `state`.
    pub fn handle_incoming_message(&mut self, chat_request: Option<ChatRequest>, state: &mut State)
        ensures
            *final(self) == *old(self),
            final(state)@ == match chat_request {
                Some(ChatRequest::ChatMessageReceived(message)) => old(state)@.with_message(
                    message@,
                ),
                None => old(state)@,
            },
    {
        match chat_request {
            Some(ChatRequest::ChatMessageReceived(message)) => {
                state.add_chat_message(message);
            },
            None => {},
        }
    }
}

} // verus!
