use updated_shrine::leaderboard::Leaderboard;
use updated_shrine::network::{Contact, Network};
use updated_shrine::peers::{contains, remove_all, remove_listed};
use updated_shrine::structs::{
    ChatMessage, ChatRequest, ClientState, LeaderboardEntry, Outbound, State, Timestamp, WsUpdate,
};

fn text(s: &str) -> String {
    s.to_string()
}

fn list(names: &[&str]) -> Vec<String> {
    names.iter().map(|n| n.to_string()).collect()
}

fn entry(respects: u64) -> LeaderboardEntry {
    LeaderboardEntry { respects }
}

fn hello() -> ChatMessage {
    ChatMessage {
        sender: text("a.os"),
        content: text("hello"),
        timestamp: Timestamp { secs_since_epoch: 12, nanos_since_epoch: 34 },
    }
}

#[test]
fn contains_tells_members_from_others() {
    let v = list(&["a", "b", "c"]);
    assert!(contains(&v, &text("a")));
    assert!(contains(&v, &text("c")));
    assert!(!contains(&v, &text("d")));
    assert!(!contains(&v, &text("")));
    assert!(!contains(&Vec::new(), &text("a")));
}

#[test]
fn remove_all_takes_every_occurrence_and_keeps_the_order() {
    let mut v = list(&["a", "b", "a", "c", "a"]);
    remove_all(&mut v, &text("a"));
    assert_eq!(v, list(&["b", "c"]));
    remove_all(&mut v, &text("zzz"));
    assert_eq!(v, list(&["b", "c"]));
    remove_all(&mut v, &text("c"));
    remove_all(&mut v, &text("b"));
    assert!(v.is_empty());
}

#[test]
fn remove_listed_takes_what_the_other_list_names() {
    let mut v = list(&["a", "b", "c", "d", "b"]);
    remove_listed(&mut v, &list(&["b", "d", "x"]));
    assert_eq!(v, list(&["a", "c"]));
    remove_listed(&mut v, &Vec::new());
    assert_eq!(v, list(&["a", "c"]));
}

#[test]
fn ledger_sets_gets_and_removes() {
    let mut ledger = Leaderboard::new();
    assert_eq!(ledger.get(&text("a")), None);
    ledger.insert(text("a"), entry(1));
    ledger.insert(text("b"), entry(2));
    assert_eq!(ledger.get(&text("a")), Some(entry(1)));
    assert_eq!(ledger.get(&text("b")), Some(entry(2)));
    ledger.insert(text("a"), entry(10));
    assert_eq!(ledger.get(&text("a")), Some(entry(10)));
    assert_eq!(ledger.rows.len(), 2);
    ledger.remove(&text("a"));
    assert_eq!(ledger.get(&text("a")), None);
    assert_eq!(ledger.get(&text("b")), Some(entry(2)));
    ledger.remove(&text("nobody"));
    assert_eq!(ledger.rows.len(), 1);
}

#[test]
fn ledger_reads_the_first_row_of_a_name_and_removes_all_of_them() {
    let mut ledger = Leaderboard {
        rows: vec![(text("a"), entry(1)), (text("b"), entry(2)), (text("a"), entry(3))],
    };
    assert_eq!(ledger.get(&text("a")), Some(entry(1)));
    ledger.insert(text("a"), entry(7));
    assert_eq!(ledger.get(&text("a")), Some(entry(7)));
    ledger.remove(&text("a"));
    assert_eq!(ledger.get(&text("a")), None);
    assert_eq!(ledger.rows, vec![(text("b"), entry(2))]);
}

#[test]
fn remove_entry_takes_one_score_out_of_the_state() {
    let mut a = State::new(text("a.os"));
    a.add_contact(text("b.os"));
    a.stats.insert(text("b.os"), entry(5));
    a.remove_entry(&text("b.os"));
    assert_eq!(a.stats.get(&text("b.os")), None);
    assert_eq!(a.stats.get(&text("a.os")), Some(entry(0)));
    assert_eq!(a.contacts, list(&["b.os"]));
}

#[test]
fn copies_equal_what_they_copy() {
    let message = hello();
    assert_eq!(message.duplicate(), message);
    let update = WsUpdate::ChatHistory(vec![hello(), hello()]);
    assert_eq!(update.duplicate(), update);
    assert_eq!(WsUpdate::SubscribeAck.duplicate(), WsUpdate::SubscribeAck);
    let mut client = ClientState::default();
    client.chat_state.push(hello());
    client.ws_channels.insert(3);
    client.ws_channels.insert(4);
    assert_eq!(client.clone(), client);
}

#[test]
fn default_client_state_is_empty() {
    let client = ClientState::default();
    assert!(client.chat_state.is_empty());
    assert!(client.ws_channels.is_empty());
}

#[test]
fn network_lists_each_contact_once_and_unconnected() {
    let network = Network::new(text("a.os"), list(&["b.os", "c.os", "b.os", "d.os", "c.os"]));
    assert_eq!(network.our_node, "a.os");
    assert_eq!(
        network.contacts,
        vec![
            Contact { node_id: text("b.os"), connection: None },
            Contact { node_id: text("c.os"), connection: None },
            Contact { node_id: text("d.os"), connection: None },
        ]
    );
    assert!(Network::new(text("a.os"), Vec::new()).contacts.is_empty());
}

#[test]
fn connect_notes_the_address_of_every_contact() {
    let mut network = Network::new(text("a.os"), list(&["b.os", "c.os"]));
    network.connect_to_contacts();
    assert_eq!(
        network.contacts,
        vec![
            Contact { node_id: text("b.os"), connection: Some(text("ws://b.os:websocket_port")) },
            Contact { node_id: text("c.os"), connection: Some(text("ws://c.os:websocket_port")) },
        ]
    );
    assert_eq!(network.our_node, "a.os");
}

#[test]
fn network_sends_to_connected_contacts_only() {
    let mut network = Network::new(text("a.os"), list(&["b.os", "c.os", "d.os"]));
    assert!(network.send_message(&hello()).is_empty());
    network.contacts[0].connection = Some(text("ws://b.os:websocket_port"));
    network.contacts[2].connection = Some(text("ws://d.os:websocket_port"));
    assert_eq!(
        network.send_message(&hello()),
        vec![
            Outbound::Chat { node: text("b.os"), packet: ChatRequest::ChatMessageReceived(hello()) },
            Outbound::Chat { node: text("d.os"), packet: ChatRequest::ChatMessageReceived(hello()) },
        ]
    );
}

#[test]
fn network_takes_in_a_message_or_nothing() {
    let mut network = Network::new(text("a.os"), list(&["b.os"]));
    let mut state = State::new(text("a.os"));
    network.handle_incoming_message(None, &mut state);
    assert!(state.client.chat_state.is_empty());
    network.handle_incoming_message(Some(ChatRequest::ChatMessageReceived(hello())), &mut state);
    assert_eq!(state.client.chat_state, vec![hello()]);
    assert_eq!(network, Network::new(text("a.os"), list(&["b.os"])));
}
