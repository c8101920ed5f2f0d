use std::collections::HashSet;
use updated_shrine::dispatch::{handle_message, HttpServerEvent, Incoming, LocalAction};
use updated_shrine::structs::{
    ChatMessage, ChatMessageBody, ChatRequest, ContactRequestBody, LeaderboardEntry, PeerRequest,
    State, TerryPacket, Timestamp,
};

fn node(name: &str) -> String {
    name.to_string()
}

fn at(secs: u64) -> Timestamp {
    Timestamp { secs_since_epoch: secs, nanos_since_epoch: 0 }
}

fn from_peer(source: &str, request: PeerRequest) -> Incoming {
    Incoming::Peer { source_node: node(source), packet: TerryPacket::PeerRequest(request) }
}

fn local(action: LocalAction) -> Incoming {
    Incoming::HttpServer(HttpServerEvent::Http(action))
}

fn names(name: &str) -> ContactRequestBody {
    ContactRequestBody { node: node(name) }
}

fn busy_day() -> Vec<Incoming> {
    let mut events = vec![
        local(LocalAction::SendContactRequest(names("b.os"))),
        local(LocalAction::SendContactRequest(names("b.os"))),
        local(LocalAction::SendContactRequest(names("a.os"))),
        from_peer("c.os", PeerRequest::RequestPeer(node("a.os"))),
        from_peer("c.os", PeerRequest::RequestPeer(node("a.os"))),
        from_peer("d.os", PeerRequest::RequestPeer(node("a.os"))),
        local(LocalAction::AcceptContact(names("c.os"))),
        local(LocalAction::AcceptContact(names("c.os"))),
        local(LocalAction::DeclineContact(names("d.os"))),
        from_peer("b.os", PeerRequest::PeerAccepted(node("a.os"))),
        from_peer("b.os", PeerRequest::PeerAccepted(node("a.os"))),
        from_peer("b.os", PeerRequest::PeerUpdate(LeaderboardEntry { respects: 3 })),
        from_peer("e.os", PeerRequest::PeerUpdate(LeaderboardEntry { respects: 8 })),
        local(LocalAction::AddRespect),
        Incoming::Timer,
        local(LocalAction::SetDiscoverable),
        from_peer("f.os", PeerRequest::RequestPeer(node("a.os"))),
        from_peer("c.os", PeerRequest::RequestPeer(node("a.os"))),
        local(LocalAction::SendContactRequest(names("c.os"))),
        Incoming::HttpServer(HttpServerEvent::WebSocketOpen(1)),
        Incoming::HttpServer(HttpServerEvent::WebSocketOpen(1)),
        Incoming::HttpServer(HttpServerEvent::WebSocketClose(2)),
        local(LocalAction::AddRespect),
        Incoming::Timer,
    ];
    for i in 0..60u64 {
        events.push(local(LocalAction::SendChatMessage(
            ChatMessageBody { content: format!("out{}", i) },
            at(i),
        )));
        events.push(Incoming::Chat {
            source_node: node("b.os"),
            chat: ChatRequest::ChatMessageReceived(ChatMessage {
                sender: node("b.os"),
                content: format!("in{}", i),
                timestamp: at(i),
            }),
        });
    }
    events
}

fn all_different(list: &[String]) -> bool {
    let seen: HashSet<&String> = list.iter().collect();
    seen.len() == list.len()
}

#[test]
fn lists_never_repeat_a_peer_and_history_stays_bounded() {
    let mut a = State::new(node("a.os"));
    for event in busy_day() {
        let _ = handle_message(&mut a, event);
        assert!(all_different(&a.contacts));
        assert!(all_different(&a.pending_contact_requests));
        assert!(all_different(&a.incoming_contact_requests));
        assert!(a.client.chat_state.len() <= 50);
    }
    assert_eq!(a.contacts, vec![node("c.os"), node("b.os")]);
    assert!(a.pending_contact_requests.is_empty());
    assert!(a.incoming_contact_requests.is_empty());
    assert_eq!(a.client.chat_state.len(), 50);
    assert_eq!(a.client.chat_state[49].content, "in59");
    assert_eq!(a.client.chat_state[0].content, "out35");
}

#[test]
fn contacts_are_never_lost() {
    let mut a = State::new(node("a.os"));
    for event in busy_day() {
        let before = a.contacts.clone();
        let _ = handle_message(&mut a, event);
        assert!(a.contacts.len() >= before.len());
        assert_eq!(a.contacts[..before.len()], before[..]);
    }
}

#[test]
fn local_reputation_never_falls() {
    let mut a = State::new(node("a.os"));
    let mut last = a.gossip_payload().respects;
    assert_eq!(last, 0);
    for event in busy_day() {
        let adds = event == local(LocalAction::AddRespect);
        let _ = handle_message(&mut a, event);
        let now = a.gossip_payload().respects;
        assert_eq!(now, if adds { last + 1 } else { last });
        last = now;
    }
    assert_eq!(last, 2);
}

#[test]
fn peers_stay_in_one_list_where_nothing_opens_an_overlap() {
    let mut a = State::new(node("a.os"));
    let events = vec![
        local(LocalAction::SendContactRequest(names("b.os"))),
        from_peer("c.os", PeerRequest::RequestPeer(node("a.os"))),
        from_peer("d.os", PeerRequest::RequestPeer(node("a.os"))),
        local(LocalAction::AcceptContact(names("c.os"))),
        local(LocalAction::DeclineContact(names("d.os"))),
        from_peer("e.os", PeerRequest::PeerAccepted(node("a.os"))),
        Incoming::Timer,
        local(LocalAction::SendContactRequest(names("c.os"))),
    ];
    for event in events {
        let _ = handle_message(&mut a, event);
        for p in ["b.os", "c.os", "d.os", "e.os"] {
            let p = node(p);
            let places = [
                a.contacts.contains(&p),
                a.pending_contact_requests.contains(&p),
                a.incoming_contact_requests.contains(&p),
            ];
            assert!(places.iter().filter(|here| **here).count() <= 1);
        }
    }
    assert_eq!(a.contacts, vec![node("c.os"), node("e.os")]);
    assert_eq!(a.pending_contact_requests, vec![node("b.os")]);
}

#[test]
fn asking_a_peer_that_waits_puts_it_in_two_lists() {
    let mut a = State::new(node("a.os"));
    let _ = handle_message(&mut a, from_peer("b.os", PeerRequest::RequestPeer(node("a.os"))));
    let _ = handle_message(&mut a, local(LocalAction::SendContactRequest(names("b.os"))));
    assert!(a.incoming_contact_requests.contains(&node("b.os")));
    assert!(a.pending_contact_requests.contains(&node("b.os")));
}

#[test]
fn default_state_knows_nothing() {
    let a = State::default();
    assert_eq!(a.node_id, "");
    assert!(!a.discoverable);
    assert!(a.contacts.is_empty());
    assert!(a.stats.rows.is_empty());
    assert!(a.pending_contact_requests.is_empty());
    assert!(a.incoming_contact_requests.is_empty());
    assert!(a.client.chat_state.is_empty());
    assert!(a.client.ws_channels.is_empty());
}
