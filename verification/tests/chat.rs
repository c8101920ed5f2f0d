use updated_shrine::chat::{
    drop_channels, handle_chat_request, handle_send_chat_message, handle_ws_push, ws_broadcast,
    ws_close, ws_open,
};
use updated_shrine::structs::{
    ChatMessage, ChatMessageBody, ChatRequest, Outbound, State, Timestamp, WsUpdate,
    CHAT_HISTORY_CAP,
};

fn name(text: &str) -> String {
    text.to_string()
}

fn at(secs: u64) -> Timestamp {
    Timestamp { secs_since_epoch: secs, nanos_since_epoch: 0 }
}

fn message(sender: &str, content: &str, secs: u64) -> ChatMessage {
    ChatMessage { sender: name(sender), content: name(content), timestamp: at(secs) }
}

fn pushed_channels(out: &[Outbound]) -> Vec<u32> {
    let mut channels: Vec<u32> = Vec::new();
    for item in out {
        if let Outbound::WsPush { channel, .. } = item {
            channels.push(*channel);
        }
    }
    channels.sort();
    channels
}

#[test]
fn chat_history_keeps_the_last_fifty_of_fifty_one() {
    let mut a = State::new(name("a.os"));
    for i in 0..51u64 {
        a.add_chat_message(message("a.os", &format!("m{}", i), i));
    }
    assert_eq!(CHAT_HISTORY_CAP, 50);
    assert_eq!(a.client.chat_state.len(), 50);
    for (k, held) in a.client.chat_state.iter().enumerate() {
        assert_eq!(held.content, format!("m{}", k + 1));
        assert_eq!(held.timestamp, at(k as u64 + 1));
    }
}

#[test]
fn chat_history_grows_up_to_the_bound() {
    let mut a = State::new(name("a.os"));
    for i in 0..50u64 {
        a.add_chat_message(message("a.os", &format!("m{}", i), i));
        assert_eq!(a.client.chat_state.len() as u64, i + 1);
    }
    assert_eq!(a.client.chat_state[0].content, "m0");
    assert_eq!(a.client.chat_state[49].content, "m49");
}

#[test]
fn over_long_history_is_cut_to_the_bound() {
    let mut a = State::new(name("a.os"));
    for i in 0..60u64 {
        a.client.chat_state.push(message("a.os", &format!("old{}", i), i));
    }
    a.add_chat_message(message("a.os", "new", 100));
    assert_eq!(a.client.chat_state.len(), 50);
    assert_eq!(a.client.chat_state[0].content, "old11");
    assert_eq!(a.client.chat_state[49].content, "new");
}

#[test]
fn chat_history_snapshot_is_oldest_first() {
    let mut a = State::new(name("a.os"));
    a.add_chat_message(message("b.os", "one", 1));
    a.add_chat_message(message("c.os", "two", 2));
    assert_eq!(a.chat_history(), vec![message("b.os", "one", 1), message("c.os", "two", 2)]);
}

#[test]
fn sent_chat_message_reaches_both_contacts_and_the_history() {
    let mut a = State::new(name("a.os"));
    a.add_contact(name("b.os"));
    a.add_contact(name("c.os"));
    let out = handle_send_chat_message(&mut a, ChatMessageBody { content: name("hi") }, at(7));
    let expected = message("a.os", "hi", 7);
    assert_eq!(
        out,
        vec![
            Outbound::Chat {
                node: name("b.os"),
                packet: ChatRequest::ChatMessageReceived(expected.clone()),
            },
            Outbound::Chat {
                node: name("c.os"),
                packet: ChatRequest::ChatMessageReceived(expected.clone()),
            },
        ]
    );
    assert_eq!(a.client.chat_state, vec![expected]);
    assert_eq!(a.client.chat_state[0].sender, "a.os");
}

#[test]
fn sent_chat_message_reaches_the_open_channels_too() {
    let mut a = State::new(name("a.os"));
    a.add_contact(name("b.os"));
    let _ = ws_open(&mut a, 3);
    let _ = ws_open(&mut a, 8);
    let out = handle_send_chat_message(&mut a, ChatMessageBody { content: name("hi") }, at(7));
    assert_eq!(out.len(), 3);
    assert_eq!(
        out[0],
        Outbound::Chat {
            node: name("b.os"),
            packet: ChatRequest::ChatMessageReceived(message("a.os", "hi", 7)),
        }
    );
    assert_eq!(pushed_channels(&out), vec![3, 8]);
    for item in &out[1..] {
        match item {
            Outbound::WsPush { update, .. } => {
                assert_eq!(*update, WsUpdate::NewChatMessage(message("a.os", "hi", 7)));
            }
            other => panic!("not a push: {:?}", other),
        }
    }
}

#[test]
fn received_chat_message_goes_to_channels_and_to_no_peer() {
    let mut a = State::new(name("a.os"));
    a.add_contact(name("b.os"));
    a.add_contact(name("c.os"));
    let _ = ws_open(&mut a, 1);
    let incoming = message("b.os", "hello", 5);
    let out = handle_chat_request(
        &name("b.os"),
        &mut a,
        ChatRequest::ChatMessageReceived(incoming.clone()),
    );
    assert_eq!(
        out,
        vec![Outbound::WsPush { channel: 1, update: WsUpdate::NewChatMessage(incoming.clone()) }]
    );
    assert_eq!(a.client.chat_state, vec![incoming]);
}

#[test]
fn received_chat_message_keeps_its_sender_field() {
    let mut a = State::new(name("a.os"));
    let incoming = message("someone-else.os", "hello", 5);
    let _ = handle_chat_request(
        &name("b.os"),
        &mut a,
        ChatRequest::ChatMessageReceived(incoming.clone()),
    );
    assert_eq!(a.client.chat_state[0].sender, "someone-else.os");
}

#[test]
fn chat_message_of_a_stranger_is_dropped_while_hidden() {
    let mut a = State::new(name("a.os"));
    a.set_discoverable(false);
    let _ = ws_open(&mut a, 1);
    let out = handle_chat_request(
        &name("b.os"),
        &mut a,
        ChatRequest::ChatMessageReceived(message("b.os", "hello", 5)),
    );
    assert!(out.is_empty());
    assert!(a.client.chat_state.is_empty());
}

#[test]
fn text_on_a_channel_joins_the_history_and_goes_to_channels_only() {
    let mut a = State::new(name("a.os"));
    a.add_contact(name("b.os"));
    let _ = ws_open(&mut a, 4);
    let out = handle_ws_push(&mut a, ChatMessageBody { content: name("typed") }, at(9));
    assert_eq!(
        out,
        vec![Outbound::WsPush {
            channel: 4,
            update: WsUpdate::NewChatMessage(message("a.os", "typed", 9)),
        }]
    );
    assert_eq!(a.client.chat_state, vec![message("a.os", "typed", 9)]);
}

#[test]
fn opened_channel_gets_the_backlog() {
    let mut a = State::new(name("a.os"));
    a.add_chat_message(message("b.os", "one", 1));
    a.add_chat_message(message("c.os", "two", 2));
    let _ = ws_open(&mut a, 1);
    let out = ws_open(&mut a, 2);
    assert_eq!(
        out,
        vec![Outbound::WsPush {
            channel: 2,
            update: WsUpdate::ChatHistory(vec![message("b.os", "one", 1), message("c.os", "two", 2)]),
        }]
    );
    assert!(a.client.ws_channels.contains(&1));
    assert!(a.client.ws_channels.contains(&2));
    assert_eq!(a.client.ws_channels.len(), 2);
}

#[test]
fn closed_channel_hears_nothing_more() {
    let mut a = State::new(name("a.os"));
    let _ = ws_open(&mut a, 1);
    let _ = ws_open(&mut a, 2);
    ws_close(&mut a, 1);
    ws_close(&mut a, 77);
    let out = ws_broadcast(&a, WsUpdate::SubscribeAck);
    assert_eq!(out, vec![Outbound::WsPush { channel: 2, update: WsUpdate::SubscribeAck }]);
}

#[test]
fn broadcast_reaches_every_open_channel_once() {
    let mut a = State::new(name("a.os"));
    for channel in [5u32, 1, 9, 5] {
        let _ = ws_open(&mut a, channel);
    }
    let out = ws_broadcast(&a, WsUpdate::SubscribeAck);
    assert_eq!(pushed_channels(&out), vec![1, 5, 9]);
    assert_eq!(out.len(), 3);
}

#[test]
fn broadcast_without_channels_sends_nothing() {
    let a = State::new(name("a.os"));
    assert!(ws_broadcast(&a, WsUpdate::SubscribeAck).is_empty());
}

#[test]
fn channels_that_failed_are_dropped() {
    let mut a = State::new(name("a.os"));
    for channel in [1u32, 2, 3] {
        let _ = ws_open(&mut a, channel);
    }
    drop_channels(&mut a, &vec![2, 3, 40, 2]);
    let out = ws_broadcast(&a, WsUpdate::SubscribeAck);
    assert_eq!(pushed_channels(&out), vec![1]);
}
