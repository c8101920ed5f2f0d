//! One participant of a small peer-to-peer social network: a reputation
//! counter, a contact handshake, a bounded chat history and the set of locally
//! connected live-update channels.
//!
//! Every handler takes the node's state and one event, changes the state and
//! returns the messages that the host has to deliver. Nothing here performs
//! input or output.

pub mod chat;
pub mod contacts;
pub mod dispatch;
pub mod invariants;
pub mod leaderboard;
pub mod network;
pub mod outbox;
pub mod peers;
pub mod presence;
pub mod structs;
