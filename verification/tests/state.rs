use hackchat::codec::encode_op;
use hackchat::ops::Op;
use hackchat::presence::{PresenceRegistry, PRESENCE_TIMEOUT_MS, SWEEP_POLL_MS};
use hackchat::state::{receive_frame, Arcs};
use hackchat::users::OnlineUsers;

fn encode(op: &Op, key: &[u8]) -> Vec<u8> {
    encode_op(op, key).expect("encoding failed")
}

#[test]
fn two_instances_exchange_one_message() {
    // Instance A submits a message; instance B, sharing the room key,
    // receives the frame and must log exactly one entry.
    let frame = encode(&Op::new_message("alice".to_string(), "hi".to_string()), b"abc");
    let b = Arcs::new();
    assert!(b.apply_frame(&frame, b"abc", 0));
    let log = b.log_snapshot();
    assert_eq!(log, vec![("alice".to_string(), "hi".to_string())]);
}

#[test]
fn duplicate_delivery_does_not_corrupt() {
    // The transport may duplicate a datagram: the log then holds the entry
    // twice, intact both times.
    let frame = encode(&Op::new_message("alice".to_string(), "hi".to_string()), b"abc");
    let b = Arcs::new();
    assert!(b.apply_frame(&frame, b"abc", 0));
    assert!(b.apply_frame(&frame, b"abc", 0));
    let log = b.log_snapshot();
    assert_eq!(
        log,
        vec![
            ("alice".to_string(), "hi".to_string()),
            ("alice".to_string(), "hi".to_string()),
        ]
    );
}

#[test]
fn foreign_packet_leaves_state_unchanged() {
    let mut users = OnlineUsers::new();
    let mut presence = PresenceRegistry::new();
    let mut log: Vec<(String, String)> = Vec::new();
    let mut chat: (usize, Vec<String>) = (10, Vec::new());
    let applied = receive_frame(
        b"not a protocol frame at all",
        b"abc",
        &mut users,
        &mut presence,
        &mut log,
        &mut chat,
        0,
    );
    assert!(!applied);
    assert_eq!(users.len(), 0);
    assert_eq!(presence.len(), 0);
    assert!(log.is_empty());
    assert_eq!(chat.1.len(), 0);
}

#[test]
fn wrong_key_packet_leaves_state_unchanged() {
    let frame = encode(&Op::new_user("mallory".to_string()), b"other room");
    let mut users = OnlineUsers::new();
    let mut presence = PresenceRegistry::new();
    let mut log: Vec<(String, String)> = Vec::new();
    let mut chat: (usize, Vec<String>) = (10, Vec::new());
    let applied = receive_frame(&frame, b"abc", &mut users, &mut presence, &mut log, &mut chat, 0);
    assert!(!applied);
    assert_eq!(users.len(), 0);
    assert_eq!(presence.len(), 0);
}

#[test]
fn announce_registers_user_and_deadline() {
    let frame = encode(&Op::new_user("bob".to_string()), b"abc");
    let mut users = OnlineUsers::new();
    let mut presence = PresenceRegistry::new();
    let mut log: Vec<(String, String)> = Vec::new();
    let mut chat: (usize, Vec<String>) = (0, Vec::new());
    let applied = receive_frame(
        &frame,
        b"abc",
        &mut users,
        &mut presence,
        &mut log,
        &mut chat,
        2_000,
    );
    assert!(applied);
    assert!(users.contains(&"bob".to_string()));
    assert_eq!(presence.deadline_ms(&"bob".to_string()), Some(2_000 + PRESENCE_TIMEOUT_MS));
}

#[test]
fn leave_removes_user_immediately() {
    let announce = encode(&Op::new_user("bob".to_string()), b"abc");
    let leave = encode(&Op::new_leave("bob".to_string()), b"abc");
    let mut users = OnlineUsers::new();
    let mut presence = PresenceRegistry::new();
    let mut log: Vec<(String, String)> = Vec::new();
    let mut chat: (usize, Vec<String>) = (0, Vec::new());
    receive_frame(&announce, b"abc", &mut users, &mut presence, &mut log, &mut chat, 0);
    receive_frame(&leave, b"abc", &mut users, &mut presence, &mut log, &mut chat, 1);
    assert!(!users.contains(&"bob".to_string()));
    assert_eq!(presence.len(), 0);
}

#[test]
fn received_message_extends_chat_lines() {
    let frame = encode(&Op::new_message("ab".to_string(), "cd".to_string()), b"abc");
    let mut users = OnlineUsers::new();
    let mut presence = PresenceRegistry::new();
    let mut log: Vec<(String, String)> = Vec::new();
    let mut chat: (usize, Vec<String>) = (10, Vec::new());
    assert!(receive_frame(&frame, b"abc", &mut users, &mut presence, &mut log, &mut chat, 0));
    assert_eq!(chat.1, vec![" 1 |ab| cd".to_string()]);
}

#[test]
fn sweep_once_evicts_after_timeout() {
    let frame = encode(&Op::new_user("carol".to_string()), b"abc");
    let arcs = Arcs::new();
    assert!(arcs.apply_frame(&frame, b"abc", 1_000));
    assert_eq!(arcs.users_snapshot(), vec!["carol".to_string()]);

    let next = arcs.sweep_once(1_500);
    assert_eq!(next, 1_000 + PRESENCE_TIMEOUT_MS);
    assert_eq!(arcs.users_snapshot(), vec!["carol".to_string()]);

    let next = arcs.sweep_once(1_000 + PRESENCE_TIMEOUT_MS + 1);
    assert!(arcs.users_snapshot().is_empty());
    assert_eq!(next, 1_000 + PRESENCE_TIMEOUT_MS + 1 + SWEEP_POLL_MS);
}

#[test]
fn sweep_once_on_fresh_state_returns_poll() {
    let arcs = Arcs::new();
    let next = arcs.sweep_once(7);
    assert_eq!(next, 7 + SWEEP_POLL_MS);
}

#[test]
fn chat_snapshot_starts_without_width() {
    let arcs = Arcs::new();
    let (width, lines) = arcs.chat_snapshot();
    assert_eq!(width, 0);
    assert!(lines.is_empty());
}
