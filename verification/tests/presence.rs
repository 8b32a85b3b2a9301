use hackchat::presence::{sweep, PresenceRegistry, PRESENCE_TIMEOUT_MS, SWEEP_POLL_MS};
use hackchat::users::OnlineUsers;

fn announced(name: &str, at: u64) -> (PresenceRegistry, OnlineUsers) {
    let mut reg = PresenceRegistry::new();
    let mut users = OnlineUsers::new();
    users.insert(name.to_string());
    reg.touch(&name.to_string(), at);
    (reg, users)
}

#[test]
fn presence_timeout_boundaries() {
    let t = 1_000;
    let (mut reg, mut users) = announced("alice", t);
    assert_eq!(reg.deadline_ms(&"alice".to_string()), Some(t + PRESENCE_TIMEOUT_MS));

    // Just before the deadline the user is still online.
    sweep(&mut reg, &mut users, t + PRESENCE_TIMEOUT_MS - 1);
    assert!(users.contains(&"alice".to_string()));
    assert_eq!(reg.len(), 1);

    // Just after the deadline the user is evicted from both collections.
    sweep(&mut reg, &mut users, t + PRESENCE_TIMEOUT_MS + 1);
    assert!(!users.contains(&"alice".to_string()));
    assert_eq!(reg.len(), 0);
    assert_eq!(users.len(), 0);
}

#[test]
fn explicit_leave_ignores_deadline() {
    let (mut reg, mut users) = announced("bob", 500);
    // The deadline lies far ahead; the leave still removes the user at once.
    users.remove(&"bob".to_string());
    reg.remove(&"bob".to_string());
    assert!(!users.contains(&"bob".to_string()));
    assert_eq!(reg.len(), 0);
}

#[test]
fn reannounce_is_idempotent() {
    let (mut reg, mut users) = announced("carol", 0);
    users.insert("carol".to_string());
    reg.touch(&"carol".to_string(), 5_000);

    // Still exactly one entry and one online user, with the new deadline.
    assert_eq!(reg.len(), 1);
    assert_eq!(users.len(), 1);
    assert_eq!(reg.deadline_ms(&"carol".to_string()), Some(5_000 + PRESENCE_TIMEOUT_MS));

    // The extension is honoured: a sweep after the first deadline but
    // before the refreshed one keeps the user.
    sweep(&mut reg, &mut users, 12_000);
    assert!(users.contains(&"carol".to_string()));
    sweep(&mut reg, &mut users, 15_001);
    assert!(!users.contains(&"carol".to_string()));
}

#[test]
fn empty_registry_sweep_returns_poll_interval() {
    let mut reg = PresenceRegistry::new();
    let mut users = OnlineUsers::new();
    let next = sweep(&mut reg, &mut users, 42);
    assert_eq!(next, 42 + SWEEP_POLL_MS);
}

#[test]
fn sweep_reports_earliest_deadline() {
    let mut reg = PresenceRegistry::new();
    let mut users = OnlineUsers::new();
    users.insert("a".to_string());
    users.insert("b".to_string());
    reg.touch(&"a".to_string(), 3_000);
    reg.touch(&"b".to_string(), 1_000);
    let next = sweep(&mut reg, &mut users, 4_000);
    assert_eq!(next, 11_000);
    assert_eq!(reg.len(), 2);
}

#[test]
fn sweep_evicts_only_expired() {
    let mut reg = PresenceRegistry::new();
    let mut users = OnlineUsers::new();
    users.insert("old".to_string());
    users.insert("new".to_string());
    reg.touch(&"old".to_string(), 0);
    reg.touch(&"new".to_string(), 9_000);
    sweep(&mut reg, &mut users, 12_000);
    assert!(!users.contains(&"old".to_string()));
    assert!(users.contains(&"new".to_string()));
    assert_eq!(reg.len(), 1);
}

#[test]
fn remove_absent_user_changes_nothing() {
    let (mut reg, mut users) = announced("dave", 0);
    users.remove(&"ghost".to_string());
    reg.remove(&"ghost".to_string());
    assert_eq!(users.len(), 1);
    assert_eq!(reg.len(), 1);
}

#[test]
fn insert_is_deduplicating() {
    let mut users = OnlineUsers::new();
    users.insert("erin".to_string());
    users.insert("erin".to_string());
    assert_eq!(users.len(), 1);
    let names = users.to_vec();
    assert_eq!(names, vec!["erin".to_string()]);
}

#[test]
fn deadline_of_absent_user_is_none() {
    let reg = PresenceRegistry::new();
    assert_eq!(reg.deadline_ms(&"nobody".to_string()), None);
}
