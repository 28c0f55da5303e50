use imap_server::registry::{Connection, Registry};
use imap_server::session::{Session, SessionState};

fn conn() -> Connection {
    Connection { session: Session::new(), outbox: Vec::new() }
}

#[test]
fn fresh_session_is_unauthenticated() {
    let s = Session::new();
    assert_eq!(s.state, SessionState::Unauthenticated);
    assert!(s.identifier.is_empty());
    assert!(s.identity.is_none());
}

#[test]
fn insert_and_contains() {
    let mut reg = Registry::new();
    assert!(!reg.contains(1));
    reg.insert(1, conn());
    assert!(reg.contains(1));
    assert!(!reg.contains(2));
}

#[test]
fn send_reaches_only_the_addressed_connection() {
    let mut reg = Registry::new();
    reg.insert(1, conn());
    reg.insert(2, conn());
    assert!(reg.send(1, "hello".to_string()));
    assert_eq!(reg.take_outbox(1), vec!["hello".to_string()]);
    assert!(reg.take_outbox(2).is_empty());
}

#[test]
fn send_to_unknown_connection_reports_failure() {
    let mut reg = Registry::new();
    assert!(!reg.send(9, "lost".to_string()));
}

#[test]
fn take_outbox_leaves_the_queue_empty() {
    let mut reg = Registry::new();
    reg.insert(1, conn());
    reg.send(1, "one".to_string());
    reg.send(1, "two".to_string());
    assert_eq!(reg.take_outbox(1), vec!["one".to_string(), "two".to_string()]);
    assert!(reg.take_outbox(1).is_empty());
}

#[test]
fn remove_is_idempotent() {
    let mut reg = Registry::new();
    reg.insert(1, conn());
    assert!(reg.remove(1));
    assert!(!reg.remove(1));
    assert!(!reg.contains(1));
}

#[test]
fn reinsert_after_removal_starts_fresh() {
    let mut reg = Registry::new();
    reg.insert(1, conn());
    reg.send(1, "stale".to_string());
    reg.remove(1);
    reg.insert(1, conn());
    assert!(reg.take_outbox(1).is_empty());
}
