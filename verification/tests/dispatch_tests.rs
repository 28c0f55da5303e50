use imap_server::commands::Commands;
use imap_server::database::Database;
use imap_server::registry::{Connection, Registry};
use imap_server::server::{greeting, handle_line, DispatchOutcome, StoreAction};
use imap_server::session::{Session, SessionState};

fn fresh_registry(id: u64) -> Registry {
    let mut reg = Registry::new();
    reg.insert(id, Connection { session: Session::new(), outbox: Vec::new() });
    reg
}

fn db(name: &str) -> Database {
    let mut path = "/tmp/imap_server_test_".to_string();
    path.push_str(name);
    Database::open(&path).expect("store should open")
}

#[test]
fn greeting_announces_capabilities() {
    assert_eq!(
        greeting(),
        "* OK [CAPABILITY IMAP4rev1 LITERAL+ AUTH=PLAIN] Rust Imap-Server ready.".to_string()
    );
}

#[test]
fn capability_responds_in_any_state() {
    let db = db("capability");
    let mut reg = fresh_registry(1);
    let r = handle_line(&mut reg, 1, &db, "/tmp/mail", "a1 CAPABILITY");
    assert_eq!(r, DispatchOutcome::Done);
    assert_eq!(
        reg.take_outbox(1),
        vec![
            "* CAPABILITY IMAP4rev1 AUTH=PLAIN UTF8=ONLY NAMESPACE ID LIST-EXTENDED ENABLE"
                .to_string(),
            "a1 OK CAPABILITY completed".to_string(),
        ]
    );
}

#[test]
fn noop_responds() {
    let db = db("noop");
    let mut reg = fresh_registry(1);
    let r = handle_line(&mut reg, 1, &db, "/tmp/mail", "a9 NOOP");
    assert_eq!(r, DispatchOutcome::Done);
    assert_eq!(reg.take_outbox(1), vec!["a9 OK NOOP completed".to_string()]);
}

#[test]
fn unrecognized_line_is_soft() {
    let db = db("unrecognized");
    let mut reg = fresh_registry(1);
    let r = handle_line(&mut reg, 1, &db, "/tmp/mail", "!!! garbage");
    assert_eq!(r, DispatchOutcome::Done);
    assert_eq!(reg.take_outbox(1), vec!["* BAD unknown command".to_string()]);
    let r2 = handle_line(&mut reg, 1, &db, "/tmp/mail", "a2 NOOP");
    assert_eq!(r2, DispatchOutcome::Done);
    assert_eq!(reg.take_outbox(1), vec!["a2 OK NOOP completed".to_string()]);
}

#[test]
fn gated_commands_refused_before_login() {
    let db = db("gating");
    let mut reg = fresh_registry(1);
    for line in [
        "a1 SELECT \"INBOX\"",
        "a1 LIST \"\" \"*\"",
        "a1 LSUB \"\" \"*\"",
        "a1 CREATE \"X\"",
        "a1 SUBSCRIBE \"X\"",
        "a1 STATUS \"INBOX\"",
        "a1 NAMESPACE",
        "a1 ID",
        "a1 CLOSE",
    ] {
        let r = handle_line(&mut reg, 1, &db, "/tmp/mail", line);
        assert_eq!(r, DispatchOutcome::Done);
        assert_eq!(reg.take_outbox(1), vec!["a1 NO Please Login first!".to_string()]);
        match &reg.get(1).expect("still registered").session.state {
            SessionState::Unauthenticated => {}
            other => panic!("state moved: {:?}", other),
        }
    }
}

#[test]
fn logout_removes_connection_exactly_once() {
    let db = db("logout");
    let mut reg = fresh_registry(1);
    let r = handle_line(&mut reg, 1, &db, "/tmp/mail", "a1 LOGOUT");
    match r {
        DispatchOutcome::Closing(lines) => {
            assert_eq!(
                lines,
                vec![
                    "* BYE IMAP4rev1 Server logging out".to_string(),
                    "a1 OK LOGOUT completed".to_string(),
                ]
            );
        }
        other => panic!("expected Closing, got {:?}", other),
    }
    assert!(!reg.contains(1));
    // A second LOGOUT for the vanished connection must not panic.
    let r2 = handle_line(&mut reg, 1, &db, "/tmp/mail", "a2 LOGOUT");
    assert_eq!(r2, DispatchOutcome::UnknownConnection);
    assert!(!reg.contains(1));
}

#[test]
fn logout_handler_is_idempotent() {
    let mut reg = fresh_registry(7);
    let first = Commands::logout(&mut reg, 7, "a1");
    assert_eq!(first.len(), 2);
    let second = Commands::logout(&mut reg, 7, "a1");
    assert!(second.is_empty());
    assert!(!reg.contains(7));
}

#[test]
fn create_completion_reports_the_outcome() {
    let mut reg = fresh_registry(3);
    Commands::create(&mut reg, 3, "a5", true);
    assert_eq!(reg.take_outbox(3), vec!["a5 OK CREATE Completed".to_string()]);
    Commands::create(&mut reg, 3, "a6", false);
    assert_eq!(reg.take_outbox(3), vec!["a6 NO CREATE failed".to_string()]);
}

#[test]
fn list_completion_formats_folders() {
    let mut reg = fresh_registry(4);
    {
        let conn = reg.take(4).expect("registered");
        let mut conn = conn;
        conn.session.state = SessionState::Authenticated;
        // identity is not needed by the completion half
        reg.insert(4, conn);
    }
    let folders = vec!["INBOX".to_string()];
    Commands::list(&mut reg, 4, "a7", "*", &folders);
    assert_eq!(
        reg.take_outbox(4),
        vec![
            "* LIST (\\Marked \\HasNoChildren \\Subscribed) \".\" \"INBOX\"".to_string(),
            "a7 OK LIST Completed".to_string(),
        ]
    );
}

#[test]
fn unknown_connection_is_reported() {
    let db = db("unknown_conn");
    let mut reg = Registry::new();
    let r = handle_line(&mut reg, 42, &db, "/tmp/mail", "a1 NOOP");
    assert_eq!(r, DispatchOutcome::UnknownConnection);
}

#[test]
fn store_action_carries_translated_create_path() {
    // The first half of CREATE: an authenticated session asks the
    // store for the dot-translated path under its root.
    let db = db("create_path");
    db.add_user("carol", "x").expect("record stored");
    let mut reg = fresh_registry(9);
    {
        let mut conn = reg.take(9).expect("registered");
        conn.session.state = SessionState::Authenticated;
        conn.session.identity =
            imap_server::mailbox::Mailbox::load(&db, "/tmp/mailroot", "carol");
        assert!(conn.session.identity.is_some());
        reg.insert(9, conn);
    }
    let r = handle_line(&mut reg, 9, &db, "/tmp/mailroot", "a1 CREATE \"A.B\"");
    match r {
        DispatchOutcome::NeedsStore(StoreAction::CreateFolder { tag, path }) => {
            assert_eq!(tag, "a1".to_string());
            assert_eq!(path, "/tmp/mailroot/carol/A/B".to_string());
        }
        other => panic!("expected a folder-creation action, got {:?}", other),
    }
}
