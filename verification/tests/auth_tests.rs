use imap_server::database::Database;
use imap_server::passwords;
use imap_server::registry::{Connection, Registry};
use imap_server::server::{handle_line, DispatchOutcome};
use imap_server::session::{Session, SessionState};

fn fresh_registry(id: u64) -> Registry {
    let mut reg = Registry::new();
    reg.insert(id, Connection { session: Session::new(), outbox: Vec::new() });
    reg
}

fn db_with_user(name: &str, user: &str, password: &str) -> Database {
    let mut path = "/tmp/imap_server_auth_test_".to_string();
    path.push_str(name);
    let db = Database::open(&path).expect("store should open");
    let hash = passwords::hash(password).expect("hashing should succeed");
    db.add_user(user, &hash).expect("record stored");
    db
}

fn plain_credentials(user: &str, password: &str) -> String {
    let mut data: Vec<u8> = vec![0u8];
    data.extend_from_slice(user.as_bytes());
    data.push(0u8);
    data.extend_from_slice(password.as_bytes());
    base64::encode(&data)
}

fn state_of(reg: &Registry, id: u64) -> SessionState {
    match &reg.get(id).expect("registered").session.state {
        SessionState::Unauthenticated => SessionState::Unauthenticated,
        SessionState::Authenticated => SessionState::Authenticated,
        SessionState::AuthenticatingPlain(t) => SessionState::AuthenticatingPlain(t.clone()),
        SessionState::MailboxSelected(m) => SessionState::MailboxSelected(m.clone()),
    }
}

#[test]
fn login_round_trip() {
    let db = db_with_user("login", "alice", "secret");
    let mut reg = fresh_registry(1);

    let r = handle_line(&mut reg, 1, &db, "/tmp/mail", "a1 LOGIN \"alice\" \"secret\"");
    assert_eq!(r, DispatchOutcome::Done);
    assert_eq!(
        reg.take_outbox(1),
        vec!["a1 OK [CAPABILITY IMAP4rev1 LITERAL+ AUTH=PLAIN] AUTHENTICATE completed".to_string()]
    );
    assert_eq!(state_of(&reg, 1), SessionState::Authenticated);
}

#[test]
fn login_with_wrong_password_is_refused() {
    let db = db_with_user("login_wrong", "alice", "secret");
    let mut reg = fresh_registry(1);

    let r = handle_line(&mut reg, 1, &db, "/tmp/mail", "a1 LOGIN \"alice\" \"wrong\"");
    assert_eq!(r, DispatchOutcome::Done);
    assert_eq!(reg.take_outbox(1), vec!["a1 NO credentials invalid".to_string()]);
    assert_eq!(state_of(&reg, 1), SessionState::Unauthenticated);
}

#[test]
fn login_with_unknown_user_is_refused() {
    let db = db_with_user("login_unknown", "alice", "secret");
    let mut reg = fresh_registry(1);

    let r = handle_line(&mut reg, 1, &db, "/tmp/mail", "a1 LOGIN \"mallory\" \"secret\"");
    assert_eq!(r, DispatchOutcome::Done);
    assert_eq!(reg.take_outbox(1), vec!["a1 NO credentials invalid".to_string()]);
    assert_eq!(state_of(&reg, 1), SessionState::Unauthenticated);
}

#[test]
fn authenticate_plain_two_step_accepts_good_credentials() {
    let db = db_with_user("plain_good", "alice", "secret");
    let mut reg = fresh_registry(1);

    let r1 = handle_line(&mut reg, 1, &db, "/tmp/mail", "a1 AUTHENTICATE PLAIN");
    assert_eq!(r1, DispatchOutcome::Done);
    assert_eq!(reg.take_outbox(1), vec!["+".to_string()]);
    assert_eq!(state_of(&reg, 1), SessionState::AuthenticatingPlain("a1".to_string()));

    let creds = plain_credentials("alice", "secret");
    let r2 = handle_line(&mut reg, 1, &db, "/tmp/mail", &creds);
    assert_eq!(r2, DispatchOutcome::Done);
    assert_eq!(
        reg.take_outbox(1),
        vec!["a1 OK [CAPABILITY IMAP4rev1 LITERAL+ AUTH=PLAIN] AUTHENTICATE completed".to_string()]
    );
    assert_eq!(state_of(&reg, 1), SessionState::Authenticated);
}

#[test]
fn authenticate_plain_two_step_rejects_bad_credentials() {
    let db = db_with_user("plain_bad", "alice", "secret");
    let mut reg = fresh_registry(1);

    handle_line(&mut reg, 1, &db, "/tmp/mail", "a1 AUTHENTICATE PLAIN");
    assert_eq!(reg.take_outbox(1), vec!["+".to_string()]);

    let creds = plain_credentials("alice", "wrong");
    let r2 = handle_line(&mut reg, 1, &db, "/tmp/mail", &creds);
    assert_eq!(r2, DispatchOutcome::Done);
    // The reply still carries the tag stored in step one.
    assert_eq!(reg.take_outbox(1), vec!["a1 NO credentials rejected".to_string()]);
    assert_eq!(state_of(&reg, 1), SessionState::Unauthenticated);
}

#[test]
fn authenticate_plain_rejects_malformed_data() {
    let db = db_with_user("plain_malformed", "alice", "secret");
    let mut reg = fresh_registry(1);

    handle_line(&mut reg, 1, &db, "/tmp/mail", "a1 AUTHENTICATE PLAIN");
    reg.take_outbox(1);

    let r = handle_line(&mut reg, 1, &db, "/tmp/mail", "!!!not-base64!!!");
    assert_eq!(r, DispatchOutcome::Done);
    assert_eq!(reg.take_outbox(1), vec!["a1 BAD invalid credentials".to_string()]);
    assert_eq!(state_of(&reg, 1), SessionState::Unauthenticated);

    // The exchange ended; another attempt may start afresh.
    handle_line(&mut reg, 1, &db, "/tmp/mail", "a2 AUTHENTICATE PLAIN");
    assert_eq!(reg.take_outbox(1), vec!["+".to_string()]);
    assert_eq!(state_of(&reg, 1), SessionState::AuthenticatingPlain("a2".to_string()));
}

#[test]
fn concurrent_connections_are_independent() {
    let db = db_with_user("independent", "alice", "secret");
    let hash_bob = passwords::hash("hunter2").expect("hashing should succeed");
    db.add_user("bob", &hash_bob).expect("record stored");

    let mut reg = Registry::new();
    reg.insert(1, Connection { session: Session::new(), outbox: Vec::new() });
    reg.insert(2, Connection { session: Session::new(), outbox: Vec::new() });

    // Interleave the two authentications.
    handle_line(&mut reg, 1, &db, "/tmp/mail", "c1 AUTHENTICATE PLAIN");
    handle_line(&mut reg, 2, &db, "/tmp/mail", "c2 LOGIN \"bob\" \"wrong\"");
    assert_eq!(state_of(&reg, 1), SessionState::AuthenticatingPlain("c1".to_string()));
    assert_eq!(state_of(&reg, 2), SessionState::Unauthenticated);

    let creds = plain_credentials("alice", "secret");
    handle_line(&mut reg, 1, &db, "/tmp/mail", &creds);
    handle_line(&mut reg, 2, &db, "/tmp/mail", "c3 LOGIN \"bob\" \"hunter2\"");

    assert_eq!(state_of(&reg, 1), SessionState::Authenticated);
    assert_eq!(state_of(&reg, 2), SessionState::Authenticated);

    // Each connection saw only its own tags and replies.
    assert_eq!(
        reg.take_outbox(1),
        vec![
            "+".to_string(),
            "c1 OK [CAPABILITY IMAP4rev1 LITERAL+ AUTH=PLAIN] AUTHENTICATE completed".to_string(),
        ]
    );
    assert_eq!(
        reg.take_outbox(2),
        vec![
            "c2 NO credentials invalid".to_string(),
            "c3 OK [CAPABILITY IMAP4rev1 LITERAL+ AUTH=PLAIN] AUTHENTICATE completed".to_string(),
        ]
    );
}

#[test]
fn select_and_close_move_the_session() {
    let db = db_with_user("select_close", "alice", "secret");
    let mut reg = fresh_registry(1);

    handle_line(&mut reg, 1, &db, "/tmp/mail", "a1 LOGIN \"alice\" \"secret\"");
    reg.take_outbox(1);

    handle_line(&mut reg, 1, &db, "/tmp/mail", "a2 SELECT \"INBOX\"");
    let lines = reg.take_outbox(1);
    assert_eq!(lines.last(), Some(&"a2 OK [READ-WRITE] SELECT completed".to_string()));
    assert_eq!(lines.len(), 7);
    assert_eq!(state_of(&reg, 1), SessionState::MailboxSelected("INBOX".to_string()));

    handle_line(&mut reg, 1, &db, "/tmp/mail", "a3 CLOSE");
    assert_eq!(reg.take_outbox(1), vec!["a3 OK CLOSE completed".to_string()]);
    assert_eq!(state_of(&reg, 1), SessionState::Authenticated);

    handle_line(&mut reg, 1, &db, "/tmp/mail", "a4 EXAMINE \"INBOX\"");
    let lines = reg.take_outbox(1);
    assert_eq!(lines.last(), Some(&"a4 OK [READ-ONLY] SELECT completed".to_string()));
}
