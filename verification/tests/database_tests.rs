use imap_server::cli;
use imap_server::database::{Database, DbError};
use imap_server::mailbox::Mailbox;
use imap_server::passwords;

fn open(name: &str) -> Database {
    let mut path = "/tmp/imap_server_db_test_".to_string();
    path.push_str(name);
    Database::open(&path).expect("store should open")
}

#[test]
fn unknown_user_lookup_is_distinguished() {
    let db = open("unknown");
    assert_eq!(db.get_user_hash("nobody"), Err(DbError::UnknownUser));
}

#[test]
fn stored_record_round_trips() {
    let db = open("roundtrip");
    db.add_user("dave", "short-hash").expect("record stored");
    let h = db.get_user_hash("dave").expect("record found");
    assert_eq!(h.len(), 128);
    assert_eq!(&h[..10], b"short-hash");
    assert!(h[10..].iter().all(|b| *b == 0));
}

#[test]
fn removed_user_is_gone() {
    let db = open("removal");
    db.add_user("erin", "x").expect("record stored");
    assert!(db.get_user_hash("erin").is_ok());
    db.remove_user("erin").expect("record removed");
    assert_eq!(db.get_user_hash("erin"), Err(DbError::UnknownUser));
}

#[test]
fn cli_add_registers_a_verifiable_user() {
    let db = open("cli_add");
    cli::add(&db, "frank", "letmein").expect("user added");
    let m = Mailbox::load(&db, "/tmp/mailroot", "frank").expect("record found");
    assert!(m.check_password_plain("letmein").is_ok());
    assert!(m.check_password_plain("wrong").is_err());
    assert_eq!(m.user, "frank".to_string());
    assert_eq!(m.mailbox_root, "/tmp/mailroot/frank".to_string());
}

#[test]
fn cli_change_password_replaces_the_hash() {
    let db = open("cli_change");
    cli::add(&db, "grace", "old-pass").expect("user added");
    cli::change_password(&db, "grace", "new-pass").expect("password changed");
    let m = Mailbox::load(&db, "/tmp/mailroot", "grace").expect("record found");
    assert!(m.check_password_plain("new-pass").is_ok());
    assert!(m.check_password_plain("old-pass").is_err());
}

#[test]
fn cli_remove_deletes_the_record() {
    let db = open("cli_remove");
    db.add_user("heidi", "x").expect("record stored");
    cli::remove(&db, "heidi").expect("user removed");
    assert!(Mailbox::load(&db, "/tmp/mailroot", "heidi").is_none());
}

#[test]
fn hash_and_verify_round_trip() {
    let h = passwords::hash("p4ssw0rd").expect("hashing should succeed");
    assert_eq!(h.len(), 128);
    assert!(passwords::verify(h.as_bytes(), "p4ssw0rd"));
    assert!(!passwords::verify(h.as_bytes(), "p4ssw0re"));
}

#[test]
fn load_all_lists_every_user() {
    let db = open("load_all");
    db.add_user("ivan", "x").expect("record stored");
    db.add_user("judy", "y").expect("record stored");
    let all = Mailbox::load_all(&db, "/tmp/mailroot").expect("store walks");
    let mut users: Vec<String> = all.iter().map(|m| m.user.clone()).collect();
    users.sort();
    assert_eq!(users, vec!["ivan".to_string(), "judy".to_string()]);
}

#[test]
fn mailbox_new_registers_or_loads() {
    let db = open("mailbox_new");
    let m = Mailbox::new(&db, "/tmp/mailroot", "kim", "first-pw").expect("registered");
    assert!(m.check_password_plain("first-pw").is_ok());
    // A second call with a different password finds the existing
    // record instead of overwriting it.
    let m2 = Mailbox::new(&db, "/tmp/mailroot", "kim", "other-pw").expect("loaded");
    assert!(m2.check_password_plain("first-pw").is_ok());
    assert!(m2.check_password_plain("other-pw").is_err());
}
