use imap_server::database::Database;
use imap_server::models::NewUser;

#[test]
fn create_mailbox() {
    let db = Database::open("/tmp/imap_server_store_test_create_mailbox")
        .expect("store should open");
    let new_user = NewUser {
        email: "test@localhost",
        password_hash: "test",
        uid_validity_identifier: 0,
    };
    db.add_user(new_user.email, new_user.password_hash)
        .expect("Failed to add new User");
}
