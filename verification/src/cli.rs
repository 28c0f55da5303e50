//! Offline user management against the same user-record store the
//! server reads: thin compositions of the hashing capability and the
//! store.

use vstd::prelude::*;

use crate::database::{Database, DbError};
use crate::passwords;

verus! {

/// Registers a user: hashes the password and stores the record.
pub fn add(db: &Database, username: &str, pass: &str) -> Result<(), DbError> {
    match passwords::hash(pass) {
        None => Err(DbError::Backend),
        Some(h) => db.add_user(username, h.as_str()),
    }
}

/// Deletes a user's record.
pub fn remove(db: &Database, username: &str) -> Result<(), DbError> {
    db.remove_user(username)
}

/// Replaces a user's password with a freshly hashed one.
pub fn change_password(db: &Database, username: &str, pass: &str) -> Result<(), DbError> {
    match passwords::hash(pass) {
        None => Err(DbError::Backend),
        Some(h) => db.add_user(username, h.as_str()),
    }
}

} // verus!
