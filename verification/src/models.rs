//! Plain record types for the persisted user and mailbox data.

use vstd::prelude::*;

verus! {

/// A stored user record.
#[derive(Debug, PartialEq, Eq)]
pub struct User {
    pub id: i32,
    pub email: String,
    pub password_hash: String,
    pub uid_validity_identifier: i32,
}

/// A user record about to be stored.
#[derive(Debug, PartialEq, Eq)]
pub struct NewUser<'a> {
    pub email: &'a str,
    pub password_hash: &'a str,
    pub uid_validity_identifier: i32,
}

/// A bare user row: name and password columns.
#[derive(Debug, PartialEq, Eq)]
pub struct Users {
    pub name: String,
    pub passwd: String,
}

/// A mailbox summary row: identity, name and message counters.
#[derive(Debug, PartialEq, Eq)]
pub struct Mailbox {
    pub id: i32,
    pub name: String,
    pub unread: i32,
    pub messeages: i32,
}

} // verus!
