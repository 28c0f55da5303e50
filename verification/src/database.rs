//! The user-record store: a sled tree mapping a login name to the
//! stored password-verification string.  The store lives on disk, so
//! nothing is assumed about what a lookup returns; callers state what
//! holds for every possible answer.

use vstd::prelude::*;

verus! {

/// sled's database handle, opaque to verification.
#[verifier::external_type_specification]
#[verifier::external_body]
pub struct ExDb(sled::Db);

/// sled's tree handle, opaque to verification.
#[verifier::external_type_specification]
#[verifier::external_body]
pub struct ExTree(sled::Tree);

/// sled's error type, mapped to [`DbError`] at the boundary.
#[verifier::external_type_specification]
#[verifier::external_body]
pub struct ExSledError(sled::Error);

/// What can go wrong when the store is consulted.
#[derive(Debug, PartialEq, Eq)]
pub enum DbError {
    /// The backing store reported an I/O or corruption error.
    Backend,
    /// No record exists for the requested user.
    UnknownUser,
}

/// Relies on `sled::open`: opens (or creates) the store at `path`.
#[verifier::external_body]
fn sled_open(path: &str) -> Result<sled::Db, sled::Error> {
    sled::open(path)
}

/// Relies on `sled::Db::open_tree`: opens the named keyspace.
#[verifier::external_body]
fn sled_open_tree(db: &sled::Db, name: &str) -> Result<sled::Tree, sled::Error> {
    db.open_tree(name)
}

/// Relies on `sled::Tree::insert`: stores `value` under `key`.
#[verifier::external_body]
fn tree_insert(t: &sled::Tree, key: &[u8], value: &[u8]) -> Result<(), sled::Error> {
    t.insert(key, value).map(|_| ())
}

/// Relies on `sled::Tree::get`: fetches the value stored under `key`,
/// if any.
#[verifier::external_body]
fn tree_get(t: &sled::Tree, key: &[u8]) -> Result<Option<Vec<u8>>, sled::Error> {
    t.get(key).map(|o| o.map(|iv| iv.to_vec()))
}

/// Relies on `sled::Tree::remove`: deletes the value stored under
/// `key`, if any.
#[verifier::external_body]
fn tree_remove(t: &sled::Tree, key: &[u8]) -> Result<(), sled::Error> {
    t.remove(key).map(|_| ())
}

/// Relies on `sled::Tree::iter`: lists every key/value pair in the
/// tree, or the first error met while walking it.
#[verifier::external_body]
fn tree_entries(t: &sled::Tree) -> Result<Vec<(Vec<u8>, Vec<u8>)>, sled::Error> {
    let mut out = Vec::new();
    for kv in t.iter() {
        match kv {
            Ok((k, v)) => out.push((k.to_vec(), v.to_vec())),
            Err(e) => return Err(e),
        }
    }
    Ok(out)
}

/// Handle on the user-record store.
pub struct Database {
    pub users: sled::Tree,
}

/// Widens or truncates stored hash bytes to the fixed 128-byte
/// verification-string format, padding with zeroes.
pub fn pad_hash(v: &Vec<u8>) -> (r: Vec<u8>)
    ensures
        r@.len() == 128,
        forall|i: int|
            0 <= i < 128 ==> r@[i] == (if i < v@.len() {
                v@[i]
            } else {
                0u8
            }),
{
    let mut r: Vec<u8> = Vec::new();
    let mut i: usize = 0;
    while i < 128
        invariant
            i <= 128,
            r@.len() == i,
            forall|j: int|
                0 <= j < i ==> r@[j] == (if j < v@.len() {
                    v@[j]
                } else {
                    0u8
                }),
        decreases 128 - i,
    {
        if i < v.len() {
            r.push(v[i]);
        } else {
            r.push(0u8);
        }
        i = i + 1;
    }
    r
}

impl Database {
    /// Opens the store at `path` and its user keyspace.
    pub fn open(path: &str) -> Result<Database, DbError> {
        match sled_open(path) {
            Err(_) => Err(DbError::Backend),
            Ok(db) => match sled_open_tree(&db, "users") {
                Err(_) => Err(DbError::Backend),
                Ok(t) => Ok(Database { users: t }),
            },
        }
    }

    /// Stores the password-verification string for `username`,
    /// replacing any earlier record.
    pub fn add_user(&self, username: &str, password: &str) -> Result<(), DbError> {
        match tree_insert(&self.users, username.as_bytes(), password.as_bytes()) {
            Ok(()) => Ok(()),
            Err(_) => Err(DbError::Backend),
        }
    }

    /// Deletes the record for `username`, if any.
    pub fn remove_user(&self, username: &str) -> Result<(), DbError> {
        match tree_remove(&self.users, username.as_bytes()) {
            Ok(()) => Ok(()),
            Err(_) => Err(DbError::Backend),
        }
    }

    /// Fetches the stored verification string for `username`, widened
    /// to the fixed 128-byte format.  An absent record and a backend
    /// fault are told apart.
    pub fn get_user_hash(&self, username: &str) -> (r: Result<Vec<u8>, DbError>)
        ensures
            match r {
                Ok(h) => h@.len() == 128,
                Err(_) => true,
            },
    {
        match tree_get(&self.users, username.as_bytes()) {
            Err(_) => Err(DbError::Backend),
            Ok(None) => Err(DbError::UnknownUser),
            Ok(Some(v)) => Ok(pad_hash(&v)),
        }
    }

    /// Lists every stored key/value record.
    pub fn entries(&self) -> Result<Vec<(Vec<u8>, Vec<u8>)>, DbError> {
        match tree_entries(&self.users) {
            Ok(v) => Ok(v),
            Err(_) => Err(DbError::Backend),
        }
    }
}

} // verus!
