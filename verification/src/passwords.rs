//! Credential hashing and verification, an external capability: the
//! argon2id primitive is consumed as an opaque `verify(hash, password)`
//! relation and nothing about it is re-stated here beyond what its
//! documentation promises.

use vstd::prelude::*;
use vstd::string::StringSliceAdditionalSpecFns;

verus! {

/// What argon2id13 password verification returns for a stored
/// 128-byte verification string and a candidate password.  The result
/// is a function of the two byte strings alone.
pub uninterp spec fn verify_ok(hash: Seq<u8>, passwd: Seq<u8>) -> bool;

/// Relies on sodiumoxide's `argon2id13::pwhash`: on success the result
/// is the 128-byte zero-padded ASCII verification string that
/// `argon2id13::pwhash_verify` accepts for the same password.
/// Panics only if the underlying library cannot initialize.
#[verifier::external_body]
pub fn hash(passwd: &str) -> (r: Option<String>)
    ensures
        match r {
            Some(h) => h@.len() == 128 && h.is_ascii() && verify_ok(
                vstd::utf8::encode_utf8(h@),
                passwd.spec_bytes(),
            ),
            None => true,
        },
{
    sodiumoxide::init().expect("unable to initialize crypto library");
    let hashed = sodiumoxide::crypto::pwhash::argon2id13::pwhash(
        passwd.as_bytes(),
        sodiumoxide::crypto::pwhash::argon2id13::OPSLIMIT_MODERATE,
        sodiumoxide::crypto::pwhash::argon2id13::MEMLIMIT_MODERATE,
    );
    match hashed {
        Ok(h) => match std::str::from_utf8(&h.0) {
            Ok(s) => Some(s.to_string()),
            Err(_) => None,
        },
        Err(()) => None,
    }
}

/// Relies on sodiumoxide's `argon2id13::pwhash_verify` (reached
/// through `HashedPassword::from_slice`, which accepts every 128-byte
/// slice): the outcome depends on the hash and the password alone.
/// Panics only if the underlying library cannot initialize.
#[verifier::external_body]
pub fn verify(hash: &[u8], passwd: &str) -> (r: bool)
    requires
        hash@.len() == 128,
    ensures
        r == verify_ok(hash@, passwd.spec_bytes()),
{
    sodiumoxide::init().expect("unable to initialize crypto library");
    match sodiumoxide::crypto::pwhash::argon2id13::HashedPassword::from_slice(hash) {
        Some(hp) => sodiumoxide::crypto::pwhash::argon2id13::pwhash_verify(&hp, passwd.as_bytes()),
        None => false,
    }
}

} // verus!
