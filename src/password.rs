//! Salted one-way password hashing, provided by the bcrypt crate.
use vstd::prelude::*;

verus! {

/// What checking `password` against the stored `hash` gives: `Some(true)` when
/// they match, `Some(false)` when they do not, `None` when the hash cannot be
/// read. It depends on its two arguments alone.
pub uninterp spec fn verify_outcome(password: Seq<char>, hash: Seq<char>) -> Option<bool>;

/// Relies on `bcrypt::hash` at `bcrypt::DEFAULT_COST`: with a fresh random salt
/// it returns a hash string that `bcrypt::verify` accepts for the same
/// password. It fails only when no random salt can be had.
#[verifier::external_body]
pub(crate) fn hash_password(password: &str) -> (r: Option<String>)
    ensures
        r matches Some(h) ==> verify_outcome(password@, h@) == Some(true),
{
    bcrypt::hash(password, bcrypt::DEFAULT_COST).ok()
}

/// Relies on `bcrypt::verify`: it re-hashes `password` with the cost and salt
/// read from `hash` and compares; a malformed hash is an error.
#[verifier::external_body]
pub(crate) fn check_password(password: &str, hash: &str) -> (r: Option<bool>)
    ensures
        r == verify_outcome(password@, hash@),
{
    bcrypt::verify(password, hash).ok()
}

} // verus!
