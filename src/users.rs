//! Passwords and the identity of a logged-in user.

use vstd::prelude::*;
use crate::db::{resolves_to, resolve_session, Store, User};

verus! {

/// The id of the user a request is made for.
pub struct UserID(pub u64);

/// What `bcrypt::verify` reports for `password` checked against the stored
/// `hash`: `None` where it fails, as on a malformed hash.
pub uninterp spec fn bcrypt_verdict(password: Seq<char>, hash: Seq<char>) -> Option<bool>;

/// Relies on `bcrypt::verify`: it reads the cost and salt back from `hash`,
/// hashes `password` again with them and compares, so its outcome depends on
/// the two strings alone.
#[verifier::external_body]
fn bcrypt_verify(password: &str, hash: &str) -> (r: Option<bool>)
    ensures
        r == bcrypt_verdict(password@, hash@),
{
    match bcrypt::verify(password, hash) {
        Ok(ok) => Some(ok),
        Err(_) => None,
    }
}

/// Relies on `bcrypt::hash`: it fails only for a cost outside 4..=31 or when
/// the system gives no randomness for the salt, and the string it returns
/// records cost and salt, so that `bcrypt::verify` accepts the same password.
#[verifier::external_body]
fn bcrypt_hash(password: &str, cost: u32) -> (r: Option<String>)
    requires
        4 <= cost <= 31,
    ensures
        r matches Some(h) ==> bcrypt_verdict(password@, h@) == Some(true),
{
    bcrypt::hash(password, cost).ok()
}

/// A salted bcrypt hash of `password` with work factor `cost`, or `None`
/// when no hash could be made. The hash verifies against the same password.
pub fn hash_password(password: &str, cost: u32) -> (r: Option<String>)
    requires
        4 <= cost <= 31,
    ensures
        r matches Some(h) ==> bcrypt_verdict(password@, h@) == Some(true),
{
    bcrypt_hash(password, cost)
}

/// Whether `password` matches the stored `hash`; a malformed hash matches
/// nothing.
pub fn verify_password(password: &str, hash: &str) -> (r: bool)
    ensures
        r == (bcrypt_verdict(password@, hash@) == Some(true)),
{
    match bcrypt_verify(password, hash) {
        Some(ok) => ok,
        None => false,
    }
}

/// Whether `password` is the password of `profile`.
pub fn validate_login(profile: &User, password: &String) -> (r: bool)
    ensures
        r == (bcrypt_verdict(password@, profile.hash@) == Some(true)),
{
    verify_password(password.as_str(), profile.hash.as_str())
}

/// The user that the session token `token` stands for at time `now`; no
/// token, or one that is unknown or expired, gives no user.
pub fn authenticated_user(store: &Store, token: Option<&str>, now: i64) -> (r: Option<UserID>)
    requires
        store.wf(),
    ensures
        token is None ==> r is None,
        token matches Some(t) ==> match resolves_to(store.sessions(), t@, now) {
            Some(u) => r matches Some(id) && id.0 == u,
            None => r is None,
        },
{
    match token {
        Some(t) => match resolve_session(store, t, now) {
            Some(u) => Some(UserID(u)),
            None => None,
        },
        None => None,
    }
}

} // verus!
