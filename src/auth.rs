//! Passwords are stored as the SHA-256 digest of the password's bytes
//! followed by a one-byte random salt.

use vstd::prelude::*;
use vstd::utf8::encode_utf8;
use crate::entity::{new_entity_id, User, UserModel};
use crate::response::push_text;

verus! {

/// Gives `rand::random` a contract of no promise: its value is drawn by
/// chance.
pub assume_specification<T>[ rand::random::<T> ]() -> (r: T)
    where
        rand::distributions::Standard: rand::distributions::Distribution<T>,
;

/// The SHA-256 digest of some bytes, as the sha256 crate writes it in hex.
pub uninterp spec fn sha256_hex(input: Seq<u8>) -> Seq<char>;

/// Relies on `sha256::digest` of a byte slice: the hex text of the SHA-256
/// digest of exactly those bytes.
#[verifier::external_body]
fn digest_hex(input: &[u8]) -> (r: String)
    ensures
        r@ == sha256_hex(input@),
{
    sha256::digest(input)
}

/// What is hashed for a password: its UTF-8 bytes, then the salt.
pub open spec fn salted(password: Seq<char>, salt: u8) -> Seq<u8> {
    encode_utf8(password).push(salt)
}

/// The stored digest of a password under a salt.
pub open spec fn password_digest(password: Seq<char>, salt: u8) -> Seq<char> {
    sha256_hex(salted(password, salt))
}

/// The digest of `password` salted with `salt`.
pub fn hash_password(password: &str, salt: u8) -> (r: String)
    ensures
        r@ == password_digest(password@, salt),
{
    let mut bytes: Vec<u8> = Vec::new();
    push_text(&mut bytes, password);
    bytes.push(salt);
    assert(bytes@ =~= salted(password@, salt));
    digest_hex(bytes.as_slice())
}

/// A new user with a fresh id and a random salt, whose stored password is
/// the salted digest of `password`.
pub fn register(username: String, password: &str) -> (r: User)
    ensures
        r.username == username,
        r.password@ == password_digest(password@, r.salt),
{
    let salt: u8 = rand::random::<u8>();
    let digest = hash_password(password, salt);
    User { id: new_entity_id(), username, password: digest, salt }
}

/// Whether a login with `password` succeeds against the users found under
/// its username: exactly one must be found, and its stored digest must be
/// that of the password under its salt.
pub open spec fn login_match(users: Seq<UserModel>, password: Seq<char>) -> bool {
    users.len() == 1 && users[0].password == password_digest(password, users[0].salt)
}

pub open spec fn user_views(users: Seq<User>) -> Seq<UserModel> {
    users.map_values(|u: User| u@)
}

/// Whether `password` is that of the one user found; none found, or more
/// than one, is a failure alike.
pub fn check_login(users: &Vec<User>, password: &str) -> (r: bool)
    ensures
        r == login_match(user_views(users@), password@),
{
    if users.len() != 1 {
        return false;
    }
    let u = &users[0];
    let digest = hash_password(password, u.salt);
    let e = digest == u.password;
    assert(user_views(users@)[0] == u@);
    e
}

} // verus!
