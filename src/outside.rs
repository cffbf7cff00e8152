//! The calls into outside crates, each behind a small wrapper whose
//! contract states what the crate provides.

use vstd::prelude::*;

verus! {

/// What bcrypt's verification says of a password and a stored hash:
/// `Some(true)` or `Some(false)`, or `None` where the hash is malformed.
pub uninterp spec fn verify_of(password: Seq<char>, hash: Seq<char>) -> Option<bool>;

/// Relies on bcrypt::hash at bcrypt's default cost: a salted hash that
/// bcrypt::verify accepts for the same password. It fails only when the
/// system's random source does.
#[verifier::external_body]
pub(crate) fn bcrypt_hash(password: &str) -> (r: Option<String>)
    ensures
        r matches Some(h) ==> verify_of(password@, h@) == Some(true),
{
    bcrypt::hash(password, bcrypt::DEFAULT_COST).ok()
}

/// Relies on bcrypt::verify: whether the password matches the hash, which
/// depends on the two arguments alone.
#[verifier::external_body]
pub(crate) fn bcrypt_verify(password: &str, hash: &str) -> (r: Option<bool>)
    ensures
        r == verify_of(password@, hash@),
{
    bcrypt::verify(password, hash).ok()
}

/// The bearer token that jsonwebtoken signs with the default header
/// (HS256) and `secret` for the claims `iss`, `exp` and `sub` (the last
/// written as a hyphenated UUID).
pub uninterp spec fn signed_token(iss: Seq<char>, exp: i64, sub: u128, secret: Seq<char>) -> Seq<char>;

/// Relies on jsonwebtoken::encode with the default header: an HMAC over the
/// serialised claims, which depends on the claims and the secret alone. With
/// an HMAC key and a map of strings and an integer it cannot fail, and the
/// token is `header.claims.signature`, never empty.
#[verifier::external_body]
pub(crate) fn encode_claims(iss: &str, exp: i64, sub: u128, secret: &str) -> (r: Option<String>)
    ensures
        r is Some,
        r matches Some(t) ==> t@ == signed_token(iss@, exp, sub, secret@) && t@.len() > 0,
{
    let mut claims = serde_json::Map::new();
    claims.insert("iss".to_string(), serde_json::Value::from(iss));
    claims.insert("exp".to_string(), serde_json::Value::from(exp));
    claims.insert("sub".to_string(), serde_json::Value::from(uuid::Uuid::from_u128(sub).to_string()));
    let key = jsonwebtoken::EncodingKey::from_secret(secret.as_bytes());
    jsonwebtoken::encode(&jsonwebtoken::Header::default(), &claims, &key).ok()
}

/// Relies on uuid::Uuid::new_v4: a random identifier. Nothing is promised
/// of its value; callers check it for collisions. It panics only if the
/// operating system's random source fails.
#[verifier::external_body]
pub(crate) fn new_v4_id() -> (r: u128) {
    uuid::Uuid::new_v4().as_u128()
}

/// Relies on chrono::Utc::now: the current time, in whole seconds since the
/// Unix epoch. Nothing is promised of its value. It panics only if the
/// system clock reads a time before 1970.
#[verifier::external_body]
pub(crate) fn now_timestamp() -> (r: i64) {
    chrono::Utc::now().timestamp()
}

} // verus!
