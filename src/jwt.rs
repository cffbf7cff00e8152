//! Bearer-token claims and signed tokens.

use vstd::prelude::*;

use crate::outside::{encode_claims, signed_token};

verus! {

/// The issuer written into every token.
pub const ISSUER: &'static str = "journali.nl";

/// How long an issued token stays valid: thirty days, in seconds.
pub const TOKEN_LIFETIME: i64 = 30 * 86400;

/// A signed bearer token as handed to clients.
#[derive(Clone, Debug, PartialEq, Eq)]
pub struct Token {
    pub token: String,
}

/// The claims of a bearer token: issuer, expiry (seconds since the Unix
/// epoch) and the id of the user it was issued to.
#[derive(Clone, Debug, PartialEq, Eq)]
pub struct Jwt {
    pub iss: String,
    pub exp: i64,
    pub sub: u128,
}

/// `x` clamped into the range of `i64`.
pub open spec fn clamp_i64(x: int) -> i64 {
    if x > i64::MAX {
        i64::MAX
    } else if x < i64::MIN {
        i64::MIN
    } else {
        x as i64
    }
}

/// When a token issued at `now` expires.
pub open spec fn expiry_at(now: i64) -> i64 {
    clamp_i64(now + TOKEN_LIFETIME)
}

impl Jwt {
    /// Claims issued at `now` for `sub`, expiring `duration` seconds later
    /// (at the largest or smallest representable time if that overflows).
    pub fn new(iss: String, duration: i64, sub: u128, now: i64) -> (r: Jwt)
        ensures
            r.iss == iss,
            r.sub == sub,
            r.exp == clamp_i64(now + duration),
    {
        let exp = match now.checked_add(duration) {
            Some(e) => e,
            None => if duration > 0 {
                i64::MAX
            } else {
                i64::MIN
            },
        };
        Jwt { iss, exp, sub }
    }

    /// Signs these claims with `secret` into a bearer token (HS256).
    pub fn tokenize(&self, secret: &str) -> (r: Token)
        ensures
            r.token@ == signed_token(self.iss@, self.exp, self.sub, secret@),
            r.token@.len() > 0,
    {
        match encode_claims(self.iss.as_str(), self.exp, self.sub, secret) {
            Some(t) => Token::new(t),
            None => Token::new(String::new()),
        }
    }

    /// The id of the user the token was issued to.
    pub fn sub(&self) -> (r: u128)
        ensures
            r == self.sub,
    {
        self.sub
    }
}

impl Token {
    /// A token with the given text.
    pub fn new(token: String) -> (r: Token)
        ensures
            r.token == token,
    {
        Token { token }
    }
}

} // verus!
