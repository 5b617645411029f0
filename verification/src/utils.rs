//! Credentials of a project and the claims that a token carries.

use vstd::prelude::*;
use crate::oid::{hex_text, ObjectId};

verus! {

/// What a token says of its bearer: the identifier as text, the time after which the
/// token is no longer good, in seconds since 1970, and the identifier itself.
#[derive(Debug)]
pub struct Claims {
    pub sub: String,
    pub exp: usize,
    pub id: ObjectId,
}

/// The number of seconds for which a token is good: 365 days.
pub const TOKEN_LIFETIME: i64 = 31_536_000;

/// The number of characters of a key and of a secret.
pub const CREDENTIAL_LEN: usize = 7;

/// The time at which a token issued at `now` runs out. Where that time cannot be held,
/// the nearest time that can be is taken.
pub open spec fn expiry(now: int) -> int {
    if now + TOKEN_LIFETIME < 0 {
        0
    } else if now + TOKEN_LIFETIME > usize::MAX {
        usize::MAX as int
    } else {
        now + TOKEN_LIFETIME
    }
}

/// Whether `c` is a letter of either case or a digit.
pub open spec fn is_alphanumeric(c: char) -> bool {
    ('0' <= c <= '9') || ('a' <= c <= 'z') || ('A' <= c <= 'Z')
}

/// Whether `text` is made of letters and digits only.
pub open spec fn all_alphanumeric(text: Seq<char>) -> bool {
    forall|i: int| 0 <= i < text.len() ==> is_alphanumeric(#[trigger] text[i])
}

/// Whether `text` is a key or a secret as they are made: seven letters and digits.
pub open spec fn is_credential(text: Seq<char>) -> bool {
    text.len() == CREDENTIAL_LEN && all_alphanumeric(text)
}

/// The time of the system clock in seconds since 1970, from `chrono::Utc::now`. Nothing
/// is claimed of it. `chrono` gives up where the clock stands before 1970.
#[verifier::external_body]
fn unix_now() -> (now: i64) {
    chrono::Utc::now().timestamp()
}

/// As many characters as asked for, drawn with `rand::thread_rng` from
/// `rand::distributions::Alphanumeric`, which yields the letters of both cases and the
/// digits. Which ones come is left open.
#[verifier::external_body]
fn random_alphanumeric(count: usize) -> (text: String)
    ensures
        text@.len() == count,
        all_alphanumeric(text@),
{
    rand::Rng::sample_iter(rand::thread_rng(), &rand::distributions::Alphanumeric)
        .take(count)
        .map(char::from)
        .collect()
}

/// The time at which a token issued at `now` runs out.
pub fn expiration(now: i64) -> (exp: usize)
    ensures
        exp == expiry(now as int),
{
    let at: i128 = now as i128 + TOKEN_LIFETIME as i128;
    if at < 0 {
        0
    } else if at > usize::MAX as i128 {
        usize::MAX
    } else {
        at as usize
    }
}

impl Claims {
    /// The claims of a token issued to `user_id` at the time `now`.
    pub fn issued_at(user_id: ObjectId, now: i64) -> (claims: Claims)
        ensures
            claims.sub@ == hex_text(user_id.bytes@),
            claims.exp == expiry(now as int),
            claims.id == user_id,
    {
        Claims { sub: user_id.to_hex(), exp: expiration(now), id: user_id }
    }

    /// The claims of a token issued to `user_id` now.
    pub fn issue(user_id: ObjectId) -> (claims: Claims)
        ensures
            claims.sub@ == hex_text(user_id.bytes@),
            claims.id == user_id,
    {
        Claims::issued_at(user_id, unix_now())
    }
}

/// A fresh key and a fresh secret for a project.
pub fn generate_credentials() -> (credentials: (String, String))
    ensures
        is_credential(credentials.0@),
        is_credential(credentials.1@),
{
    let key = random_alphanumeric(CREDENTIAL_LEN);
    let secret = random_alphanumeric(CREDENTIAL_LEN);
    (key, secret)
}

} // verus!
