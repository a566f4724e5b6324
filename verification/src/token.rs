//! Generation of opaque bearer tokens.
//!
//! A token is a fixed-length string of 64 characters drawn from the
//! alphanumeric alphabet (`A`-`Z`, `a`-`z`, `0`-`9`) by a
//! cryptographically strong source of randomness.

use rand::Rng;
use vstd::prelude::*;

verus! {

/// The fixed length of every bearer token, in characters.
pub const TOKEN_LEN: usize = 64;

/// A character that may appear in a bearer token: an ASCII letter or digit.
pub open spec fn is_token_char(c: char) -> bool {
    ('0' as int <= c as int && c as int <= '9' as int)
        || ('A' as int <= c as int && c as int <= 'Z' as int)
        || ('a' as int <= c as int && c as int <= 'z' as int)
}

/// A well-formed token text: exactly `TOKEN_LEN` alphanumeric characters.
pub open spec fn is_token_text(s: Seq<char>) -> bool {
    s.len() == TOKEN_LEN && forall|i: int| 0 <= i < s.len() ==> is_token_char(s[i])
}

/// Relies on rand's `Alphanumeric` distribution: each sampled byte is one of
/// the 62 ASCII characters `A`-`Z`, `a`-`z`, `0`-`9`, so taking 64 samples
/// yields a 64-character alphanumeric string.
#[verifier::external_body]
fn random_alphanumeric_chars() -> (r: String)
    ensures
        r@.len() == TOKEN_LEN,
        forall|i: int| 0 <= i < r@.len() ==> is_token_char(r@[i]),
{
    rand::thread_rng()
        .sample_iter(rand::distributions::Alphanumeric)
        .take(TOKEN_LEN)
        .map(char::from)
        .collect()
}

/// Produces a fresh opaque bearer token: a 64-character alphanumeric string
/// drawn from a cryptographically strong source of randomness.
pub fn generate_token() -> (r: String)
    ensures
        is_token_text(r@),
{
    random_alphanumeric_chars()
}

} // verus!
