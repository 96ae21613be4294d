//! Password hashing with bcrypt.

use crate::decimal::digit_char;
use vstd::prelude::*;

verus! {

/// The failure of the bcrypt crate, carried through unopened.
#[verifier::external_type_specification]
#[verifier::external_body]
pub struct ExBcryptError(bcrypt::BcryptError);

/// The work factor that passwords are hashed with.
pub const HASH_COST: u32 = 12;

/// The shape of a hash text made with the work factor `cost`: sixty
/// characters that start with the version `2b` and the two digits of the
/// cost, each between dollar signs. The salt and the digest follow.
pub open spec fn is_hash_text(text: Seq<char>, cost: u32) -> bool {
    &&& text.len() == 60
    &&& text[0] == '$'
    &&& text[1] == '2'
    &&& text[2] == 'b'
    &&& text[3] == '$'
    &&& text[4] == digit_char((cost / 10) as nat)
    &&& text[5] == digit_char((cost % 10) as nat)
    &&& text[6] == '$'
}

/// `bcrypt::hash`: hashes `password` with a salt that the crate draws from
/// the operating system. Trusted, not proved: where the call succeeds the
/// cost was between 4 and 31 and the text has the shape above. Which text
/// comes back is open, since the salt is random, and so is a failure of the
/// random source.
#[verifier::external_body]
fn bcrypt_hash(password: &str, cost: u32) -> (r: Result<String, bcrypt::BcryptError>)
    ensures
        r matches Ok(text) ==> 4 <= cost <= 31 && is_hash_text(text@, cost),
{
    bcrypt::hash(password, cost)
}

/// `BcryptError`'s `Display`, through `to_string`: the crate's words for a
/// failure. Trusted, not proved: every one of them starts with a fixed
/// phrase, so the text is not empty.
#[verifier::external_body]
fn bcrypt_error_text(error: &bcrypt::BcryptError) -> (r: String)
    ensures
        r@.len() > 0,
{
    error.to_string()
}

/// Turns what the hashing gave into what the caller gets: a hash as it is,
/// a failure as the words that describe it.
pub fn hash_or_words(outcome: Result<String, bcrypt::BcryptError>) -> (r: Result<String, String>)
    ensures
        match outcome {
            Ok(hash) => r == Ok::<String, String>(hash),
            Err(_) => r matches Err(message) && message@.len() > 0,
        },
{
    match outcome {
        Ok(hash) => Ok(hash),
        Err(error) => Err(bcrypt_error_text(&error)),
    }
}

/// Hashes `password` for storage. The hash differs from call to call; it
/// always has the shape of a hash made with `HASH_COST`. A failure comes
/// with the words that describe it.
pub fn create_hashed_password(password: &str) -> (r: Result<String, String>)
    ensures
        match r {
            Ok(hash) => is_hash_text(hash@, HASH_COST),
            Err(message) => message@.len() > 0,
        },
{
    hash_or_words(bcrypt_hash(password, HASH_COST))
}

} // verus!
