//! Trusted bindings to outside crates: session-identifier generation and
//! formatting (uuid), the clock (chrono), and the email-shape check
//! (validator). Each binding's contract states only what the outside
//! source shows.

use vstd::prelude::*;

verus! {

/// What parsing a candidate session token yields: the 128-bit value of
/// the UUID the string denotes, if it denotes one. Named, not written
/// out: the accepted formats are uuid's business; parsing is a function
/// of the string alone.
pub uninterp spec fn parsed_session_token(s: Seq<char>) -> Option<u128>;

/// The canonical hyphenated string form of a session identifier, a
/// function of the 128-bit value alone.
pub uninterp spec fn session_token_of(sid: u128) -> Seq<char>;

/// Whether the email-shape check accepts `s`, a function of the string
/// alone.
pub uninterp spec fn email_ok(s: Seq<char>) -> bool;

/// Relies on uuid::Uuid::new_v4: a fresh random version-4 UUID. Nothing
/// is assumed of the value.
#[verifier::external_body]
pub(crate) fn random_session_id() -> u128 {
    uuid::Uuid::new_v4().as_u128()
}

/// Relies on uuid::Uuid::parse_str: whether a string parses as a UUID,
/// and as which value, depends on the string alone.
#[verifier::external_body]
pub(crate) fn parse_session_token(s: &str) -> (r: Option<u128>)
    ensures
        r == parsed_session_token(s@),
{
    match uuid::Uuid::parse_str(s) {
        Ok(u) => Some(u.as_u128()),
        Err(_) => None,
    }
}

/// Relies on uuid's hyphenated formatting: a function of the 128-bit
/// value alone, and uuid::Uuid::parse_str accepts the format it produces,
/// returning the same value.
#[verifier::external_body]
pub(crate) fn format_session_token(sid: u128) -> (r: String)
    ensures
        r@ == session_token_of(sid),
        parsed_session_token(r@) == Some(sid),
{
    uuid::Uuid::from_u128(sid).hyphenated().to_string()
}

/// Relies on chrono::Utc::now for the current time as seconds since the
/// Unix epoch. Nothing is assumed of the value.
#[verifier::external_body]
pub(crate) fn now_timestamp() -> i64 {
    chrono::Utc::now().timestamp()
}

/// Relies on validator's ValidateEmail for str: the HTML5 email-shape
/// check, a deterministic function of the string alone.
#[verifier::external_body]
pub(crate) fn check_email(s: &str) -> (r: bool)
    ensures
        r == email_ok(s@),
{
    validator::ValidateEmail::validate_email(&s)
}

} // verus!
