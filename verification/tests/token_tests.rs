//! Bearer-token extraction and session-token formatting.

use itemshop::graphql::parse_bearer_token;
use itemshop::models::Session;

#[test]
fn bearer_token_is_extracted_and_trimmed() {
    assert_eq!(parse_bearer_token("Bearer abc123"), Some("abc123".to_string()));
    assert_eq!(parse_bearer_token("bearer   abc123   "), Some("abc123".to_string()));
    assert_eq!(parse_bearer_token("BEARER\tabc123"), Some("abc123".to_string()));
    assert_eq!(parse_bearer_token("bEaReR abc123"), Some("abc123".to_string()));
}

#[test]
fn other_schemes_yield_no_token() {
    assert_eq!(parse_bearer_token("Basic abc123"), None);
    assert_eq!(parse_bearer_token("Token abc123"), None);
    assert_eq!(parse_bearer_token(""), None);
    assert_eq!(parse_bearer_token("Bear"), None);
}

#[test]
fn a_bare_scheme_yields_an_empty_token() {
    assert_eq!(parse_bearer_token("Bearer"), Some(String::new()));
    assert_eq!(parse_bearer_token("Bearer    "), Some(String::new()));
}

#[test]
fn session_token_is_the_canonical_uuid_form() {
    let session = Session { id: 0, created_at: 0, user_id: 1 };
    assert_eq!(session.token(), "00000000-0000-0000-0000-000000000000");

    let session = Session { id: 0x0123_4567_89ab_cdef_0123_4567_89ab_cdef, created_at: 0, user_id: 1 };
    assert_eq!(session.token(), "01234567-89ab-cdef-0123-456789abcdef");
}

#[test]
fn session_token_round_trips_through_the_uuid_parser() {
    let session = Session { id: 42, created_at: 0, user_id: 1 };
    let parsed = uuid::Uuid::parse_str(&session.token()).expect("token must parse");
    assert_eq!(parsed.as_u128(), 42);
}
