use playback_status::config::wizard::{
    choose_lastfm, loose_matches, read_optional_answer, read_token_entry, str_to_boolish, Answer,
    Choice, TokenEntry,
};
use playback_status::lastfm::auth::{ClientIdentity, SessionKey};
use playback_status::status_backend::lastfm::{get_default_client_identity, Config};

#[test]
fn loose_matches_ignores_ascii_case() {
    assert!(loose_matches("YES", &["y", "yes", "true"]));
    assert!(loose_matches("y", &["y", "yes", "true"]));
    assert!(loose_matches("tRuE", &["y", "yes", "true"]));
    assert!(!loose_matches("yess", &["y", "yes", "true"]));
    assert!(!loose_matches("", &["y", "yes", "true"]));
    assert!(!loose_matches("yes", &[]));
    assert!(loose_matches("", &[""]));
    // Only ASCII letters are folded.
    assert!(!loose_matches("É", &["é"]));
    assert!(loose_matches("é", &["é"]));
    // '@' and '`' stand next to the letters and are not letters.
    assert!(!loose_matches("@", &["`"]));
    assert!(!loose_matches("[", &["{"]));
}

#[test]
fn boolish_answers() {
    for yes in ["y", "Y", "yes", "YES", "Yes\n", "  true  ", "\ttRUE\r\n", "\u{a0}y\u{3000}"] {
        assert_eq!(str_to_boolish(yes), Some(true), "{:?}", yes);
    }
    for no in ["n", "N", "no", "NO\n", " false", "False\n"] {
        assert_eq!(str_to_boolish(no), Some(false), "{:?}", no);
    }
    for neither in ["", "\n", "maybe", "ye s", "yes!", "1", "0", "oui", "t", "f", "y es"] {
        assert_eq!(str_to_boolish(neither), None, "{:?}", neither);
    }
}

#[test]
fn optional_answers() {
    assert_eq!(read_optional_answer(""), Answer::Skipped);
    assert_eq!(read_optional_answer("\n"), Answer::Skipped);
    assert_eq!(read_optional_answer("  \t \r\n"), Answer::Skipped);
    assert_eq!(read_optional_answer("y\n"), Answer::Given(true));
    assert_eq!(read_optional_answer("No\n"), Answer::Given(false));
    assert_eq!(read_optional_answer("perhaps\n"), Answer::Invalid);
}

fn config(enabled: bool) -> Config {
    Config {
        enabled,
        identity: ClientIdentity::new(
            "agent".to_string(),
            "0123456789abcdef0123456789abcdef",
            "fedcba9876543210fedcba9876543210",
        )
        .unwrap(),
        session_key: Some(SessionKey::new("session".to_string())),
    }
}

#[test]
fn enabling_an_existing_destination_keeps_its_credentials() {
    let mut existing = Some(config(false));
    assert_eq!(choose_lastfm(&mut existing, true), Choice::Settled);
    let after = existing.as_ref().unwrap();
    assert!(after.enabled);
    assert_eq!(after.session_key.as_ref().unwrap().as_str(), "session");
    assert_eq!(after.identity.user_agent(), "agent");
    assert_eq!(choose_lastfm(&mut existing, false), Choice::Settled);
    assert!(!existing.as_ref().unwrap().enabled);
}

#[test]
fn enabling_a_missing_destination_asks_for_authorization() {
    let mut missing: Option<Config> = None;
    assert_eq!(choose_lastfm(&mut missing, true), Choice::Authorize);
    assert!(missing.is_none());
    assert_eq!(choose_lastfm(&mut missing, false), Choice::Settled);
    assert!(missing.is_none());
}

#[test]
fn token_entry() {
    assert!(matches!(read_token_entry("cancel\n"), TokenEntry::Cancel));
    assert!(matches!(read_token_entry("cancel"), TokenEntry::Token("cance")));
    assert!(matches!(read_token_entry(""), TokenEntry::Token("")));
    assert!(matches!(read_token_entry("\n"), TokenEntry::Token("")));
    assert!(matches!(
        read_token_entry("01234567-89ab-cdef-0123-456789abcdef\n"),
        TokenEntry::Token("01234567-89ab-cdef-0123-456789abcdef")
    ));
    assert!(matches!(read_token_entry("Cancel\n"), TokenEntry::Token("Cancel")));
    assert!(matches!(read_token_entry("tokené"), TokenEntry::Token("token")));
}

#[test]
fn default_identity_is_built_in() {
    let identity = get_default_client_identity();
    assert_eq!(identity.user_agent(), "playback_status/0.1.0");
    assert_eq!(identity.get_key(), "d591a37a79ec4c3d4efe55379029b5b3");
    assert_eq!(identity.get_secret(), "20a069921b30039bd2601d955e3bce46");
}
