use crate_registry::credentials::{char_is_space, extract_credential};
use crate_registry::session::session_key;

#[test]
fn well_formed_header_yields_token() {
    assert_eq!(extract_credential("Bearer abc123").as_deref(), Some("abc123"));
}

#[test]
fn surrounding_whitespace_is_ignored() {
    assert_eq!(extract_credential("  Bearer   abc123  ").as_deref(), Some("abc123"));
}

#[test]
fn tab_separates_words_too() {
    assert_eq!(extract_credential("Bearer\tabc123").as_deref(), Some("abc123"));
}

#[test]
fn empty_value_yields_nothing() {
    assert_eq!(extract_credential(""), None);
    assert_eq!(extract_credential("   "), None);
}

#[test]
fn scheme_alone_yields_nothing() {
    assert_eq!(extract_credential("Bearer"), None);
}

#[test]
fn extra_segments_yield_nothing() {
    assert_eq!(extract_credential("Bearer abc123 extra"), None);
}

#[test]
fn wrong_scheme_yields_nothing() {
    assert_eq!(extract_credential("Token abc123"), None);
}

#[test]
fn scheme_match_is_case_sensitive() {
    assert_eq!(extract_credential("bearer abc123"), None);
    assert_eq!(extract_credential("BEARER abc123"), None);
}

#[test]
fn token_is_taken_verbatim() {
    assert_eq!(extract_credential("Bearer aB9_~+/=").as_deref(), Some("aB9_~+/="));
}

#[test]
fn space_classification_matches_unicode() {
    for c in [' ', '\t', '\n', '\r', '\u{000B}', '\u{000C}', '\u{0085}',
              '\u{00A0}', '\u{1680}', '\u{2003}', '\u{2028}', '\u{2029}',
              '\u{202F}', '\u{205F}', '\u{3000}'] {
        assert!(char_is_space(c), "{:?} should be whitespace", c);
        assert!(c.is_whitespace(), "{:?} should agree with std", c);
    }
    for c in ['a', 'Z', '0', '_', '~', '\u{200B}'] {
        assert!(!char_is_space(c), "{:?} should not be whitespace", c);
        assert!(!c.is_whitespace(), "{:?} should agree with std", c);
    }
}

#[test]
fn splitting_agrees_with_std_split_whitespace() {
    for value in ["Bearer abc123", " Bearer\t x ", "a b c", "", "  ", "one",
                  "\u{3000}Bearer\u{2028}tok\u{00A0}"] {
        let words: Vec<&str> = value.split_whitespace().collect();
        let expected = if words.len() == 2 && words[0] == "Bearer" {
            Some(words[1].to_string())
        } else {
            None
        };
        assert_eq!(extract_credential(value), expected, "header {:?}", value);
    }
}

#[test]
fn session_key_is_namespaced_token() {
    assert_eq!(session_key("abc123"), "sessions/abc123");
    assert_eq!(session_key(""), "sessions/");
}
