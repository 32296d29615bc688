use forge_downloader::dict::Dict;
use forge_downloader::forge_installer_profile::v2::{replace_tokens, MalformedTemplate};

fn tokens(pairs: &[(&str, &str)]) -> Dict<String> {
    let mut d: Dict<String> = Dict::new();
    for (k, v) in pairs {
        d.insert(k.to_string(), v.to_string());
    }
    d
}

#[test]
fn token_is_substituted() {
    let t = tokens(&[("A", "x")]);
    assert_eq!(replace_tokens(&t, "pre{A}post").unwrap(), "prexpost");
}

#[test]
fn escapes_yield_literal_characters() {
    let t = tokens(&[]);
    assert_eq!(replace_tokens(&t, "pre \\{escaped\\}").unwrap(), "pre {escaped}");
    assert_eq!(replace_tokens(&t, "a\\\\b").unwrap(), "a\\b");
}

#[test]
fn quoted_text_is_not_looked_up() {
    let t = tokens(&[]);
    assert_eq!(replace_tokens(&t, "'{not a token}'").unwrap(), "{not a token}");
}

#[test]
fn quoted_text_honors_escapes() {
    let t = tokens(&[]);
    assert_eq!(replace_tokens(&t, "'a\\'b'").unwrap(), "a'b");
}

#[test]
fn plain_text_is_copied() {
    let t = tokens(&[("A", "x")]);
    assert_eq!(replace_tokens(&t, "no tokens here").unwrap(), "no tokens here");
    assert_eq!(replace_tokens(&t, "").unwrap(), "");
}

#[test]
fn unmatched_brace_is_malformed() {
    let t = tokens(&[("A", "x")]);
    assert!(matches!(replace_tokens(&t, "pre{A"), Err(MalformedTemplate::Unclosed('{'))));
}

#[test]
fn unmatched_quote_is_malformed() {
    let t = tokens(&[]);
    assert!(matches!(replace_tokens(&t, "it's open"), Err(MalformedTemplate::Unclosed('\''))));
}

#[test]
fn trailing_escape_is_malformed() {
    let t = tokens(&[]);
    assert!(matches!(replace_tokens(&t, "bad\\"), Err(MalformedTemplate::BadEscape)));
}

#[test]
fn missing_key_is_malformed() {
    let t = tokens(&[("A", "x")]);
    match replace_tokens(&t, "{B}") {
        Err(MalformedTemplate::MissingKey(k)) => assert_eq!(k, "B"),
        _ => panic!("expected a missing key"),
    }
}

#[test]
fn several_tokens_in_one_template() {
    let t = tokens(&[("SIDE", "client"), ("VERSION", "1.20.1")]);
    assert_eq!(
        replace_tokens(&t, "{SIDE}-{VERSION}/'{raw}'").unwrap(),
        "client-1.20.1/{raw}"
    );
}

#[test]
fn later_insert_overwrites_earlier() {
    let mut t = tokens(&[("A", "first")]);
    t.insert("A".to_string(), "second".to_string());
    assert_eq!(replace_tokens(&t, "{A}").unwrap(), "second");
    assert_eq!(t.len(), 1);
}

#[test]
fn dict_get_and_contains() {
    let t = tokens(&[("A", "x"), ("B", "y")]);
    assert_eq!(t.get("A").unwrap(), "x");
    assert_eq!(t.get("B").unwrap(), "y");
    assert!(t.get("C").is_none());
    assert!(t.contains_key("A"));
    assert!(!t.contains_key("C"));
    assert_eq!(t.len(), 2);
}
