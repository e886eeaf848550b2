use jjwt::quoting::{posix_quote, shell_escape};

#[test]
fn quotes_simple_tokens() {
    assert_eq!(posix_quote("hello"), "'hello'");
}

#[test]
fn escapes_embedded_single_quotes() {
    assert_eq!(posix_quote("a'b"), "'a'\\''b'");
}

#[test]
fn empty_becomes_pair_of_quotes() {
    assert_eq!(posix_quote(""), "''");
}

#[test]
fn shell_escape_only_quotes_when_needed() {
    assert_eq!(shell_escape("plain-token_1.rs"), "plain-token_1.rs");
    assert_eq!(shell_escape("two words"), "'two words'");
    assert_eq!(shell_escape("it's"), "'it'\\''s'");
    assert_eq!(shell_escape("$HOME"), "'$HOME'");
}
