use jjwt::highlight::{bash_token_style, highlight_bash_with_gutter, TokenPaint};

#[test]
fn plain_has_no_ansi() {
    let out = highlight_bash_with_gutter("echo hi", false);

    assert_eq!(out, "  echo hi");
    assert!(!out.contains('\x1b'));
}

#[test]
fn plain_gutters_every_line() {
    let out = highlight_bash_with_gutter("line1\nline2", false);

    assert_eq!(out, "  line1\n  line2");
}

#[test]
fn trailing_newlines_trimmed() {
    let out = highlight_bash_with_gutter("echo hi\n\n", false);

    assert_eq!(out, "  echo hi");
}

#[test]
fn crlf_is_normalized() {
    assert_eq!(highlight_bash_with_gutter("a\r\nb\r\n", false), "  a\n  b");
}

#[test]
fn colored_contains_ansi_and_all_lines_guttered() {
    let out = highlight_bash_with_gutter("echo hi\nls -la", true);

    assert!(out.contains('\x1b'));
    assert_eq!(out.lines().count(), 2);
    assert!(out.starts_with("\u{1b}[107m \u{1b}[0m "));
}

#[test]
fn token_styles() {
    assert!(bash_token_style("function") == Some(TokenPaint::Blue));
    assert!(bash_token_style("comment").is_none());
}
