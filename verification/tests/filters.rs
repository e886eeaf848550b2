use jjwt::filters::codename::{codename, codename_filter};
use jjwt::filters::hash::short_hash;
use jjwt::filters::hash_port::hash_port;
use jjwt::filters::path_parts::{basename, dirname};
use jjwt::filters::sanitize::sanitize;
use jjwt::filters::sanitize_db::sanitize_db;
use jjwt::filters::sanitize_hash::sanitize_hash;

#[test]
fn codename_deterministic_for_same_input() {
    assert_eq!(codename("feature/auth", 2), codename("feature/auth", 2));
}

#[test]
fn one_word_is_noun_only() {
    let out = codename("anything", 1);

    assert!(!out.contains('-'));
}

#[test]
fn two_words_is_adjective_noun() {
    let out = codename("anything", 2);

    assert_eq!(out.matches('-').count(), 1);
}

#[test]
fn three_words_has_two_separators() {
    let out = codename("anything", 3);

    assert_eq!(out.matches('-').count(), 2);
}

#[test]
fn codename_filter_rejects_out_of_range_word_counts() {
    assert_eq!(
        codename_filter("x", Some(0)),
        Err("codename word count must be between 1 and 5".to_string())
    );
    assert_eq!(
        codename_filter("x", Some(6)),
        Err("codename word count must be between 1 and 5".to_string())
    );
    assert_eq!(codename_filter("x", None), Ok(codename("x", 2)));
    assert_eq!(codename_filter("x", Some(3)), Ok(codename("x", 3)));
}

#[test]
fn produces_three_chars() {
    let h = short_hash("anything");

    assert_eq!(h.len(), 3);
    assert!(h.chars().all(|c| c.is_ascii_alphanumeric()));
}

#[test]
fn hash_deterministic_for_same_input() {
    assert_eq!(short_hash("feature/auth"), short_hash("feature/auth"));
}

#[test]
fn differs_for_different_inputs() {
    assert_ne!(short_hash("a-b"), short_hash("a_b"));
}

#[test]
fn result_in_range() {
    for input in ["main", "feat/login", "", "a".repeat(1000).as_str()] {
        let port = hash_port(input);

        assert!((10000..=19999).contains(&port), "port {port} out of range for {input:?}");
    }
}

#[test]
fn deterministic() {
    assert_eq!(hash_port("my-branch"), hash_port("my-branch"));
}

#[test]
fn different_inputs_differ() {
    assert_ne!(hash_port("alpha"), hash_port("beta"));
}

#[test]
fn dirname_strips_last_component() {
    assert_eq!(dirname("/a/b/c"), "/a/b");
    assert_eq!(dirname("a/b/c"), "a/b");
}

#[test]
fn dirname_at_root_is_empty_or_root() {
    let out = dirname("/");

    assert!(out.is_empty() || out == "/");
}

#[test]
fn basename_keeps_last_component() {
    assert_eq!(basename("/a/b/c"), "c");
    assert_eq!(basename("a/b/c.txt"), "c.txt");
}

#[test]
fn basename_of_single_component_is_itself() {
    assert_eq!(basename("file"), "file");
}

#[test]
fn empty_returns_empty() {
    assert_eq!(dirname(""), "");
    assert_eq!(basename(""), "");
}

#[test]
fn dirname_and_basename_split_a_path() {
    let p = "/srv/app/main.rs";

    assert_eq!(format!("{}/{}", dirname(p), basename(p)), p);
}

#[test]
fn replaces_forward_slashes() {
    assert_eq!(sanitize("feat/login"), "feat-login");
}

#[test]
fn replaces_backslashes() {
    assert_eq!(sanitize("feat\\login"), "feat-login");
}

#[test]
fn replaces_mixed_slashes() {
    assert_eq!(sanitize("feat/ui\\modal"), "feat-ui-modal");
}

#[test]
fn leaves_other_characters_unchanged() {
    assert_eq!(sanitize("my-branch_name.v2"), "my-branch_name.v2");
}

#[test]
fn empty_input() {
    assert_eq!(sanitize(""), "");
}

#[test]
fn empty_in_empty_out() {
    assert_eq!(sanitize_db(""), "");
}

#[test]
fn lowercases_and_replaces_non_alphanumeric() {
    let out = sanitize_db("Feature/Auth-OAuth2");

    assert!(out.starts_with("feature_auth_oauth2_"));
    assert_eq!(out.len(), 23);
}

#[test]
fn prefixes_underscore_for_leading_digit() {
    let out = sanitize_db("123-bug-fix");

    assert!(out.starts_with("_123_bug_fix_"));
}

#[test]
fn collapses_consecutive_separators() {
    let out = sanitize_db("a---b");

    assert!(out.starts_with("a_b_"));
}

#[test]
fn truncates_long_input_within_48_chars() {
    let long = "a".repeat(100);
    let out = sanitize_db(&long);

    assert!(out.len() <= 48);
}

#[test]
fn distinguishes_colliding_inputs_via_hash() {
    assert_ne!(sanitize_db("a-b"), sanitize_db("a_b"));
}

#[test]
fn sanitize_db_ends_with_the_short_hash() {
    let out = sanitize_db("Feature/Auth-OAuth2");

    assert!(out.ends_with(&short_hash("Feature/Auth-OAuth2")));
}

#[test]
fn already_safe_passes_through_unchanged() {
    assert_eq!(sanitize_hash("simple-branch"), "simple-branch");
}

#[test]
fn unsafe_input_gets_hash_suffix() {
    let out = sanitize_hash("feature/auth");

    assert!(out.starts_with("feature-auth-"));
    assert_eq!(out.len(), "feature-auth-".len() + 3);
}

#[test]
fn empty_input_uses_empty_placeholder() {
    let out = sanitize_hash("");

    assert!(out.starts_with("_empty-"));
}

#[test]
fn distinguishes_colliding_inputs() {
    assert_ne!(sanitize_hash("a/b"), sanitize_hash("a-b"));
}
