use jjwt::config_loader::{
    choose_config, config_candidates, identity_from_git_config, normalize_remote_url, parse_origin_url, repo_root_basename, user_config_dir_from,
};
use jjwt::shell::{wrapper_script, ShellKind, FISH_WRAPPER, POSIX_WRAPPER};

#[test]
fn normalize_ssh_scp_url() {
    assert_eq!(normalize_remote_url("git@github.com:owner/repo.git"), Some("github.com/owner/repo".into()));
}

#[test]
fn normalize_https_url() {
    assert_eq!(normalize_remote_url("https://github.com/owner/repo.git"), Some("github.com/owner/repo".into()));
}

#[test]
fn normalize_https_url_no_suffix() {
    assert_eq!(normalize_remote_url("https://github.com/owner/repo"), Some("github.com/owner/repo".into()));
}

#[test]
fn normalize_ssh_scheme_url() {
    assert_eq!(normalize_remote_url("ssh://git@github.com/owner/repo.git"), Some("github.com/owner/repo".into()));
}

#[test]
fn normalize_garbage_returns_none() {
    assert_eq!(normalize_remote_url("not-a-url"), None);
}

#[test]
fn normalize_trims_and_handles_plain_ssh_and_missing_colon() {
    assert_eq!(normalize_remote_url("  ssh://host/a/b.git \n"), Some("host/a/b".into()));
    assert_eq!(normalize_remote_url("git@host-without-colon"), None);
}

#[test]
fn parse_origin_url_from_config() {
    let config = r#"
[core]
  repositoryformatversion = 0
[remote "origin"]
  url = git@github.com:owner/repo.git
  fetch = +refs/heads/*:refs/remotes/origin/*
[remote "upstream"]
  url = https://github.com/other/repo.git
"#;

    assert_eq!(parse_origin_url(config), Some("git@github.com:owner/repo.git".into()));
}

#[test]
fn parse_origin_url_missing() {
    let config = r#"
[core]
  repositoryformatversion = 0
[remote "upstream"]
  url = https://github.com/other/repo.git
"#;

    assert_eq!(parse_origin_url(config), None);
}

#[test]
fn parse_origin_url_ignores_other_keys_and_crlf() {
    let config = "[remote \"origin\"]\r\n  urlx =nope\r\n  url=  https://h/o/r  \r\n";

    assert_eq!(parse_origin_url(config), Some("https://h/o/r".into()));
}

#[test]
fn basename_identity() {
    assert_eq!(repo_root_basename("/home/me/project"), Some("project".into()));
    assert_eq!(repo_root_basename("/"), None);
}

#[test]
fn identity_prefers_normalized_origin() {
    let cfg = "[core]\n\tbare = true\n[remote \"origin\"]\n\turl = git@github.com:owner/repo.git\n";
    assert_eq!(identity_from_git_config(cfg, "/home/u/proj"), Some("github.com/owner/repo".to_string()));
}

#[test]
fn identity_falls_back_to_basename() {
    assert_eq!(identity_from_git_config("[core]\n\tbare = true\n", "/home/u/proj"), Some("proj".to_string()));
    let odd = "[remote \"origin\"]\n\turl = /srv/git/proj\n";
    assert_eq!(identity_from_git_config(odd, "/home/u/other"), Some("other".to_string()));
}

#[test]
fn user_config_dir_choice() {
    assert_eq!(user_config_dir_from(Some("/x"), Some("/h")), Some("/x/jjwt".to_string()));
    assert_eq!(user_config_dir_from(Some(""), Some("/h")), Some("/h/.config/jjwt".to_string()));
    assert_eq!(user_config_dir_from(None, Some("/h/")), Some("/h/.config/jjwt".to_string()));
    assert_eq!(user_config_dir_from(None, None), None);
}

#[test]
fn shell_wrappers_by_kind() {
    assert!(wrapper_script(ShellKind::Fish).starts_with("function wt\n"));
    assert!(wrapper_script(ShellKind::Bash).starts_with("wt() {\n"));
    assert_eq!(wrapper_script(ShellKind::Zsh), wrapper_script(ShellKind::Bash));
    assert!(POSIX_WRAPPER.contains("cd:*)   __wt_cd=${line#cd:} ;;"));
    assert!(FISH_WRAPPER.ends_with("end\nend\n"));
}

#[test]
fn config_candidates_walk_up_to_the_root() {
    assert_eq!(
        config_candidates("/a/b"),
        vec!["/a/b/.config/wt.toml".to_string(), "/a/.config/wt.toml".to_string(), "/.config/wt.toml".to_string()]
    );
    assert_eq!(config_candidates("a"), vec!["a/.config/wt.toml".to_string(), ".config/wt.toml".to_string()]);
}

#[test]
fn choose_config_prefers_override_then_nearest_existing() {
    let cands = config_candidates("/a/b");

    assert_eq!(choose_config(Some("/x.toml"), &cands, &vec![true, true, true]), Some("/x.toml".to_string()));
    assert_eq!(choose_config(None, &cands, &vec![false, true, true]), Some("/a/.config/wt.toml".to_string()));
    assert_eq!(choose_config(None, &cands, &vec![false, false, false]), None);
    assert_eq!(choose_config(None, &cands, &vec![false]), None);
}
