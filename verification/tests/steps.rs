use indexmap::IndexMap;
use jjwt::config_check::{config_check_report, generation_binary};
use jjwt::copy_ignored::{is_excluded, tracked_paths};
use jjwt::hookgroup::{hook_groups_of, HookRepr};
use jjwt::observe::target_path;
use jjwt::plan::{parse_hook_vars, workspace_render_context};
use jjwt::quoting::{describe_command, diff_command, quote_command_line};
use jjwt::template::render;
use jjwt::trash::trash_expired;
use jjwt::types::{
    CommitConfig, CommitGenerationConfig, CoreError, HookSource, ListConfig, MergedConfig, SourcedHookGroup,
};

fn strings(v: &[&str]) -> Vec<String> {
    v.iter().map(|s| s.to_string()).collect()
}

#[test]
fn excluded_paths_are_metadata_below_root() {
    assert!(is_excluded("/ws/.jj/repo/store", "/ws"));
    assert!(is_excluded("/ws/sub/.git/config", "/ws"));
    assert!(!is_excluded("/ws/src/main.rs", "/ws"));
    assert!(!is_excluded("/other/.jj", "/ws"));
    assert!(!is_excluded("/ws/.jjx", "/ws"));
    assert!(is_excluded("/ws/.jj", "/ws"));
}

#[test]
fn tracked_paths_trims_and_skips_blank_lines() {
    assert_eq!(tracked_paths("src/a.rs\n  b.txt \n\n\r\nc\n"), strings(&["src/a.rs", "b.txt", "c"]));
    assert!(tracked_paths("").is_empty());
}

#[test]
fn trash_entries_expire_by_stamp() {
    assert!(trash_expired("1000", 90_000_000, 86_400_000));
    assert!(!trash_expired("3600000", 90_000_000, 86_400_000));
    assert!(trash_expired("3599999", 90_000_000, 86_400_000));
    assert!(!trash_expired("not-a-stamp", 90_000_000, 86_400_000));
    assert!(!trash_expired("", 90_000_000, 86_400_000));
    assert!(trash_expired("+5", 90_000_000, 86_400_000));
    assert!(!trash_expired("5", 1000, 86_400_000));
    assert!(!trash_expired("99999999999999999999999", 90_000_000, 86_400_000));
}

#[test]
fn for_each_command_line_quotes_every_token() {
    assert_eq!(quote_command_line(&strings(&["echo", "it's", ""])), "'echo' 'it'\\''s' ''");
}

#[test]
fn diff_command_quotes_revset_and_extra_args() {
    assert_eq!(diff_command(&strings(&["--stat", "a b"])), "jj diff -r 'trunk()..@' '--stat' 'a b'");
    assert_eq!(diff_command(&vec![]), "jj diff -r 'trunk()..@'");
    assert_eq!(diff_command(&strings(&[""])), "jj diff -r 'trunk()..@' ''");
    assert_eq!(diff_command(&strings(&["it's"])), "jj diff -r 'trunk()..@' 'it'\\''s'");
}

#[test]
fn describe_command_quotes_message() {
    assert_eq!(describe_command("Fix it's bug"), "jj describe -m 'Fix it'\\''s bug'");
}

#[test]
fn hook_vars_split_at_first_equals() {
    let r = parse_hook_vars(&strings(&["a=1", "noeq", "b=x=y", "=v"]));
    assert_eq!(
        r,
        vec![
            ("a".to_string(), "1".to_string()),
            ("b".to_string(), "x=y".to_string()),
            ("".to_string(), "v".to_string())
        ]
    );
}

#[test]
fn workspace_context_renders_names() {
    let ctx = workspace_render_context("feat", "/repo.feat", "/src/repo");
    assert_eq!(
        render("{{ branch }} {{ worktree_name }} {{ repo }} {{ cwd }}", &ctx).unwrap(),
        "feat repo.feat repo /repo.feat"
    );
}

#[test]
fn target_path_joins_rendered_template() {
    assert_eq!(target_path("/src/repo", "feat/x", "{{ repo_path }}/../{{ repo }}.{{ branch | sanitize }}").unwrap(), "/src/repo/../repo.feat-x");
    assert_eq!(target_path("/src/repo", "a", "/abs/{{ branch }}").unwrap(), "/abs/a");
    assert!(matches!(target_path("/r", "a", "{{ nope }}"), Err(CoreError::TemplateRender(_))));
}

fn group(entries: &[(&str, &str)]) -> IndexMap<String, String> {
    entries.iter().map(|(k, v)| (k.to_string(), v.to_string())).collect()
}

#[test]
fn config_check_all_good() {
    let cfg = MergedConfig::default();
    let r = config_check_report(&cfg, true);
    assert_eq!(r.lines, strings(&["[ok]   All checks passed"]));
    assert_eq!((r.errors, r.warnings), (0, 0));
    assert_eq!(generation_binary(&cfg), None);
}

#[test]
fn config_check_reports_each_bad_template() {
    let mut cfg = MergedConfig::default();
    cfg.hooks.pre_start.push(SourcedHookGroup { source: HookSource::Project, group: group(&[("deps", "{{ oops")]) });
    cfg.aliases.insert("go".into(), "{% if %}".into());
    cfg.list = Some(ListConfig { url: "ok {{ branch }}".into(), summary: None });
    cfg.commit = Some(CommitConfig {
        generation: Some(CommitGenerationConfig {
            command: Some("  llm-tool -p".into()),
            template: Some("{{ x".into()),
            template_append: None,
        }),
    });
    assert_eq!(generation_binary(&cfg), Some("llm-tool".to_string()));
    let r = config_check_report(&cfg, false);
    assert_eq!(r.errors, 3);
    assert_eq!(r.warnings, 1);
    assert!(r.lines[0].starts_with("[err]  Hook 'deps' (pre-start, project): invalid template: "));
    assert!(r.lines[1].starts_with("[err]  Alias 'go': invalid template: "));
    assert_eq!(r.lines[2], "[warn] [commit.generation].command: 'llm-tool' not found on PATH");
    assert!(r.lines[3].starts_with("[err]  [commit.generation].template: invalid: "));
    assert_eq!(r.lines[4], "\n3 error(s), 1 warning(s)");
    assert_eq!(r.lines.len(), 5);
}

#[test]
fn hook_slot_shapes_become_groups() {
    assert!(hook_groups_of(None).is_empty());

    let g = hook_groups_of(Some(HookRepr::Scalar("npm install".into())));
    assert_eq!(g.len(), 1);
    assert_eq!(g[0].get("default").map(String::as_str), Some("npm install"));
    assert_eq!(g[0].len(), 1);

    assert!(hook_groups_of(Some(HookRepr::Table(IndexMap::new()))).is_empty());

    let t = group(&[("a", "x"), ("b", "y")]);
    let g = hook_groups_of(Some(HookRepr::Table(t.clone())));
    assert_eq!(g, vec![t.clone()]);

    let p = vec![t.clone(), group(&[("c", "z")])];
    assert_eq!(hook_groups_of(Some(HookRepr::Pipeline(p.clone()))), p);
}

#[test]
fn trash_entry_lives_exactly_max_age() {
    assert!(!trash_expired("1000", 1000 + 86_400_000, 86_400_000));
    assert!(trash_expired("1000", 1001 + 86_400_000, 86_400_000));
}
