use jjwt::jj_view::{
    internal_ws_name, list_workspaces, nonblank_lines, parse_commit_line, parse_ref_lines, resolve_trunk,
    workspace_dir,
};
use jjwt::types::CoreError;

fn strings(v: &[&str]) -> Vec<String> {
    v.iter().map(|s| s.to_string()).collect()
}

#[test]
fn trunk_prefers_main_master_trunk_with_remote() {
    assert_eq!(resolve_trunk(&strings(&["a", "master", "main"]), &strings(&["master", "main"])), Some("main".into()));
    assert_eq!(resolve_trunk(&strings(&["a", "master", "main"]), &strings(&["master"])), Some("master".into()));
    assert_eq!(resolve_trunk(&strings(&["dev", "feat"]), &strings(&["feat"])), Some("feat".into()));
    assert_eq!(resolve_trunk(&strings(&["main"]), &strings(&[])), None);
}

#[test]
fn default_workspace_goes_by_trunk_name() {
    assert_eq!(internal_ws_name("main", Some("main")), "default");
    assert_eq!(internal_ws_name("feat", Some("main")), "feat");
    assert_eq!(internal_ws_name("main", None), "main");
}

#[test]
fn workspaces_are_listed_with_template_paths() {
    let ws = list_workspaces(&strings(&["default", "feat/x"]), Some("main"), "/src/repo", "{{ repo_path }}/../{{ repo }}.{{ branch | sanitize }}").unwrap();
    assert_eq!(ws.len(), 2);
    assert_eq!((ws[0].name.as_str(), ws[0].path.as_str()), ("main", "/src/repo"));
    assert_eq!((ws[1].name.as_str(), ws[1].path.as_str()), ("feat/x", "/src/repo/../repo.feat-x"));
    assert!(!ws[1].stale);
    assert!(matches!(list_workspaces(&strings(&["a"]), None, "/r", "{{ nope }}"), Err(CoreError::TemplateRender(_))));
    assert_eq!(workspace_dir("/r", "default", "{{ nope }}").unwrap(), "/r");
}

#[test]
fn bookmark_listing_is_split_into_local_and_remote() {
    let text = "main\t\ttrue\nmain\torigin\ttrue\nfeat\t\ttrue\ngone\t\tfalse\ngone\torigin\ttrue\nbad line\n";
    let (local, remote) = parse_ref_lines(text);
    assert_eq!(local, strings(&["main", "feat"]));
    assert_eq!(remote, strings(&["main", "gone"]));
}

#[test]
fn commit_line_is_read() {
    let c = parse_commit_line("kzyxwvut\t1000\tfalse\t12\t3\tAdd\tthing", 1600).unwrap();
    assert_eq!(c.commit_short, "kzyxwvut");
    assert_eq!(c.age_seconds, 600);
    assert!(!c.conflicts);
    assert_eq!((c.head_added, c.head_removed), (12, 3));
    assert_eq!(c.message_first_line, "Add\tthing");
    let future = parse_commit_line("k\t2000\ttrue\t0\t0\t", 1000).unwrap();
    assert_eq!(future.age_seconds, 0);
    assert!(future.conflicts);
    assert!(parse_commit_line("k\tx\tfalse\t0\t0\tm", 1).is_none());
    assert!(parse_commit_line("k\t1\tfalse\t0", 1).is_none());
}

#[test]
fn nonblank_lines_trims() {
    assert_eq!(nonblank_lines(" a \n\nb\n"), strings(&["a", "b"]));
}
