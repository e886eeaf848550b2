use jjwt::format::{
    format_age, format_list_json, format_list_table, format_remove_json, format_statusline, format_switch_json,
    render_status_glyphs,
};
use jjwt::types::{AheadBehind, CiStatus, LineDiff, ListRow, ListRowKind, StatusFlags, TrunkRel};

fn flags() -> StatusFlags {
    StatusFlags {
        has_changes: false,
        modified: false,
        untracked: false,
        stale: false,
        conflicts: false,
        has_remote: false,
        vs_trunk: None,
    }
}

fn row(name: &str, current: bool) -> ListRow {
    ListRow {
        name: name.to_string(),
        path: format!("/repo.{name}"),
        display_path: String::new(),
        kind: ListRowKind::Workspace,
        url: String::new(),
        is_current: current,
        is_default: false,
        status: flags(),
        head_diff: LineDiff { added: 3, removed: 1 },
        vs_trunk: AheadBehind { ahead: 2, behind: 0 },
        commit: "abcd1234".to_string(),
        age: "5m".to_string(),
        message: "msg".to_string(),
        ci_status: CiStatus::Absent,
        summary: String::new(),
    }
}

#[test]
fn age_buckets() {
    assert_eq!(format_age(-1), "future");
    assert_eq!(format_age(0), "now");
    assert_eq!(format_age(59), "now");
    assert_eq!(format_age(60), "1m");
    assert_eq!(format_age(3600), "1h");
    assert_eq!(format_age(86400 * 2), "2d");
    assert_eq!(format_age(604800), "1w");
    assert_eq!(format_age(2592000 * 3), "3mo");
    assert_eq!(format_age(31536000 * 2), "2y");
}

#[test]
fn status_glyphs_fill_every_position() {
    let mut f = flags();

    assert_eq!(render_status_glyphs(&f), "       ");

    f.has_changes = true;
    f.vs_trunk = Some(TrunkRel::Ahead);

    assert_eq!(render_status_glyphs(&f), "+   ↑  ");

    f.conflicts = true;
    f.stale = true;
    f.has_remote = true;

    assert_eq!(render_status_glyphs(&f), "+  ✘↑| ");
    assert_eq!(render_status_glyphs(&f).chars().count(), 7);
}

#[test]
fn statusline_for_current_row() {
    let rows = vec![row("a", false), row("b", true)];

    assert_eq!(format_statusline(&rows, Some("b")), "@b +3-1 ↑2↓0 | 2 ws");
    assert_eq!(format_statusline(&rows, None), "@? | 2 ws");
    assert_eq!(format_statusline(&rows, Some("zz")), "@? | 2 ws");
}

#[test]
fn switch_and_remove_json_envelopes() {
    assert_eq!(format_switch_json("a", "/p", true), r#"{"created":true,"name":"a","path":"/p"}"#);
    assert_eq!(format_remove_json("a", "/p", false), r#"{"bookmark_deleted":false,"name":"a","path":"/p"}"#);
}

#[test]
fn list_json_has_one_object_per_row() {
    let out = format_list_json(&vec![row("a", true)]);
    let v: serde_json::Value = serde_json::from_str(&out).unwrap();

    assert_eq!(v[0]["name"], "a");
    assert_eq!(v[0]["kind"], "workspace");
    assert_eq!(v[0]["url"], serde_json::Value::Null);
    assert_eq!(v[0]["head_diff"]["added"], 3);
    assert_eq!(v[0]["vs_trunk"]["ahead"], 2);
    assert_eq!(v[0]["ci_status"], "none");
}

#[test]
fn plain_table_without_width() {
    let rows = vec![row("a", true)];
    let out = format_list_table(&rows, false, None, false);
    let lines: Vec<&str> = out.lines().collect();

    assert_eq!(lines[0], "  Branch  Status  HEAD±  main↕  Path            Message");
    assert_eq!(lines[1], "@ a               +3 -1     ↑2  ./.worktrees/a  msg");
    assert_eq!(lines[2], "");
    assert_eq!(lines[3], "○ Showing 1 worktree, 1 ahead");
}

#[test]
fn full_table_shows_metadata_columns() {
    let rows = vec![row("a", false)];
    let out = format_list_table(&rows, false, None, true);

    assert!(out.lines().next().unwrap().contains("Commit"));
    assert!(out.contains("abcd1234"));
}

#[test]
fn narrow_table_fits_the_terminal() {
    let mut r = row("a-rather-long-branch-name", false);

    r.message = "a very long message that will not fit into a narrow terminal at all".to_string();

    let out = format_list_table(&vec![r], false, Some(40), false);

    for line in out.lines().take(2) {
        assert!(line.chars().count() <= 40, "{line:?}");
    }
}

#[test]
fn styled_table_wraps_in_escapes() {
    let out = format_list_table(&vec![row("a", true)], true, None, false);

    assert!(out.contains("\u{1b}[1mBranch\u{1b}[0m"));
    assert!(out.contains("\u{1b}[2m○ Showing 1 worktree, 1 ahead\u{1b}[0m"));
}

#[test]
fn wide_terminal_hides_no_column() {
    let rows = vec![row("a", true)];
    let wide = format_list_table(&rows, false, Some(200), false);
    let natural = format_list_table(&rows, false, None, false);

    for (w, n) in wide.lines().zip(natural.lines()).take(2) {
        assert_eq!(w.trim_end(), n.trim_end());
    }
}
