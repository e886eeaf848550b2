use jjwt::ci::{aggregate_github_checks, ci_statuses, github_statuses, gitlab_statuses, GithubCheck, GithubPr, GitlabMr};
use jjwt::completion::{
    completion_index, contains_arg, escape_index, filter_candidates, render_candidates, suppress_with_create,
};
use jjwt::exec::{
    action_effects, command_failure, denied_message, hook_failure, run_start, run_step, Effect, RunEvent, RunStep,
};
use jjwt::observe::{
    build_list_rows, collect_extra_bookmarks, next_target_query, pick_current_workspace, resolve_target_workspace,
    TargetQuery,
};
use jjwt::shortcuts::{
    classify_shortcut, create_conflict, parse_u32, previous_to_record, resolve_with, should_auto_create, Shortcut,
};
use jjwt::types::{Action, CiStatus, CommitInfo, HookSource, ListOptions, Workspace};

fn check(conclusion: Option<&str>, status: Option<&str>) -> GithubCheck {
    GithubCheck { conclusion: conclusion.map(String::from), status: status.map(String::from) }
}

#[test]
fn github_checks_aggregate() {
    assert_eq!(aggregate_github_checks(&vec![check(Some("SUCCESS"), Some("COMPLETED"))]), CiStatus::Pass);
    assert_eq!(
        aggregate_github_checks(&vec![check(Some("SUCCESS"), None), check(None, Some("IN_PROGRESS"))]),
        CiStatus::Pending
    );
    assert_eq!(
        aggregate_github_checks(&vec![check(None, Some("QUEUED")), check(Some("FAILURE"), None)]),
        CiStatus::Fail
    );
}

#[test]
fn forge_statuses() {
    let prs = vec![
        GithubPr { head_ref: "a".into(), checks: None },
        GithubPr { head_ref: "b".into(), checks: Some(vec![check(Some("ERROR"), None)]) },
    ];
    let st = github_statuses(&prs);

    assert_eq!(st[0].1, CiStatus::Absent);
    assert_eq!(st[1].1, CiStatus::Fail);

    let mrs = vec![
        GitlabMr { source_branch: "a".into(), pipeline: Some(Some("running".into())) },
        GitlabMr { source_branch: "b".into(), pipeline: Some(None) },
        GitlabMr { source_branch: "c".into(), pipeline: None },
        GitlabMr { source_branch: "d".into(), pipeline: Some(Some("success".into())) },
    ];
    let st = gitlab_statuses(&mrs);

    assert_eq!(st.iter().map(|s| s.1).collect::<Vec<_>>(), vec![
        CiStatus::Pending,
        CiStatus::Absent,
        CiStatus::Absent,
        CiStatus::Pass
    ]);

    let bookmarks = vec!["d".to_string(), "x".to_string()];
    let out = ci_statuses(&bookmarks, Some(st));

    assert_eq!(out, vec![("d".to_string(), CiStatus::Pass), ("x".to_string(), CiStatus::Absent)]);
    assert_eq!(ci_statuses(&bookmarks, None)[0].1, CiStatus::Absent);
}

#[test]
fn shortcut_classification() {
    assert!(matches!(classify_shortcut("^"), Ok(Shortcut::Trunk)));
    assert!(matches!(classify_shortcut("@"), Ok(Shortcut::Current)));
    assert!(matches!(classify_shortcut("-"), Ok(Shortcut::Previous)));
    assert!(matches!(classify_shortcut("pr:42"), Ok(Shortcut::PullRequest(42))));
    assert!(matches!(classify_shortcut("mr:7"), Ok(Shortcut::MergeRequest(7))));
    assert!(matches!(classify_shortcut("feature"), Ok(Shortcut::Plain)));
    assert_eq!(classify_shortcut("pr:x").err(), Some("invalid PR number: x".to_string()));
    assert_eq!(classify_shortcut("mr:").err(), Some("invalid MR number: ".to_string()));
}

#[test]
fn u32_parsing() {
    assert_eq!(parse_u32("+12"), Some(12));
    assert_eq!(parse_u32("4294967295"), Some(u32::MAX));
    assert_eq!(parse_u32("4294967296"), None);
    assert_eq!(parse_u32(""), None);
    assert_eq!(parse_u32("1 "), None);
}

#[test]
fn shortcut_resolution_and_creation() {
    assert_eq!(resolve_with("^", &Shortcut::Trunk, Some("main".into()), None, None, None), Ok("main".into()));
    assert_eq!(
        resolve_with("^", &Shortcut::Trunk, None, None, None, None),
        Err("`^` requires a trunk bookmark; none found".into())
    );
    assert_eq!(
        resolve_with("-", &Shortcut::Previous, None, None, None, None),
        Err("no previous workspace recorded yet".into())
    );
    assert_eq!(resolve_with("x", &Shortcut::Plain, None, None, None, None), Ok("x".into()));
    assert_eq!(
        create_conflict("@", true),
        Some("`@` is a shortcut to an existing workspace and cannot be combined with --create".into())
    );
    assert_eq!(create_conflict("@", false), None);
    assert!(should_auto_create(false, true, "feat"));
    assert!(should_auto_create(false, false, "pr:1"));
    assert!(!should_auto_create(true, true, "pr:1"));
    assert!(!should_auto_create(false, false, "feat"));
    assert_eq!(previous_to_record(Some("a".into()), "b"), Some("a".into()));
    assert_eq!(previous_to_record(Some("a".into()), "a"), None);
}

#[test]
fn current_workspace_is_the_deepest() {
    let ws = vec![("default".to_string(), "/repo".to_string()), ("inner".to_string(), "/repo/inner".to_string())];

    assert_eq!(pick_current_workspace("/repo/inner/src", &ws), Some("inner".to_string()));
    assert_eq!(pick_current_workspace("/repo/src", &ws), Some("default".to_string()));
    assert_eq!(pick_current_workspace("/elsewhere", &ws), None);
}

fn w(name: &str) -> Workspace {
    Workspace { name: name.to_string(), path: format!("/{name}"), stale: false }
}

#[test]
fn trunk_target_resolves_to_default() {
    let ws = vec![w("default"), w("feat")];

    assert_eq!(resolve_target_workspace(&ws, "main", Some("main")), Some("default".to_string()));
    assert_eq!(resolve_target_workspace(&ws, "feat", Some("feat")), None);
    assert_eq!(resolve_target_workspace(&ws, "main", None), None);
}

#[test]
fn list_rows_from_queries() {
    let ws = vec![w("a"), w("b")];
    let infos = vec![(
        "a".to_string(),
        CommitInfo {
            commit_short: "c1".into(),
            age_seconds: 5,
            message_first_line: "m".into(),
            conflicts: true,
            head_added: 1,
            head_removed: 2,
        },
    )];
    let counts = vec![("b".to_string(), (3u32, 4u32))];
    let rows = build_list_rows(&ws, &infos, &counts, &vec![Some((true, false)), None], &vec!["b".to_string()]);

    assert_eq!(rows[0].details.commit_short, "c1");
    assert!(rows[0].details.conflicts && rows[0].details.modified);
    assert_eq!((rows[0].ahead, rows[0].behind), (0, 0));
    assert!(!rows[0].has_remote_bookmark);
    assert_eq!((rows[1].ahead, rows[1].behind), (3, 4));
    assert!(rows[1].has_remote_bookmark && !rows[1].details.modified);
}

#[test]
fn extra_bookmarks() {
    let opts = ListOptions { include_bookmarks: true, include_remotes: true, full: false };
    let (extra, remote) = collect_extra_bookmarks(
        &opts,
        &vec!["a".to_string(), "x".to_string()],
        &vec!["x".to_string(), "r".to_string()],
        &vec![w("a")],
    );

    assert_eq!(extra, vec!["x".to_string()]);
    assert_eq!(remote, vec!["r".to_string()]);

    let none = ListOptions { include_bookmarks: false, include_remotes: false, full: false };

    assert!(collect_extra_bookmarks(&none, &vec!["x".to_string()], &vec![], &vec![]).0.is_empty());
}

#[test]
fn background_delete_moves_to_trash_then_removes() {
    let effects = action_effects(&Action::DeleteDirBackground { path: "/w".into() }, "/repo", 1234);

    assert!(matches!(&effects[0], Effect::CreateDir { path } if path == "/repo/.jj/.jjwt-trash"));
    assert!(matches!(&effects[1], Effect::Rename { from, to } if from == "/w" && to == "/repo/.jj/.jjwt-trash/1234"));
    assert!(matches!(&effects[2], Effect::SpawnDetached { program, args } if program == "rm" && args == &vec!["-rf".to_string(), "/repo/.jj/.jjwt-trash/1234".to_string()]));
}

#[test]
fn project_hooks_need_approval() {
    let hook = Action::RunHook {
        name: "h".into(),
        raw_cmd: "x".into(),
        rendered_cmd: "y".into(),
        cwd: "/w".into(),
        env: vec![],
        source: HookSource::Project,
    };
    let effects = action_effects(&hook, "/repo", 0);

    assert!(matches!(&effects[0], Effect::Approve { hook_name, command } if hook_name == "h" && command == "y"));
    assert!(matches!(&effects[1], Effect::RunHook { command, .. } if command == "y"));
}

#[test]
fn failure_messages() {
    assert_eq!(hook_failure("h", 0, "c", "e"), None);
    assert_eq!(hook_failure("h", 2, "c", "e"), Some("hook 'h' failed (status 2): c\nstderr: e".into()));
    assert_eq!(command_failure(-1, "c"), Some("command failed (status -1): c".into()));
    assert_eq!(denied_message("h"), "hook 'h' denied by user");
}

fn strings(v: &[&str]) -> Vec<String> {
    v.iter().map(|s| s.to_string()).collect()
}

#[test]
fn completion_words_and_candidates() {
    assert_eq!(escape_index(&strings(&["jjwt", "--", "switch"])), 2);
    assert_eq!(escape_index(&strings(&["jjwt", "switch"])), 2);
    assert!(contains_arg(&strings(&["a", "-c"]), "-c"));
    assert!(suppress_with_create(&strings(&["switch", "--create", "x"])));
    assert!(!suppress_with_create(&strings(&["switch", "x"])));
    assert_eq!(completion_index(Some("3"), 5), 3);
    assert_eq!(completion_index(Some("x"), 5), 4);
    assert_eq!(completion_index(None, 5), 4);

    let cands = vec![("feat".to_string(), None), ("main".to_string(), Some("trunk".to_string()))];

    assert_eq!(filter_candidates(cands.clone(), "bash", Some("fe"), false).len(), 1);
    assert_eq!(filter_candidates(cands.clone(), "zsh", Some("fe"), false).len(), 2);
    assert!(filter_candidates(cands.clone(), "zsh", None, true).is_empty());
    assert_eq!(render_candidates(&cands, "zsh", None), "feat\nmain:trunk");
    assert_eq!(render_candidates(&cands, "bash", Some(" ")), "feat main");
    assert_eq!(render_candidates(&cands, "fish", None), "feat\nmain\ttrunk");
}

#[test]
fn target_queries_ask_only_what_applies() {
    let ws = vec![Workspace { name: "feat".into(), path: "/r.feat".into(), stale: false }];

    assert_eq!(next_target_query(&ws, "feat", None, None, None), Some(TargetQuery::WorkspaceDirty));
    assert_eq!(next_target_query(&ws, "feat", Some(true), None, None), Some(TargetQuery::BookmarkExists));
    assert_eq!(next_target_query(&ws, "feat", Some(true), Some(true), None), Some(TargetQuery::BookmarkMerged));
    assert_eq!(next_target_query(&ws, "feat", Some(true), Some(true), Some(false)), None);
    assert_eq!(next_target_query(&ws, "new", None, None, None), Some(TargetQuery::BookmarkExists));
    assert_eq!(next_target_query(&ws, "new", None, Some(false), None), None);
}

#[test]
fn run_performs_effects_in_plan_order() {
    let (s, step) = run_start(2);

    assert_eq!(step, RunStep::Expand { action: 0 });

    let (s, step) = run_step(s, RunEvent::Expanded { count: 2 });

    assert_eq!(step, RunStep::Perform { action: 0, effect: 0 });

    let (s, step) = run_step(s, RunEvent::Performed { failed: false });

    assert_eq!(step, RunStep::Perform { action: 0, effect: 1 });

    let (s, step) = run_step(s, RunEvent::Performed { failed: false });

    assert_eq!(step, RunStep::Expand { action: 1 });

    let (s, step) = run_step(s, RunEvent::Expanded { count: 0 });

    assert_eq!(step, RunStep::Finish);

    let (_, step) = run_step(s, RunEvent::Performed { failed: false });

    assert_eq!(step, RunStep::Finish);
}

#[test]
fn run_stops_at_the_first_failure() {
    let (s, _) = run_start(3);
    let (s, _) = run_step(s, RunEvent::Expanded { count: 3 });
    let (_, step) = run_step(s, RunEvent::Performed { failed: true });

    assert_eq!(step, RunStep::Stop);

    let (_, step) = run_start(0);

    assert_eq!(step, RunStep::Finish);
}
