use indexmap::IndexMap;
use jjwt::paths::path_inside;
use jjwt::plan::{
    plan_alias, plan_hook, plan_hook_show, plan_list, plan_prune, plan_relocate, plan_remove, plan_switch,
    trunk_rel, truncate_line,
};
use jjwt::types::{
    Action, AliasArgs, CoreError, DisplayHints, HookArgs, HookSource, MergedConfig, ObservedListState,
    ObservedPruneState, ObservedState, OutputFormat, Plan, PruneArgs, RelocateArgs, RemoveArgs, SourcedHookGroup,
    SwitchArgs, TrunkRel, Workspace,
};

fn ws(name: &str, path: &str) -> Workspace {
    Workspace { name: name.to_string(), path: path.to_string(), stale: false }
}

fn observed() -> ObservedState {
    ObservedState {
        repo_root: "/repo".to_string(),
        is_jj_repo: true,
        workspaces: vec![ws("default", "/repo"), ws("feat", "/repo.feat")],
        current_workspace: Some("feat".to_string()),
        target_path_exists: false,
        target_workspace_dirty: false,
        target_bookmark_merged: false,
        target_bookmark_exists: false,
        target_resolved_workspace: None,
        trunk_bookmark: Some("main".to_string()),
    }
}

fn switch_args(name: &str, create: bool) -> SwitchArgs {
    SwitchArgs {
        name: name.to_string(),
        create,
        rerun_hooks: false,
        no_hooks: false,
        execute: None,
        clobber: false,
        base: None,
        dry_run: false,
        format: OutputFormat::Text,
    }
}

fn remove_args() -> RemoveArgs {
    RemoveArgs {
        force: false,
        no_hooks: false,
        no_delete_branch: false,
        force_delete: false,
        dry_run: false,
        format: OutputFormat::Text,
    }
}

fn printed(p: &Plan) -> Vec<String> {
    p.actions
        .iter()
        .filter_map(|a| match a {
            Action::PrintLine(s) => Some(s.clone()),
            _ => None,
        })
        .collect()
}

fn group(entries: &[(&str, &str)]) -> IndexMap<String, String> {
    entries.iter().map(|(k, v)| (k.to_string(), v.to_string())).collect()
}

#[test]
fn truncate_line_no_op_when_short() {
    assert_eq!(truncate_line("hello", 10), "hello");
}

#[test]
fn truncate_line_exact_length() {
    assert_eq!(truncate_line("hello", 5), "hello");
}

#[test]
fn truncate_line_ascii_truncation() {
    assert_eq!(truncate_line("hello world", 8), "hello...");
}

#[test]
fn truncate_line_multibyte_utf8() {
    assert_eq!(truncate_line("äöüxyz", 5), "äö...");
}

#[test]
fn truncate_line_cjk() {
    assert_eq!(truncate_line("日本語テスト", 5), "日本...");
}

#[test]
fn truncate_line_emoji() {
    assert_eq!(truncate_line("🎉🎊🎈🎁🎀🎗️", 5), "🎉🎊...");
}

#[test]
fn truncate_line_max_less_than_three() {
    assert_eq!(truncate_line("hello", 2), "..");
    assert_eq!(truncate_line("hello", 1), ".");
    assert_eq!(truncate_line("hello", 0), "");
}

#[test]
fn truncate_line_uses_first_line() {
    assert_eq!(truncate_line("first\nsecond", 20), "first");
}

#[test]
fn truncate_line_drops_carriage_return() {
    assert_eq!(truncate_line("first\r\nsecond", 20), "first");
}

#[test]
fn trunk_rel_is_trunk() {
    assert_eq!(trunk_rel(0, 0), Some(TrunkRel::IsTrunk));
}

#[test]
fn trunk_rel_ancestor() {
    assert_eq!(trunk_rel(0, 5), Some(TrunkRel::Ancestor));
}

#[test]
fn trunk_rel_ahead() {
    assert_eq!(trunk_rel(3, 0), Some(TrunkRel::Ahead));
}

#[test]
fn trunk_rel_diverged() {
    assert_eq!(trunk_rel(2, 4), Some(TrunkRel::Diverged));
}

#[test]
fn switch_outside_repo_is_refused() {
    let mut obs = observed();

    obs.is_jj_repo = false;

    assert!(matches!(
        plan_switch(&MergedConfig::default(), &switch_args("feat", false), &obs),
        Err(CoreError::NotJjRepo)
    ));
}

#[test]
fn switch_existing_prints_the_path() {
    let plan = plan_switch(&MergedConfig::default(), &switch_args("feat", false), &observed()).unwrap();

    assert_eq!(printed(&plan), vec!["/repo.feat".to_string()]);
    assert_eq!(plan.actions.len(), 1);
}

#[test]
fn switch_existing_with_execute_prints_cd_and_exec() {
    let mut args = switch_args("feat", false);

    args.execute = Some("echo {{ branch }}".to_string());

    let plan = plan_switch(&MergedConfig::default(), &args, &observed()).unwrap();

    assert_eq!(printed(&plan), vec!["cd:/repo.feat".to_string(), "exec:echo feat".to_string()]);
}

#[test]
fn switch_existing_json_output() {
    let mut args = switch_args("feat", false);

    args.format = OutputFormat::Json;

    let plan = plan_switch(&MergedConfig::default(), &args, &observed()).unwrap();

    assert_eq!(printed(&plan), vec![r#"{"created":false,"name":"feat","path":"/repo.feat"}"#.to_string()]);
}

#[test]
fn switch_to_missing_workspace_is_refused() {
    let r = plan_switch(&MergedConfig::default(), &switch_args("nope", false), &observed());

    assert!(matches!(r, Err(CoreError::WorkspaceMissing(ref n)) if n == "nope"));
}

#[test]
fn switch_follows_trunk_to_default() {
    let mut obs = observed();

    obs.target_resolved_workspace = Some("default".to_string());

    let plan = plan_switch(&MergedConfig::default(), &switch_args("main", false), &obs).unwrap();

    assert_eq!(printed(&plan), vec!["/repo".to_string()]);
}

#[test]
fn switch_create_adds_workspace_and_bookmark() {
    let plan = plan_switch(&MergedConfig::default(), &switch_args("feat/x", true), &observed()).unwrap();

    match &plan.actions[0] {
        Action::JjWorkspaceAdd { name, path, revision } => {
            assert_eq!(name, "feat/x");
            assert_eq!(path, "/repo/../repo.feat-x");
            assert_eq!(revision.as_deref(), Some("main"));
        }
        other => panic!("unexpected {other:?}"),
    }
    assert!(matches!(&plan.actions[1], Action::JjBookmarkCreate { name, workspace } if name == "feat/x" && workspace == "feat/x"));
    assert!(matches!(&plan.actions[2], Action::JjWorkspaceUpdateStale { name } if name == "feat/x"));
    assert_eq!(printed(&plan), vec!["/repo/../repo.feat-x".to_string()]);
}

#[test]
fn switch_create_existing_name_is_refused() {
    let r = plan_switch(&MergedConfig::default(), &switch_args("feat", true), &observed());

    assert!(matches!(r, Err(CoreError::WorkspaceExists(ref n)) if n == "feat"));
}

#[test]
fn switch_create_on_occupied_path_needs_clobber() {
    let mut obs = observed();
    let mut cfg = MergedConfig::default();

    obs.target_path_exists = true;
    cfg.worktree_path_template = "/work/{{ branch }}".to_string();

    let r = plan_switch(&cfg, &switch_args("new", true), &obs);

    assert!(matches!(r, Err(CoreError::TargetPathOccupied(ref p)) if p == "/work/new"));

    let mut args = switch_args("new", true);

    args.clobber = true;

    let plan = plan_switch(&cfg, &args, &obs).unwrap();

    assert!(matches!(&plan.actions[0], Action::DeleteDir { path } if path == "/work/new"));
}

#[test]
fn switch_create_never_clobbers_inside_another_workspace() {
    let mut obs = observed();
    let mut cfg = MergedConfig::default();

    obs.target_path_exists = true;
    cfg.worktree_path_template = "{{ repo_path }}/{{ branch }}".to_string();

    let mut args = switch_args("inner", true);

    args.clobber = true;

    let r = plan_switch(&cfg, &args, &obs);

    assert!(matches!(r, Err(CoreError::TargetPathInsideOtherWorkspace(ref p)) if p == "/repo/inner"));
}

#[test]
fn switch_create_clobbers_sibling_of_default_workspace() {
    let mut obs = observed();

    obs.target_path_exists = true;

    let mut args = switch_args("new", true);

    args.clobber = true;

    let plan = plan_switch(&MergedConfig::default(), &args, &obs).unwrap();

    assert!(matches!(&plan.actions[0], Action::DeleteDir { path } if path == "/repo/../repo.new"));
}

#[test]
fn switch_create_refuses_clobber_reached_through_parent_marks() {
    let mut obs = observed();
    let mut cfg = MergedConfig::default();

    obs.target_path_exists = true;
    cfg.worktree_path_template = "{{ repo_path }}/x/../inner".to_string();

    let mut args = switch_args("inner", true);

    args.clobber = true;

    let r = plan_switch(&cfg, &args, &obs);

    assert!(matches!(r, Err(CoreError::TargetPathInsideOtherWorkspace(ref p)) if p == "/repo/x/../inner"));
}

#[test]
fn switch_runs_hooks_in_order() {
    let mut cfg = MergedConfig::default();

    cfg.hooks.pre_switch.push(SourcedHookGroup { source: HookSource::User, group: group(&[("a", "echo pre {{ branch }}")]) });
    cfg.hooks.post_switch.push(SourcedHookGroup { source: HookSource::Project, group: group(&[("b", "echo post")]) });

    let plan = plan_switch(&cfg, &switch_args("feat", false), &observed()).unwrap();

    assert_eq!(plan.actions.len(), 3);
    match &plan.actions[0] {
        Action::RunHook { name, raw_cmd, rendered_cmd, cwd, env, source } => {
            assert_eq!(name, "a");
            assert_eq!(raw_cmd, "echo pre {{ branch }}");
            assert_eq!(rendered_cmd, "echo pre feat");
            assert_eq!(cwd, "/repo.feat");
            assert_eq!(*source, HookSource::User);
            assert!(env.contains(&("JJWT_HOOK_TYPE".to_string(), "pre-switch".to_string())));
            assert!(env.contains(&("JJWT_HOOK_SOURCE".to_string(), "user".to_string())));
        }
        other => panic!("unexpected {other:?}"),
    }
    assert!(matches!(&plan.actions[2], Action::RunHook { name, source: HookSource::Project, .. } if name == "b"));

    let mut quiet = switch_args("feat", false);

    quiet.no_hooks = true;

    assert_eq!(plan_switch(&cfg, &quiet, &observed()).unwrap().actions.len(), 1);
}

#[test]
fn hook_template_error_stops_planning() {
    let mut cfg = MergedConfig::default();

    cfg.hooks.pre_switch.push(SourcedHookGroup { source: HookSource::User, group: group(&[("bad", "{{ unclosed")]) });

    assert!(matches!(
        plan_switch(&cfg, &switch_args("feat", false), &observed()),
        Err(CoreError::TemplateRender(_))
    ));
}

#[test]
fn remove_deletes_merged_bookmark() {
    let mut obs = observed();

    obs.target_bookmark_exists = true;
    obs.target_bookmark_merged = true;

    let plan = plan_remove(&MergedConfig::default(), "feat", &remove_args(), &obs).unwrap();

    assert!(matches!(&plan.actions[0], Action::JjWorkspaceForget { name } if name == "feat"));
    assert!(matches!(&plan.actions[1], Action::DeleteDir { path } if path == "/repo.feat"));
    assert!(matches!(&plan.actions[2], Action::JjBookmarkDelete { name } if name == "feat"));
    assert_eq!(plan.actions.len(), 3);
}

#[test]
fn remove_keeps_bookmark_when_asked() {
    let mut obs = observed();
    let mut args = remove_args();

    obs.target_bookmark_exists = true;
    obs.target_bookmark_merged = true;
    args.no_delete_branch = true;

    let plan = plan_remove(&MergedConfig::default(), "feat", &args, &obs).unwrap();

    assert_eq!(plan.actions.len(), 2);
}

#[test]
fn remove_unmerged_bookmark_is_refused() {
    let mut obs = observed();

    obs.target_bookmark_exists = true;

    let r = plan_remove(&MergedConfig::default(), "feat", &remove_args(), &obs);

    assert!(matches!(r, Err(CoreError::BookmarkUnmerged(ref n)) if n == "feat"));

    let mut args = remove_args();

    args.force_delete = true;

    let plan = plan_remove(&MergedConfig::default(), "feat", &args, &obs).unwrap();

    assert!(matches!(&plan.actions[2], Action::JjBookmarkDelete { .. }));

    let mut forced = remove_args();

    forced.force = true;

    let plan = plan_remove(&MergedConfig::default(), "feat", &forced, &obs).unwrap();

    assert_eq!(plan.actions.len(), 2);
}

#[test]
fn remove_dirty_workspace_is_refused() {
    let mut obs = observed();

    obs.target_workspace_dirty = true;

    assert!(matches!(
        plan_remove(&MergedConfig::default(), "feat", &remove_args(), &obs),
        Err(CoreError::WorkspaceDirty(_))
    ));
}

#[test]
fn remove_missing_workspace_is_refused() {
    assert!(matches!(
        plan_remove(&MergedConfig::default(), "gone", &remove_args(), &observed()),
        Err(CoreError::WorkspaceMissing(_))
    ));
}

#[test]
fn remove_in_background_and_json() {
    let mut cfg = MergedConfig::default();
    let mut args = remove_args();

    cfg.background_remove = Some(true);
    args.format = OutputFormat::Json;

    let plan = plan_remove(&cfg, "feat", &args, &observed()).unwrap();

    assert!(matches!(&plan.actions[1], Action::DeleteDirBackground { path } if path == "/repo.feat"));
    assert_eq!(printed(&plan), vec![r#"{"bookmark_deleted":false,"name":"feat","path":"/repo.feat"}"#.to_string()]);
}

#[test]
fn alias_renders_and_runs_in_current_workspace() {
    let mut cfg = MergedConfig::default();

    cfg.aliases.insert("greet".to_string(), "echo {{ branch }} {{ args | join(' ') }}".to_string());

    let args = AliasArgs { name: "greet".to_string(), forwarded: vec!["a".to_string(), "b".to_string()] };
    let plan = plan_alias(&cfg, &args, &observed()).unwrap();

    match &plan.actions[0] {
        Action::Exec { rendered_cmd, cwd, env } => {
            assert_eq!(rendered_cmd, "echo feat a b");
            assert_eq!(cwd, "/repo.feat");
            assert!(env.is_empty());
        }
        other => panic!("unexpected {other:?}"),
    }
}

#[test]
fn unknown_alias_is_refused() {
    let args = AliasArgs { name: "nope".to_string(), forwarded: vec![] };

    assert!(matches!(plan_alias(&MergedConfig::default(), &args, &observed()), Err(CoreError::AliasNotFound(_))));
}

#[test]
fn manual_hook_runs_the_one_match() {
    let mut cfg = MergedConfig::default();

    cfg.hooks.post_start.push(SourcedHookGroup { source: HookSource::User, group: group(&[("db", "start {{ hook_type }}")]) });

    let args = HookArgs { name: "db".to_string(), current_workspace: "feat".to_string(), vars: vec![] };
    let plan = plan_hook(&cfg, &args, &observed()).unwrap();

    assert!(matches!(&plan.actions[0], Action::RunHook { rendered_cmd, .. } if rendered_cmd == "start post-start"));
}

#[test]
fn manual_hook_not_found_or_ambiguous() {
    let mut cfg = MergedConfig::default();
    let args = HookArgs { name: "db".to_string(), current_workspace: "feat".to_string(), vars: vec![] };

    assert!(matches!(plan_hook(&cfg, &args, &observed()), Err(CoreError::HookNotFound(_))));

    cfg.hooks.pre_start.push(SourcedHookGroup { source: HookSource::User, group: group(&[("db", "a")]) });
    cfg.hooks.post_start.push(SourcedHookGroup { source: HookSource::User, group: group(&[("db", "b")]) });

    assert!(matches!(plan_hook(&cfg, &args, &observed()), Err(CoreError::HookAmbiguous(_))));
}

#[test]
fn relocate_renames_workspace_and_directory() {
    let args = RelocateArgs {
        old_name: "feat".to_string(),
        new_name: "feat2".to_string(),
        rename_bookmark: true,
        format: OutputFormat::Text,
    };
    let plan = plan_relocate(&MergedConfig::default(), &args, &observed()).unwrap();

    assert!(matches!(&plan.actions[1], Action::RenameDir { from, to } if from == "/repo.feat" && to == "/repo/../repo.feat2"));
    assert!(matches!(&plan.actions[2], Action::JjBookmarkRename { .. }));
    assert_eq!(printed(&plan), vec!["Relocated 'feat' → 'feat2'".to_string()]);
}

fn prune_state() -> ObservedPruneState {
    ObservedPruneState {
        repo_root: "/repo".to_string(),
        is_jj_repo: true,
        current_workspace: Some("b".to_string()),
        workspaces: vec![ws("default", "/repo"), ws("a", "/repo.a"), ws("b", "/repo.b"), ws("c", "/repo.c")],
        workspace_status: vec![
            ("default".to_string(), true, true, false),
            ("a".to_string(), true, true, false),
            ("b".to_string(), true, true, false),
            ("c".to_string(), true, false, false),
        ],
    }
}

#[test]
fn prune_removes_only_merged_non_current_workspaces() {
    let args = PruneArgs { dry_run: false, no_hooks: false, format: OutputFormat::Text };
    let plan = plan_prune(&MergedConfig::default(), &args, &prune_state()).unwrap();

    assert_eq!(plan.actions.len(), 4);
    assert_eq!(printed(&plan), vec!["Pruned 1 workspace(s): a".to_string()]);
}

#[test]
fn prune_dry_run_and_json() {
    let dry = PruneArgs { dry_run: true, no_hooks: false, format: OutputFormat::Text };
    let plan = plan_prune(&MergedConfig::default(), &dry, &prune_state()).unwrap();

    assert_eq!(printed(&plan), vec!["Would prune 1 workspace(s): a".to_string()]);

    let json = PruneArgs { dry_run: true, no_hooks: false, format: OutputFormat::Json };
    let plan = plan_prune(&MergedConfig::default(), &json, &prune_state()).unwrap();

    assert_eq!(printed(&plan), vec![r#"{"dry_run":true,"pruned":["a"]}"#.to_string()]);

    let mut none = prune_state();

    none.workspace_status.truncate(1);

    let plan = plan_prune(&MergedConfig::default(), &dry, &none).unwrap();

    assert_eq!(printed(&plan), vec!["Nothing to prune.".to_string()]);
}

#[test]
fn list_statusline_outside_and_inside() {
    let obs = ObservedListState {
        repo_root: "/repo".to_string(),
        is_jj_repo: true,
        current_workspace: None,
        rows: vec![],
        extra_bookmark_names: vec!["b1".to_string()],
        extra_remote_only_names: vec![],
        full: false,
    };
    let hints = DisplayHints { styled: false, term_width: None };
    let plan = plan_list(&MergedConfig::default(), &obs, &hints, OutputFormat::Statusline).unwrap();

    assert_eq!(printed(&plan), vec!["@? | 1 ws".to_string()]);
}

#[test]
fn hook_show_lists_nothing_without_hooks() {
    let plan = plan_hook_show(&MergedConfig::default(), false, None, OutputFormat::Text, None).unwrap();

    assert_eq!(printed(&plan), vec!["No hooks configured.".to_string()]);
}

#[test]
fn hook_show_text_table_and_filter() {
    let mut cfg = MergedConfig::default();

    cfg.hooks.pre_start.push(SourcedHookGroup { source: HookSource::User, group: group(&[("install", "npm install")]) });
    cfg.hooks.post_start.push(SourcedHookGroup { source: HookSource::Project, group: group(&[("db", "make db")]) });

    let plan = plan_hook_show(&cfg, false, None, OutputFormat::Text, None).unwrap();
    let text = printed(&plan).join("\n");
    let lines: Vec<&str> = text.lines().collect();

    assert_eq!(lines[0], "Type        Name     Source   Template");
    assert_eq!(lines[1], "----------  -------  -------  --------");
    assert_eq!(lines[2], "pre-start   install  user     npm install");
    assert_eq!(lines[3], "post-start  db       project  make db");

    let plan = plan_hook_show(&cfg, false, None, OutputFormat::Statusline, Some(HookSource::Project)).unwrap();

    assert_eq!(printed(&plan), vec!["1 hook(s) configured".to_string()]);
}

#[test]
fn path_inside_resolves_parent_marks() {
    assert!(!path_inside("/r/../r.feat", "/r"));
    assert!(path_inside("/r/x/../inner", "/r"));
    assert!(!path_inside("/r/x/..", "/r"));
    assert!(path_inside("/r/a/b", "/r/a"));
    assert!(path_inside("/../r", "/"));
    assert!(path_inside("/../r", "/r/.."));
}
