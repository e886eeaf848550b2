//! Planning of workspace operations: each command becomes a sequence of
//! actions computed from configuration and observed state alone.
use vstd::prelude::*;
use crate::filters::path_parts::{file_name, spec_file_name};
use crate::hookgroup::{map_get_index, map_len, map_entries};
use crate::json::{items_view, json_pretty_text, json_text, members_view, object, text_array, write_json, JsonValue, JsonView};
use crate::paths::{
    comps_prefix, path_components, path_eq, path_inside, path_join, path_strip_prefix,
    resolved_components,
    spec_path_join, spec_strip_prefix,
};
use crate::strmap::StrMap;
use crate::template::{render, render_result};
use crate::format::{
    age_text, format_age, format_list_json, format_list_table, format_remove_json, format_statusline,
    list_json, remove_json, statusline_text, table_text,
};
use crate::hookgroup::{lookup, map_get};
use crate::text::{chars_of, concat, newline_at, push_str, dec, fmt_uint, join, join_strings, str_eq, string_of};
use crate::types::{
    actions_view, opt_view, or_else, pairs_view, Action, ActionView, AheadBehind, AliasArgs, CiStatus,
    ContextView, CoreError, DisplayHints, ErrView, error_message, LineDiff, ListRow, ListRowKind, ObservedListRow,
    ObservedListState, StatusFlags, Entries, HookArgs, HookGroup, HookSource, MergedConfig, MergedView,
    ObservedPruneState, ObservedState, OutputFormat, Plan, PruneArgs, RelocateArgs, RemoveArgs,
    RenderContext, SourcedHookGroup, SwitchArgs, TrunkRel, Workspace, sourced_view,
    hook_type_name,
};

verus! {

/// Outcome of a planning step: actions, or the error that stops planning.
pub type Step = Result<Seq<ActionView>, ErrView>;

/// `b` run after `a`: the actions of both, or the first error.
pub open spec fn chain(a: Step, b: Step) -> Step {
    match a {
        Err(e) => Err(e),
        Ok(x) => match b {
            Err(e) => Err(e),
            Ok(y) => Ok(x + y),
        },
    }
}

/// What a plan-building function returns, as a step.
pub open spec fn plan_step(r: Result<Plan, CoreError>) -> Step {
    match r {
        Ok(p) => Ok(p.view()),
        Err(e) => Err(e.view()),
    }
}

/// The context a hook template is rendered in.
pub open spec fn hook_context(
    branch: Seq<char>,
    ws_path: Seq<char>,
    repo_root: Seq<char>,
    hook_type: Seq<char>,
    hook_name: Seq<char>,
) -> ContextView {
    ContextView {
        branch,
        worktree_path: Some(ws_path),
        worktree_name: spec_file_name(ws_path),
        repo: spec_file_name(repo_root),
        repo_path: Some(repo_root),
        cwd: Some(ws_path),
        hook_type: Some(hook_type),
        hook_name: Some(hook_name),
        args: seq![],
        vars: seq![],
        vars_state: Map::empty(),
    }
}

/// Environment variables handed to a hook process.
pub open spec fn hook_env_view(
    workspace: Seq<char>,
    ws_path: Seq<char>,
    hook_type: Seq<char>,
    hook_name: Seq<char>,
    source: HookSource,
) -> Seq<(Seq<char>, Seq<char>)> {
    seq![
        ("JJWT_WORKSPACE"@, workspace),
        ("JJWT_WORKSPACE_PATH"@, ws_path),
        ("JJWT_HOOK_TYPE"@, hook_type),
        ("JJWT_HOOK_NAME"@, hook_name),
        ("JJWT_HOOK_SOURCE"@, source.name()),
    ]
}

/// The action one hook entry gives, or its render error.
pub open spec fn hook_entry(
    name: Seq<char>,
    tmpl: Seq<char>,
    hook_type: Seq<char>,
    branch: Seq<char>,
    ws_path: Seq<char>,
    repo_root: Seq<char>,
    source: HookSource,
) -> Result<ActionView, ErrView> {
    match render_result(tmpl, hook_context(branch, ws_path, repo_root, hook_type, name)) {
        Ok(r) => Ok(
            ActionView::RunHook {
                name,
                raw_cmd: tmpl,
                rendered_cmd: r,
                cwd: ws_path,
                env: hook_env_view(branch, ws_path, hook_type, name, source),
                source,
            },
        ),
        Err(e) => Err(ErrView::TemplateRender(e)),
    }
}

/// The actions of the entries of one group, in order.
pub open spec fn entries_actions(
    es: Entries,
    source: HookSource,
    hook_type: Seq<char>,
    branch: Seq<char>,
    ws_path: Seq<char>,
    repo_root: Seq<char>,
) -> Step
    decreases es.len(),
{
    if es.len() == 0 {
        Ok(seq![])
    } else {
        match hook_entry(es[0].0, es[0].1, hook_type, branch, ws_path, repo_root, source) {
            Err(e) => Err(e),
            Ok(a) => chain(
                Ok(seq![a]),
                entries_actions(es.skip(1), source, hook_type, branch, ws_path, repo_root),
            ),
        }
    }
}

/// The actions of the groups of a hook slot, in order.
pub open spec fn groups_actions(
    gs: Seq<(HookSource, Entries)>,
    hook_type: Seq<char>,
    branch: Seq<char>,
    ws_path: Seq<char>,
    repo_root: Seq<char>,
) -> Step
    decreases gs.len(),
{
    if gs.len() == 0 {
        Ok(seq![])
    } else {
        chain(
            entries_actions(gs[0].1, gs[0].0, hook_type, branch, ws_path, repo_root),
            groups_actions(gs.skip(1), hook_type, branch, ws_path, repo_root),
        )
    }
}

/// The hook actions of a slot, or none when hooks are off.
pub open spec fn hooks_step(
    run: bool,
    gs: Seq<(HookSource, Entries)>,
    hook_type: Seq<char>,
    branch: Seq<char>,
    ws_path: Seq<char>,
    repo_root: Seq<char>,
) -> Step {
    if run {
        groups_actions(gs, hook_type, branch, ws_path, repo_root)
    } else {
        Ok(seq![])
    }
}

proof fn lemma_chain_assoc(a: Step, b: Step, c: Step)
    ensures
        chain(chain(a, b), c) == chain(a, chain(b, c)),
{
    match (a, b, c) {
        (Ok(x), Ok(y), Ok(z)) => {
            assert(x + y + z =~= x + (y + z));
        },
        _ => {},
    }
}

proof fn lemma_chain_empty(a: Step)
    ensures
        chain(Ok(seq![]), a) == a,
        chain(a, Ok(seq![])) == a,
{
    match a {
        Ok(x) => {
            assert(seq![] + x =~= x);
            assert(x + seq![] =~= x);
        },
        _ => {},
    }
}

fn hook_env(workspace: &str, ws_path: &str, hook_type: &str, hook_name: &str, source: HookSource) -> (r: Vec<(String, String)>)
    ensures
        pairs_view(r@) == hook_env_view(workspace@, ws_path@, hook_type@, hook_name@, source),
{
    let mut v: Vec<(String, String)> = Vec::new();
    v.push(("JJWT_WORKSPACE".to_owned(), workspace.to_owned()));
    v.push(("JJWT_WORKSPACE_PATH".to_owned(), ws_path.to_owned()));
    v.push(("JJWT_HOOK_TYPE".to_owned(), hook_type.to_owned()));
    v.push(("JJWT_HOOK_NAME".to_owned(), hook_name.to_owned()));
    v.push(("JJWT_HOOK_SOURCE".to_owned(), source.to_string()));
    assert(pairs_view(v@) =~= hook_env_view(workspace@, ws_path@, hook_type@, hook_name@, source));
    v
}

fn render_ctx(branch: &str, ws_path: &str, repo_root: &str, hook_type: &str, hook_name: &str) -> (r: RenderContext)
    ensures
        r.view() == hook_context(branch@, ws_path@, repo_root@, hook_type@, hook_name@),
{
    let r = RenderContext {
        branch: branch.to_owned(),
        worktree_path: Some(ws_path.to_owned()),
        worktree_name: file_name(ws_path),
        repo: file_name(repo_root),
        repo_path: Some(repo_root.to_owned()),
        cwd: Some(ws_path.to_owned()),
        hook_type: Some(hook_type.to_owned()),
        hook_name: Some(hook_name.to_owned()),
        args: Vec::new(),
        vars: Vec::new(),
        vars_state: StrMap::new(),
    };
    assert(r.view().args =~= Seq::<Seq<char>>::empty());
    assert(r.view().vars =~= Seq::<(Seq<char>, Seq<char>)>::empty());
    assert(r.view().vars_state =~= Map::<Seq<char>, Seq<char>>::empty());
    assert(r.view() =~= hook_context(branch@, ws_path@, repo_root@, hook_type@, hook_name@));
    r
}

fn render_hook_group(
    out: &mut Vec<Action>,
    group: &HookGroup,
    source: HookSource,
    hook_type: &str,
    branch: &str,
    ws_path: &str,
    repo_root: &str,
) -> (r: Result<(), CoreError>)
    ensures
        match entries_actions(map_entries(*group), source, hook_type@, branch@, ws_path@, repo_root@) {
            Ok(a) => r is Ok && actions_view(final(out)@) == actions_view(old(out)@) + a,
            Err(e) => r matches Err(x) && x.view() == e,
        },
{
    let n = map_len(group);
    let ghost es = map_entries(*group);
    let ghost base = actions_view(out@);
    proof {
        assert(es.skip(0) =~= es);
        assert(actions_view(out@).skip(base.len() as int) =~= seq![]);
        assert(base + seq![] =~= base);
        lemma_chain_empty(entries_actions(es, source, hook_type@, branch@, ws_path@, repo_root@));
    }
    let mut i: usize = 0;
    while i < n
        invariant
            i <= n,
            n == es.len(),
            es == map_entries(*group),
            ({
                let done = actions_view(out@).skip(base.len() as int);
                &&& actions_view(out@) == base + done
                &&& entries_actions(es, source, hook_type@, branch@, ws_path@, repo_root@) == chain(
                    Ok(done),
                    entries_actions(es.skip(i as int), source, hook_type@, branch@, ws_path@, repo_root@),
                )
            }),
        decreases n - i,
    {
        let ghost done = actions_view(out@).skip(base.len() as int);
        let ghost rest = es.skip(i as int);
        assert(rest[0] == es[i as int]);
        assert(rest.skip(1) =~= es.skip(i + 1));
        match map_get_index(group, i) {
            Some((name, tmpl)) => {
                let ctx = render_ctx(branch, ws_path, repo_root, hook_type, name.as_str());
                match render(tmpl.as_str(), &ctx) {
                    Ok(rendered) => {
                        let ghost before = out@;
                        out.push(Action::RunHook {
                            name: name.clone(),
                            raw_cmd: tmpl.clone(),
                            rendered_cmd: rendered,
                            cwd: ws_path.to_owned(),
                            env: hook_env(branch, ws_path, hook_type, name.as_str(), source),
                            source,
                        });
                        let ghost a = out@.last().view();
                        assert(actions_view(out@) =~= actions_view(before).push(a));
                        assert(actions_view(out@).skip(base.len() as int) =~= done.push(a));
                        proof {
                            lemma_chain_assoc(
                                Ok(done),
                                Ok(seq![a]),
                                entries_actions(es.skip(i + 1), source, hook_type@, branch@, ws_path@, repo_root@),
                            );
                            assert(done + seq![a] =~= done.push(a));
                        }
                    },
                    Err(e) => {
                        return Err(e);
                    },
                }
            },
            None => {},
        }
        i = i + 1;
    }
    assert(es.skip(n as int) =~= Seq::<(Seq<char>, Seq<char>)>::empty());
    assert(actions_view(out@).skip(base.len() as int) + seq![] =~= actions_view(out@).skip(base.len() as int));
    Ok(())
}

fn groups_hook_actions(
    out: &mut Vec<Action>,
    groups: &[SourcedHookGroup],
    hook_type: &str,
    branch: &str,
    ws_path: &str,
    repo_root: &str,
) -> (r: Result<(), CoreError>)
    ensures
        match groups_actions(sourced_view(groups@), hook_type@, branch@, ws_path@, repo_root@) {
            Ok(a) => r is Ok && actions_view(final(out)@) == actions_view(old(out)@) + a,
            Err(e) => r matches Err(x) && x.view() == e,
        },
{
    let ghost gs = sourced_view(groups@);
    let ghost base = actions_view(out@);
    proof {
        assert(gs.skip(0) =~= gs);
        assert(actions_view(out@).skip(base.len() as int) =~= seq![]);
        assert(base + seq![] =~= base);
        lemma_chain_empty(groups_actions(gs, hook_type@, branch@, ws_path@, repo_root@));
    }
    let mut i: usize = 0;
    while i < groups.len()
        invariant
            i <= groups@.len(),
            gs == sourced_view(groups@),
            ({
                let done = actions_view(out@).skip(base.len() as int);
                &&& actions_view(out@) == base + done
                &&& groups_actions(gs, hook_type@, branch@, ws_path@, repo_root@) == chain(
                    Ok(done),
                    groups_actions(gs.skip(i as int), hook_type@, branch@, ws_path@, repo_root@),
                )
            }),
        decreases groups@.len() - i,
    {
        let ghost done = actions_view(out@).skip(base.len() as int);
        let ghost rest = gs.skip(i as int);
        assert(rest[0] == gs[i as int]);
        assert(rest.skip(1) =~= gs.skip(i + 1));
        let ghost before = actions_view(out@);
        match render_hook_group(out, &groups[i].group, groups[i].source, hook_type, branch, ws_path, repo_root) {
            Ok(()) => {
                proof {
                    let a = entries_actions(gs[i as int].1, gs[i as int].0, hook_type@, branch@, ws_path@, repo_root@)->Ok_0;
                    lemma_chain_assoc(
                        Ok(done),
                        Ok(a),
                        groups_actions(gs.skip(i + 1), hook_type@, branch@, ws_path@, repo_root@),
                    );
                    assert(actions_view(out@).skip(base.len() as int) =~= done + a);
                }
            },
            Err(e) => {
                return Err(e);
            },
        }
        i = i + 1;
    }
    assert(gs.skip(groups@.len() as int) =~= Seq::<(HookSource, Entries)>::empty());
    assert(actions_view(out@).skip(base.len() as int) + seq![] =~= actions_view(out@).skip(base.len() as int));
    Ok(())
}

impl Plan {
    /// Render the hooks of `groups` and append them, unless `run` is false
    /// (`--no-hooks`).
    fn extend_hooks(
        &mut self,
        run: bool,
        groups: &[SourcedHookGroup],
        hook_type: &str,
        branch: &str,
        ws_path: &str,
        repo_root: &str,
    ) -> (r: Result<(), CoreError>)
        ensures
            match hooks_step(run, sourced_view(groups@), hook_type@, branch@, ws_path@, repo_root@) {
                Ok(a) => r is Ok && final(self).view() == old(self).view() + a,
                Err(e) => r matches Err(x) && x.view() == e,
            },
    {
        if run {
            groups_hook_actions(&mut self.actions, groups, hook_type, branch, ws_path, repo_root)
        } else {
            assert(old(self).view() + seq![] =~= old(self).view());
            Ok(())
        }
    }
}


/// The result of one step before the rest: the step's error, or its
/// actions followed by the rest.
proof fn lemma_chain_step(done: Seq<ActionView>, h: Step, rest: Step)
    ensures
        h is Err ==> chain(Ok(done), chain(h, rest)) == h,
        h is Ok ==> chain(Ok(done), chain(h, rest)) == chain(Ok(done + h->Ok_0), rest),
{
    if h is Ok {
        lemma_chain_assoc(Ok(done), h, rest);
    }
}

/// Position of the first workspace named `name` at or after `from`, or -1.
pub open spec fn ws_from(ws: Seq<Workspace>, name: Seq<char>, from: int) -> int
    decreases ws.len() - from,
{
    if from < 0 || from >= ws.len() {
        -1
    } else if ws[from].name@ == name {
        from
    } else {
        ws_from(ws, name, from + 1)
    }
}

/// Position of the first workspace named `name`, or -1.
pub open spec fn ws_pos(ws: Seq<Workspace>, name: Seq<char>) -> int {
    ws_from(ws, name, 0)
}

/// Where a name lies among workspaces, when it lies anywhere.
pub proof fn lemma_ws_from(ws: Seq<Workspace>, name: Seq<char>, from: int)
    requires
        0 <= from,
    ensures
        ws_from(ws, name, from) == -1 || (from <= ws_from(ws, name, from) < ws.len()
            && ws[ws_from(ws, name, from)].name@ == name),
        ws_from(ws, name, from) == -1 <==> forall|i: int| from <= i < ws.len() ==> ws[i].name@ != name,
    decreases ws.len() - from,
{
    if from < ws.len() {
        lemma_ws_from(ws, name, from + 1);
    }
}

/// The first workspace named `name`.
fn find_workspace(ws: &Vec<Workspace>, name: &str) -> (r: Option<usize>)
    ensures
        match r {
            Some(i) => i < ws@.len() && i as int == ws_pos(ws@, name@),
            None => ws_pos(ws@, name@) == -1,
        },
{
    proof {
        lemma_ws_from(ws@, name@, 0);
    }
    let mut i: usize = 0;
    while i < ws.len()
        invariant
            i <= ws@.len(),
            ws_from(ws@, name@, i as int) == ws_pos(ws@, name@),
        decreases ws@.len() - i,
    {
        if str_eq(ws[i].name.as_str(), name) {
            return Some(i);
        }
        i = i + 1;
    }
    None
}

/// Whether path `p` really lies strictly inside path `q`: compared
/// component by component after resolving `..` in both.
pub open spec fn nested_in(p: Seq<char>, q: Seq<char>) -> bool {
    resolved_components(p) != resolved_components(q) && comps_prefix(
        resolved_components(p),
        resolved_components(q),
    )
}

/// Whether path `p` lies strictly inside one of the workspaces.
pub open spec fn inside_other(p: Seq<char>, ws: Seq<Workspace>) -> bool {
    exists|i: int| 0 <= i < ws.len() && #[trigger] nested_in(p, ws[i].path@)
}

fn inside_other_workspace(p: &str, ws: &Vec<Workspace>) -> (r: bool)
    ensures
        r == inside_other(p@, ws@),
{
    let mut i: usize = 0;
    while i < ws.len()
        invariant
            i <= ws@.len(),
            forall|j: int| 0 <= j < i ==> !#[trigger] nested_in(p@, ws@[j].path@),
        decreases ws@.len() - i,
    {
        if path_inside(p, ws[i].path.as_str()) {
            assert(nested_in(p@, ws@[i as int].path@));
            return true;
        }
        i = i + 1;
    }
    false
}

/// The context a workspace path template is rendered in.
pub open spec fn path_context(name: Seq<char>, root: Seq<char>) -> ContextView {
    ContextView {
        branch: name,
        worktree_path: None,
        worktree_name: None,
        repo: spec_file_name(root),
        repo_path: Some(root),
        cwd: None,
        hook_type: None,
        hook_name: None,
        args: seq![],
        vars: seq![],
        vars_state: Map::empty(),
    }
}

/// The directory of workspace `name`: the repository root for `default`,
/// else the worktree-path template rendered and joined onto the root.
pub open spec fn ws_path_result(root: Seq<char>, name: Seq<char>, template: Seq<char>) -> Result<Seq<char>, ErrView> {
    if name == "default"@ {
        Ok(root)
    } else {
        match render_result(template, path_context(name, root)) {
            Ok(r) => Ok(spec_path_join(root, r)),
            Err(e) => Err(ErrView::TemplateRender(e)),
        }
    }
}

/// Compute the on-disk path for a workspace by rendering the worktree-path
/// template.
pub(crate) fn workspace_path(root: &str, name: &str, template: &str) -> (r: Result<String, CoreError>)
    ensures
        match r {
            Ok(p) => ws_path_result(root@, name@, template@) == Ok::<Seq<char>, ErrView>(p@),
            Err(e) => ws_path_result(root@, name@, template@) == Err::<Seq<char>, ErrView>(e.view()),
        },
{
    if str_eq(name, "default") {
        return Ok(root.to_owned());
    }
    let ctx = RenderContext {
        branch: name.to_owned(),
        worktree_path: None,
        worktree_name: None,
        repo: file_name(root),
        repo_path: Some(root.to_owned()),
        cwd: None,
        hook_type: None,
        hook_name: None,
        args: Vec::new(),
        vars: Vec::new(),
        vars_state: StrMap::new(),
    };
    assert(ctx.view().args =~= Seq::<Seq<char>>::empty());
    assert(ctx.view().vars =~= Seq::<(Seq<char>, Seq<char>)>::empty());
    assert(ctx.view().vars_state =~= Map::<Seq<char>, Seq<char>>::empty());
    assert(ctx.view() =~= path_context(name@, root@));
    match render(template, &ctx) {
        Ok(rendered) => Ok(path_join(root, rendered.as_str())),
        Err(e) => Err(e),
    }
}

/// The text of an optional string slice.
pub open spec fn opt_str(s: Option<&str>) -> Option<Seq<char>> {
    match s {
        Some(t) => Some(t@),
        None => None,
    }
}

/// The `--execute` command rendered for a switch, when one was given.
pub open spec fn exec_render(
    name: Seq<char>,
    ws_path: Seq<char>,
    repo_root: Seq<char>,
    execute: Option<Seq<char>>,
) -> Result<Option<Seq<char>>, ErrView> {
    match execute {
        None => Ok(None),
        Some(t) => match render_result(t, hook_context(name, ws_path, repo_root, "switch"@, "execute"@)) {
            Ok(r) => Ok(Some(r)),
            Err(e) => Err(ErrView::TemplateRender(e)),
        },
    }
}

/// The JSON line a switch prints: `name`, `path`, `created`, and the
/// rendered `execute` command when there is one.
pub open spec fn switch_output_json(name: Seq<char>, path: Seq<char>, created: bool, cmd: Option<Seq<char>>) -> JsonView {
    JsonView::Object(
        seq![
            ("name"@, JsonView::Text(name)),
            ("path"@, JsonView::Text(path)),
            ("created"@, JsonView::Bool(created)),
        ] + match cmd {
            Some(c) => seq![("execute"@, JsonView::Text(c))],
            None => seq![],
        },
    )
}

/// The lines a switch prints for the shell wrapper: the path alone, or
/// `cd:<path>` then `exec:<command>`; in JSON one object.
pub open spec fn switch_output(
    name: Seq<char>,
    ws_path: Seq<char>,
    repo_root: Seq<char>,
    execute: Option<Seq<char>>,
    format: OutputFormat,
    created: bool,
) -> Step {
    match exec_render(name, ws_path, repo_root, execute) {
        Err(e) => Err(e),
        Ok(cmd) => Ok(
            match format {
                OutputFormat::Json => seq![ActionView::PrintLine(json_text(switch_output_json(name, ws_path, created, cmd)))],
                _ => match cmd {
                    Some(c) => seq![
                        ActionView::PrintLine("cd:"@ + ws_path),
                        ActionView::PrintLine("exec:"@ + c),
                    ],
                    None => seq![ActionView::PrintLine(ws_path)],
                },
            },
        ),
    }
}

/// Emit the lines that the shell wrapper reads after a switch.
fn emit_switch_output(
    plan: &mut Plan,
    name: &str,
    ws_path: &str,
    repo_root: &str,
    execute: Option<&str>,
    format: OutputFormat,
    created: bool,
) -> (r: Result<(), CoreError>)
    ensures
        match switch_output(name@, ws_path@, repo_root@, opt_str(execute), format, created) {
            Ok(a) => r is Ok && final(plan).view() == old(plan).view() + a,
            Err(e) => r matches Err(x) && x.view() == e,
        },
{
    let rendered: Option<String> = match execute {
        Some(t) => {
            let ctx = render_ctx(name, ws_path, repo_root, "switch", "execute");
            match render(t, &ctx) {
                Ok(s) => Some(s),
                Err(e) => {
                    return Err(e);
                },
            }
        },
        None => None,
    };
    let ghost before = plan.view();
    match format {
        OutputFormat::Json => {
            let mut members = vec![
                ("name".to_owned(), JsonValue::Text(name.to_owned())),
                ("path".to_owned(), JsonValue::Text(ws_path.to_owned())),
                ("created".to_owned(), JsonValue::Bool(created)),
            ];
            match &rendered {
                Some(c) => {
                    members.push(("execute".to_owned(), JsonValue::Text(c.clone())));
                },
                None => {},
            }
            let ghost cmd = opt_view(rendered);
            assert(members_view(members@) =~= switch_output_json(name@, ws_path@, created, cmd)->Object_0);
            let line = write_json(&object(members));
            plan.push(Action::PrintLine(line));
        },
        _ => {
            match rendered {
                Some(c) => {
                    plan.push(Action::PrintLine(concat("cd:", ws_path)));
                    plan.push(Action::PrintLine(concat("exec:", c.as_str())));
                },
                None => {
                    plan.push(Action::PrintLine(ws_path.to_owned()));
                },
            }
        },
    }
    proof {
        let a = switch_output(name@, ws_path@, repo_root@, opt_str(execute), format, created)->Ok_0;
        assert(plan.view() =~= before + a);
    }
    Ok(())
}


/// What `switch --create` plans: refuse a taken name or an occupied path
/// (unless `--clobber`, and never inside another workspace), then create
/// the workspace and its bookmark between the switch and start hooks.
pub open spec fn switch_create_step(cfg: MergedView, args: &SwitchArgs, obs: &ObservedState) -> Step {
    let root = obs.repo_root@;
    let name = args.name@;
    let run = !args.no_hooks;
    if ws_pos(obs.workspaces@, name) >= 0 {
        Err(ErrView::WorkspaceExists(name))
    } else {
        match ws_path_result(root, name, cfg.worktree_path_template) {
            Err(e) => Err(e),
            Ok(p) => if obs.target_path_exists && !args.clobber {
                Err(ErrView::TargetPathOccupied(p))
            } else if obs.target_path_exists && inside_other(p, obs.workspaces@) {
                Err(ErrView::TargetPathInsideOtherWorkspace(p))
            } else {
                chain(
                    Ok(if obs.target_path_exists { seq![ActionView::DeleteDir { path: p }] } else { seq![] }),
                    chain(
                        hooks_step(run, cfg.pre_switch, "pre-switch"@, name, p, root),
                        chain(
                            Ok(
                                seq![
                                    ActionView::WorkspaceAdd {
                                        name,
                                        path: p,
                                        revision: or_else(opt_view(args.base), opt_view(obs.trunk_bookmark)),
                                    },
                                    ActionView::BookmarkCreate { name, workspace: name },
                                    ActionView::WorkspaceUpdateStale { name },
                                ],
                            ),
                            chain(
                                hooks_step(run, cfg.pre_start, "pre-start"@, name, p, root),
                                chain(
                                    hooks_step(run, cfg.post_start, "post-start"@, name, p, root),
                                    chain(
                                        switch_output(name, p, root, opt_view(args.execute), args.format, true),
                                        hooks_step(run, cfg.post_switch, "post-switch"@, name, p, root),
                                    ),
                                ),
                            ),
                        ),
                    ),
                )
            },
        }
    }
}

/// Position of the workspace a switch goes to: the one named as asked,
/// else the one the name resolves to (the trunk bookmark names `default`).
pub open spec fn switch_target(obs: &ObservedState, name: Seq<char>) -> int {
    if ws_pos(obs.workspaces@, name) >= 0 {
        ws_pos(obs.workspaces@, name)
    } else {
        match obs.target_resolved_workspace {
            Some(n) => ws_pos(obs.workspaces@, n@),
            None => -1,
        }
    }
}

/// What `switch` to an existing workspace plans.
pub open spec fn switch_existing_step(cfg: MergedView, args: &SwitchArgs, obs: &ObservedState) -> Step {
    let root = obs.repo_root@;
    let run = !args.no_hooks;
    let k = switch_target(obs, args.name@);
    if k < 0 {
        Err(ErrView::WorkspaceMissing(args.name@))
    } else {
        let w = obs.workspaces@[k];
        chain(
            hooks_step(run, cfg.pre_switch, "pre-switch"@, w.name@, w.path@, root),
            chain(
                Ok(if w.stale { seq![ActionView::WorkspaceUpdateStale { name: w.name@ }] } else { seq![] }),
                chain(
                    if args.rerun_hooks {
                        hooks_step(run, cfg.pre_start, "pre-start"@, w.name@, w.path@, root)
                    } else {
                        Ok(seq![])
                    },
                    chain(
                        switch_output(w.name@, w.path@, root, opt_view(args.execute), args.format, false),
                        hooks_step(run, cfg.post_switch, "post-switch"@, w.name@, w.path@, root),
                    ),
                ),
            ),
        )
    }
}

/// What `switch` plans.
pub open spec fn switch_step(cfg: MergedView, args: &SwitchArgs, obs: &ObservedState) -> Step {
    if !obs.is_jj_repo {
        Err(ErrView::NotJjRepo)
    } else if args.create {
        switch_create_step(cfg, args, obs)
    } else {
        switch_existing_step(cfg, args, obs)
    }
}

fn opt_as_str(s: &Option<String>) -> (r: Option<&str>)
    ensures
        opt_str(r) == opt_view(*s),
{
    match s {
        Some(t) => Some(t.as_str()),
        None => None,
    }
}

fn opt_clone(s: &Option<String>) -> (r: Option<String>)
    ensures
        opt_view(r) == opt_view(*s),
{
    match s {
        Some(t) => Some(t.clone()),
        None => None,
    }
}

/// Build a plan for the `switch` subcommand (create or switch to a
/// workspace).
pub fn plan_switch(cfg: &MergedConfig, args: &SwitchArgs, obs: &ObservedState) -> (r: Result<Plan, CoreError>)
    ensures
        plan_step(r) == switch_step(cfg.view(), args, obs),
{
    if !obs.is_jj_repo {
        return Err(CoreError::NotJjRepo);
    }
    if args.create {
        plan_switch_create(cfg, args, obs)
    } else {
        plan_switch_existing(cfg, args, obs)
    }
}

/// Create a new workspace and switch to it.
fn plan_switch_create(cfg: &MergedConfig, args: &SwitchArgs, obs: &ObservedState) -> (r: Result<Plan, CoreError>)
    ensures
        plan_step(r) == switch_create_step(cfg.view(), args, obs),
{
    let ghost c = cfg.view();
    let ghost root = obs.repo_root@;
    let ghost name = args.name@;
    let run = !args.no_hooks;
    if find_workspace(&obs.workspaces, args.name.as_str()).is_some() {
        return Err(CoreError::WorkspaceExists(args.name.clone()));
    }
    let ws_path = match workspace_path(obs.repo_root.as_str(), args.name.as_str(), cfg.worktree_path_template.as_str()) {
        Ok(p) => p,
        Err(e) => {
            return Err(e);
        },
    };
    let ghost p = ws_path@;
    let mut plan = Plan::new();
    if obs.target_path_exists {
        if !args.clobber {
            return Err(CoreError::TargetPathOccupied(ws_path));
        }
        if inside_other_workspace(ws_path.as_str(), &obs.workspaces) {
            return Err(CoreError::TargetPathInsideOtherWorkspace(ws_path));
        }
        plan.push(Action::DeleteDir { path: ws_path.clone() });
    }
    let ghost s_post_switch = hooks_step(run, c.post_switch, "post-switch"@, name, p, root);
    let ghost s_out = chain(switch_output(name, p, root, opt_view(args.execute), args.format, true), s_post_switch);
    let ghost s_post_start = chain(hooks_step(run, c.post_start, "post-start"@, name, p, root), s_out);
    let ghost s_pre_start = chain(hooks_step(run, c.pre_start, "pre-start"@, name, p, root), s_post_start);
    let ghost add_acts = seq![
        ActionView::WorkspaceAdd { name, path: p, revision: or_else(opt_view(args.base), opt_view(obs.trunk_bookmark)) },
        ActionView::BookmarkCreate { name, workspace: name },
        ActionView::WorkspaceUpdateStale { name },
    ];
    let ghost s_add = chain(Ok(add_acts), s_pre_start);
    let ghost s_pre_switch = chain(hooks_step(run, c.pre_switch, "pre-switch"@, name, p, root), s_add);
    assert(switch_create_step(c, args, obs) == chain(Ok(plan.view()), s_pre_switch)) by {
        if obs.target_path_exists {
            assert(plan.view() =~= seq![ActionView::DeleteDir { path: p }]);
        } else {
            assert(plan.view() =~= seq![]);
        }
    }

    let ghost d = plan.view();
    match plan.extend_hooks(run, cfg.hooks.pre_switch.as_slice(), "pre-switch", args.name.as_str(), ws_path.as_str(), obs.repo_root.as_str()) {
        Ok(()) => {},
        Err(e) => {
            proof { lemma_chain_step(d, hooks_step(run, c.pre_switch, "pre-switch"@, name, p, root), s_add); }
            return Err(e);
        },
    }
    proof { lemma_chain_step(d, hooks_step(run, c.pre_switch, "pre-switch"@, name, p, root), s_add); }

    let revision = match &args.base {
        Some(b) => Some(b.clone()),
        None => opt_clone(&obs.trunk_bookmark),
    };
    let ghost d = plan.view();
    plan.push(Action::JjWorkspaceAdd { name: args.name.clone(), path: ws_path.clone(), revision });
    plan.push(Action::JjBookmarkCreate { name: args.name.clone(), workspace: args.name.clone() });
    plan.push(Action::JjWorkspaceUpdateStale { name: args.name.clone() });
    proof {
        assert(plan.view() =~= d + add_acts);
        lemma_chain_step(d, Ok(add_acts), s_pre_start);
    }

    let ghost d = plan.view();
    match plan.extend_hooks(run, cfg.hooks.pre_start.as_slice(), "pre-start", args.name.as_str(), ws_path.as_str(), obs.repo_root.as_str()) {
        Ok(()) => {},
        Err(e) => {
            proof { lemma_chain_step(d, hooks_step(run, c.pre_start, "pre-start"@, name, p, root), s_post_start); }
            return Err(e);
        },
    }
    proof { lemma_chain_step(d, hooks_step(run, c.pre_start, "pre-start"@, name, p, root), s_post_start); }

    let ghost d = plan.view();
    match plan.extend_hooks(run, cfg.hooks.post_start.as_slice(), "post-start", args.name.as_str(), ws_path.as_str(), obs.repo_root.as_str()) {
        Ok(()) => {},
        Err(e) => {
            proof { lemma_chain_step(d, hooks_step(run, c.post_start, "post-start"@, name, p, root), s_out); }
            return Err(e);
        },
    }
    proof { lemma_chain_step(d, hooks_step(run, c.post_start, "post-start"@, name, p, root), s_out); }

    let ghost d = plan.view();
    match emit_switch_output(&mut plan, args.name.as_str(), ws_path.as_str(), obs.repo_root.as_str(), opt_as_str(&args.execute), args.format, true) {
        Ok(()) => {},
        Err(e) => {
            proof { lemma_chain_step(d, switch_output(name, p, root, opt_view(args.execute), args.format, true), s_post_switch); }
            return Err(e);
        },
    }
    proof { lemma_chain_step(d, switch_output(name, p, root, opt_view(args.execute), args.format, true), s_post_switch); }

    let ghost d = plan.view();
    match plan.extend_hooks(run, cfg.hooks.post_switch.as_slice(), "post-switch", args.name.as_str(), ws_path.as_str(), obs.repo_root.as_str()) {
        Ok(()) => {},
        Err(e) => {
            proof { lemma_chain_step(d, s_post_switch, Ok(seq![])); lemma_chain_empty(s_post_switch); }
            return Err(e);
        },
    }
    proof { lemma_chain_empty(s_post_switch); lemma_chain_step(d, s_post_switch, Ok(seq![])); lemma_chain_empty(Ok(plan.view())); }
    Ok(plan)
}

/// Switch to an existing workspace, optionally re-running start hooks.
fn plan_switch_existing(cfg: &MergedConfig, args: &SwitchArgs, obs: &ObservedState) -> (r: Result<Plan, CoreError>)
    ensures
        plan_step(r) == switch_existing_step(cfg.view(), args, obs),
{
    let ghost c = cfg.view();
    let ghost root = obs.repo_root@;
    let run = !args.no_hooks;
    let k: usize = match find_workspace(&obs.workspaces, args.name.as_str()) {
        Some(i) => i,
        None => match &obs.target_resolved_workspace {
            Some(n) => match find_workspace(&obs.workspaces, n.as_str()) {
                Some(j) => j,
                None => {
                    return Err(CoreError::WorkspaceMissing(args.name.clone()));
                },
            },
            None => {
                return Err(CoreError::WorkspaceMissing(args.name.clone()));
            },
        },
    };
    assert(k as int == switch_target(obs, args.name@));
    let ws = &obs.workspaces[k];
    let ghost wn = ws.name@;
    let ghost wp = ws.path@;
    let ghost s_post_switch = hooks_step(run, c.post_switch, "post-switch"@, wn, wp, root);
    let ghost s_out = chain(switch_output(wn, wp, root, opt_view(args.execute), args.format, false), s_post_switch);
    let ghost h_rerun = if args.rerun_hooks { hooks_step(run, c.pre_start, "pre-start"@, wn, wp, root) } else { Ok(seq![]) };
    let ghost s_rerun = chain(h_rerun, s_out);
    let ghost stale_acts = if ws.stale { seq![ActionView::WorkspaceUpdateStale { name: wn }] } else { seq![] };
    let ghost s_stale = chain(Ok(stale_acts), s_rerun);
    let ghost h_pre = hooks_step(run, c.pre_switch, "pre-switch"@, wn, wp, root);
    let mut plan = Plan::new();
    proof { lemma_chain_empty(chain(h_pre, s_stale)); }

    let ghost d = plan.view();
    match plan.extend_hooks(run, cfg.hooks.pre_switch.as_slice(), "pre-switch", ws.name.as_str(), ws.path.as_str(), obs.repo_root.as_str()) {
        Ok(()) => {},
        Err(e) => {
            proof { lemma_chain_step(d, h_pre, s_stale); }
            return Err(e);
        },
    }
    proof { lemma_chain_step(d, h_pre, s_stale); }

    let ghost d = plan.view();
    if ws.stale {
        plan.push(Action::JjWorkspaceUpdateStale { name: ws.name.clone() });
    }
    proof {
        assert(plan.view() =~= d + stale_acts);
        lemma_chain_step(d, Ok(stale_acts), s_rerun);
    }

    let ghost d = plan.view();
    if args.rerun_hooks {
        match plan.extend_hooks(run, cfg.hooks.pre_start.as_slice(), "pre-start", ws.name.as_str(), ws.path.as_str(), obs.repo_root.as_str()) {
            Ok(()) => {},
            Err(e) => {
                proof { lemma_chain_step(d, h_rerun, s_out); }
                return Err(e);
            },
        }
    } else {
        assert(plan.view() =~= d + seq![]);
    }
    proof { lemma_chain_step(d, h_rerun, s_out); }

    let ghost d = plan.view();
    match emit_switch_output(&mut plan, ws.name.as_str(), ws.path.as_str(), obs.repo_root.as_str(), opt_as_str(&args.execute), args.format, false) {
        Ok(()) => {},
        Err(e) => {
            proof { lemma_chain_step(d, switch_output(wn, wp, root, opt_view(args.execute), args.format, false), s_post_switch); }
            return Err(e);
        },
    }
    proof { lemma_chain_step(d, switch_output(wn, wp, root, opt_view(args.execute), args.format, false), s_post_switch); }

    let ghost d = plan.view();
    match plan.extend_hooks(run, cfg.hooks.post_switch.as_slice(), "post-switch", ws.name.as_str(), ws.path.as_str(), obs.repo_root.as_str()) {
        Ok(()) => {},
        Err(e) => {
            proof { lemma_chain_step(d, s_post_switch, Ok(seq![])); lemma_chain_empty(s_post_switch); }
            return Err(e);
        },
    }
    proof { lemma_chain_empty(s_post_switch); lemma_chain_step(d, s_post_switch, Ok(seq![])); lemma_chain_empty(Ok(plan.view())); }
    Ok(plan)
}


/// Whether `remove` deletes the bookmark too: it exists, deletion was not
/// opted out of, and it is merged into trunk or forced deletion was asked.
pub open spec fn bookmark_deleted(args: &RemoveArgs, obs: &ObservedState) -> bool {
    obs.target_bookmark_exists && !args.no_delete_branch && (obs.target_bookmark_merged || args.force_delete)
}

/// The directory deletion a removal performs.
pub open spec fn delete_dir(background: Option<bool>, path: Seq<char>) -> ActionView {
    if background == Some(true) {
        ActionView::DeleteDirBackground { path }
    } else {
        ActionView::DeleteDir { path }
    }
}

/// What `remove` plans: refuse a missing or dirty workspace and an unmerged
/// bookmark that would be deleted; otherwise forget the workspace, delete
/// its directory and, per `bookmark_deleted`, its bookmark, between the
/// remove hooks.
pub open spec fn remove_step(cfg: MergedView, name: Seq<char>, args: &RemoveArgs, obs: &ObservedState) -> Step {
    let root = obs.repo_root@;
    let run = !args.no_hooks;
    let k = ws_pos(obs.workspaces@, name);
    if !obs.is_jj_repo {
        Err(ErrView::NotJjRepo)
    } else if k < 0 {
        Err(ErrView::WorkspaceMissing(name))
    } else if !args.force && obs.target_workspace_dirty {
        Err(ErrView::WorkspaceDirty(name))
    } else if !args.no_delete_branch && obs.target_bookmark_exists && !obs.target_bookmark_merged
        && !args.force_delete && !args.force {
        Err(ErrView::BookmarkUnmerged(name))
    } else {
        let p = obs.workspaces@[k].path@;
        let del = bookmark_deleted(args, obs);
        chain(
            hooks_step(run, cfg.pre_remove, "pre-remove"@, name, p, root),
            chain(
                Ok(
                    seq![ActionView::WorkspaceForget { name }, delete_dir(cfg.background_remove, p)]
                        + if del { seq![ActionView::BookmarkDelete { name }] } else { seq![] },
                ),
                chain(
                    hooks_step(run, cfg.post_remove, "post-remove"@, name, root, root),
                    Ok(
                        match args.format {
                            OutputFormat::Json => seq![ActionView::PrintLine(json_text(remove_json(name, p, del)))],
                            _ => seq![],
                        },
                    ),
                ),
            ),
        )
    }
}

fn delete_dir_action(background: Option<bool>, path: String) -> (r: Action)
    ensures
        r.view() == delete_dir(background, path@),
{
    match background {
        Some(true) => Action::DeleteDirBackground { path },
        _ => Action::DeleteDir { path },
    }
}

/// Build a plan for the `remove` subcommand (forget workspace and clean
/// up).
pub fn plan_remove(cfg: &MergedConfig, name: &str, args: &RemoveArgs, obs: &ObservedState) -> (r: Result<Plan, CoreError>)
    ensures
        plan_step(r) == remove_step(cfg.view(), name@, args, obs),
{
    let ghost c = cfg.view();
    let ghost root = obs.repo_root@;
    let run = !args.no_hooks;
    if !obs.is_jj_repo {
        return Err(CoreError::NotJjRepo);
    }
    let k = match find_workspace(&obs.workspaces, name) {
        Some(k) => k,
        None => {
            return Err(CoreError::WorkspaceMissing(name.to_owned()));
        },
    };
    if !args.force && obs.target_workspace_dirty {
        return Err(CoreError::WorkspaceDirty(name.to_owned()));
    }
    if !args.no_delete_branch && obs.target_bookmark_exists && !obs.target_bookmark_merged && !args.force_delete
        && !args.force {
        return Err(CoreError::BookmarkUnmerged(name.to_owned()));
    }
    let ws_path = obs.workspaces[k].path.clone();
    let ghost p = ws_path@;
    let del = obs.target_bookmark_exists && !args.no_delete_branch && (obs.target_bookmark_merged
        || args.force_delete);
    let ghost out_acts = match args.format {
        OutputFormat::Json => seq![ActionView::PrintLine(json_text(remove_json(name@, p, del)))],
        _ => seq![],
    };
    let ghost h_post = hooks_step(run, c.post_remove, "post-remove"@, name@, root, root);
    let ghost s_post = chain(h_post, Ok(out_acts));
    let ghost mid = seq![ActionView::WorkspaceForget { name: name@ }, delete_dir(c.background_remove, p)]
        + if del { seq![ActionView::BookmarkDelete { name: name@ }] } else { seq![] };
    let ghost s_mid = chain(Ok(mid), s_post);
    let ghost h_pre = hooks_step(run, c.pre_remove, "pre-remove"@, name@, p, root);
    let mut plan = Plan::new();
    proof { lemma_chain_empty(chain(h_pre, s_mid)); }

    let ghost d = plan.view();
    match plan.extend_hooks(run, cfg.hooks.pre_remove.as_slice(), "pre-remove", name, ws_path.as_str(), obs.repo_root.as_str()) {
        Ok(()) => {},
        Err(e) => {
            proof { lemma_chain_step(d, h_pre, s_mid); }
            return Err(e);
        },
    }
    proof { lemma_chain_step(d, h_pre, s_mid); }

    let ghost d = plan.view();
    plan.push(Action::JjWorkspaceForget { name: name.to_owned() });
    plan.push(delete_dir_action(cfg.background_remove, ws_path.clone()));
    if del {
        plan.push(Action::JjBookmarkDelete { name: name.to_owned() });
    }
    proof {
        assert(plan.view() =~= d + mid);
        lemma_chain_step(d, Ok(mid), s_post);
    }

    let ghost d = plan.view();
    match plan.extend_hooks(run, cfg.hooks.post_remove.as_slice(), "post-remove", name, obs.repo_root.as_str(), obs.repo_root.as_str()) {
        Ok(()) => {},
        Err(e) => {
            proof { lemma_chain_step(d, h_post, Ok(out_acts)); }
            return Err(e);
        },
    }
    proof { lemma_chain_step(d, h_post, Ok(out_acts)); }

    let ghost d = plan.view();
    match args.format {
        OutputFormat::Json => {
            plan.push(Action::PrintLine(format_remove_json(name, ws_path.as_str(), del)));
        },
        _ => {},
    }
    assert(plan.view() =~= d + out_acts);
    Ok(plan)
}

/// The context an alias template is rendered in.
pub open spec fn alias_context(
    branch: Seq<char>,
    ws_path: Seq<char>,
    repo_root: Seq<char>,
    alias: Seq<char>,
    forwarded: Seq<Seq<char>>,
) -> ContextView {
    ContextView {
        branch,
        worktree_path: Some(ws_path),
        worktree_name: spec_file_name(ws_path),
        repo: spec_file_name(repo_root),
        repo_path: Some(repo_root),
        cwd: Some(ws_path),
        hook_type: None,
        hook_name: Some(alias),
        args: forwarded,
        vars: seq![],
        vars_state: Map::empty(),
    }
}

/// The branch and directory an alias runs with: those of the current
/// workspace, or an empty branch and the repository root outside one.
pub open spec fn alias_location(obs: &ObservedState) -> Result<(Seq<char>, Seq<char>), ErrView> {
    match obs.current_workspace {
        Some(n) => {
            let k = ws_pos(obs.workspaces@, n@);
            if k >= 0 {
                Ok((obs.workspaces@[k].name@, obs.workspaces@[k].path@))
            } else {
                Err(ErrView::WorkspaceMissing(n@))
            }
        },
        None => Ok((seq![], obs.repo_root@)),
    }
}

/// What an alias invocation plans: its template rendered and run.
pub open spec fn alias_step(cfg: MergedView, args: &AliasArgs, obs: &ObservedState) -> Step {
    match lookup(cfg.aliases, args.name@) {
        None => Err(ErrView::AliasNotFound(args.name@)),
        Some(tmpl) => match alias_location(obs) {
            Err(e) => Err(e),
            Ok((b, p)) => match render_result(
                tmpl,
                alias_context(b, p, obs.repo_root@, args.name@, args.forwarded@.map_values(|a: String| a@)),
            ) {
                Ok(r) => Ok(seq![ActionView::Exec { rendered_cmd: r, cwd: p, env: seq![] }]),
                Err(e) => Err(ErrView::TemplateRender(e)),
            },
        },
    }
}

fn clone_strings(v: &Vec<String>) -> (r: Vec<String>)
    ensures
        r@.map_values(|a: String| a@) == v@.map_values(|a: String| a@),
{
    let mut out: Vec<String> = Vec::new();
    let mut i: usize = 0;
    while i < v.len()
        invariant
            i <= v@.len(),
            out@.map_values(|a: String| a@) == v@.take(i as int).map_values(|a: String| a@),
        decreases v@.len() - i,
    {
        let ghost prev = out@;
        out.push(v[i].clone());
        assert(out@.map_values(|a: String| a@) =~= prev.map_values(|a: String| a@).push(v@[i as int]@));
        assert(v@.take(i + 1).map_values(|a: String| a@) =~= v@.take(i as int).map_values(|a: String| a@).push(v@[i as int]@));
        i = i + 1;
    }
    assert(v@.take(v@.len() as int) =~= v@);
    out
}

/// Plan a user-defined alias invocation: look the alias up, render its
/// template in the context of the current workspace (or the repository
/// root), and run it.
pub fn plan_alias(cfg: &MergedConfig, args: &AliasArgs, obs: &ObservedState) -> (r: Result<Plan, CoreError>)
    ensures
        plan_step(r) == alias_step(cfg.view(), args, obs),
{
    let tmpl = match map_get(&cfg.aliases, args.name.as_str()) {
        Some(t) => t,
        None => {
            return Err(CoreError::AliasNotFound(args.name.clone()));
        },
    };
    let (branch, ws_path) = match &obs.current_workspace {
        Some(n) => match find_workspace(&obs.workspaces, n.as_str()) {
            Some(k) => (obs.workspaces[k].name.clone(), obs.workspaces[k].path.clone()),
            None => {
                return Err(CoreError::WorkspaceMissing(n.clone()));
            },
        },
        None => (String::new(), obs.repo_root.clone()),
    };
    let ghost b = branch@;
    let ghost p = ws_path@;
    let ctx = RenderContext {
        branch,
        worktree_path: Some(ws_path.clone()),
        worktree_name: file_name(ws_path.as_str()),
        repo: file_name(obs.repo_root.as_str()),
        repo_path: Some(obs.repo_root.clone()),
        cwd: Some(ws_path.clone()),
        hook_type: None,
        hook_name: Some(args.name.clone()),
        args: clone_strings(&args.forwarded),
        vars: Vec::new(),
        vars_state: StrMap::new(),
    };
    assert(ctx.view().vars =~= Seq::<(Seq<char>, Seq<char>)>::empty());
    assert(ctx.view().vars_state =~= Map::<Seq<char>, Seq<char>>::empty());
    assert(ctx.view() =~= alias_context(b, p, obs.repo_root@, args.name@, args.forwarded@.map_values(|a: String| a@)));
    let rendered = match render(tmpl.as_str(), &ctx) {
        Ok(x) => x,
        Err(e) => {
            return Err(e);
        },
    };
    let mut plan = Plan::new();
    let env: Vec<(String, String)> = Vec::new();
    plan.push(Action::Exec { rendered_cmd: rendered, cwd: ws_path, env });
    assert(plan.view() =~= alias_step(cfg.view(), args, obs)->Ok_0);
    Ok(plan)
}


/// The JSON object `relocate` prints.
pub open spec fn relocate_json(
    old_name: Seq<char>,
    new_name: Seq<char>,
    old_path: Seq<char>,
    new_path: Seq<char>,
    renamed: bool,
) -> JsonView {
    JsonView::Object(
        seq![
            ("old_name"@, JsonView::Text(old_name)),
            ("new_name"@, JsonView::Text(new_name)),
            ("old_path"@, JsonView::Text(old_path)),
            ("new_path"@, JsonView::Text(new_path)),
            ("bookmark_renamed"@, JsonView::Bool(renamed)),
        ],
    )
}

/// What `relocate` plans: rename the workspace and move its directory to
/// the path of the new name (and rename the bookmark when asked), then
/// report.
pub open spec fn relocate_step(cfg: MergedView, args: &RelocateArgs, obs: &ObservedState) -> Step {
    let old = args.old_name@;
    let new = args.new_name@;
    let k = ws_pos(obs.workspaces@, old);
    if !obs.is_jj_repo {
        Err(ErrView::NotJjRepo)
    } else if k < 0 {
        Err(ErrView::WorkspaceMissing(old))
    } else if ws_pos(obs.workspaces@, new) >= 0 {
        Err(ErrView::WorkspaceExists(new))
    } else {
        match ws_path_result(obs.repo_root@, new, cfg.worktree_path_template) {
            Err(e) => Err(e),
            Ok(np) => {
                let op = obs.workspaces@[k].path@;
                Ok(
                    seq![
                        ActionView::WorkspaceRename { old_name: old, new_name: new },
                        ActionView::RenameDir { from: op, to: np },
                    ] + (if args.rename_bookmark {
                        seq![ActionView::BookmarkRename { old_name: old, new_name: new }]
                    } else {
                        seq![]
                    }) + seq![
                        ActionView::PrintLine(
                            match args.format {
                                OutputFormat::Json => json_text(relocate_json(old, new, op, np, args.rename_bookmark)),
                                _ => "Relocated '"@ + old + "' \u{2192} '"@ + new + "'"@,
                            },
                        ),
                    ],
                )
            },
        }
    }
}

/// Build a plan for the `relocate` subcommand (rename workspace and
/// directory).
pub fn plan_relocate(cfg: &MergedConfig, args: &RelocateArgs, obs: &ObservedState) -> (r: Result<Plan, CoreError>)
    ensures
        plan_step(r) == relocate_step(cfg.view(), args, obs),
{
    if !obs.is_jj_repo {
        return Err(CoreError::NotJjRepo);
    }
    let k = match find_workspace(&obs.workspaces, args.old_name.as_str()) {
        Some(k) => k,
        None => {
            return Err(CoreError::WorkspaceMissing(args.old_name.clone()));
        },
    };
    if find_workspace(&obs.workspaces, args.new_name.as_str()).is_some() {
        return Err(CoreError::WorkspaceExists(args.new_name.clone()));
    }
    let old_path = obs.workspaces[k].path.clone();
    let new_path = match workspace_path(obs.repo_root.as_str(), args.new_name.as_str(), cfg.worktree_path_template.as_str()) {
        Ok(p) => p,
        Err(e) => {
            return Err(e);
        },
    };
    let mut plan = Plan::new();
    plan.push(Action::JjWorkspaceRename { old_name: args.old_name.clone(), new_name: args.new_name.clone() });
    plan.push(Action::RenameDir { from: old_path.clone(), to: new_path.clone() });
    if args.rename_bookmark {
        plan.push(Action::JjBookmarkRename { old_name: args.old_name.clone(), new_name: args.new_name.clone() });
    }
    let line = match args.format {
        OutputFormat::Json => {
            let members = vec![
                ("old_name".to_owned(), JsonValue::Text(args.old_name.clone())),
                ("new_name".to_owned(), JsonValue::Text(args.new_name.clone())),
                ("old_path".to_owned(), JsonValue::Text(old_path.clone())),
                ("new_path".to_owned(), JsonValue::Text(new_path.clone())),
                ("bookmark_renamed".to_owned(), JsonValue::Bool(args.rename_bookmark)),
            ];
            assert(members_view(members@) =~= relocate_json(
                args.old_name@,
                args.new_name@,
                old_path@,
                new_path@,
                args.rename_bookmark,
            )->Object_0);
            write_json(&object(members))
        },
        _ => {
            let a = concat("Relocated '", args.old_name.as_str());
            let b = concat(a.as_str(), "' \u{2192} '");
            let c = concat(b.as_str(), args.new_name.as_str());
            concat(c.as_str(), "'")
        },
    };
    plan.push(Action::PrintLine(line));
    assert(plan.view() =~= relocate_step(cfg.view(), args, obs)->Ok_0);
    Ok(plan)
}

/// Whether `prune` removes the workspace of a status entry (name, bookmark
/// exists, bookmark merged, dirty): not `default`, not the current one, its
/// bookmark exists and is merged into trunk, and the workspace is known.
pub open spec fn prune_selected(obs: &ObservedPruneState, e: (String, bool, bool, bool)) -> bool {
    &&& e.0@ != "default"@
    &&& opt_view(obs.current_workspace) != Some(e.0@)
    &&& e.1
    &&& e.2
    &&& ws_pos(obs.workspaces@, e.0@) >= 0
}

/// The actions of pruning one status entry.
pub open spec fn prune_one(cfg: MergedView, args: &PruneArgs, obs: &ObservedPruneState, e: (String, bool, bool, bool)) -> Step {
    if !prune_selected(obs, e) || args.dry_run {
        Ok(seq![])
    } else {
        let name = e.0@;
        let p = obs.workspaces@[ws_pos(obs.workspaces@, name)].path@;
        let root = obs.repo_root@;
        chain(
            hooks_step(!args.no_hooks, cfg.pre_remove, "pre-remove"@, name, p, root),
            chain(
                Ok(
                    seq![
                        ActionView::WorkspaceForget { name },
                        delete_dir(cfg.background_remove, p),
                        ActionView::BookmarkDelete { name },
                    ],
                ),
                hooks_step(!args.no_hooks, cfg.post_remove, "post-remove"@, name, root, root),
            ),
        )
    }
}

/// The actions of pruning the status entries, in order.
pub open spec fn prune_all(cfg: MergedView, args: &PruneArgs, obs: &ObservedPruneState, es: Seq<(String, bool, bool, bool)>) -> Step
    decreases es.len(),
{
    if es.len() == 0 {
        Ok(seq![])
    } else {
        chain(prune_all(cfg, args, obs, es.drop_last()), prune_one(cfg, args, obs, es.last()))
    }
}

/// The names of the entries that are pruned, in order.
pub open spec fn pruned_names(obs: &ObservedPruneState, es: Seq<(String, bool, bool, bool)>) -> Seq<Seq<char>>
    decreases es.len(),
{
    if es.len() == 0 {
        seq![]
    } else {
        pruned_names(obs, es.drop_last()) + if prune_selected(obs, es.last()) {
            seq![es.last().0@]
        } else {
            seq![]
        }
    }
}

/// The report `prune` prints.
pub open spec fn prune_report(args: &PruneArgs, names: Seq<Seq<char>>) -> Seq<char> {
    match args.format {
        OutputFormat::Json => json_text(
            JsonView::Object(
                seq![
                    ("dry_run"@, JsonView::Bool(args.dry_run)),
                    ("pruned"@, JsonView::Array(names.map_values(|n: Seq<char>| JsonView::Text(n)))),
                ],
            ),
        ),
        _ => if names.len() == 0 {
            "Nothing to prune."@
        } else if args.dry_run {
            "Would prune "@ + dec(names.len()) + " workspace(s): "@ + join(names, ", "@)
        } else {
            "Pruned "@ + dec(names.len()) + " workspace(s): "@ + join(names, ", "@)
        },
    }
}

/// What `prune` plans: remove every selected workspace as `remove` would
/// (nothing but the report on a dry run), then report.
pub open spec fn prune_step(cfg: MergedView, args: &PruneArgs, obs: &ObservedPruneState) -> Step {
    if !obs.is_jj_repo {
        Err(ErrView::NotJjRepo)
    } else {
        chain(
            prune_all(cfg, args, obs, obs.workspace_status@),
            Ok(seq![ActionView::PrintLine(prune_report(args, pruned_names(obs, obs.workspace_status@)))]),
        )
    }
}

proof fn lemma_prune_err(cfg: MergedView, args: &PruneArgs, obs: &ObservedPruneState, es: Seq<(String, bool, bool, bool)>, i: int, j: int)
    requires
        0 <= i <= j <= es.len(),
        prune_all(cfg, args, obs, es.take(i)) is Err,
    ensures
        prune_all(cfg, args, obs, es.take(j)) == prune_all(cfg, args, obs, es.take(i)),
    decreases j - i,
{
    if j > i {
        lemma_prune_err(cfg, args, obs, es, i, j - 1);
        assert(es.take(j).drop_last() =~= es.take(j - 1));
    }
}

fn is_current(cur: &Option<String>, name: &str) -> (r: bool)
    ensures
        r == (opt_view(*cur) == Some(name@)),
{
    match cur {
        Some(c) => str_eq(c.as_str(), name),
        None => false,
    }
}

/// Build a plan for the `prune` subcommand (remove all merged workspaces).
pub fn plan_prune(cfg: &MergedConfig, args: &PruneArgs, obs: &ObservedPruneState) -> (r: Result<Plan, CoreError>)
    ensures
        plan_step(r) == prune_step(cfg.view(), args, obs),
{
    let ghost c = cfg.view();
    let ghost es = obs.workspace_status@;
    let ghost root = obs.repo_root@;
    if !obs.is_jj_repo {
        return Err(CoreError::NotJjRepo);
    }
    let run = !args.no_hooks;
    let mut plan = Plan::new();
    let mut pruned: Vec<String> = Vec::new();
    let mut i: usize = 0;
    assert(es.take(0) =~= Seq::<(String, bool, bool, bool)>::empty());
    while i < obs.workspace_status.len()
        invariant
            i <= es.len(),
            obs.is_jj_repo,
            es == obs.workspace_status@,
            c == cfg.view(),
            root == obs.repo_root@,
            run == !args.no_hooks,
            prune_all(c, args, obs, es.take(i as int)) == Ok::<Seq<ActionView>, ErrView>(plan.view()),
            pruned@.map_values(|s: String| s@) == pruned_names(obs, es.take(i as int)),
        decreases es.len() - i,
    {
        let ghost e = es[i as int];
        let ghost d = plan.view();
        let ghost pv = pruned@;
        assert(es.take(i + 1).drop_last() =~= es.take(i as int));
        assert(es.take(i + 1).last() == e);
        let name = &obs.workspace_status[i].0;
        let selected = !str_eq(name.as_str(), "default") && !is_current(&obs.current_workspace, name.as_str())
            && obs.workspace_status[i].1 && obs.workspace_status[i].2;
        let found = if selected { find_workspace(&obs.workspaces, name.as_str()) } else { None };
        match found {
            Some(k) => {
                assert(prune_selected(obs, e));
                if !args.dry_run {
                    let ws_path = obs.workspaces[k].path.as_str();
                    let ghost p = ws_path@;
                    let ghost h_pre = hooks_step(run, c.pre_remove, "pre-remove"@, name@, p, root);
                    let ghost mid = seq![
                        ActionView::WorkspaceForget { name: name@ },
                        delete_dir(c.background_remove, p),
                        ActionView::BookmarkDelete { name: name@ },
                    ];
                    let ghost h_post = hooks_step(run, c.post_remove, "post-remove"@, name@, root, root);
                    let ghost rest = chain(Ok(mid), h_post);
                    assert(prune_one(c, args, obs, e) == chain(h_pre, rest));
                    match plan.extend_hooks(run, cfg.hooks.pre_remove.as_slice(), "pre-remove", name.as_str(), ws_path, obs.repo_root.as_str()) {
                        Ok(()) => {},
                        Err(err) => {
                            proof {
                                lemma_chain_step(d, h_pre, rest);
                                assert(prune_all(c, args, obs, es.take(i + 1)) == chain(Ok(d), prune_one(c, args, obs, e)));
                                assert(prune_all(c, args, obs, es.take(i + 1)) == Err::<Seq<ActionView>, ErrView>(err.view()));
                                lemma_prune_err(c, args, obs, es, i + 1, es.len() as int);
                                assert(es.take(es.len() as int) =~= es);
                                assert(prune_all(c, args, obs, es) == Err::<Seq<ActionView>, ErrView>(err.view()));
                                assert(prune_step(c, args, obs) == Err::<Seq<ActionView>, ErrView>(err.view()));
                            }
                            return Err(err);
                        },
                    }
                    proof { lemma_chain_step(d, h_pre, rest); }
                    let ghost d2 = plan.view();
                    plan.push(Action::JjWorkspaceForget { name: name.clone() });
                    plan.push(delete_dir_action(cfg.background_remove, ws_path.to_owned()));
                    plan.push(Action::JjBookmarkDelete { name: name.clone() });
                    proof {
                        assert(plan.view() =~= d2 + mid);
                        lemma_chain_step(d2, Ok(mid), h_post);
                    }
                    let ghost d3 = plan.view();
                    match plan.extend_hooks(run, cfg.hooks.post_remove.as_slice(), "post-remove", name.as_str(), obs.repo_root.as_str(), obs.repo_root.as_str()) {
                        Ok(()) => {},
                        Err(err) => {
                            proof {
                                lemma_chain_empty(h_post);
                                lemma_chain_step(d3, h_post, Ok(seq![]));
                                lemma_chain_step(d, h_pre, rest);
                                assert(prune_all(c, args, obs, es.take(i + 1)) == chain(Ok(d), prune_one(c, args, obs, e)));
                                assert(prune_all(c, args, obs, es.take(i + 1)) == Err::<Seq<ActionView>, ErrView>(err.view()));
                                lemma_prune_err(c, args, obs, es, i + 1, es.len() as int);
                                assert(es.take(es.len() as int) =~= es);
                                assert(prune_all(c, args, obs, es) == Err::<Seq<ActionView>, ErrView>(err.view()));
                                assert(prune_step(c, args, obs) == Err::<Seq<ActionView>, ErrView>(err.view()));
                            }
                            return Err(err);
                        },
                    }
                    proof {
                        lemma_chain_empty(h_post);
                        lemma_chain_step(d3, h_post, Ok(seq![]));
                        lemma_chain_empty(Ok(plan.view()));
                    }
                } else {
                    assert(d + seq![] =~= d);
                }
                pruned.push(name.clone());
                assert(pruned@.map_values(|s: String| s@) =~= pv.map_values(|s: String| s@).push(name@));
            },
            None => {
                assert(!prune_selected(obs, e));
                assert(d + seq![] =~= d);
                assert(pruned@.map_values(|s: String| s@) =~= pv.map_values(|s: String| s@) + seq![]);
            },
        }
        i = i + 1;
    }
    assert(es.take(es.len() as int) =~= es);
    let n = pruned.len();
    let ghost names = pruned@.map_values(|s: String| s@);
    let line = match args.format {
        OutputFormat::Json => {
            let members = vec![
                ("dry_run".to_owned(), JsonValue::Bool(args.dry_run)),
                ("pruned".to_owned(), text_array(&pruned)),
            ];
            assert(names.map_values(|x: Seq<char>| JsonView::Text(x)) =~= pruned@.map_values(|s: String| JsonView::Text(s@)));
            assert(members_view(members@) =~= seq![
                ("dry_run"@, JsonView::Bool(args.dry_run)),
                ("pruned"@, JsonView::Array(names.map_values(|x: Seq<char>| JsonView::Text(x)))),
            ]);
            write_json(&object(members))
        },
        _ => if n == 0 {
            "Nothing to prune.".to_owned()
        } else {
            let head = if args.dry_run { "Would prune " } else { "Pruned " };
            let a = concat(head, fmt_uint(n as u64).as_str());
            let b = concat(a.as_str(), " workspace(s): ");
            concat(b.as_str(), join_strings(&pruned, ", ").as_str())
        },
    };
    let ghost d = plan.view();
    plan.push(Action::PrintLine(line));
    assert(plan.view() =~= d + seq![ActionView::PrintLine(prune_report(args, names))]);
    Ok(plan)
}

/// The trunk relationship that ahead/behind commit counts give.
pub open spec fn trunk_rel_of(ahead: u32, behind: u32) -> TrunkRel {
    if ahead == 0 && behind == 0 {
        TrunkRel::IsTrunk
    } else if ahead == 0 {
        TrunkRel::Ancestor
    } else if behind == 0 {
        TrunkRel::Ahead
    } else {
        TrunkRel::Diverged
    }
}

/// Derive the trunk relationship from ahead/behind commit counts.
pub fn trunk_rel(ahead: u32, behind: u32) -> (r: Option<TrunkRel>)
    ensures
        r == Some(trunk_rel_of(ahead, behind)),
{
    if ahead == 0 && behind == 0 {
        Some(TrunkRel::IsTrunk)
    } else if ahead == 0 {
        Some(TrunkRel::Ancestor)
    } else if behind == 0 {
        Some(TrunkRel::Ahead)
    } else {
        Some(TrunkRel::Diverged)
    }
}

/// The first line of `s` (`str::lines`): up to the first `\n`, without a
/// `\r` before it; all of `s` when it holds no `\n`.
pub open spec fn first_line(s: Seq<char>) -> Seq<char> {
    let k = newline_at(s, 0);
    if k < s.len() && k > 0 && s[k - 1] == '\r' {
        s.take(k - 1)
    } else {
        s.take(k)
    }
}

/// The first line of `s` cut to `max` characters, with `...` marking the
/// cut; with `max` of three or less the cut leaves only dots.
pub open spec fn truncated(s: Seq<char>, max: nat) -> Seq<char> {
    let fl = first_line(s);
    if fl.len() <= max {
        fl
    } else if max <= 3 {
        Seq::new(max, |i: int| '.')
    } else {
        fl.take(max - 3) + seq!['.', '.', '.']
    }
}

/// Truncate a string to `max` visible characters, appending `...` if
/// shortened.
pub fn truncate_line(s: &str, max: usize) -> (r: String)
    ensures
        r@ == truncated(s@, max as nat),
{
    let cs = chars_of(s);
    let mut k: usize = 0;
    while k < cs.len() && cs[k] != '\n'
        invariant
            k <= cs@.len(),
            cs@ == s@,
            newline_at(s@, k as int) == newline_at(s@, 0),
        decreases cs@.len() - k,
    {
        k = k + 1;
    }
    let end = if k < cs.len() && k > 0 && cs[k - 1] == '\r' { k - 1 } else { k };
    let ghost fl = first_line(s@);
    assert(fl =~= cs@.take(end as int));
    let mut out: Vec<char> = Vec::new();
    if end <= max {
        let mut i: usize = 0;
        while i < end
            invariant
                i <= end <= cs@.len(),
                out@ == cs@.take(i as int),
            decreases end - i,
        {
            out.push(cs[i]);
            i = i + 1;
            assert(out@ =~= cs@.take(i as int));
        }
    } else if max <= 3 {
        let mut i: usize = 0;
        while i < max
            invariant
                i <= max,
                out@ == Seq::new(i as nat, |j: int| '.'),
            decreases max - i,
        {
            out.push('.');
            i = i + 1;
            assert(out@ =~= Seq::new(i as nat, |j: int| '.'));
        }
    } else {
        let keep = max - 3;
        let mut i: usize = 0;
        while i < keep
            invariant
                keep < end <= cs@.len(),
                i <= keep,
                out@ == cs@.take(i as int),
            decreases keep - i,
        {
            out.push(cs[i]);
            i = i + 1;
            assert(out@ =~= cs@.take(i as int));
        }
        out.push('.');
        out.push('.');
        out.push('.');
        assert(out@ =~= fl.take(keep as int) + seq!['.', '.', '.']);
    }
    string_of(&out)
}


/// The hook slots of a merged configuration, each with its type name, in
/// lifecycle order.
pub open spec fn hook_slots(cfg: MergedView) -> Seq<(Seq<char>, Seq<(HookSource, Entries)>)> {
    seq![
        (hook_type_name(0), cfg.pre_switch),
        (hook_type_name(1), cfg.post_switch),
        (hook_type_name(2), cfg.pre_start),
        (hook_type_name(3), cfg.post_start),
        (hook_type_name(4), cfg.pre_remove),
        (hook_type_name(5), cfg.post_remove),
    ]
}

/// The hooks named `name` in the groups of one slot: (hook type,
/// template, source), in order.
pub open spec fn group_matches(ty: Seq<char>, gs: Seq<(HookSource, Entries)>, name: Seq<char>) -> Seq<(Seq<char>, Seq<char>, HookSource)>
    decreases gs.len(),
{
    if gs.len() == 0 {
        seq![]
    } else {
        group_matches(ty, gs.drop_last(), name) + match lookup(gs.last().1, name) {
            Some(t) => seq![(ty, t, gs.last().0)],
            None => seq![],
        }
    }
}

/// The hooks named `name` in every slot, in order.
pub open spec fn slot_matches(slots: Seq<(Seq<char>, Seq<(HookSource, Entries)>)>, name: Seq<char>) -> Seq<(Seq<char>, Seq<char>, HookSource)>
    decreases slots.len(),
{
    if slots.len() == 0 {
        seq![]
    } else {
        slot_matches(slots.drop_last(), name) + group_matches(slots.last().0, slots.last().1, name)
    }
}

/// `c` with the `--var` bindings set.
pub open spec fn with_vars(c: ContextView, vars: Seq<(Seq<char>, Seq<char>)>) -> ContextView {
    ContextView {
        branch: c.branch,
        worktree_path: c.worktree_path,
        worktree_name: c.worktree_name,
        repo: c.repo,
        repo_path: c.repo_path,
        cwd: c.cwd,
        hook_type: c.hook_type,
        hook_name: c.hook_name,
        args: c.args,
        vars,
        vars_state: c.vars_state,
    }
}

/// What a manual `hook <name>` plans: the one hook of that name, in
/// whichever slot it is, rendered for the current workspace; an error when
/// no hook or more than one has the name.
pub open spec fn hook_step(cfg: MergedView, args: &HookArgs, obs: &ObservedState) -> Step {
    let cw = args.current_workspace@;
    let name = args.name@;
    let k = ws_pos(obs.workspaces@, cw);
    let m = slot_matches(hook_slots(cfg), name);
    if k < 0 {
        Err(ErrView::WorkspaceMissing(cw))
    } else if m.len() == 0 {
        Err(ErrView::HookNotFound(name))
    } else if m.len() > 1 {
        Err(ErrView::HookAmbiguous(name))
    } else {
        let wp = obs.workspaces@[k].path@;
        let ty = m[0].0;
        let t = m[0].1;
        let src = m[0].2;
        match render_result(t, with_vars(hook_context(cw, wp, obs.repo_root@, ty, name), pairs_view(args.vars@))) {
            Ok(r) => Ok(
                seq![
                    ActionView::RunHook {
                        name,
                        raw_cmd: t,
                        rendered_cmd: r,
                        cwd: wp,
                        env: hook_env_view(cw, wp, ty, name, src),
                        source: src,
                    },
                ],
            ),
            Err(e) => Err(ErrView::TemplateRender(e)),
        }
    }
}

fn clone_pairs(v: &Vec<(String, String)>) -> (r: Vec<(String, String)>)
    ensures
        pairs_view(r@) == pairs_view(v@),
{
    let mut out: Vec<(String, String)> = Vec::new();
    let mut i: usize = 0;
    while i < v.len()
        invariant
            i <= v@.len(),
            pairs_view(out@) == pairs_view(v@.take(i as int)),
        decreases v@.len() - i,
    {
        let ghost prev = out@;
        out.push((v[i].0.clone(), v[i].1.clone()));
        assert(pairs_view(out@) =~= pairs_view(prev).push((v@[i as int].0@, v@[i as int].1@)));
        assert(pairs_view(v@.take(i + 1)) =~= pairs_view(v@.take(i as int)).push((v@[i as int].0@, v@[i as int].1@)));
        i = i + 1;
    }
    assert(v@.take(v@.len() as int) =~= v@);
    out
}

/// What the matches found so far stand for.
spec fn matches_view(m: Seq<(&str, &String, HookSource)>) -> Seq<(Seq<char>, Seq<char>, HookSource)> {
    m.map_values(|x: (&str, &String, HookSource)| (x.0@, x.1@, x.2))
}

/// Build a plan for the `hook` subcommand (manual single-hook invocation).
pub fn plan_hook(cfg: &MergedConfig, args: &HookArgs, obs: &ObservedState) -> (r: Result<Plan, CoreError>)
    ensures
        plan_step(r) == hook_step(cfg.view(), args, obs),
{
    let ghost c = cfg.view();
    let ghost slots = hook_slots(c);
    let ghost name = args.name@;
    let k = match find_workspace(&obs.workspaces, args.current_workspace.as_str()) {
        Some(k) => k,
        None => {
            return Err(CoreError::WorkspaceMissing(args.current_workspace.clone()));
        },
    };
    let all = cfg.all_hook_groups();
    assert(forall|q: int| 0 <= q < 6 ==> #[trigger] slots[q] == (all@[q].0@, sourced_view(all@[q].1@))) by {
        assert(slots[0] == (all@[0].0@, sourced_view(all@[0].1@)));
        assert(slots[1] == (all@[1].0@, sourced_view(all@[1].1@)));
        assert(slots[2] == (all@[2].0@, sourced_view(all@[2].1@)));
        assert(slots[3] == (all@[3].0@, sourced_view(all@[3].1@)));
        assert(slots[4] == (all@[4].0@, sourced_view(all@[4].1@)));
        assert(slots[5] == (all@[5].0@, sourced_view(all@[5].1@)));
    }
    let mut matches: Vec<(&str, &String, HookSource)> = Vec::new();
    let mut i: usize = 0;
    assert(slots.take(0) =~= Seq::<(Seq<char>, Seq<(HookSource, Entries)>)>::empty());
    while i < 6
        invariant
            i <= 6,
            slots.len() == 6,
            name == args.name@,
            forall|q: int| 0 <= q < 6 ==> #[trigger] slots[q] == (all@[q].0@, sourced_view(all@[q].1@)),
            matches_view(matches@) == slot_matches(slots.take(i as int), name),
        decreases 6 - i,
    {
        let groups = all[i].1;
        let ghost gs = sourced_view(groups@);
        let ghost base = matches_view(matches@);
        assert(slots[i as int].1 == gs);
        let mut j: usize = 0;
        assert(gs.take(0) =~= Seq::<(HookSource, Entries)>::empty());
        while j < groups.len()
            invariant
                i < 6,
                j <= groups@.len(),
                gs == sourced_view(groups@),
                name == args.name@,
                matches_view(matches@) == base + group_matches(all@[i as int].0@, gs.take(j as int), name),
            decreases groups@.len() - j,
        {
            let ghost prev = matches_view(matches@);
            assert(gs.take(j + 1).drop_last() =~= gs.take(j as int));
            assert(gs.take(j + 1).last() == (groups@[j as int].source, map_entries(groups@[j as int].group)));
            match map_get(&groups[j].group, args.name.as_str()) {
                Some(t) => {
                    matches.push((all[i].0, t, groups[j].source));
                    assert(matches_view(matches@) =~= prev.push((all@[i as int].0@, t@, groups@[j as int].source)));
                },
                None => {
                    assert(prev + seq![] =~= prev);
                },
            }
            j = j + 1;
        }
        assert(gs.take(groups@.len() as int) =~= gs);
        assert(slots.take(i + 1).drop_last() =~= slots.take(i as int));
        i = i + 1;
    }
    assert(slots.take(6) =~= slots);
    if matches.len() == 0 {
        return Err(CoreError::HookNotFound(args.name.clone()));
    }
    if matches.len() > 1 {
        return Err(CoreError::HookAmbiguous(args.name.clone()));
    }
    let (hook_type, tmpl, source) = matches[0];
    let ws = &obs.workspaces[k];
    let mut ctx = render_ctx(args.current_workspace.as_str(), ws.path.as_str(), obs.repo_root.as_str(), hook_type, args.name.as_str());
    ctx.vars = clone_pairs(&args.vars);
    assert(ctx.view() =~= with_vars(
        hook_context(args.current_workspace@, ws.path@, obs.repo_root@, hook_type@, name),
        pairs_view(args.vars@),
    ));
    let rendered = match render(tmpl.as_str(), &ctx) {
        Ok(x) => x,
        Err(e) => {
            return Err(e);
        },
    };
    let mut plan = Plan::new();
    plan.push(Action::RunHook {
        name: args.name.clone(),
        raw_cmd: tmpl.clone(),
        rendered_cmd: rendered,
        cwd: ws.path.clone(),
        env: hook_env(args.current_workspace.as_str(), ws.path.as_str(), hook_type, args.name.as_str(), source),
        source,
    });
    assert(plan.view() =~= hook_step(c, args, obs)->Ok_0);
    Ok(plan)
}


/// The context a list row's URL template is rendered in.
pub open spec fn list_context(w: Workspace, root: Seq<char>) -> ContextView {
    ContextView {
        branch: w.name@,
        worktree_path: Some(w.path@),
        worktree_name: spec_file_name(w.path@),
        repo: spec_file_name(root),
        repo_path: Some(root),
        cwd: Some(w.path@),
        hook_type: None,
        hook_name: None,
        args: seq![],
        vars: seq![],
        vars_state: Map::empty(),
    }
}

/// The URL column of a workspace row: the `[list] url` template rendered,
/// empty without one.
pub open spec fn list_url(cfg: MergedView, w: Workspace, root: Seq<char>) -> Result<Seq<char>, ErrView> {
    match cfg.list {
        Some(l) => match render_result(l.url@, list_context(w, root)) {
            Ok(u) => Ok(u),
            Err(e) => Err(ErrView::TemplateRender(e)),
        },
        None => Ok(seq![]),
    }
}

/// How a workspace path is shown: `.` for the repository root itself,
/// `./<rest>` below it, the path as is elsewhere.
pub open spec fn display_path_of(path: Seq<char>, root: Seq<char>) -> Seq<char> {
    if path_components(path) == path_components(root) {
        "."@
    } else {
        match spec_strip_prefix(path, root) {
            Some(rel) => "./"@ + rel,
            None => path,
        }
    }
}

/// Whether `row` is the list row of an observed workspace.
pub open spec fn workspace_row(row: &ListRow, o: &ObservedListRow, root: Seq<char>, is_current: bool, url: Seq<char>) -> bool {
    let w = o.workspace;
    let d = o.details;
    &&& row.name@ == w.name@
    &&& row.path@ == w.path@
    &&& row.display_path@ == display_path_of(w.path@, root)
    &&& row.kind == ListRowKind::Workspace
    &&& row.url@ == url
    &&& row.is_current == is_current
    &&& row.is_default == (path_components(w.path@) == path_components(root))
    &&& row.status == StatusFlags {
        has_changes: d.head_added > 0 || d.head_removed > 0,
        modified: d.modified,
        untracked: d.untracked,
        stale: w.stale,
        conflicts: d.conflicts,
        has_remote: o.has_remote_bookmark || (o.ahead == 0 && o.behind == 0),
        vs_trunk: Some(trunk_rel_of(o.ahead, o.behind)),
    }
    &&& row.head_diff == LineDiff { added: d.head_added, removed: d.head_removed }
    &&& row.vs_trunk == AheadBehind { ahead: o.ahead, behind: o.behind }
    &&& row.commit@ == d.commit_short@
    &&& row.age@ == age_text(d.age_seconds as int)
    &&& row.message@ == d.message_first_line@
    &&& row.ci_status == o.ci_status
    &&& row.summary@ == o.summary@
}

/// Whether `row` is the placeholder row of a bookmark without a workspace:
/// only its name is set.
pub open spec fn bookmark_row(row: &ListRow, name: Seq<char>) -> bool {
    &&& row.name@ == name
    &&& row.path@ == Seq::<char>::empty()
    &&& row.display_path@ == Seq::<char>::empty()
    &&& row.kind == ListRowKind::Bookmark
    &&& row.url@ == Seq::<char>::empty()
    &&& !row.is_current
    &&& !row.is_default
    &&& row.status == StatusFlags {
        has_changes: false,
        modified: false,
        untracked: false,
        stale: false,
        conflicts: false,
        has_remote: false,
        vs_trunk: None,
    }
    &&& row.head_diff == LineDiff { added: 0, removed: 0 }
    &&& row.vs_trunk == AheadBehind { ahead: 0, behind: 0 }
    &&& row.commit@ == Seq::<char>::empty()
    &&& row.age@ == Seq::<char>::empty()
    &&& row.message@ == Seq::<char>::empty()
    &&& row.ci_status == CiStatus::Absent
    &&& row.summary@ == Seq::<char>::empty()
}

/// Transform an observed workspace row into a renderable list row.
fn build_list_row(cfg: &MergedConfig, obs_row: &ObservedListRow, repo_root: &str, is_current: bool) -> (r: Result<ListRow, CoreError>)
    ensures
        match list_url(cfg.view(), obs_row.workspace, repo_root@) {
            Ok(u) => r matches Ok(row) && workspace_row(&row, obs_row, repo_root@, is_current, u),
            Err(e) => r matches Err(x) && x.view() == e,
        },
{
    let w = &obs_row.workspace;
    let d = &obs_row.details;
    let is_default = path_eq(w.path.as_str(), repo_root);
    let url = match &cfg.list {
        Some(list) => {
            let ctx = RenderContext {
                branch: w.name.clone(),
                worktree_path: Some(w.path.clone()),
                worktree_name: file_name(w.path.as_str()),
                repo: file_name(repo_root),
                repo_path: Some(repo_root.to_owned()),
                cwd: Some(w.path.clone()),
                hook_type: None,
                hook_name: None,
                args: Vec::new(),
                vars: Vec::new(),
                vars_state: StrMap::new(),
            };
            assert(ctx.view().args =~= Seq::<Seq<char>>::empty());
            assert(ctx.view().vars =~= Seq::<(Seq<char>, Seq<char>)>::empty());
            assert(ctx.view().vars_state =~= Map::<Seq<char>, Seq<char>>::empty());
            assert(ctx.view() =~= list_context(*w, repo_root@));
            match render(list.url.as_str(), &ctx) {
                Ok(u) => u,
                Err(e) => {
                    return Err(e);
                },
            }
        },
        None => String::new(),
    };
    let on_trunk = obs_row.ahead == 0 && obs_row.behind == 0;
    let status = StatusFlags {
        has_changes: d.head_added > 0 || d.head_removed > 0,
        modified: d.modified,
        untracked: d.untracked,
        stale: w.stale,
        conflicts: d.conflicts,
        has_remote: obs_row.has_remote_bookmark || on_trunk,
        vs_trunk: trunk_rel(obs_row.ahead, obs_row.behind),
    };
    let display_path = if is_default {
        ".".to_owned()
    } else {
        match path_strip_prefix(w.path.as_str(), repo_root) {
            Some(rel) => concat("./", rel.as_str()),
            None => w.path.clone(),
        }
    };
    Ok(ListRow {
        name: w.name.clone(),
        path: w.path.clone(),
        display_path,
        kind: ListRowKind::Workspace,
        url,
        is_current,
        is_default,
        status,
        head_diff: LineDiff { added: d.head_added, removed: d.head_removed },
        vs_trunk: AheadBehind { ahead: obs_row.ahead, behind: obs_row.behind },
        commit: d.commit_short.clone(),
        age: format_age(d.age_seconds),
        message: d.message_first_line.clone(),
        ci_status: obs_row.ci_status,
        summary: obs_row.summary.clone(),
    })
}

/// Build a placeholder row for a bookmark that has no workspace.
fn build_bookmark_row(name: &str) -> (r: ListRow)
    ensures
        bookmark_row(&r, name@),
{
    ListRow {
        name: name.to_owned(),
        path: String::new(),
        display_path: String::new(),
        kind: ListRowKind::Bookmark,
        url: String::new(),
        is_current: false,
        is_default: false,
        status: StatusFlags::default(),
        head_diff: LineDiff { added: 0, removed: 0 },
        vs_trunk: AheadBehind { ahead: 0, behind: 0 },
        commit: String::new(),
        age: String::new(),
        message: String::new(),
        ci_status: CiStatus::Absent,
        summary: String::new(),
    }
}

/// The first of the first `n` observed rows whose URL does not render, as
/// its error.
pub open spec fn first_url_error(cfg: MergedView, obs: &ObservedListState, n: int) -> Option<ErrView>
    decreases n,
{
    if n <= 0 {
        None
    } else {
        match first_url_error(cfg, obs, n - 1) {
            Some(e) => Some(e),
            None => match list_url(cfg, obs.rows@[n - 1].workspace, obs.repo_root@) {
                Err(e) => Some(e),
                Ok(_) => None,
            },
        }
    }
}

/// Whether `rows` are the list rows of an observation: one per observed
/// workspace in order, then one per extra bookmark, then one per
/// remote-only bookmark.
pub open spec fn list_rows(rows: Seq<ListRow>, cfg: MergedView, obs: &ObservedListState) -> bool {
    let n = obs.rows@.len();
    let b = obs.extra_bookmark_names@.len();
    &&& rows.len() == n + b + obs.extra_remote_only_names@.len()
    &&& forall|i: int| 0 <= i < n ==> workspace_row(
        &#[trigger] rows[i],
        &obs.rows@[i],
        obs.repo_root@,
        opt_view(obs.current_workspace) == Some(obs.rows@[i].workspace.name@),
        list_url(cfg, obs.rows@[i].workspace, obs.repo_root@)->Ok_0,
    )
    &&& forall|i: int| 0 <= i < b ==> bookmark_row(&#[trigger] rows[n + i], obs.extra_bookmark_names@[i]@)
    &&& forall|i: int| 0 <= i < obs.extra_remote_only_names@.len() ==> bookmark_row(
        &#[trigger] rows[n + b + i],
        obs.extra_remote_only_names@[i]@,
    )
}

/// What the list prints for its rows in a format.
pub open spec fn list_body(rows: Seq<ListRow>, display: DisplayHints, format: OutputFormat, obs: &ObservedListState) -> Seq<char> {
    match format {
        OutputFormat::Text => table_text(rows, display.styled, display.term_width, obs.full),
        OutputFormat::Json => json_pretty_text(list_json(rows)),
        OutputFormat::Statusline => statusline_text(rows, opt_view(obs.current_workspace)),
    }
}

fn push_bookmark_rows(rows: &mut Vec<ListRow>, names: &Vec<String>)
    ensures
        final(rows)@.len() == old(rows)@.len() + names@.len(),
        forall|i: int| 0 <= i < old(rows)@.len() ==> #[trigger] final(rows)@[i] == old(rows)@[i],
        forall|i: int| 0 <= i < names@.len() ==> bookmark_row(&#[trigger] final(rows)@[old(rows)@.len() + i], names@[i]@),
{
    let ghost base = rows@;
    let mut i: usize = 0;
    while i < names.len()
        invariant
            i <= names@.len(),
            rows@.len() == base.len() + i,
            forall|j: int| 0 <= j < base.len() ==> #[trigger] rows@[j] == base[j],
            forall|j: int| 0 <= j < i ==> bookmark_row(&#[trigger] rows@[base.len() + j], names@[j]@),
        decreases names@.len() - i,
    {
        rows.push(build_bookmark_row(names[i].as_str()));
        i = i + 1;
    }
}

/// Build a plan for the `list` subcommand: the rows rendered as a table,
/// as JSON, or as a statusline.
pub fn plan_list(cfg: &MergedConfig, obs: &ObservedListState, display: &DisplayHints, format: OutputFormat) -> (r: Result<Plan, CoreError>)
    ensures
        !obs.is_jj_repo ==> (r matches Err(e) && e.view() == ErrView::NotJjRepo),
        obs.is_jj_repo && first_url_error(cfg.view(), obs, obs.rows@.len() as int) is Some ==> (r matches Err(e)
            && Some(e.view()) == first_url_error(cfg.view(), obs, obs.rows@.len() as int)),
        obs.is_jj_repo && first_url_error(cfg.view(), obs, obs.rows@.len() as int) is None ==> (r matches Ok(p)
            && exists|rows: Seq<ListRow>|
            list_rows(rows, cfg.view(), obs) && #[trigger] p.view() == seq![
                ActionView::PrintLine(list_body(rows, *display, format, obs)),
            ]),
{
    if !obs.is_jj_repo {
        return Err(CoreError::NotJjRepo);
    }
    let ghost c = cfg.view();
    let mut rows: Vec<ListRow> = Vec::new();
    let mut i: usize = 0;
    while i < obs.rows.len()
        invariant
            i <= obs.rows@.len(),
            obs.is_jj_repo,
            c == cfg.view(),
            rows@.len() == i,
            first_url_error(c, obs, i as int) is None,
            forall|j: int| 0 <= j < i ==> workspace_row(
                &#[trigger] rows@[j],
                &obs.rows@[j],
                obs.repo_root@,
                opt_view(obs.current_workspace) == Some(obs.rows@[j].workspace.name@),
                list_url(c, obs.rows@[j].workspace, obs.repo_root@)->Ok_0,
            ),
        decreases obs.rows@.len() - i,
    {
        let r = &obs.rows[i];
        let cur = is_current(&obs.current_workspace, r.workspace.name.as_str());
        match build_list_row(cfg, r, obs.repo_root.as_str(), cur) {
            Ok(row) => {
                rows.push(row);
            },
            Err(e) => {
                proof {
                    lemma_url_error_stays(c, obs, i as int + 1, obs.rows@.len() as int);
                }
                return Err(e);
            },
        }
        i = i + 1;
    }
    let ghost n = obs.rows@.len();
    push_bookmark_rows(&mut rows, &obs.extra_bookmark_names);
    let ghost with_b = rows@;
    push_bookmark_rows(&mut rows, &obs.extra_remote_only_names);
    let current: Option<&str> = match &obs.current_workspace {
        Some(s) => Some(s.as_str()),
        None => None,
    };
    let body = match format {
        OutputFormat::Text => format_list_table(&rows, display.styled, display.term_width, obs.full),
        OutputFormat::Json => format_list_json(&rows),
        OutputFormat::Statusline => format_statusline(&rows, current),
    };
    let mut plan = Plan::new();
    plan.push(Action::PrintLine(body));
    assert(list_rows(rows@, c, obs)) by {
        assert forall|j: int| 0 <= j < obs.extra_bookmark_names@.len() implies bookmark_row(
            &#[trigger] rows@[n + j],
            obs.extra_bookmark_names@[j]@,
        ) by {
            assert(rows@[n + j] == with_b[n + j]);
        }
    }
    assert(plan.view() =~= seq![ActionView::PrintLine(list_body(rows@, *display, format, obs))]);
    Ok(plan)
}

proof fn lemma_url_error_stays(cfg: MergedView, obs: &ObservedListState, i: int, j: int)
    requires
        0 <= i <= j,
        first_url_error(cfg, obs, i) is Some,
    ensures
        first_url_error(cfg, obs, j) == first_url_error(cfg, obs, i),
    decreases j - i,
{
    if j > i {
        lemma_url_error_stays(cfg, obs, i, j - 1);
    }
}


/// The branch and directory hooks are shown for: the current workspace's,
/// else an empty branch and the repository root.
pub open spec fn cur_or_root(obs: &ObservedState) -> (Seq<char>, Seq<char>) {
    match obs.current_workspace {
        Some(n) => {
            let k = ws_pos(obs.workspaces@, n@);
            if k >= 0 {
                (obs.workspaces@[k].name@, obs.workspaces@[k].path@)
            } else {
                (seq![], obs.repo_root@)
            }
        },
        None => (seq![], obs.repo_root@),
    }
}

/// The render context of a workspace for templates run in it: its name as
/// `branch`, its path as `worktree_path` and `cwd`, the path's last
/// component as `worktree_name`, and the repository's name and path.
pub open spec fn workspace_context(branch: Seq<char>, ws_path: Seq<char>, root: Seq<char>) -> ContextView {
    ContextView {
        branch,
        worktree_path: Some(ws_path),
        worktree_name: spec_file_name(ws_path),
        repo: spec_file_name(root),
        repo_path: Some(root),
        cwd: Some(ws_path),
        hook_type: None,
        hook_name: None,
        args: seq![],
        vars: seq![],
        vars_state: Map::empty(),
    }
}

/// Build the render context of a workspace (see `workspace_context`).
pub fn workspace_render_context(branch: &str, ws_path: &str, repo_root: &str) -> (r: RenderContext)
    ensures
        r.view() == workspace_context(branch@, ws_path@, repo_root@),
{
    let r = RenderContext {
        branch: branch.to_owned(),
        worktree_path: Some(ws_path.to_owned()),
        worktree_name: file_name(ws_path),
        repo: file_name(repo_root),
        repo_path: Some(repo_root.to_owned()),
        cwd: Some(ws_path.to_owned()),
        hook_type: None,
        hook_name: None,
        args: Vec::new(),
        vars: Vec::new(),
        vars_state: StrMap::new(),
    };
    assert(r.view().args =~= Seq::<Seq<char>>::empty());
    assert(r.view().vars =~= Seq::<(Seq<char>, Seq<char>)>::empty());
    assert(r.view().vars_state =~= Map::<Seq<char>, Seq<char>>::empty());
    assert(r.view() =~= workspace_context(branch@, ws_path@, repo_root@));
    r
}

/// A `--var KEY=VAL` argument split at its first `=`; nothing without one.
pub open spec fn var_pair(s: Seq<char>) -> Option<(Seq<char>, Seq<char>)> {
    let k = crate::config_loader::find_char(s, '=', 0);
    if k < 0 { None } else { Some((s.take(k), s.skip(k + 1))) }
}

/// The pairs of the `--var` arguments that hold an `=`, in order.
pub open spec fn var_pairs(vs: Seq<Seq<char>>) -> Seq<(Seq<char>, Seq<char>)>
    decreases vs.len(),
{
    if vs.len() == 0 {
        seq![]
    } else {
        match var_pair(vs.last()) {
            Some(p) => var_pairs(vs.drop_last()).push(p),
            None => var_pairs(vs.drop_last()),
        }
    }
}

/// Split `--var KEY=VAL` arguments into pairs, dropping those without `=`.
pub fn parse_hook_vars(vars: &Vec<String>) -> (r: Vec<(String, String)>)
    ensures
        r@.map_values(|p: (String, String)| (p.0@, p.1@)) == var_pairs(vars@.map_values(|s: String| s@)),
{
    let ghost vs = vars@.map_values(|s: String| s@);
    let mut out: Vec<(String, String)> = Vec::new();
    let mut i: usize = 0;
    while i < vars.len()
        invariant
            i <= vars@.len(),
            vs == vars@.map_values(|s: String| s@),
            out@.map_values(|p: (String, String)| (p.0@, p.1@)) == var_pairs(vs.take(i as int)),
        decreases vars@.len() - i,
    {
        let cs = chars_of(vars[i].as_str());
        assert(vs.take(i + 1).drop_last() =~= vs.take(i as int));
        assert(vs.take(i + 1).last() == vs[i as int]);
        let mut k: usize = 0;
        while k < cs.len() && cs[k] != '='
            invariant
                k <= cs@.len(),
                cs@ == vs[i as int],
                crate::config_loader::find_char(cs@, '=', k as int) == crate::config_loader::find_char(cs@, '=', 0),
            decreases cs@.len() - k,
        {
            k = k + 1;
        }
        if k < cs.len() {
            let key = string_of(crate::text::slice_chars(&cs, 0, k).as_slice());
            let val = string_of(crate::text::slice_chars(&cs, k + 1, cs.len()).as_slice());
            let ghost prev = out@.map_values(|p: (String, String)| (p.0@, p.1@));
            assert(cs@.subrange(0, k as int) =~= cs@.take(k as int));
            assert(cs@.subrange(k + 1, cs@.len() as int) =~= cs@.skip(k + 1));
            out.push((key, val));
            assert(out@.map_values(|p: (String, String)| (p.0@, p.1@)) =~= prev.push((cs@.take(k as int), cs@.skip(k + 1))));
        }
        i = i + 1;
    }
    assert(vs.take(vars@.len() as int) =~= vs);
    out
}

/// Extract current workspace branch and path from the observation, falling
/// back to the repository root when not inside a workspace.
pub fn current_workspace_or_root(obs: &ObservedState) -> (r: (String, String))
    ensures
        (r.0@, r.1@) == cur_or_root(obs),
{
    match &obs.current_workspace {
        Some(n) => match find_workspace(&obs.workspaces, n.as_str()) {
            Some(k) => (obs.workspaces[k].name.clone(), obs.workspaces[k].path.clone()),
            None => (String::new(), obs.repo_root.clone()),
        },
        None => (String::new(), obs.repo_root.clone()),
    }
}

/// A hook template as `hook show --expanded` shows it: rendered for the
/// current workspace, or the render error; nothing without an
/// observation.
pub open spec fn shown_template(obs: Option<&ObservedState>, t: Seq<char>) -> Option<Seq<char>> {
    match obs {
        None => None,
        Some(o) => {
            let (b, p) = cur_or_root(o);
            Some(
                match render_result(t, hook_context(b, p, o.repo_root@, seq![], seq![])) {
                    Ok(r) => r,
                    Err(m) => "<error: "@ + error_message(ErrView::TemplateRender(m)) + ">"@,
                },
            )
        },
    }
}

/// Render a hook template using the current workspace context.
fn render_hook_template(obs: Option<&ObservedState>, tmpl: &str) -> (r: Option<String>)
    ensures
        opt_view(r) == shown_template(obs, tmpl@),
{
    match obs {
        None => None,
        Some(o) => {
            let (branch, ws_path) = current_workspace_or_root(o);
            let ctx = render_ctx(branch.as_str(), ws_path.as_str(), o.repo_root.as_str(), "", "");
            proof {
                reveal_strlit("");
                assert(""@ =~= Seq::<char>::empty());
            }
            match render(tmpl, &ctx) {
                Ok(rendered) => Some(rendered),
                Err(e) => Some(concat(concat("<error: ", e.to_string().as_str()).as_str(), ">")),
            }
        },
    }
}

/// Whether a group of source `s` passes the source filter.
pub open spec fn source_passes(filter: Option<HookSource>, s: HookSource) -> bool {
    match filter {
        Some(f) => f == s,
        None => true,
    }
}

/// The hooks of the groups of one slot that pass the filter: (type, name,
/// template, source), in order.
pub open spec fn group_entries(ty: Seq<char>, gs: Seq<(HookSource, Entries)>, filter: Option<HookSource>) -> Seq<(Seq<char>, Seq<char>, Seq<char>, HookSource)>
    decreases gs.len(),
{
    if gs.len() == 0 {
        seq![]
    } else {
        group_entries(ty, gs.drop_last(), filter) + if source_passes(filter, gs.last().0) {
            gs.last().1.map_values(|e: (Seq<char>, Seq<char>)| (ty, e.0, e.1, gs.last().0))
        } else {
            seq![]
        }
    }
}

/// The hooks of every slot that pass the filter, in lifecycle order.
pub open spec fn show_entries(slots: Seq<(Seq<char>, Seq<(HookSource, Entries)>)>, filter: Option<HookSource>) -> Seq<(Seq<char>, Seq<char>, Seq<char>, HookSource)>
    decreases slots.len(),
{
    if slots.len() == 0 {
        seq![]
    } else {
        show_entries(slots.drop_last(), filter) + group_entries(slots.last().0, slots.last().1, filter)
    }
}

/// A listed hook, as text.
pub type ShowEntry = (Seq<char>, Seq<char>, Seq<char>, HookSource);

/// The JSON object of one listed hook.
pub open spec fn show_item(e: ShowEntry, expanded: bool, obs: Option<&ObservedState>) -> JsonView {
    JsonView::Object(
        seq![
            ("type"@, JsonView::Text(e.0)),
            ("name"@, JsonView::Text(e.1)),
            ("source"@, JsonView::Text(e.3.name())),
            ("template"@, JsonView::Text(e.2)),
        ] + if expanded && shown_template(obs, e.2) is Some {
            seq![("rendered"@, JsonView::Text(shown_template(obs, e.2)->Some_0))]
        } else {
            seq![]
        },
    )
}

/// The bytes of the UTF-8 encoding of a character.
pub open spec fn utf8_width(c: char) -> nat {
    if (c as u32) < 0x80 {
        1
    } else if (c as u32) < 0x800 {
        2
    } else if (c as u32) < 0x10000 {
        3
    } else {
        4
    }
}

/// The bytes of the UTF-8 encoding of a text.
pub open spec fn utf8_len(s: Seq<char>) -> nat
    decreases s.len(),
{
    if s.len() == 0 {
        0
    } else {
        utf8_len(s.drop_last()) + utf8_width(s.last())
    }
}

proof fn lemma_utf8_len_first(s: Seq<char>)
    requires
        s.len() > 0,
    ensures
        utf8_len(s) == utf8_width(s[0]) + utf8_len(s.drop_first()),
    decreases s.len(),
{
    if s.len() > 1 {
        lemma_utf8_len_first(s.drop_last());
        assert(s.drop_last().drop_first() =~= s.drop_first().drop_last());
        assert(s.drop_last()[0] == s[0]);
        assert(s.drop_first().last() == s.last());
        assert(utf8_len(s.drop_first()) == utf8_len(s.drop_first().drop_last()) + utf8_width(s.drop_first().last()));
        assert(utf8_len(s) == utf8_len(s.drop_last()) + utf8_width(s.last()));
    } else {
        assert(utf8_len(s.drop_first()) == 0);
        assert(utf8_len(s.drop_last()) == 0);
        assert(s.last() == s[0]);
    }
}

proof fn lemma_encode_len(s: Seq<char>)
    ensures
        vstd::utf8::encode_utf8(s).len() == utf8_len(s),
    decreases s.len(),
{
    if s.len() > 0 {
        lemma_utf8_len_first(s);
        lemma_encode_len(s.drop_first());
        vstd::utf8::char_is_scalar(s[0]);
    }
}

/// Length in bytes of a string (`str::len`, the size of its UTF-8
/// encoding).
fn byte_len(s: &str) -> (r: usize)
    ensures
        r == utf8_len(s@),
{
    proof {
        lemma_encode_len(s@);
    }
    s.as_bytes().len()
}

/// Width of the Type column: its longest entry in bytes, at least 4.
pub open spec fn type_width(es: Seq<ShowEntry>) -> nat
    decreases es.len(),
{
    if es.len() == 0 {
        4
    } else {
        let p = type_width(es.drop_last());
        let w = utf8_len(es.last().0);
        if w > p { w } else { p }
    }
}

/// Width of the Name column: its longest entry in bytes, at least 4.
pub open spec fn name_width(es: Seq<ShowEntry>) -> nat
    decreases es.len(),
{
    if es.len() == 0 {
        4
    } else {
        let p = name_width(es.drop_last());
        let w = utf8_len(es.last().1);
        if w > p { w } else { p }
    }
}

/// Width of a source name.
pub open spec fn source_len(s: HookSource) -> nat {
    match s {
        HookSource::User => 4,
        HookSource::Project => 7,
    }
}

/// Width of the Source column: its longest entry, 6 without entries.
pub open spec fn source_width(es: Seq<ShowEntry>) -> nat
    decreases es.len(),
{
    if es.len() == 0 {
        6
    } else if es.len() == 1 {
        source_len(es[0].3)
    } else {
        let p = source_width(es.drop_last());
        let w = source_len(es.last().3);
        if w > p { w } else { p }
    }
}

/// `s` padded with spaces to `w` characters.
pub open spec fn pad_to(s: Seq<char>, w: nat) -> Seq<char> {
    s + Seq::new(if w > s.len() { (w - s.len()) as nat } else { 0 }, |i: int| ' ')
}

/// One line of the hook table.
pub open spec fn show_line(a: Seq<char>, b: Seq<char>, c: Seq<char>, d: Seq<char>, es: Seq<ShowEntry>) -> Seq<char> {
    pad_to(a, type_width(es)) + "  "@ + pad_to(b, name_width(es)) + "  "@ + pad_to(c, source_width(es)) + "  "@ + d
}

/// `n` dashes.
pub open spec fn dashes(n: nat) -> Seq<char> {
    Seq::new(n, |i: int| '-')
}

/// The last column of a listed hook: its template, or with `expanded` its
/// rendering, cut to 60 characters.
pub open spec fn show_value(e: ShowEntry, expanded: bool, obs: Option<&ObservedState>) -> Seq<char> {
    if expanded {
        match shown_template(obs, e.2) {
            Some(r) => truncated(r, 60),
            None => e.2,
        }
    } else {
        truncated(e.2, 60)
    }
}

/// The lines of the hook table: heading, rule, one line per hook.
pub open spec fn show_lines(es: Seq<ShowEntry>, expanded: bool, obs: Option<&ObservedState>) -> Seq<Seq<char>> {
    seq![
        show_line("Type"@, "Name"@, "Source"@, if expanded { "Rendered"@ } else { "Template"@ }, es),
        show_line(dashes(type_width(es)), dashes(name_width(es)), dashes(source_width(es)), dashes(8), es),
    ] + es.map_values(|e: ShowEntry| show_line(e.0, e.1, e.3.name(), show_value(e, expanded, obs), es))
}

/// What `hook show` prints.
pub open spec fn hook_show_output(cfg: MergedView, expanded: bool, obs: Option<&ObservedState>, format: OutputFormat, filter: Option<HookSource>) -> Seq<char> {
    let es = show_entries(hook_slots(cfg), filter);
    if es.len() == 0 {
        "No hooks configured."@
    } else {
        match format {
            OutputFormat::Json => json_text(JsonView::Array(es.map_values(|e: ShowEntry| show_item(e, expanded, obs)))),
            OutputFormat::Text => join(show_lines(es, expanded, obs), "\n"@),
            OutputFormat::Statusline => dec(es.len()) + " hook(s) configured"@,
        }
    }
}

/// The listed hooks, as text.
pub open spec fn entries_view(v: Seq<(&str, &str, &str, HookSource)>) -> Seq<ShowEntry> {
    v.map_values(|x: (&str, &str, &str, HookSource)| (x.0@, x.1@, x.2@, x.3))
}

/// Every configured hook, slot by slot in lifecycle order, group by group
/// and entry by entry: (hook type, name, template, source); with a filter,
/// only the hooks of that source.
pub fn configured_hooks<'a>(cfg: &'a MergedConfig, source_filter: Option<HookSource>) -> (r: Vec<(&'a str, &'a str, &'a str, HookSource)>)
    ensures
        entries_view(r@) == show_entries(hook_slots(cfg.view()), source_filter),
{
    let ghost slots = hook_slots(cfg.view());
    let all = cfg.all_hook_groups();
    assert(forall|q: int| 0 <= q < 6 ==> #[trigger] slots[q] == (all@[q].0@, sourced_view(all@[q].1@))) by {
        assert(slots[0] == (all@[0].0@, sourced_view(all@[0].1@)));
        assert(slots[1] == (all@[1].0@, sourced_view(all@[1].1@)));
        assert(slots[2] == (all@[2].0@, sourced_view(all@[2].1@)));
        assert(slots[3] == (all@[3].0@, sourced_view(all@[3].1@)));
        assert(slots[4] == (all@[4].0@, sourced_view(all@[4].1@)));
        assert(slots[5] == (all@[5].0@, sourced_view(all@[5].1@)));
    }
    let mut entries: Vec<(&str, &str, &str, HookSource)> = Vec::new();
    let mut i: usize = 0;
    assert(slots.take(0) =~= Seq::<(Seq<char>, Seq<(HookSource, Entries)>)>::empty());
    while i < 6
        invariant
            i <= 6,
            slots.len() == 6,
            forall|q: int| 0 <= q < 6 ==> #[trigger] slots[q] == (all@[q].0@, sourced_view(all@[q].1@)),
            entries_view(entries@) == show_entries(slots.take(i as int), source_filter),
        decreases 6 - i,
    {
        let ty = all[i].0;
        let groups = all[i].1;
        let ghost gs = sourced_view(groups@);
        let ghost base = entries_view(entries@);
        let mut j: usize = 0;
        assert(gs.take(0) =~= Seq::<(HookSource, Entries)>::empty());
        while j < groups.len()
            invariant
                i < 6,
                j <= groups@.len(),
                gs == sourced_view(groups@),
                entries_view(entries@) == base + group_entries(ty@, gs.take(j as int), source_filter),
            decreases groups@.len() - j,
        {
            let ghost prev = entries_view(entries@);
            assert(gs.take(j + 1).drop_last() =~= gs.take(j as int));
            let shg = &groups[j];
            let passes = match source_filter {
                Some(f) => match (f, shg.source) {
                    (HookSource::User, HookSource::User) => true,
                    (HookSource::Project, HookSource::Project) => true,
                    _ => false,
                },
                None => true,
            };
            if passes {
                let n = map_len(&shg.group);
                let ghost es = map_entries(shg.group);
                let mut k: usize = 0;
                while k < n
                    invariant
                        k <= n,
                        n == es.len(),
                        es == map_entries(shg.group),
                        entries_view(entries@) == prev + es.take(k as int).map_values(
                            |e: (Seq<char>, Seq<char>)| (ty@, e.0, e.1, shg.source),
                        ),
                    decreases n - k,
                {
                    let ghost before = entries_view(entries@);
                    match map_get_index(&shg.group, k) {
                        Some((name, tmpl)) => {
                            entries.push((ty, name.as_str(), tmpl.as_str(), shg.source));
                            assert(entries_view(entries@) =~= before.push((ty@, name@, tmpl@, shg.source)));
                        },
                        None => {},
                    }
                    assert(es.take(k + 1).map_values(|e: (Seq<char>, Seq<char>)| (ty@, e.0, e.1, shg.source)) =~= es.take(
                        k as int,
                    ).map_values(|e: (Seq<char>, Seq<char>)| (ty@, e.0, e.1, shg.source)).push(
                        (ty@, es[k as int].0, es[k as int].1, shg.source),
                    ));
                    k = k + 1;
                }
                assert(es.take(n as int) =~= es);
            } else {
                assert(prev + seq![] =~= prev);
            }
            j = j + 1;
        }
        assert(gs.take(groups@.len() as int) =~= gs);
        assert(slots.take(i + 1).drop_last() =~= slots.take(i as int));
        i = i + 1;
    }
    assert(slots.take(6) =~= slots);
    entries
}

/// Render the hook entries as a JSON array.
fn plan_hook_show_json(entries: &Vec<(&str, &str, &str, HookSource)>, expanded: bool, obs: Option<&ObservedState>) -> (r: Result<Plan, CoreError>)
    ensures
        r matches Ok(p) && p.view() == seq![
            ActionView::PrintLine(json_text(JsonView::Array(entries_view(entries@).map_values(|e: ShowEntry| show_item(e, expanded, obs))))),
        ],
{
    let ghost ev = entries_view(entries@);
    let mut items: Vec<JsonValue> = Vec::new();
    let mut i: usize = 0;
    while i < entries.len()
        invariant
            i <= entries@.len(),
            ev == entries_view(entries@),
            items_view(items@) == ev.take(i as int).map_values(|e: ShowEntry| show_item(e, expanded, obs)),
        decreases entries@.len() - i,
    {
        let (hook_type, name, tmpl, source) = entries[i];
        let mut members = vec![
            ("type".to_owned(), JsonValue::Text(hook_type.to_owned())),
            ("name".to_owned(), JsonValue::Text(name.to_owned())),
            ("source".to_owned(), JsonValue::Text(source.to_string())),
            ("template".to_owned(), JsonValue::Text(tmpl.to_owned())),
        ];
        if expanded {
            match render_hook_template(obs, tmpl) {
                Some(rendered) => {
                    members.push(("rendered".to_owned(), JsonValue::Text(rendered)));
                },
                None => {},
            }
        }
        let ghost e = ev[i as int];
        assert(members_view(members@) =~= show_item(e, expanded, obs)->Object_0);
        let ghost prev = items@;
        items.push(object(members));
        assert(items_view(items@) =~= items_view(prev).push(show_item(e, expanded, obs)));
        assert(ev.take(i + 1).map_values(|e: ShowEntry| show_item(e, expanded, obs)) =~= ev.take(i as int).map_values(
            |e: ShowEntry| show_item(e, expanded, obs),
        ).push(show_item(e, expanded, obs)));
        i = i + 1;
    }
    assert(ev.take(ev.len() as int) =~= ev);
    let ghost iv = items_view(items@);
    let arr = JsonValue::Array(items);
    assert(arr.view()->Array_0 =~= iv);
    let mut plan = Plan::new();
    plan.push(Action::PrintLine(write_json(&arr)));
    assert(plan.view() =~= seq![ActionView::PrintLine(json_text(JsonView::Array(iv)))]);
    Ok(plan)
}

fn padded(s: &str, w: usize) -> (r: String)
    ensures
        r@ == pad_to(s@, w as nat),
{
    let mut out = crate::text::chars_of(s);
    let n = out.len();
    if w > n {
        let ghost start = out@;
        let mut k: usize = 0;
        while k < w - n
            invariant
                n < w,
                k <= w - n,
                out@ == start + Seq::new(k as nat, |i: int| ' '),
            decreases w - n - k,
        {
            out.push(' ');
            k = k + 1;
            assert(out@ =~= start + Seq::new(k as nat, |i: int| ' '));
        }
    } else {
        assert(out@ =~= s@ + Seq::new(0, |i: int| ' '));
    }
    string_of(&out)
}

fn dash_run(n: usize) -> (r: String)
    ensures
        r@ == dashes(n as nat),
{
    let mut out: Vec<char> = Vec::new();
    let mut k: usize = 0;
    while k < n
        invariant
            k <= n,
            out@ == dashes(k as nat),
        decreases n - k,
    {
        out.push('-');
        k = k + 1;
        assert(out@ =~= dashes(k as nat));
    }
    string_of(&out)
}

fn table_line(a: &str, b: &str, c: &str, d: &str, tw: usize, nw: usize, sw: usize) -> (r: String)
    ensures
        r@ == pad_to(a@, tw as nat) + "  "@ + pad_to(b@, nw as nat) + "  "@ + pad_to(c@, sw as nat) + "  "@ + d@,
{
    let mut out: Vec<char> = Vec::new();
    push_str(&mut out, padded(a, tw).as_str());
    push_str(&mut out, "  ");
    push_str(&mut out, padded(b, nw).as_str());
    push_str(&mut out, "  ");
    push_str(&mut out, padded(c, sw).as_str());
    push_str(&mut out, "  ");
    push_str(&mut out, d);
    string_of(&out)
}

/// Render the hook entries as a text table.
fn plan_hook_show_text(entries: &Vec<(&str, &str, &str, HookSource)>, expanded: bool, obs: Option<&ObservedState>) -> (r: Result<Plan, CoreError>)
    ensures
        r matches Ok(p) && p.view() == seq![
            ActionView::PrintLine(join(show_lines(entries_view(entries@), expanded, obs), "\n"@)),
        ],
{
    let ghost ev = entries_view(entries@);
    let mut type_w: usize = 4;
    let mut name_w: usize = 4;
    let mut source_w: usize = 6;
    let mut i: usize = 0;
    while i < entries.len()
        invariant
            i <= entries@.len(),
            ev == entries_view(entries@),
            type_w as nat == type_width(ev.take(i as int)),
            name_w as nat == name_width(ev.take(i as int)),
            source_w as nat == source_width(ev.take(i as int)),
        decreases entries@.len() - i,
    {
        assert(ev.take(i + 1).drop_last() =~= ev.take(i as int));
        let (t, n, _, src) = entries[i];
        let tl = byte_len(t);
        if tl > type_w {
            type_w = tl;
        }
        let nl = byte_len(n);
        if nl > name_w {
            name_w = nl;
        }
        let sl: usize = match src {
            HookSource::User => 4,
            HookSource::Project => 7,
        };
        if i == 0 || sl > source_w {
            source_w = sl;
        }
        i = i + 1;
    }
    assert(ev.take(ev.len() as int) =~= ev);
    let mut lines: Vec<String> = Vec::new();
    let last_col = if expanded { "Rendered" } else { "Template" };
    lines.push(table_line("Type", "Name", "Source", last_col, type_w, name_w, source_w));
    lines.push(table_line(
        dash_run(type_w).as_str(),
        dash_run(name_w).as_str(),
        dash_run(source_w).as_str(),
        dash_run(8).as_str(),
        type_w,
        name_w,
        source_w,
    ));
    let ghost head = lines@.map_values(|l: String| l@);
    assert(head =~= show_lines(ev, expanded, obs).take(2));
    let mut k: usize = 0;
    while k < entries.len()
        invariant
            k <= entries@.len(),
            ev == entries_view(entries@),
            type_w as nat == type_width(ev),
            name_w as nat == name_width(ev),
            source_w as nat == source_width(ev),
            lines@.map_values(|l: String| l@) == show_lines(ev, expanded, obs).take(k + 2),
        decreases entries@.len() - k,
    {
        let (t, n, tmpl, src) = entries[k];
        let value = if expanded {
            match render_hook_template(obs, tmpl) {
                Some(r) => truncate_line(r.as_str(), 60),
                None => tmpl.to_owned(),
            }
        } else {
            truncate_line(tmpl, 60)
        };
        let ghost prev = lines@.map_values(|l: String| l@);
        lines.push(table_line(t, n, src.to_string().as_str(), value.as_str(), type_w, name_w, source_w));
        assert(lines@.map_values(|l: String| l@) =~= prev.push(show_lines(ev, expanded, obs)[k + 2]));
        assert(show_lines(ev, expanded, obs).take(k + 3) =~= show_lines(ev, expanded, obs).take(k + 2).push(
            show_lines(ev, expanded, obs)[k + 2],
        ));
        k = k + 1;
    }
    assert(show_lines(ev, expanded, obs).take(ev.len() as int + 2) =~= show_lines(ev, expanded, obs));
    let mut plan = Plan::new();
    plan.push(Action::PrintLine(join_strings(&lines, "\n")));
    assert(plan.view() =~= seq![ActionView::PrintLine(join(show_lines(ev, expanded, obs), "\n"@))]);
    Ok(plan)
}

/// Build a plan for `hook show` (list all configured hooks, optionally only
/// those of one source).
pub fn plan_hook_show(
    cfg: &MergedConfig,
    expanded: bool,
    obs: Option<&ObservedState>,
    format: OutputFormat,
    source_filter: Option<HookSource>,
) -> (r: Result<Plan, CoreError>)
    ensures
        r matches Ok(p) && p.view() == seq![
            ActionView::PrintLine(hook_show_output(cfg.view(), expanded, obs, format, source_filter)),
        ],
{
    let ghost c = cfg.view();
    let entries = configured_hooks(cfg, source_filter);
    if entries.len() == 0 {
        let mut plan = Plan::new();
        plan.push(Action::PrintLine("No hooks configured.".to_owned()));
        assert(plan.view() =~= seq![ActionView::PrintLine(hook_show_output(c, expanded, obs, format, source_filter))]);
        return Ok(plan);
    }
    match format {
        OutputFormat::Json => plan_hook_show_json(&entries, expanded, obs),
        OutputFormat::Text => plan_hook_show_text(&entries, expanded, obs),
        OutputFormat::Statusline => {
            let mut plan = Plan::new();
            plan.push(Action::PrintLine(concat(fmt_uint(entries.len() as u64).as_str(), " hook(s) configured")));
            assert(plan.view() =~= seq![ActionView::PrintLine(hook_show_output(c, expanded, obs, format, source_filter))]);
            Ok(plan)
        },
    }
}


/// Whether an action deletes a bookmark.
pub open spec fn deletes_bookmark(a: ActionView) -> bool {
    a is BookmarkDelete
}

proof fn lemma_entries_only_hooks(es: Entries, source: HookSource, ty: Seq<char>, branch: Seq<char>, p: Seq<char>, root: Seq<char>)
    ensures
        entries_actions(es, source, ty, branch, p, root) matches Ok(acts) ==> forall|i: int|
            0 <= i < acts.len() ==> #[trigger] acts[i] is RunHook,
    decreases es.len(),
{
    if es.len() > 0 {
        lemma_entries_only_hooks(es.skip(1), source, ty, branch, p, root);
    }
}

proof fn lemma_groups_only_hooks(gs: Seq<(HookSource, Entries)>, ty: Seq<char>, branch: Seq<char>, p: Seq<char>, root: Seq<char>)
    ensures
        groups_actions(gs, ty, branch, p, root) matches Ok(acts) ==> forall|i: int|
            0 <= i < acts.len() ==> #[trigger] acts[i] is RunHook,
    decreases gs.len(),
{
    if gs.len() > 0 {
        lemma_entries_only_hooks(gs[0].1, gs[0].0, ty, branch, p, root);
        lemma_groups_only_hooks(gs.skip(1), ty, branch, p, root);
        match (entries_actions(gs[0].1, gs[0].0, ty, branch, p, root), groups_actions(gs.skip(1), ty, branch, p, root)) {
            (Ok(a), Ok(b)) => {
                assert forall|i: int| 0 <= i < (a + b).len() implies #[trigger] (a + b)[i] is RunHook by {
                    if i < a.len() {
                        assert((a + b)[i] == a[i]);
                    } else {
                        assert((a + b)[i] == b[i - a.len()]);
                    }
                }
            },
            _ => {},
        }
    }
}

/// Hooks are only hooks: the actions of a hook slot are all hook runs.
pub proof fn law_hooks_only_run_hooks(run: bool, gs: Seq<(HookSource, Entries)>, ty: Seq<char>, branch: Seq<char>, p: Seq<char>, root: Seq<char>)
    ensures
        hooks_step(run, gs, ty, branch, p, root) matches Ok(acts) ==> forall|i: int|
            0 <= i < acts.len() ==> #[trigger] acts[i] is RunHook,
{
    lemma_groups_only_hooks(gs, ty, branch, p, root);
}

/// `remove` deletes a bookmark only when it exists, deletion was not opted
/// out of, and it is merged into trunk or forced deletion was asked for.
pub proof fn law_remove_spares_unmerged_bookmarks(cfg: MergedView, name: Seq<char>, args: &RemoveArgs, obs: &ObservedState)
    ensures
        remove_step(cfg, name, args, obs) matches Ok(acts) ==> ((exists|i: int|
            0 <= i < acts.len() && #[trigger] deletes_bookmark(acts[i])) <==> bookmark_deleted(args, obs)),
{
    let root = obs.repo_root@;
    let run = !args.no_hooks;
    let k = ws_pos(obs.workspaces@, name);
    if let Ok(acts) = remove_step(cfg, name, args, obs) {
        let p = obs.workspaces@[k].path@;
        let del = bookmark_deleted(args, obs);
        let pre = hooks_step(run, cfg.pre_remove, "pre-remove"@, name, p, root);
        let post = hooks_step(run, cfg.post_remove, "post-remove"@, name, root, root);
        law_hooks_only_run_hooks(run, cfg.pre_remove, "pre-remove"@, name, p, root);
        law_hooks_only_run_hooks(run, cfg.post_remove, "post-remove"@, name, root, root);
        let mid = seq![ActionView::WorkspaceForget { name }, delete_dir(cfg.background_remove, p)]
            + if del { seq![ActionView::BookmarkDelete { name }] } else { seq![] };
        let out = match args.format {
            OutputFormat::Json => seq![ActionView::PrintLine(json_text(remove_json(name, p, del)))],
            _ => seq![],
        };
        let a = pre->Ok_0;
        let b = post->Ok_0;
        assert(acts == a + (mid + (b + out)));
        if del {
            assert(deletes_bookmark(acts[a.len() as int + 2]));
        }
        assert forall|i: int| 0 <= i < acts.len() && #[trigger] deletes_bookmark(acts[i]) implies del by {
            if i < a.len() {
                assert(acts[i] == a[i]);
            } else if i < a.len() + mid.len() {
                assert(acts[i] == mid[i - a.len()]);
            } else if i < a.len() + mid.len() + b.len() {
                assert(acts[i] == b[i - a.len() - mid.len()]);
            } else {
                assert(acts[i] == out[i - a.len() - mid.len() - b.len()]);
            }
        }
    }
}

/// `prune` never removes the `default` workspace or the current one, and
/// removes only workspaces whose bookmark exists and is merged.
pub proof fn law_prune_spares_default_and_current(obs: &ObservedPruneState, es: Seq<(String, bool, bool, bool)>)
    ensures
        forall|i: int| 0 <= i < pruned_names(obs, es).len() ==> {
            let n = #[trigger] pruned_names(obs, es)[i];
            &&& n != "default"@
            &&& opt_view(obs.current_workspace) != Some(n)
            &&& exists|j: int| 0 <= j < es.len() && es[j].0@ == n && es[j].1 && es[j].2
        },
    decreases es.len(),
{
    if es.len() > 0 {
        law_prune_spares_default_and_current(obs, es.drop_last());
        let prev = pruned_names(obs, es.drop_last());
        assert forall|i: int| 0 <= i < pruned_names(obs, es).len() implies {
            let n = #[trigger] pruned_names(obs, es)[i];
            &&& n != "default"@
            &&& opt_view(obs.current_workspace) != Some(n)
            &&& exists|j: int| 0 <= j < es.len() && es[j].0@ == n && es[j].1 && es[j].2
        } by {
            if i < prev.len() {
                assert(pruned_names(obs, es)[i] == prev[i]);
                let n = prev[i];
                let j = choose|j: int| 0 <= j < es.drop_last().len() && es.drop_last()[j].0@ == n && es.drop_last()[j].1
                    && es.drop_last()[j].2;
                assert(es[j] == es.drop_last()[j]);
            } else {
                assert(es[es.len() - 1] == es.last());
            }
        }
    }
}

/// A truncated line never has more than `max` characters.
pub proof fn law_truncated_fits(s: Seq<char>, max: nat)
    ensures
        truncated(s, max).len() <= max,
{
}

} // verus!

verus! {

/// Every action is a hook run.
pub open spec fn only_hook_runs(a: Seq<ActionView>) -> bool {
    forall|i: int| 0 <= i < a.len() ==> #[trigger] a[i] is RunHook
}

/// Every action prints a line.
pub open spec fn only_prints(a: Seq<ActionView>) -> bool {
    forall|i: int| 0 <= i < a.len() ==> #[trigger] a[i] is PrintLine
}

proof fn lemma_entries_hook_runs(
    es: Entries,
    source: HookSource,
    hook_type: Seq<char>,
    branch: Seq<char>,
    ws_path: Seq<char>,
    repo_root: Seq<char>,
)
    ensures
        entries_actions(es, source, hook_type, branch, ws_path, repo_root) matches Ok(a) ==> only_hook_runs(a),
    decreases es.len(),
{
    if es.len() > 0 {
        lemma_entries_hook_runs(es.skip(1), source, hook_type, branch, ws_path, repo_root);
    }
}

proof fn lemma_groups_hook_runs(
    gs: Seq<(HookSource, Entries)>,
    hook_type: Seq<char>,
    branch: Seq<char>,
    ws_path: Seq<char>,
    repo_root: Seq<char>,
)
    ensures
        groups_actions(gs, hook_type, branch, ws_path, repo_root) matches Ok(a) ==> only_hook_runs(a),
    decreases gs.len(),
{
    if gs.len() > 0 {
        lemma_entries_hook_runs(gs[0].1, gs[0].0, hook_type, branch, ws_path, repo_root);
        lemma_groups_hook_runs(gs.skip(1), hook_type, branch, ws_path, repo_root);
    }
}

/// The hook slots of a plan give hook runs only, and none when hooks are
/// off.
pub proof fn law_hooks_step_runs_hooks(
    run: bool,
    gs: Seq<(HookSource, Entries)>,
    hook_type: Seq<char>,
    branch: Seq<char>,
    ws_path: Seq<char>,
    repo_root: Seq<char>,
)
    ensures
        hooks_step(run, gs, hook_type, branch, ws_path, repo_root) matches Ok(a) ==> only_hook_runs(a),
        !run ==> hooks_step(run, gs, hook_type, branch, ws_path, repo_root) == Ok::<Seq<ActionView>, ErrView>(Seq::<ActionView>::empty()),
{
    lemma_groups_hook_runs(gs, hook_type, branch, ws_path, repo_root);
}

proof fn lemma_switch_output_prints(
    name: Seq<char>,
    ws_path: Seq<char>,
    repo_root: Seq<char>,
    execute: Option<Seq<char>>,
    format: OutputFormat,
    created: bool,
)
    ensures
        switch_output(name, ws_path, repo_root, execute, format, created) matches Ok(a) ==> only_prints(a),
{
}

/// Switching to an existing workspace brings it up to date exactly when it
/// is stale: the plan then holds exactly one workspace-update-stale action,
/// for the workspace switched to, and otherwise none.
pub proof fn law_switch_updates_stale_target(cfg: MergedView, args: &SwitchArgs, obs: &ObservedState)
    requires
        obs.is_jj_repo,
        !args.create,
        switch_step(cfg, args, obs) is Ok,
    ensures
        ({
            let acts = switch_step(cfg, args, obs)->Ok_0;
            let w = obs.workspaces@[switch_target(obs, args.name@)];
            &&& forall|i: int| 0 <= i < acts.len() && #[trigger] acts[i] is WorkspaceUpdateStale
                ==> acts[i] == (ActionView::WorkspaceUpdateStale { name: w.name@ })
            &&& forall|i: int, j: int| 0 <= i < acts.len() && 0 <= j < acts.len() && #[trigger] acts[i] is WorkspaceUpdateStale
                && #[trigger] acts[j] is WorkspaceUpdateStale ==> i == j
            &&& w.stale <==> exists|i: int| 0 <= i < acts.len() && #[trigger] acts[i] is WorkspaceUpdateStale
            &&& forall|i: int, j: int| 0 <= i < acts.len() && 0 <= j < acts.len() && #[trigger] acts[i] is WorkspaceUpdateStale
                && #[trigger] acts[j] is PrintLine ==> i < j
        }),
{
    let root = obs.repo_root@;
    let run = !args.no_hooks;
    let k = switch_target(obs, args.name@);
    let w = obs.workspaces@[k];
    let h1 = hooks_step(run, cfg.pre_switch, "pre-switch"@, w.name@, w.path@, root);
    let st: Seq<ActionView> = if w.stale { seq![ActionView::WorkspaceUpdateStale { name: w.name@ }] } else { seq![] };
    let h2 = if args.rerun_hooks {
        hooks_step(run, cfg.pre_start, "pre-start"@, w.name@, w.path@, root)
    } else {
        Ok(seq![])
    };
    let so = switch_output(w.name@, w.path@, root, opt_view(args.execute), args.format, false);
    let h3 = hooks_step(run, cfg.post_switch, "post-switch"@, w.name@, w.path@, root);
    law_hooks_step_runs_hooks(run, cfg.pre_switch, "pre-switch"@, w.name@, w.path@, root);
    law_hooks_step_runs_hooks(run, cfg.pre_start, "pre-start"@, w.name@, w.path@, root);
    law_hooks_step_runs_hooks(run, cfg.post_switch, "post-switch"@, w.name@, w.path@, root);
    lemma_switch_output_prints(w.name@, w.path@, root, opt_view(args.execute), args.format, false);
    assert(k >= 0);
    let a1 = h1->Ok_0;
    let a2 = h2->Ok_0;
    let a3 = so->Ok_0;
    let a4 = h3->Ok_0;
    let acts = switch_step(cfg, args, obs)->Ok_0;
    assert(acts == a1 + (st + (a2 + (a3 + a4))));
    let rest = a2 + (a3 + a4);
    assert forall|i: int| 0 <= i < rest.len() implies !(#[trigger] rest[i] is WorkspaceUpdateStale) by {
        if i < a2.len() {
            assert(a2[i] is RunHook);
        } else if i < a2.len() + a3.len() {
            assert(a3[i - a2.len()] is PrintLine);
        } else {
            assert(a4[i - a2.len() - a3.len()] is RunHook);
        }
    }
    assert forall|i: int| 0 <= i < acts.len() && #[trigger] acts[i] is WorkspaceUpdateStale implies i == a1.len()
        && w.stale by {
        if i < a1.len() {
            assert(a1[i] is RunHook);
        } else if i < a1.len() + st.len() {
        } else {
            assert(acts[i] == rest[i - a1.len() - st.len()]);
        }
    }
    if w.stale {
        assert(acts[a1.len() as int] == st[0]);
    }
    assert forall|j: int| 0 <= j < acts.len() && #[trigger] acts[j] is PrintLine implies j >= a1.len() + st.len() by {
        if j < a1.len() {
            assert(a1[j] is RunHook);
        } else if j < a1.len() + st.len() {
            assert(acts[j] == st[j - a1.len()]);
        }
    }
}

/// With `--no-hooks`, removing a workspace runs no hook.
pub proof fn law_remove_no_hooks(cfg: MergedView, name: Seq<char>, args: &RemoveArgs, obs: &ObservedState)
    requires
        args.no_hooks,
        remove_step(cfg, name, args, obs) is Ok,
    ensures
        forall|i: int| 0 <= i < remove_step(cfg, name, args, obs)->Ok_0.len()
            ==> !(#[trigger] remove_step(cfg, name, args, obs)->Ok_0[i] is RunHook),
{
    let root = obs.repo_root@;
    let k = ws_pos(obs.workspaces@, name);
    let p = obs.workspaces@[k].path@;
    law_hooks_step_runs_hooks(false, cfg.pre_remove, "pre-remove"@, name, p, root);
    law_hooks_step_runs_hooks(false, cfg.post_remove, "post-remove"@, name, root, root);
    let acts = remove_step(cfg, name, args, obs)->Ok_0;
    let del = bookmark_deleted(args, obs);
    let mid = seq![ActionView::WorkspaceForget { name }, delete_dir(cfg.background_remove, p)]
        + if del { seq![ActionView::BookmarkDelete { name }] } else { seq![] };
    let out: Seq<ActionView> = match args.format {
        OutputFormat::Json => seq![ActionView::PrintLine(json_text(remove_json(name, p, del)))],
        _ => seq![],
    };
    assert(acts =~= mid + out);
    assert forall|i: int| 0 <= i < acts.len() implies !(#[trigger] acts[i] is RunHook) by {
        if i < mid.len() {
            if i >= 2 {
                assert(mid[i] == (ActionView::BookmarkDelete { name }));
            } else if i == 1 {
                assert(mid[1] == delete_dir(cfg.background_remove, p));
            }
        } else {
            assert(acts[i] == out[i - mid.len()]);
        }
    }
}

proof fn lemma_prune_dry_run_empty(
    cfg: MergedView,
    args: &PruneArgs,
    obs: &ObservedPruneState,
    es: Seq<(String, bool, bool, bool)>,
)
    requires
        args.dry_run,
    ensures
        prune_all(cfg, args, obs, es) == Ok::<Seq<ActionView>, ErrView>(Seq::<ActionView>::empty()),
    decreases es.len(),
{
    if es.len() > 0 {
        lemma_prune_dry_run_empty(cfg, args, obs, es.drop_last());
        assert(Seq::<ActionView>::empty() + Seq::<ActionView>::empty() =~= Seq::<ActionView>::empty());
    }
}

/// A dry-run prune changes nothing: its plan is the printed report alone.
pub proof fn law_prune_dry_run_only_reports(cfg: MergedView, args: &PruneArgs, obs: &ObservedPruneState)
    requires
        args.dry_run,
        obs.is_jj_repo,
    ensures
        prune_step(cfg, args, obs) is Ok,
        prune_step(cfg, args, obs)->Ok_0.len() == 1,
        prune_step(cfg, args, obs)->Ok_0[0] is PrintLine,
{
    lemma_prune_dry_run_empty(cfg, args, obs, obs.workspace_status@);
    let r = prune_report(args, pruned_names(obs, obs.workspace_status@));
    assert(Seq::<ActionView>::empty() + seq![ActionView::PrintLine(r)] =~= seq![ActionView::PrintLine(r)]);
}

} // verus!
