//! What executing a plan asks of the system, action by action, how
//! failures are reported, and the order of a run: the caller performs each
//! step this module asks for, and the run stops at the first failure.
use vstd::prelude::*;
use crate::paths::{path_join, spec_path_join};
use crate::text::{concat, dec, fmt_uint};
use crate::types::{pairs_view, Action, ActionView, HookSource};

verus! {

/// One operation on the system.
pub enum Effect {
    /// `jj workspace add` of `name` at `path`, at `revision` when given.
    WorkspaceAdd { name: String, path: String, revision: Option<String> },
    /// Create bookmark `name` at the working copy of `workspace`.
    BookmarkCreate { name: String, workspace: String },
    /// Forget workspace `name`.
    WorkspaceForget { name: String },
    /// Delete bookmark `name`.
    BookmarkDelete { name: String },
    /// Update stale workspace `name`.
    WorkspaceUpdateStale { name: String },
    /// Rename workspace `old_name` to `new_name`.
    WorkspaceRename { old_name: String, new_name: String },
    /// Rename bookmark `old_name` to `new_name`.
    BookmarkRename { old_name: String, new_name: String },
    /// Remove a directory tree.
    RemoveDir { path: String },
    /// Create a directory and its parents.
    CreateDir { path: String },
    /// Move `from` to `to`.
    Rename { from: String, to: String },
    /// Start `program` with `args` in the background, not waiting for it.
    SpawnDetached { program: String, args: Vec<String> },
    /// Make sure project hook `hook_name` may run `command`.
    Approve { hook_name: String, command: String },
    /// Run hook `name`'s `command` with `sh -c` in `cwd`, capturing output.
    RunHook { name: String, command: String, cwd: String, env: Vec<(String, String)> },
    /// Run `command` with `sh -c` in `cwd`, with the terminal attached.
    RunCommand { command: String, cwd: String, env: Vec<(String, String)> },
    /// Hand a line to the caller for printing.
    Print { line: String },
}

/// What an effect does, as text.
pub enum EffectView {
    WorkspaceAdd { name: Seq<char>, path: Seq<char>, revision: Option<Seq<char>> },
    BookmarkCreate { name: Seq<char>, workspace: Seq<char> },
    WorkspaceForget { name: Seq<char> },
    BookmarkDelete { name: Seq<char> },
    WorkspaceUpdateStale { name: Seq<char> },
    WorkspaceRename { old_name: Seq<char>, new_name: Seq<char> },
    BookmarkRename { old_name: Seq<char>, new_name: Seq<char> },
    RemoveDir { path: Seq<char> },
    CreateDir { path: Seq<char> },
    Rename { from: Seq<char>, to: Seq<char> },
    SpawnDetached { program: Seq<char>, args: Seq<Seq<char>> },
    Approve { hook_name: Seq<char>, command: Seq<char> },
    RunHook { name: Seq<char>, command: Seq<char>, cwd: Seq<char>, env: Seq<(Seq<char>, Seq<char>)> },
    RunCommand { command: Seq<char>, cwd: Seq<char>, env: Seq<(Seq<char>, Seq<char>)> },
    Print { line: Seq<char> },
}

impl Effect {
    /// What this effect does.
    pub open spec fn view(&self) -> EffectView {
        match self {
            Effect::WorkspaceAdd { name, path, revision } => EffectView::WorkspaceAdd {
                name: name@,
                path: path@,
                revision: match revision {
                    Some(r) => Some(r@),
                    None => None,
                },
            },
            Effect::BookmarkCreate { name, workspace } => EffectView::BookmarkCreate { name: name@, workspace: workspace@ },
            Effect::WorkspaceForget { name } => EffectView::WorkspaceForget { name: name@ },
            Effect::BookmarkDelete { name } => EffectView::BookmarkDelete { name: name@ },
            Effect::WorkspaceUpdateStale { name } => EffectView::WorkspaceUpdateStale { name: name@ },
            Effect::WorkspaceRename { old_name, new_name } => EffectView::WorkspaceRename {
                old_name: old_name@,
                new_name: new_name@,
            },
            Effect::BookmarkRename { old_name, new_name } => EffectView::BookmarkRename {
                old_name: old_name@,
                new_name: new_name@,
            },
            Effect::RemoveDir { path } => EffectView::RemoveDir { path: path@ },
            Effect::CreateDir { path } => EffectView::CreateDir { path: path@ },
            Effect::Rename { from, to } => EffectView::Rename { from: from@, to: to@ },
            Effect::SpawnDetached { program, args } => EffectView::SpawnDetached {
                program: program@,
                args: args@.map_values(|a: String| a@),
            },
            Effect::Approve { hook_name, command } => EffectView::Approve { hook_name: hook_name@, command: command@ },
            Effect::RunHook { name, command, cwd, env } => EffectView::RunHook {
                name: name@,
                command: command@,
                cwd: cwd@,
                env: pairs_view(env@),
            },
            Effect::RunCommand { command, cwd, env } => EffectView::RunCommand {
                command: command@,
                cwd: cwd@,
                env: pairs_view(env@),
            },
            Effect::Print { line } => EffectView::Print { line: line@ },
        }
    }
}

/// Where removed directories are moved before background deletion.
pub open spec fn trash_dir_of(repo_root: Seq<char>) -> Seq<char> {
    spec_path_join(spec_path_join(repo_root, ".jj"@), ".jjwt-trash"@)
}

/// The effects of one action, in order. Removing a directory in the
/// background moves it into the trash directory under a name made of the
/// time in milliseconds, then starts `rm -rf` on it; a project hook is
/// approved before it runs.
pub open spec fn effects_of(a: ActionView, repo_root: Seq<char>, now_ms: u64) -> Seq<EffectView> {
    match a {
        ActionView::WorkspaceAdd { name, path, revision } => seq![EffectView::WorkspaceAdd { name, path, revision }],
        ActionView::BookmarkCreate { name, workspace } => seq![EffectView::BookmarkCreate { name, workspace }],
        ActionView::WorkspaceForget { name } => seq![EffectView::WorkspaceForget { name }],
        ActionView::BookmarkDelete { name } => seq![EffectView::BookmarkDelete { name }],
        ActionView::WorkspaceUpdateStale { name } => seq![EffectView::WorkspaceUpdateStale { name }],
        ActionView::DeleteDir { path } => seq![EffectView::RemoveDir { path }],
        ActionView::DeleteDirBackground { path } => {
            let dir = trash_dir_of(repo_root);
            let trash = spec_path_join(dir, dec(now_ms as nat));
            seq![
                EffectView::CreateDir { path: dir },
                EffectView::Rename { from: path, to: trash },
                EffectView::SpawnDetached { program: "rm"@, args: seq!["-rf"@, trash] },
            ]
        },
        ActionView::WorkspaceRename { old_name, new_name } => seq![EffectView::WorkspaceRename { old_name, new_name }],
        ActionView::RenameDir { from, to } => seq![EffectView::Rename { from, to }],
        ActionView::BookmarkRename { old_name, new_name } => seq![EffectView::BookmarkRename { old_name, new_name }],
        ActionView::RunHook { name, raw_cmd, rendered_cmd, cwd, env, source } => (if source == HookSource::Project {
            seq![EffectView::Approve { hook_name: name, command: rendered_cmd }]
        } else {
            seq![]
        }) + seq![EffectView::RunHook { name, command: rendered_cmd, cwd, env }],
        ActionView::Exec { rendered_cmd, cwd, env } => seq![EffectView::RunCommand { command: rendered_cmd, cwd, env }],
        ActionView::PrintLine(line) => seq![EffectView::Print { line }],
    }
}

fn clone_env(v: &Vec<(String, String)>) -> (r: Vec<(String, String)>)
    ensures
        pairs_view(r@) == pairs_view(v@),
{
    let mut out: Vec<(String, String)> = Vec::new();
    let mut i: usize = 0;
    while i < v.len()
        invariant
            i <= v@.len(),
            pairs_view(out@) == pairs_view(v@.take(i as int)),
        decreases v@.len() - i,
    {
        let ghost prev = out@;
        out.push((v[i].0.clone(), v[i].1.clone()));
        assert(pairs_view(out@) =~= pairs_view(prev).push((v@[i as int].0@, v@[i as int].1@)));
        assert(pairs_view(v@.take(i + 1)) =~= pairs_view(v@.take(i as int)).push((v@[i as int].0@, v@[i as int].1@)));
        i = i + 1;
    }
    assert(v@.take(v@.len() as int) =~= v@);
    out
}

/// The effects of an action, in order; `now_ms` is the current time in
/// milliseconds, which names a directory moved to the trash.
pub fn action_effects(action: &Action, repo_root: &str, now_ms: u64) -> (r: Vec<Effect>)
    ensures
        r@.map_values(|e: Effect| e.view()) == effects_of(action.view(), repo_root@, now_ms),
{
    let out: Vec<Effect> = match action {
        Action::JjWorkspaceAdd { name, path, revision } => vec![
            Effect::WorkspaceAdd {
                name: name.clone(),
                path: path.clone(),
                revision: match revision {
                    Some(r) => Some(r.clone()),
                    None => None,
                },
            },
        ],
        Action::JjBookmarkCreate { name, workspace } => vec![
            Effect::BookmarkCreate { name: name.clone(), workspace: workspace.clone() },
        ],
        Action::JjWorkspaceForget { name } => vec![Effect::WorkspaceForget { name: name.clone() }],
        Action::JjBookmarkDelete { name } => vec![Effect::BookmarkDelete { name: name.clone() }],
        Action::JjWorkspaceUpdateStale { name } => vec![Effect::WorkspaceUpdateStale { name: name.clone() }],
        Action::DeleteDir { path } => vec![Effect::RemoveDir { path: path.clone() }],
        Action::DeleteDirBackground { path } => {
            let dir = path_join(path_join(repo_root, ".jj").as_str(), ".jjwt-trash");
            let trash = path_join(dir.as_str(), fmt_uint(now_ms).as_str());
            let args = vec!["-rf".to_owned(), trash.clone()];
            assert(args@.map_values(|a: String| a@) =~= seq!["-rf"@, trash@]);
            vec![
                Effect::CreateDir { path: dir },
                Effect::Rename { from: path.clone(), to: trash },
                Effect::SpawnDetached { program: "rm".to_owned(), args },
            ]
        },
        Action::JjWorkspaceRename { old_name, new_name } => vec![
            Effect::WorkspaceRename { old_name: old_name.clone(), new_name: new_name.clone() },
        ],
        Action::RenameDir { from, to } => vec![Effect::Rename { from: from.clone(), to: to.clone() }],
        Action::JjBookmarkRename { old_name, new_name } => vec![
            Effect::BookmarkRename { old_name: old_name.clone(), new_name: new_name.clone() },
        ],
        Action::RunHook { name, raw_cmd, rendered_cmd, cwd, env, source } => {
            let mut v: Vec<Effect> = Vec::new();
            match source {
                HookSource::Project => {
                    v.push(Effect::Approve { hook_name: name.clone(), command: rendered_cmd.clone() });
                },
                HookSource::User => {},
            }
            v.push(Effect::RunHook {
                name: name.clone(),
                command: rendered_cmd.clone(),
                cwd: cwd.clone(),
                env: clone_env(env),
            });
            v
        },
        Action::Exec { rendered_cmd, cwd, env } => vec![
            Effect::RunCommand { command: rendered_cmd.clone(), cwd: cwd.clone(), env: clone_env(env) },
        ],
        Action::PrintLine(s) => vec![Effect::Print { line: s.clone() }],
    };
    assert(out@.map_values(|e: Effect| e.view()) =~= effects_of(action.view(), repo_root@, now_ms));
    out
}

/// `n` in decimal, with a leading `-` when negative.
pub open spec fn dec_int(n: int) -> Seq<char> {
    if n < 0 { "-"@ + dec((-n) as nat) } else { dec(n as nat) }
}

fn fmt_int(n: i32) -> (r: String)
    ensures
        r@ == dec_int(n as int),
{
    if n < 0 {
        let m: u64 = (-(n as i64)) as u64;
        concat("-", fmt_uint(m).as_str())
    } else {
        fmt_uint(n as u64)
    }
}

/// The error of a hook that exited with `status`: none for 0.
pub fn hook_failure(name: &str, status: i32, command: &str, stderr: &str) -> (r: Option<String>)
    ensures
        match r {
            Some(m) => status != 0 && m@ == "hook '"@ + name@ + "' failed (status "@ + dec_int(status as int) + "): "@
                + command@ + "\nstderr: "@ + stderr@,
            None => status == 0,
        },
{
    if status == 0 {
        return None;
    }
    let a = concat("hook '", name);
    let b = concat(a.as_str(), "' failed (status ");
    let c = concat(b.as_str(), fmt_int(status).as_str());
    let d = concat(c.as_str(), "): ");
    let e = concat(d.as_str(), command);
    let f = concat(e.as_str(), "\nstderr: ");
    Some(concat(f.as_str(), stderr))
}

/// The error of a command that exited with `status`: none for 0.
pub fn command_failure(status: i32, command: &str) -> (r: Option<String>)
    ensures
        match r {
            Some(m) => status != 0 && m@ == "command failed (status "@ + dec_int(status as int) + "): "@ + command@,
            None => status == 0,
        },
{
    if status == 0 {
        return None;
    }
    let a = concat("command failed (status ", fmt_int(status).as_str());
    let b = concat(a.as_str(), "): ");
    Some(concat(b.as_str(), command))
}

/// The error of a project hook the user declined.
pub fn denied_message(hook_name: &str) -> (r: String)
    ensures
        r@ == "hook '"@ + hook_name@ + "' denied by user"@,
{
    concat(concat("hook '", hook_name).as_str(), "' denied by user")
}

/// Where the execution of a plan stands: how many actions the plan has,
/// the action being carried out, and, once that action was expanded into
/// its effects, how many it has and which comes next.
pub struct RunState {
    n_actions: usize,
    action: usize,
    effect: usize,
    n_effects: Option<usize>,
}

/// `RunState` as numbers.
pub struct RunView {
    pub n_actions: nat,
    pub action: nat,
    pub effect: nat,
    pub n_effects: Option<nat>,
}

impl View for RunState {
    type V = RunView;

    closed spec fn view(&self) -> RunView {
        RunView {
            n_actions: self.n_actions as nat,
            action: self.action as nat,
            effect: self.effect as nat,
            n_effects: match self.n_effects {
                Some(k) => Some(k as nat),
                None => None,
            },
        }
    }
}

/// A run never passes the end of the plan, and an expanded action still
/// has an effect to perform.
pub open spec fn run_wf(v: RunView) -> bool {
    &&& v.action <= v.n_actions
    &&& v.n_effects matches Some(k) ==> v.action < v.n_actions && v.effect < k
}

impl RunState {
    #[verifier::type_invariant]
    spec fn inv(self) -> bool {
        run_wf(self@)
    }
}

/// What the caller reports after carrying out the last step.
pub enum RunEvent {
    /// The action asked for was expanded into `count` effects.
    Expanded { count: usize },
    /// The effect asked for was performed; `failed` says whether it failed.
    Performed { failed: bool },
}

/// What the caller does next.
#[derive(Debug, Clone, Copy, PartialEq, Eq, Structural)]
pub enum RunStep {
    /// Expand this action of the plan into its effects.
    Expand { action: usize },
    /// Perform this effect of this action.
    Perform { action: usize, effect: usize },
    /// Every action was carried out.
    Finish,
    /// The last effect failed: stop, nothing more runs.
    Stop,
}

/// Once every effect of the current action was performed, the run moves on
/// to the next action.
pub open spec fn run_settle(v: RunView) -> RunView {
    match v.n_effects {
        Some(k) => if v.effect >= k {
            RunView { action: v.action + 1, effect: 0, n_effects: None, ..v }
        } else {
            v
        },
        None => v,
    }
}

/// The step a run asks for in a given position.
pub open spec fn run_step_at(v: RunView) -> RunStep {
    match v.n_effects {
        Some(_) => RunStep::Perform { action: v.action as usize, effect: v.effect as usize },
        None => if v.action < v.n_actions {
            RunStep::Expand { action: v.action as usize }
        } else {
            RunStep::Finish
        },
    }
}

/// The first position and step of a plan of `n` actions.
pub open spec fn run_first(n: nat) -> (RunView, RunStep) {
    let v = RunView { n_actions: n, action: 0, effect: 0, n_effects: None };
    (v, run_step_at(v))
}

/// One decision: a failed effect stops the run where it is; a performed
/// effect moves to the next effect of the action, or to the next action
/// once the action's effects are done; an expansion starts on the action's
/// effects, moving on at once when it has none.
pub open spec fn run_next(v: RunView, ev: RunEvent) -> (RunView, RunStep) {
    match ev {
        RunEvent::Performed { failed } => if failed {
            (v, RunStep::Stop)
        } else {
            let w = run_settle(
                if v.n_effects is Some {
                    RunView { effect: v.effect + 1, ..v }
                } else {
                    v
                },
            );
            (w, run_step_at(w))
        },
        RunEvent::Expanded { count } => {
            let w = run_settle(
                if v.n_effects is None && v.action < v.n_actions {
                    RunView { effect: 0, n_effects: Some(count as nat), ..v }
                } else {
                    v
                },
            );
            (w, run_step_at(w))
        },
    }
}

fn step_at(s: &RunState) -> (r: RunStep)
    ensures
        r == run_step_at(s@),
{
    proof {
        use_type_invariant(s);
    }
    match s.n_effects {
        Some(_) => RunStep::Perform { action: s.action, effect: s.effect },
        None => if s.action < s.n_actions {
            RunStep::Expand { action: s.action }
        } else {
            RunStep::Finish
        },
    }
}

/// Start carrying out a plan of `n_actions` actions.
pub fn run_start(n_actions: usize) -> (r: (RunState, RunStep))
    ensures
        (r.0@, r.1) == run_first(n_actions as nat),
{
    let s = RunState { n_actions, action: 0, effect: 0, n_effects: None };
    let st = step_at(&s);
    (s, st)
}

/// Decide the next step of a plan's execution from what the last one did.
pub fn run_step(s: RunState, ev: RunEvent) -> (r: (RunState, RunStep))
    ensures
        (r.0@, r.1) == run_next(s@, ev),
{
    proof {
        use_type_invariant(&s);
    }
    let RunState { n_actions, action, effect, n_effects } = s;
    let next = match ev {
        RunEvent::Performed { failed } => {
            if failed {
                return (RunState { n_actions, action, effect, n_effects }, RunStep::Stop);
            }
            match n_effects {
                Some(k) => {
                    if effect + 1 >= k {
                        RunState { n_actions, action: action + 1, effect: 0, n_effects: None }
                    } else {
                        RunState { n_actions, action, effect: effect + 1, n_effects }
                    }
                },
                None => RunState { n_actions, action, effect, n_effects },
            }
        },
        RunEvent::Expanded { count } => {
            if n_effects.is_none() && action < n_actions {
                if count == 0 {
                    RunState { n_actions, action: action + 1, effect: 0, n_effects: None }
                } else {
                    RunState { n_actions, action, effect: 0, n_effects: Some(count) }
                }
            } else {
                RunState { n_actions, action, effect, n_effects }
            }
        },
    };
    let st = step_at(&next);
    (next, st)
}

/// Executing a plan: after a failed effect nothing more runs; effects are
/// performed action by action in plan order and, within an action, in
/// order; every action of the plan is expanded before the run finishes.
pub proof fn law_run_order(v: RunView, ev: RunEvent)
    requires
        run_wf(v),
    ensures
        ev is Performed && ev->failed ==> run_next(v, ev).1 == RunStep::Stop,
        run_wf(run_next(v, ev).0),
        run_next(v, ev).1 == RunStep::Finish ==> run_next(v, ev).0.action == v.n_actions,
        ({
            let w = run_next(v, ev).0;
            w.action == v.action || (w.action == v.action + 1 && w.n_effects is None)
        }),
        v.n_effects is Some && ev is Performed && !ev->failed ==> run_next(v, ev).1 == (
            if v.effect + 1 < v.n_effects->0 {
                RunStep::Perform { action: v.action as usize, effect: (v.effect + 1) as usize }
            } else if v.action + 1 < v.n_actions {
                RunStep::Expand { action: (v.action + 1) as usize }
            } else {
                RunStep::Finish
            }),
        v.n_effects is None && v.action < v.n_actions && ev is Expanded && ev->count > 0 ==> run_next(v, ev).1 == (RunStep::Perform { action: v.action as usize, effect: 0 }),
{
}

} // verus!
