//! What the observation of a repository decides from what was read: the
//! current workspace, the workspace a target resolves to, and the rows of
//! the list.
use vstd::prelude::*;
use crate::paths::{comps_prefix, components, path_components, path_starts_with};
use crate::text::str_eq;
use crate::filters::path_parts::file_name;
use crate::paths::{path_join, spec_path_join};
use crate::plan::path_context;
use crate::strmap::StrMap;
use crate::template::{render, render_result};
use crate::types::{
    CiStatus, CommitInfo, CoreError, ErrView, ListOptions, ObservedListRow, RenderContext, Workspace,
    WorkspaceDetails,
};

verus! {

/// The deepest of the first `n` workspaces (name, canonical path) whose
/// path contains `cwd`: its depth in components and its name; the first
/// one wins among equally deep ones.
pub open spec fn deepest(cwd: Seq<char>, ws: Seq<(String, String)>, n: int) -> Option<(nat, Seq<char>)>
    decreases n,
{
    if n <= 0 {
        None
    } else {
        let b = deepest(cwd, ws, n - 1);
        let p = ws[n - 1].1@;
        if comps_prefix(path_components(cwd), path_components(p)) {
            let d = path_components(p).len();
            match b {
                Some(x) => if d > x.0 { Some((d, ws[n - 1].0@)) } else { b },
                None => Some((d, ws[n - 1].0@)),
            }
        } else {
            b
        }
    }
}

/// Pick the workspace whose canonical path holds `cwd` most deeply; `None`
/// when `cwd` is in no workspace. `workspaces` pairs each name with its
/// canonical path.
pub fn pick_current_workspace(cwd: &str, workspaces: &Vec<(String, String)>) -> (r: Option<String>)
    ensures
        match deepest(cwd@, workspaces@, workspaces@.len() as int) {
            Some(x) => r matches Some(s) && s@ == x.1,
            None => r.is_none(),
        },
{
    let mut best: Option<(usize, usize)> = None;
    let mut i: usize = 0;
    while i < workspaces.len()
        invariant
            i <= workspaces@.len(),
            match deepest(cwd@, workspaces@, i as int) {
                Some(x) => best matches Some(b) && b.0 == x.0 && b.1 < i && workspaces@[b.1 as int].0@ == x.1,
                None => best.is_none(),
            },
        decreases workspaces@.len() - i,
    {
        let p = workspaces[i].1.as_str();
        if path_starts_with(cwd, p) {
            let depth = components(p).len();
            match best {
                Some((d, _)) => {
                    if depth > d {
                        best = Some((depth, i));
                    }
                },
                None => {
                    best = Some((depth, i));
                },
            }
        }
        i = i + 1;
    }
    match best {
        Some((_, k)) => Some(workspaces[k].0.clone()),
        None => None,
    }
}

/// Whether one of the workspaces is named `name`.
pub open spec fn has_workspace(ws: Seq<Workspace>, name: Seq<char>) -> bool {
    exists|i: int| 0 <= i < ws.len() && #[trigger] ws[i].name@ == name
}

fn any_named(ws: &Vec<Workspace>, name: &str) -> (r: bool)
    ensures
        r == has_workspace(ws@, name@),
{
    let mut i: usize = 0;
    while i < ws.len()
        invariant
            i <= ws@.len(),
            forall|j: int| 0 <= j < i ==> #[trigger] ws@[j].name@ != name@,
        decreases ws@.len() - i,
    {
        if str_eq(ws[i].name.as_str(), name) {
            return true;
        }
        i = i + 1;
    }
    false
}

/// A question about a switch target put to jj.
#[derive(Debug, Clone, Copy, PartialEq, Eq, Structural)]
pub enum TargetQuery {
    /// Whether the target workspace has uncommitted changes.
    WorkspaceDirty,
    /// Whether a bookmark of the target's name exists.
    BookmarkExists,
    /// Whether that bookmark is merged into trunk.
    BookmarkMerged,
}

/// The next question about the target, given the answers so far:
/// dirtiness only of an existing workspace, then whether the bookmark
/// exists, then whether it is merged, asked only of an existing bookmark.
pub open spec fn next_query_of(has_ws: bool, dirty: Option<bool>, exists: Option<bool>, merged: Option<bool>) -> Option<
    TargetQuery,
> {
    if has_ws && dirty is None {
        Some(TargetQuery::WorkspaceDirty)
    } else if exists is None {
        Some(TargetQuery::BookmarkExists)
    } else if exists == Some(true) && merged is None {
        Some(TargetQuery::BookmarkMerged)
    } else {
        None
    }
}

/// The next question to put to jj about switch target `name`, given the
/// answers so far; `None` once nothing more is needed. An answer not asked
/// for counts as `false`.
pub fn next_target_query(
    workspaces: &Vec<Workspace>,
    name: &str,
    dirty: Option<bool>,
    exists: Option<bool>,
    merged: Option<bool>,
) -> (r: Option<TargetQuery>)
    ensures
        r == next_query_of(has_workspace(workspaces@, name@), dirty, exists, merged),
{
    if dirty.is_none() && any_named(workspaces, name) {
        Some(TargetQuery::WorkspaceDirty)
    } else if exists.is_none() {
        Some(TargetQuery::BookmarkExists)
    } else if exists == Some(true) && merged.is_none() {
        Some(TargetQuery::BookmarkMerged)
    } else {
        None
    }
}

/// Dirtiness is asked only of a workspace that exists and the merged state
/// only of a bookmark that exists; each answer given removes its question,
/// and once the needed answers are in, nothing more is asked.
pub proof fn law_target_queries(has_ws: bool, dirty: Option<bool>, exists: Option<bool>, merged: Option<bool>)
    ensures
        next_query_of(has_ws, dirty, exists, merged) == Some(TargetQuery::WorkspaceDirty) ==> has_ws,
        next_query_of(has_ws, dirty, exists, merged) == Some(TargetQuery::BookmarkMerged) ==> exists == Some(true),
        forall|b: bool| next_query_of(has_ws, dirty, exists, merged) == Some(TargetQuery::WorkspaceDirty)
            ==> next_query_of(has_ws, Some(b), exists, merged) != Some(TargetQuery::WorkspaceDirty),
        forall|b: bool| next_query_of(has_ws, dirty, exists, merged) == Some(TargetQuery::BookmarkExists)
            ==> next_query_of(has_ws, dirty, Some(b), merged) != Some(TargetQuery::BookmarkExists),
        forall|b: bool| next_query_of(has_ws, dirty, exists, merged) == Some(TargetQuery::BookmarkMerged)
            ==> next_query_of(has_ws, dirty, exists, Some(b)) is None,
        next_query_of(has_ws, Some(false), Some(false), None) is None,
        next_query_of(has_ws, Some(false), Some(true), Some(false)) is None,
{
}

/// The workspace a switch target resolves to when no workspace has its
/// name: `default` when the target is the trunk bookmark and a `default`
/// workspace exists.
pub fn resolve_target_workspace(workspaces: &Vec<Workspace>, name: &str, trunk: Option<&str>) -> (r: Option<String>)
    ensures
        r matches Some(s) ==> s@ == "default"@,
        r.is_some() == (!has_workspace(workspaces@, name@) && opt_is(trunk, name@) && has_workspace(
            workspaces@,
            "default"@,
        )),
{
    if any_named(workspaces, name) {
        return None;
    }
    match trunk {
        Some(t) => {
            if str_eq(t, name) && any_named(workspaces, "default") {
                Some("default".to_owned())
            } else {
                None
            }
        },
        None => None,
    }
}

/// Whether an optional text is `s`.
pub open spec fn opt_is(o: Option<&str>, s: Seq<char>) -> bool {
    match o {
        Some(t) => t@ == s,
        None => false,
    }
}

/// Position of the first entry keyed `k`, or -1.
pub open spec fn key_from<V>(s: Seq<(String, V)>, k: Seq<char>, from: int) -> int
    decreases s.len() - from,
{
    if from < 0 || from >= s.len() {
        -1
    } else if s[from].0@ == k {
        from
    } else {
        key_from(s, k, from + 1)
    }
}

proof fn lemma_key_from<V>(s: Seq<(String, V)>, k: Seq<char>, from: int)
    requires
        0 <= from,
    ensures
        key_from(s, k, from) == -1 || (from <= key_from(s, k, from) < s.len()),
    decreases s.len() - from,
{
    if from < s.len() {
        lemma_key_from(s, k, from + 1);
    }
}

fn find_key<V>(s: &Vec<(String, V)>, k: &str) -> (r: Option<usize>)
    ensures
        match r {
            Some(i) => i < s@.len() && i as int == key_from(s@, k@, 0),
            None => key_from(s@, k@, 0) == -1,
        },
{
    proof {
        lemma_key_from(s@, k@, 0);
    }
    let mut i: usize = 0;
    while i < s.len()
        invariant
            i <= s@.len(),
            key_from(s@, k@, i as int) == key_from(s@, k@, 0),
        decreases s@.len() - i,
    {
        if str_eq(s[i].0.as_str(), k) {
            return Some(i);
        }
        i = i + 1;
    }
    None
}

/// Whether `name` is among `names`.
pub open spec fn listed(names: Seq<String>, name: Seq<char>) -> bool {
    exists|i: int| 0 <= i < names.len() && #[trigger] names[i]@ == name
}

fn contains_name(names: &Vec<String>, name: &str) -> (r: bool)
    ensures
        r == listed(names@, name@),
{
    let mut i: usize = 0;
    while i < names.len()
        invariant
            i <= names@.len(),
            forall|j: int| 0 <= j < i ==> #[trigger] names@[j]@ != name@,
        decreases names@.len() - i,
    {
        if str_eq(names[i].as_str(), name) {
            return true;
        }
        i = i + 1;
    }
    false
}

/// Whether `row` is the list observation of workspace `w`: commit details
/// from `infos` (empty when missing), counts from `counts` (zero when
/// missing), working-copy flags from `status` (clear when its query
/// failed), the remote flag from `remote`; no CI status or summary yet.
pub open spec fn observed_row(
    row: ObservedListRow,
    w: Workspace,
    infos: Seq<(String, CommitInfo)>,
    counts: Seq<(String, (u32, u32))>,
    status: Option<(bool, bool)>,
    remote: Seq<String>,
) -> bool {
    let ki = key_from(infos, w.name@, 0);
    let kc = key_from(counts, w.name@, 0);
    let d = row.details;
    &&& row.workspace.name@ == w.name@
    &&& row.workspace.path@ == w.path@
    &&& row.workspace.stale == w.stale
    &&& (ki >= 0 ==> {
        let ci = infos[ki].1;
        &&& d.conflicts == ci.conflicts
        &&& d.commit_short@ == ci.commit_short@
        &&& d.age_seconds == ci.age_seconds
        &&& d.message_first_line@ == ci.message_first_line@
        &&& d.head_added == ci.head_added
        &&& d.head_removed == ci.head_removed
    })
    &&& (ki < 0 ==> !d.conflicts && d.commit_short@.len() == 0 && d.age_seconds == 0 && d.message_first_line@.len()
        == 0 && d.head_added == 0 && d.head_removed == 0)
    &&& (row.ahead, row.behind) == if kc >= 0 { counts[kc].1 } else { (0u32, 0u32) }
    &&& (d.modified, d.untracked) == match status {
        Some(s) => s,
        None => (false, false),
    }
    &&& row.has_remote_bookmark == listed(remote, w.name@)
    &&& row.ci_status == CiStatus::Absent
    &&& row.summary@.len() == 0
}

/// Build one observed list row per workspace from the query results:
/// `statuses[i]` is the working-copy query of workspace `i` (`None` when it
/// failed).
pub fn build_list_rows(
    workspaces: &Vec<Workspace>,
    commit_infos: &Vec<(String, CommitInfo)>,
    ahead_behinds: &Vec<(String, (u32, u32))>,
    statuses: &Vec<Option<(bool, bool)>>,
    remote_set: &Vec<String>,
) -> (r: Vec<ObservedListRow>)
    requires
        statuses@.len() == workspaces@.len(),
    ensures
        r@.len() == workspaces@.len(),
        forall|i: int| 0 <= i < workspaces@.len() ==> observed_row(
            #[trigger] r@[i],
            workspaces@[i],
            commit_infos@,
            ahead_behinds@,
            statuses@[i],
            remote_set@,
        ),
{
    let mut rows: Vec<ObservedListRow> = Vec::new();
    let mut i: usize = 0;
    while i < workspaces.len()
        invariant
            i <= workspaces@.len(),
            statuses@.len() == workspaces@.len(),
            rows@.len() == i,
            forall|j: int| 0 <= j < i ==> observed_row(
                #[trigger] rows@[j],
                workspaces@[j],
                commit_infos@,
                ahead_behinds@,
                statuses@[j],
                remote_set@,
            ),
        decreases workspaces@.len() - i,
    {
        let w = &workspaces[i];
        let (modified, untracked) = match statuses[i] {
            Some(s) => s,
            None => (false, false),
        };
        let details = match find_key(commit_infos, w.name.as_str()) {
            Some(k) => {
                let ci = &commit_infos[k].1;
                WorkspaceDetails {
                    modified,
                    untracked,
                    conflicts: ci.conflicts,
                    commit_short: ci.commit_short.clone(),
                    age_seconds: ci.age_seconds,
                    message_first_line: ci.message_first_line.clone(),
                    head_added: ci.head_added,
                    head_removed: ci.head_removed,
                }
            },
            None => WorkspaceDetails {
                modified,
                untracked,
                conflicts: false,
                commit_short: String::new(),
                age_seconds: 0,
                message_first_line: String::new(),
                head_added: 0,
                head_removed: 0,
            },
        };
        let (ahead, behind) = match find_key(ahead_behinds, w.name.as_str()) {
            Some(k) => ahead_behinds[k].1,
            None => (0, 0),
        };
        let row = ObservedListRow {
            workspace: Workspace { name: w.name.clone(), path: w.path.clone(), stale: w.stale },
            details,
            ahead,
            behind,
            has_remote_bookmark: contains_name(remote_set, w.name.as_str()),
            ci_status: CiStatus::Absent,
            summary: String::new(),
        };
        let ghost prev = rows@;
        rows.push(row);
        assert(forall|j: int| 0 <= j < i ==> rows@[j] == prev[j]);
        i = i + 1;
    }
    rows
}

/// The names among `from` that are not in `except`, in order.
pub open spec fn names_not_in(from: Seq<String>, except: Seq<Seq<char>>) -> Seq<Seq<char>>
    decreases from.len(),
{
    if from.len() == 0 {
        seq![]
    } else {
        names_not_in(from.drop_last(), except) + if except.contains(from.last()@) {
            seq![]
        } else {
            seq![from.last()@]
        }
    }
}

fn filter_names(from: &Vec<String>, except: &Vec<String>) -> (r: Vec<String>)
    ensures
        r@.map_values(|s: String| s@) == names_not_in(from@, except@.map_values(|s: String| s@)),
{
    let ghost ev = except@.map_values(|s: String| s@);
    let mut out: Vec<String> = Vec::new();
    let mut i: usize = 0;
    while i < from.len()
        invariant
            i <= from@.len(),
            ev == except@.map_values(|s: String| s@),
            out@.map_values(|s: String| s@) == names_not_in(from@.take(i as int), ev),
        decreases from@.len() - i,
    {
        assert(from@.take(i + 1).drop_last() =~= from@.take(i as int));
        let ghost prev = out@.map_values(|s: String| s@);
        let found = contains_name(except, from[i].as_str());
        assert(found == ev.contains(from@[i as int]@)) by {
            if found {
                let j = choose|j: int| 0 <= j < except@.len() && #[trigger] except@[j]@ == from@[i as int]@;
                assert(ev[j] == from@[i as int]@);
            }
            if ev.contains(from@[i as int]@) {
                let j = choose|j: int| 0 <= j < ev.len() && ev[j] == from@[i as int]@;
                assert(except@[j]@ == from@[i as int]@);
            }
        }
        if !found {
            out.push(from[i].clone());
            assert(out@.map_values(|s: String| s@) =~= prev.push(from@[i as int]@));
        } else {
            assert(prev + seq![] =~= prev);
        }
        i = i + 1;
    }
    assert(from@.take(from@.len() as int) =~= from@);
    out
}

/// The extra rows of the list: with `--bookmarks`, local bookmarks without
/// a workspace; with `--remotes`, remote bookmarks without a local one.
pub fn collect_extra_bookmarks(
    opts: &ListOptions,
    all_local: &Vec<String>,
    remote_set: &Vec<String>,
    workspaces: &Vec<Workspace>,
) -> (r: (Vec<String>, Vec<String>))
    ensures
        r.0@.map_values(|s: String| s@) == if opts.include_bookmarks {
            names_not_in(all_local@, workspaces@.map_values(|w: Workspace| w.name@))
        } else {
            seq![]
        },
        r.1@.map_values(|s: String| s@) == if opts.include_remotes {
            names_not_in(remote_set@, all_local@.map_values(|s: String| s@))
        } else {
            seq![]
        },
{
    let mut ws_names: Vec<String> = Vec::new();
    let mut i: usize = 0;
    while i < workspaces.len()
        invariant
            i <= workspaces@.len(),
            ws_names@.map_values(|s: String| s@) == workspaces@.take(i as int).map_values(|w: Workspace| w.name@),
        decreases workspaces@.len() - i,
    {
        let ghost prev = ws_names@.map_values(|s: String| s@);
        ws_names.push(workspaces[i].name.clone());
        assert(ws_names@.map_values(|s: String| s@) =~= prev.push(workspaces@[i as int].name@));
        assert(workspaces@.take(i + 1).map_values(|w: Workspace| w.name@) =~= workspaces@.take(i as int).map_values(
            |w: Workspace| w.name@,
        ).push(workspaces@[i as int].name@));
        i = i + 1;
    }
    assert(workspaces@.take(workspaces@.len() as int) =~= workspaces@);
    let extra = if opts.include_bookmarks {
        filter_names(all_local, &ws_names)
    } else {
        let v: Vec<String> = Vec::new();
        assert(v@.map_values(|s: String| s@) =~= Seq::<Seq<char>>::empty());
        v
    };
    let remote_only = if opts.include_remotes {
        filter_names(remote_set, all_local)
    } else {
        let v: Vec<String> = Vec::new();
        assert(v@.map_values(|s: String| s@) =~= Seq::<Seq<char>>::empty());
        v
    };
    (extra, remote_only)
}

/// Where a workspace named `name` would be created: the worktree-path
/// template rendered for it and joined onto the repository root.
pub open spec fn target_path_result(root: Seq<char>, name: Seq<char>, template: Seq<char>) -> Result<Seq<char>, ErrView> {
    match render_result(template, path_context(name, root)) {
        Ok(r) => Ok(spec_path_join(root, r)),
        Err(e) => Err(ErrView::TemplateRender(e)),
    }
}

/// The path checked for an existing directory before a workspace named
/// `name` is created.
pub fn target_path(root: &str, name: &str, template: &str) -> (r: Result<String, CoreError>)
    ensures
        match r {
            Ok(p) => target_path_result(root@, name@, template@) == Ok::<Seq<char>, ErrView>(p@),
            Err(e) => target_path_result(root@, name@, template@) == Err::<Seq<char>, ErrView>(e.view()),
        },
{
    let ctx = RenderContext {
        branch: name.to_owned(),
        worktree_path: None,
        worktree_name: None,
        repo: file_name(root),
        repo_path: Some(root.to_owned()),
        cwd: None,
        hook_type: None,
        hook_name: None,
        args: Vec::new(),
        vars: Vec::new(),
        vars_state: StrMap::new(),
    };
    assert(ctx.view().args =~= Seq::<Seq<char>>::empty());
    assert(ctx.view().vars =~= Seq::<(Seq<char>, Seq<char>)>::empty());
    assert(ctx.view().vars_state =~= Map::<Seq<char>, Seq<char>>::empty());
    assert(ctx.view() =~= path_context(name@, root@));
    match render(template, &ctx) {
        Ok(rendered) => Ok(path_join(root, rendered.as_str())),
        Err(e) => Err(e),
    }
}

} // verus!
