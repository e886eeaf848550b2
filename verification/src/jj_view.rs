//! What the library reads out of jj's view of the repository: the trunk
//! bookmark, the names and paths under which workspaces are shown, and the
//! text `jj` prints for bookmarks and commits.
use vstd::prelude::*;
use crate::config_loader::find_char;
use crate::copy_ignored::{listed_paths, tracked_paths};
use crate::plan::{workspace_path, ws_path_result};
use crate::shortcuts::{parse_u32, parse_u32_of, parse_u64, parse_u64_of};
use crate::text::{chars_of, lines_from, slice_chars, split_lines, str_eq, string_of};
use crate::types::{CommitInfo, CoreError, ErrView, Workspace};

verus! {

/// The first name of `local`, from position `i` on, that also has a remote
/// bookmark.
pub open spec fn first_tracked(local: Seq<Seq<char>>, remote: Seq<Seq<char>>, i: int) -> Option<Seq<char>>
    decreases local.len() - i,
{
    if i < 0 || i >= local.len() {
        None
    } else if remote.contains(local[i]) {
        Some(local[i])
    } else {
        first_tracked(local, remote, i + 1)
    }
}

/// A name that is a local bookmark with a remote bookmark of the same name.
pub open spec fn has_tracking(local: Seq<Seq<char>>, remote: Seq<Seq<char>>, n: Seq<char>) -> bool {
    local.contains(n) && remote.contains(n)
}

/// The trunk bookmark (jj's default `trunk()`): `main`, `master` or
/// `trunk`, in that order of preference, when it is a local bookmark with a
/// remote one; else the first local bookmark that has a remote one.
pub open spec fn trunk_of(local: Seq<Seq<char>>, remote: Seq<Seq<char>>) -> Option<Seq<char>> {
    if has_tracking(local, remote, "main"@) {
        Some("main"@)
    } else if has_tracking(local, remote, "master"@) {
        Some("master"@)
    } else if has_tracking(local, remote, "trunk"@) {
        Some("trunk"@)
    } else {
        first_tracked(local, remote, 0)
    }
}

/// The text of each name.
pub open spec fn names_view(v: Seq<String>) -> Seq<Seq<char>> {
    v.map_values(|s: String| s@)
}

fn has_name(v: &Vec<String>, x: &str) -> (r: bool)
    ensures
        r == names_view(v@).contains(x@),
{
    let ghost nv = names_view(v@);
    let mut i: usize = 0;
    while i < v.len()
        invariant
            i <= v@.len(),
            nv == names_view(v@),
            forall|j: int| 0 <= j < i ==> nv[j] != x@,
        decreases v@.len() - i,
    {
        if str_eq(v[i].as_str(), x) {
            assert(nv[i as int] == x@);
            return true;
        }
        i = i + 1;
    }
    false
}

/// Find the trunk bookmark among the local bookmarks `local`, of which
/// those in `remote` have a remote bookmark.
pub fn resolve_trunk(local: &Vec<String>, remote: &Vec<String>) -> (r: Option<String>)
    ensures
        match r {
            Some(t) => trunk_of(names_view(local@), names_view(remote@)) == Some(t@),
            None => trunk_of(names_view(local@), names_view(remote@)).is_none(),
        },
{
    let ghost lv = names_view(local@);
    let ghost rv = names_view(remote@);
    if has_name(local, "main") && has_name(remote, "main") {
        return Some("main".to_owned());
    }
    if has_name(local, "master") && has_name(remote, "master") {
        return Some("master".to_owned());
    }
    if has_name(local, "trunk") && has_name(remote, "trunk") {
        return Some("trunk".to_owned());
    }
    let mut i: usize = 0;
    while i < local.len()
        invariant
            i <= local@.len(),
            lv == names_view(local@),
            rv == names_view(remote@),
            first_tracked(lv, rv, i as int) == first_tracked(lv, rv, 0),
            !has_tracking(lv, rv, "main"@),
            !has_tracking(lv, rv, "master"@),
            !has_tracking(lv, rv, "trunk"@),
        decreases local@.len() - i,
    {
        if has_name(remote, local[i].as_str()) {
            assert(lv[i as int] == local@[i as int]@);
            return Some(local[i].clone());
        }
        i = i + 1;
    }
    None
}

/// jj's own name of a workspace shown as `name`: the default workspace is
/// shown under the trunk bookmark's name.
pub open spec fn internal_name(name: Seq<char>, trunk: Option<Seq<char>>) -> Seq<char> {
    match trunk {
        Some(t) => if t == name { "default"@ } else { name },
        None => name,
    }
}

/// The text of an optional string slice.
pub open spec fn opt_text(s: Option<&str>) -> Option<Seq<char>> {
    match s {
        Some(t) => Some(t@),
        None => None,
    }
}

/// Map a shown workspace name to jj's internal one.
pub fn internal_ws_name(name: &str, trunk: Option<&str>) -> (r: String)
    ensures
        r@ == internal_name(name@, opt_text(trunk)),
{
    match trunk {
        Some(t) => if str_eq(t, name) {
            "default".to_owned()
        } else {
            name.to_owned()
        },
        None => name.to_owned(),
    }
}

/// The name a workspace is shown under: the trunk bookmark's for `default`.
pub open spec fn display_name(internal: Seq<char>, trunk: Option<Seq<char>>) -> Seq<char> {
    if internal == "default"@ {
        match trunk {
            Some(t) => t,
            None => internal,
        }
    } else {
        internal
    }
}

/// The directory of a workspace (jj's internal name): the repository root
/// for `default`, else the worktree-path template rendered for it.
pub fn workspace_dir(repo_root: &str, name: &str, template: &str) -> (r: Result<String, CoreError>)
    ensures
        match r {
            Ok(p) => ws_path_result(repo_root@, name@, template@) == Ok::<Seq<char>, ErrView>(p@),
            Err(e) => ws_path_result(repo_root@, name@, template@) == Err::<Seq<char>, ErrView>(e.view()),
        },
{
    workspace_path(repo_root, name, template)
}

/// The workspaces jj knows under the internal names `internal`, as
/// (shown name, directory), or the first error of a path template.
pub open spec fn ws_listing(
    internal: Seq<Seq<char>>,
    trunk: Option<Seq<char>>,
    root: Seq<char>,
    template: Seq<char>,
) -> Result<Seq<(Seq<char>, Seq<char>)>, ErrView>
    decreases internal.len(),
{
    if internal.len() == 0 {
        Ok(seq![])
    } else {
        match ws_listing(internal.drop_last(), trunk, root, template) {
            Err(e) => Err(e),
            Ok(prev) => match ws_path_result(root, internal.last(), template) {
                Ok(p) => Ok(prev.push((display_name(internal.last(), trunk), p))),
                Err(e) => Err(e),
            },
        }
    }
}

proof fn lemma_listing_err(s: Seq<Seq<char>>, k: int, trunk: Option<Seq<char>>, root: Seq<char>, template: Seq<char>)
    requires
        0 <= k <= s.len(),
        ws_listing(s.take(k), trunk, root, template) is Err,
    ensures
        ws_listing(s, trunk, root, template) == ws_listing(s.take(k), trunk, root, template),
    decreases s.len() - k,
{
    if k < s.len() {
        assert(s.take(k + 1).drop_last() =~= s.take(k));
        lemma_listing_err(s, k + 1, trunk, root, template);
    } else {
        assert(s.take(k) =~= s);
    }
}

/// The (name, path) of each workspace.
pub open spec fn workspaces_view(ws: Seq<Workspace>) -> Seq<(Seq<char>, Seq<char>)> {
    ws.map_values(|w: Workspace| (w.name@, w.path@))
}

/// List the workspaces of jj's view: shown names and directories, none of
/// them stale.
pub fn list_workspaces(internal: &Vec<String>, trunk: Option<&str>, repo_root: &str, template: &str) -> (r: Result<
    Vec<Workspace>,
    CoreError,
>)
    ensures
        match r {
            Ok(ws) => ws_listing(names_view(internal@), opt_text(trunk), repo_root@, template@) == Ok::<
                Seq<(Seq<char>, Seq<char>)>,
                ErrView,
            >(workspaces_view(ws@)) && forall|i: int| 0 <= i < ws@.len() ==> !(#[trigger] ws@[i]).stale,
            Err(e) => ws_listing(names_view(internal@), opt_text(trunk), repo_root@, template@) == Err::<
                Seq<(Seq<char>, Seq<char>)>,
                ErrView,
            >(e.view()),
        },
{
    let ghost nv = names_view(internal@);
    let ghost tv = opt_text(trunk);
    let mut out: Vec<Workspace> = Vec::new();
    let mut i: usize = 0;
    assert(nv.take(0) =~= Seq::<Seq<char>>::empty());
    assert(workspaces_view(out@) =~= Seq::<(Seq<char>, Seq<char>)>::empty());
    while i < internal.len()
        invariant
            i <= internal@.len(),
            nv == names_view(internal@),
            tv == opt_text(trunk),
            ws_listing(nv.take(i as int), tv, repo_root@, template@) == Ok::<Seq<(Seq<char>, Seq<char>)>, ErrView>(
                workspaces_view(out@),
            ),
            forall|j: int| 0 <= j < out@.len() ==> !(#[trigger] out@[j]).stale,
        decreases internal@.len() - i,
    {
        assert(nv.take(i + 1).drop_last() =~= nv.take(i as int));
        assert(nv.take(i + 1).last() == internal@[i as int]@);
        let n = internal[i].as_str();
        match workspace_dir(repo_root, n, template) {
            Ok(p) => {
                let shown = if str_eq(n, "default") {
                    match trunk {
                        Some(t) => t.to_owned(),
                        None => n.to_owned(),
                    }
                } else {
                    n.to_owned()
                };
                let ghost prev = workspaces_view(out@);
                out.push(Workspace { name: shown, path: p, stale: false });
                assert(workspaces_view(out@) =~= prev.push((display_name(n@, tv), out@.last().path@)));
            },
            Err(e) => {
                proof {
                    lemma_listing_err(nv, i + 1, tv, repo_root@, template@);
                }
                return Err(e);
            },
        }
        i = i + 1;
    }
    assert(nv.take(internal@.len() as int) =~= nv);
    Ok(out)
}

/// The lines of a listing, trimmed, blank ones left out.
pub fn nonblank_lines(text: &str) -> (r: Vec<String>)
    ensures
        names_view(r@) == listed_paths(lines_from(text@, 0)),
{
    tracked_paths(text)
}

/// The three tab-separated fields of a bookmark line: name, remote (empty
/// for the local bookmark) and whether it is present; the last one takes
/// the rest of the line.
pub open spec fn ref_fields(l: Seq<char>) -> Option<(Seq<char>, Seq<char>, Seq<char>)> {
    let a = find_char(l, '\t', 0);
    if a < 0 {
        None
    } else {
        let b = find_char(l, '\t', a + 1);
        if b < 0 {
            None
        } else {
            Some((l.take(a), l.subrange(a + 1, b), l.skip(b + 1)))
        }
    }
}

/// The present local bookmarks of a listing.
pub open spec fn local_present(ls: Seq<Seq<char>>) -> Seq<Seq<char>>
    decreases ls.len(),
{
    if ls.len() == 0 {
        seq![]
    } else {
        match ref_fields(ls.last()) {
            Some(f) => if f.1.len() == 0 && f.2 == "true"@ {
                local_present(ls.drop_last()).push(f.0)
            } else {
                local_present(ls.drop_last())
            },
            None => local_present(ls.drop_last()),
        }
    }
}

/// The names of the remote bookmarks of a listing, once per remote.
pub open spec fn remote_named(ls: Seq<Seq<char>>) -> Seq<Seq<char>>
    decreases ls.len(),
{
    if ls.len() == 0 {
        seq![]
    } else {
        match ref_fields(ls.last()) {
            Some(f) => if f.1.len() > 0 {
                remote_named(ls.drop_last()).push(f.0)
            } else {
                remote_named(ls.drop_last())
            },
            None => remote_named(ls.drop_last()),
        }
    }
}

fn next_tab(v: &Vec<char>, from: usize) -> (r: Option<usize>)
    requires
        from <= v@.len(),
    ensures
        match r {
            Some(k) => find_char(v@, '\t', from as int) == k && from <= k < v@.len(),
            None => find_char(v@, '\t', from as int) == -1,
        },
{
    let mut k = from;
    while k < v.len() && v[k] != '\t'
        invariant
            from <= k <= v@.len(),
            find_char(v@, '\t', k as int) == find_char(v@, '\t', from as int),
        decreases v@.len() - k,
    {
        k = k + 1;
    }
    if k < v.len() {
        Some(k)
    } else {
        None
    }
}

fn split_ref(l: &Vec<char>) -> (r: Option<(String, String, String)>)
    ensures
        match r {
            Some(f) => ref_fields(l@) == Some((f.0@, f.1@, f.2@)),
            None => ref_fields(l@).is_none(),
        },
{
    let _len = l.len();
    match next_tab(l, 0) {
        None => None,
        Some(a) => match next_tab(l, a + 1) {
            None => None,
            Some(b) => {
                let n = slice_chars(l, 0, a);
                let rm = slice_chars(l, a + 1, b);
                let p = slice_chars(l, b + 1, l.len());
                assert(n@ =~= l@.take(a as int));
                assert(p@ =~= l@.skip(b + 1));
                Some((string_of(n.as_slice()), string_of(rm.as_slice()), string_of(p.as_slice())))
            },
        },
    }
}

/// Read a bookmark listing (one `name<TAB>remote<TAB>present` line per
/// bookmark ref): the present local bookmarks, and the names that have a
/// remote bookmark.
pub fn parse_ref_lines(text: &str) -> (r: (Vec<String>, Vec<String>))
    ensures
        names_view(r.0@) == local_present(lines_from(text@, 0)),
        names_view(r.1@) == remote_named(lines_from(text@, 0)),
{
    let lines = split_lines(text);
    let ghost ls = lines@.map_values(|l: Vec<char>| l@);
    let mut local: Vec<String> = Vec::new();
    let mut remote: Vec<String> = Vec::new();
    let mut i: usize = 0;
    while i < lines.len()
        invariant
            i <= lines@.len(),
            ls == lines@.map_values(|l: Vec<char>| l@),
            ls == lines_from(text@, 0),
            names_view(local@) == local_present(ls.take(i as int)),
            names_view(remote@) == remote_named(ls.take(i as int)),
        decreases lines@.len() - i,
    {
        assert(ls.take(i + 1).drop_last() =~= ls.take(i as int));
        assert(ls.take(i + 1).last() == ls[i as int]);
        let ghost pl = names_view(local@);
        let ghost pr = names_view(remote@);
        match split_ref(&lines[i]) {
            Some((n, rm, p)) => {
                let rlen = chars_of(rm.as_str()).len();
                if rlen == 0 {
                    proof {
                        reveal_strlit("true");
                    }
                    if str_eq(p.as_str(), "true") {
                        local.push(n);
                        assert(names_view(local@) =~= pl.push(ref_fields(ls[i as int])->Some_0.0));
                    }
                } else {
                    remote.push(n);
                    assert(names_view(remote@) =~= pr.push(ref_fields(ls[i as int])->Some_0.0));
                }
            },
            None => {},
        }
        i = i + 1;
    }
    assert(ls.take(lines@.len() as int) =~= ls);
    (local, remote)
}

/// The six tab-separated fields of a commit line: short change id, commit
/// time in seconds, whether it has conflicts, lines added, lines removed,
/// and the first line of the description (the rest of the line).
pub open spec fn commit_fields(l: Seq<char>) -> Option<Seq<Seq<char>>> {
    let t1 = find_char(l, '\t', 0);
    let t2 = find_char(l, '\t', t1 + 1);
    let t3 = find_char(l, '\t', t2 + 1);
    let t4 = find_char(l, '\t', t3 + 1);
    let t5 = find_char(l, '\t', t4 + 1);
    if t1 < 0 || t2 < 0 || t3 < 0 || t4 < 0 || t5 < 0 {
        None
    } else {
        Some(
            seq![
                l.take(t1),
                l.subrange(t1 + 1, t2),
                l.subrange(t2 + 1, t3),
                l.subrange(t3 + 1, t4),
                l.subrange(t4 + 1, t5),
                l.skip(t5 + 1),
            ],
        )
    }
}

/// How long before `now` a commit made at `secs` was, never negative.
pub open spec fn age_of(now: i64, secs: u64) -> int {
    if now > secs { now - secs } else { 0 }
}

/// The commit line read as commit information at time `now`, when all of
/// its numbers parse.
pub open spec fn commit_line_ok(l: Seq<char>, now: i64, c: CommitInfo) -> bool {
    match commit_fields(l) {
        Some(f) => match (parse_u64_of(f[1]), parse_u32_of(f[3]), parse_u32_of(f[4])) {
            (Some(secs), Some(added), Some(removed)) => {
                &&& c.commit_short@ == f[0]
                &&& c.age_seconds == age_of(now, secs)
                &&& c.conflicts == (f[2] == "true"@)
                &&& c.head_added == added
                &&& c.head_removed == removed
                &&& c.message_first_line@ == f[5]
            },
            _ => false,
        },
        None => false,
    }
}

/// Whether a commit line can be read at all.
pub open spec fn commit_line_parses(l: Seq<char>) -> bool {
    match commit_fields(l) {
        Some(f) => parse_u64_of(f[1]).is_some() && parse_u32_of(f[3]).is_some() && parse_u32_of(f[4]).is_some(),
        None => false,
    }
}

/// Read one commit line (see `commit_fields`) as of time `now`.
pub fn parse_commit_line(line: &str, now: i64) -> (r: Option<CommitInfo>)
    ensures
        match r {
            Some(c) => commit_line_ok(line@, now, c),
            None => !commit_line_parses(line@),
        },
{
    let l = chars_of(line);
    let _len = l.len();
    let t1 = match next_tab(&l, 0) {
        Some(k) => k,
        None => return None,
    };
    let t2 = match next_tab(&l, t1 + 1) {
        Some(k) => k,
        None => return None,
    };
    let t3 = match next_tab(&l, t2 + 1) {
        Some(k) => k,
        None => return None,
    };
    let t4 = match next_tab(&l, t3 + 1) {
        Some(k) => k,
        None => return None,
    };
    let t5 = match next_tab(&l, t4 + 1) {
        Some(k) => k,
        None => return None,
    };
    let f0 = string_of(slice_chars(&l, 0, t1).as_slice());
    let f1 = string_of(slice_chars(&l, t1 + 1, t2).as_slice());
    let f2 = string_of(slice_chars(&l, t2 + 1, t3).as_slice());
    let f3 = string_of(slice_chars(&l, t3 + 1, t4).as_slice());
    let f4 = string_of(slice_chars(&l, t4 + 1, t5).as_slice());
    let f5 = string_of(slice_chars(&l, t5 + 1, l.len()).as_slice());
    let ghost fs = commit_fields(line@)->Some_0;
    assert(f0@ =~= fs[0]);
    assert(f5@ =~= fs[5]);
    assert(f1@ == fs[1] && f2@ == fs[2] && f3@ == fs[3] && f4@ == fs[4]);
    let secs = match parse_u64(f1.as_str()) {
        Some(s) => s,
        None => return None,
    };
    let added = match parse_u32(f3.as_str()) {
        Some(a) => a,
        None => return None,
    };
    let removed = match parse_u32(f4.as_str()) {
        Some(a) => a,
        None => return None,
    };
    let age: i64 = if (now as i128) > (secs as i128) { ((now as i128) - (secs as i128)) as i64 } else { 0 };
    proof {
        reveal_strlit("true");
    }
    Some(CommitInfo {
        commit_short: f0,
        age_seconds: age,
        message_first_line: f5,
        conflicts: str_eq(f2.as_str(), "true"),
        head_added: added,
        head_removed: removed,
    })
}

} // verus!
