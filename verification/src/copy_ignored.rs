//! What `step copy-ignored` decides: which paths of a workspace are left
//! out of the walk, and which files the repository tracks.
use vstd::prelude::*;
use crate::paths::{comps_prefix, comps_starts_with, components, path_components};
use crate::text::{split_lines, string_of, trim, trim_chars};

verus! {

/// A component that hides repository metadata: `.jj` or `.git`.
pub open spec fn metadata_dir(c: Seq<char>) -> bool {
    c == seq!['.', 'j', 'j'] || c == seq!['.', 'g', 'i', 't']
}

/// `path` lies under `root` and one of its components below `root` is
/// `.jj` or `.git`.
pub open spec fn excluded(path: Seq<char>, root: Seq<char>) -> bool {
    let ca = path_components(path);
    let cb = path_components(root);
    comps_prefix(ca, cb) && exists|i: int| cb.len() <= i < ca.len() && #[trigger] metadata_dir(ca[i])
}

fn is_metadata(c: &Vec<char>) -> (r: bool)
    ensures
        r == metadata_dir(c@),
{
    let j = c.len() == 3 && c[0] == '.' && c[1] == 'j' && c[2] == 'j';
    let g = c.len() == 4 && c[0] == '.' && c[1] == 'g' && c[2] == 'i' && c[3] == 't';
    assert(j == (c@ == seq!['.', 'j', 'j'])) by {
        if c@.len() == 3 && c@[0] == '.' && c@[1] == 'j' && c@[2] == 'j' {
            assert(c@ =~= seq!['.', 'j', 'j']);
        }
    }
    assert(g == (c@ == seq!['.', 'g', 'i', 't'])) by {
        if c@.len() == 4 && c@[0] == '.' && c@[1] == 'g' && c@[2] == 'i' && c@[3] == 't' {
            assert(c@ =~= seq!['.', 'g', 'i', 't']);
        }
    }
    j || g
}

/// Whether the walk of a workspace rooted at `root` skips `path`.
pub fn is_excluded(path: &str, root: &str) -> (r: bool)
    ensures
        r == excluded(path@, root@),
{
    let ca = components(path);
    let cb = components(root);
    let ghost av = ca@.map_values(|c: Vec<char>| c@);
    let ghost bv = cb@.map_values(|c: Vec<char>| c@);
    if !comps_starts_with(&ca, &cb) {
        return false;
    }
    let mut i: usize = cb.len();
    while i < ca.len()
        invariant
            cb@.len() <= i <= ca@.len(),
            av == ca@.map_values(|c: Vec<char>| c@),
            av == path_components(path@),
            bv == path_components(root@),
            bv.len() == cb@.len(),
            comps_prefix(av, bv),
            forall|j: int| cb@.len() <= j < i ==> !metadata_dir(#[trigger] av[j]),
        decreases ca@.len() - i,
    {
        if is_metadata(&ca[i]) {
            assert(metadata_dir(av[i as int]));
            assert(bv.len() <= i < av.len());
            return true;
        }
        i = i + 1;
    }
    false
}

/// The files a `jj file list` output names: each line trimmed, blank ones
/// left out.
pub open spec fn listed_paths(ls: Seq<Seq<char>>) -> Seq<Seq<char>>
    decreases ls.len(),
{
    if ls.len() == 0 {
        seq![]
    } else if trim(ls.last()).len() == 0 {
        listed_paths(ls.drop_last())
    } else {
        listed_paths(ls.drop_last()).push(trim(ls.last()))
    }
}

/// Read the tracked paths out of `jj file list` output.
pub fn tracked_paths(output: &str) -> (r: Vec<String>)
    ensures
        r@.map_values(|s: String| s@) == listed_paths(crate::text::lines_from(output@, 0)),
{
    let lines = split_lines(output);
    let ghost ls = lines@.map_values(|l: Vec<char>| l@);
    let mut out: Vec<String> = Vec::new();
    let mut i: usize = 0;
    while i < lines.len()
        invariant
            i <= lines@.len(),
            ls == lines@.map_values(|l: Vec<char>| l@),
            out@.map_values(|s: String| s@) == listed_paths(ls.take(i as int)),
        decreases lines@.len() - i,
    {
        let t = trim_chars(&lines[i]);
        assert(ls.take(i + 1).drop_last() =~= ls.take(i as int));
        assert(ls.take(i + 1).last() == ls[i as int]);
        if t.len() > 0 {
            let ghost prev = out@.map_values(|s: String| s@);
            out.push(string_of(t.as_slice()));
            assert(out@.map_values(|s: String| s@) =~= prev.push(t@));
        }
        i = i + 1;
    }
    assert(ls.take(lines@.len() as int) =~= ls);
    out
}

} // verus!
