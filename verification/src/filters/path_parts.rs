//! POSIX-style dirname and basename, with the component rules of std's `Path`
//! on Unix: repeated separators and `.` components are skipped, a leading `.`
//! stands for the current directory, and the parent keeps the given text
//! up to the previous component.
use vstd::prelude::*;
use crate::text::{chars_of, join, string_of};

verus! {

/// Length of the root (`/`) at the start of `s`, 0 or 1.
pub open spec fn root_len(s: Seq<char>) -> int {
    if s.len() > 0 && s[0] == '/' { 1 } else { 0 }
}

/// Length of a leading current-directory component (`.` followed by a
/// separator or the end) of a relative path, 0 or 1.
pub open spec fn cur_len(s: Seq<char>) -> int {
    if root_len(s) == 0 && s.len() >= 1 && s[0] == '.' && (s.len() == 1 || s[1] == '/') { 1 } else { 0 }
}

/// Where the body (the part made of normal components) starts.
pub open spec fn body_start(s: Seq<char>) -> int {
    root_len(s) + cur_len(s)
}

/// Index of the last `/` in `s[lo..end]`, or -1.
pub open spec fn last_sep(s: Seq<char>, lo: int, end: int) -> int
    decreases end - lo,
{
    if end <= lo {
        -1
    } else if s[end - 1] == '/' {
        end - 1
    } else {
        last_sep(s, lo, end - 1)
    }
}

/// Start of the last component of `s[..end]`.
pub open spec fn comp_start(s: Seq<char>, end: int) -> int {
    let p = last_sep(s, body_start(s), end);
    if p >= 0 { p + 1 } else { body_start(s) }
}

/// Where `s[..end]` ends once its last component is dropped with the
/// separator before it.
pub open spec fn drop_comp(s: Seq<char>, end: int) -> int {
    let p = last_sep(s, body_start(s), end);
    if p >= 0 { p } else { body_start(s) }
}

/// A component that counts: neither empty nor `.`.
pub open spec fn is_real(c: Seq<char>) -> bool {
    c.len() != 0 && c != seq!['.']
}

/// The end of `s[..end]` once trailing empty and `.` components are dropped.
pub open spec fn trim_back(s: Seq<char>, end: int) -> int
    decreases end,
{
    if end <= body_start(s) || end > s.len() {
        end
    } else if is_real(s.subrange(comp_start(s, end), end)) {
        end
    } else {
        proof {
            lemma_last_sep(s, body_start(s), end);
        }
        trim_back(s, drop_comp(s, end))
    }
}

/// The final component, when it is a normal one (not the root, `.` or `..`).
pub open spec fn spec_file_name(s: Seq<char>) -> Option<Seq<char>> {
    let e = trim_back(s, s.len() as int);
    if e > body_start(s) {
        let c = s.subrange(comp_start(s, e), e);
        if c == seq!['.', '.'] { None } else { Some(c) }
    } else {
        None
    }
}

/// The parent path, as std's `Path::parent` gives it.
pub open spec fn spec_parent(s: Seq<char>) -> Option<Seq<char>> {
    let e = trim_back(s, s.len() as int);
    if e > body_start(s) {
        Some(s.take(trim_back(s, drop_comp(s, e))))
    } else if root_len(s) == 0 && cur_len(s) == 1 {
        Some(seq![])
    } else {
        None
    }
}

/// `dirname` of `s`: its parent, or empty when it has none.
pub open spec fn spec_dirname(s: Seq<char>) -> Seq<char> {
    match spec_parent(s) {
        Some(p) => p,
        None => seq![],
    }
}

/// `basename` of `s`: its final normal component, or empty.
pub open spec fn spec_basename(s: Seq<char>) -> Seq<char> {
    match spec_file_name(s) {
        Some(n) => n,
        None => seq![],
    }
}

/// Where the last separator of a range lies.
pub proof fn lemma_last_sep(s: Seq<char>, lo: int, end: int)
    requires
        0 <= lo,
        end <= s.len(),
    ensures
        last_sep(s, lo, end) == -1 || (lo <= last_sep(s, lo, end) < end && s[last_sep(s, lo, end)] == '/'),
        forall|k: int| last_sep(s, lo, end) < k < end && lo <= k ==> s[k] != '/',
    decreases end - lo,
{
    if end > lo && s[end - 1] != '/' {
        lemma_last_sep(s, lo, end - 1);
    }
}

proof fn lemma_trim_back(s: Seq<char>, end: int)
    requires
        body_start(s) <= end <= s.len(),
    ensures
        body_start(s) <= trim_back(s, end) <= end,
    decreases end,
{
    if end > body_start(s) && !is_real(s.subrange(comp_start(s, end), end)) {
        lemma_last_sep(s, body_start(s), end);
        lemma_trim_back(s, drop_comp(s, end));
    }
}

fn body_start_of(s: &Vec<char>) -> (r: usize)
    ensures
        r == body_start(s@),
        r <= s@.len(),
{
    if s.len() > 0 && s[0] == '/' {
        1
    } else if s.len() >= 1 && s[0] == '.' && (s.len() == 1 || s[1] == '/') {
        1
    } else {
        0
    }
}

fn last_sep_of(s: &Vec<char>, lo: usize, end: usize) -> (r: Option<usize>)
    requires
        lo <= end <= s@.len(),
    ensures
        match r {
            Some(p) => p == last_sep(s@, lo as int, end as int),
            None => last_sep(s@, lo as int, end as int) == -1,
        },
{
    let mut e = end;
    while e > lo
        invariant
            lo <= e <= end,
            end <= s@.len(),
            last_sep(s@, lo as int, end as int) == last_sep(s@, lo as int, e as int),
        decreases e - lo,
    {
        if s[e - 1] == '/' {
            return Some(e - 1);
        }
        e = e - 1;
    }
    None
}

fn comp_bounds(s: &Vec<char>, bs: usize, end: usize) -> (r: (usize, usize))
    requires
        bs == body_start(s@),
        bs <= end <= s@.len(),
    ensures
        r.0 == comp_start(s@, end as int),
        r.1 == drop_comp(s@, end as int),
        bs <= r.1 <= r.0 <= end,
{
    proof {
        lemma_last_sep(s@, bs as int, end as int);
    }
    match last_sep_of(s, bs, end) {
        Some(p) => (p + 1, p),
        None => (bs, bs),
    }
}

fn trim_back_of(s: &Vec<char>, bs: usize, end: usize) -> (r: usize)
    requires
        bs == body_start(s@),
        bs <= end <= s@.len(),
    ensures
        r == trim_back(s@, end as int),
        bs <= r <= end,
{
    let mut e = end;
    while e > bs
        invariant
            bs == body_start(s@),
            end <= s@.len(),
            bs <= e <= end,
            trim_back(s@, e as int) == trim_back(s@, end as int),
        decreases e,
    {
        let (cs, de) = comp_bounds(s, bs, e);
        let counts = !(e - cs == 0 || (e - cs == 1 && s[cs] == '.'));
        assert(counts == is_real(s@.subrange(cs as int, e as int))) by {
            let c = s@.subrange(cs as int, e as int);
            assert(c.len() == e - cs);
            if e - cs == 1 {
                assert(c[0] == s@[cs as int]);
                if s@[cs as int] == '.' {
                    assert(c =~= seq!['.']);
                } else {
                    assert(c[0] != seq!['.'][0]);
                }
            }
            if e - cs != 1 {
                assert(c.len() != seq!['.'].len());
            }
        }
        if counts {
            return e;
        }
        e = de;
    }
    e
}

fn copy_range(s: &Vec<char>, from: usize, to: usize) -> (r: String)
    requires
        from <= to <= s@.len(),
    ensures
        r@ == s@.subrange(from as int, to as int),
{
    let mut out: Vec<char> = Vec::new();
    let mut i = from;
    while i < to
        invariant
            to <= s@.len(),
            from <= i <= to,
            out@ == s@.subrange(from as int, i as int),
        decreases to - i,
    {
        out.push(s[i]);
        i = i + 1;
        assert(out@ =~= s@.subrange(from as int, i as int));
    }
    string_of(&out)
}

/// A parent is shorter than the path it belongs to.
pub proof fn lemma_parent_shorter(s: Seq<char>)
    ensures
        spec_parent(s) matches Some(p) ==> p.len() < s.len(),
{
    let e = trim_back(s, s.len() as int);
    assert(body_start(s) <= s.len());
    lemma_trim_back(s, s.len() as int);
    if e > body_start(s) {
        lemma_last_sep(s, body_start(s), e);
        let d = drop_comp(s, e);
        assert(body_start(s) <= d < e);
        lemma_trim_back(s, d);
    }
}

/// The parent of a path, as std's `Path::parent` gives it.
pub fn parent(value: &str) -> (r: Option<String>)
    ensures
        match r {
            Some(p) => spec_parent(value@) == Some(p@),
            None => spec_parent(value@) is None,
        },
{
    let s = chars_of(value);
    let bs = body_start_of(&s);
    let e = trim_back_of(&s, bs, s.len());
    if e > bs {
        let (_, de) = comp_bounds(&s, bs, e);
        let p = trim_back_of(&s, bs, de);
        assert(s@.subrange(0, p as int) =~= s@.take(p as int));
        Some(copy_range(&s, 0, p))
    } else if s.len() >= 1 && s[0] == '.' && (s.len() == 1 || s[1] == '/') {
        assert(seq![] =~= Seq::<char>::empty());
        Some(String::new())
    } else {
        None
    }
}

/// POSIX-style parent of a path: `/a/b/c` gives `/a/b`. Empty when the path
/// has no parent (the root, or the empty path).
pub fn dirname(value: &str) -> (r: String)
    ensures
        r@ == spec_dirname(value@),
{
    let s = chars_of(value);
    let bs = body_start_of(&s);
    let e = trim_back_of(&s, bs, s.len());
    if e > bs {
        let (_, de) = comp_bounds(&s, bs, e);
        let p = trim_back_of(&s, bs, de);
        assert(s@.subrange(0, p as int) =~= s@.take(p as int));
        copy_range(&s, 0, p)
    } else {
        assert(spec_dirname(value@) =~= seq![]);
        String::new()
    }
}

/// POSIX-style final component of a path: `/a/b/c` gives `c`. Empty when the
/// path ends in the root, `.` or `..`, or is empty.
pub fn basename(value: &str) -> (r: String)
    ensures
        r@ == spec_basename(value@),
{
    let s = chars_of(value);
    let bs = body_start_of(&s);
    let e = trim_back_of(&s, bs, s.len());
    if e > bs {
        let (cs, _) = comp_bounds(&s, bs, e);
        if e - cs == 2 && s[cs] == '.' && s[cs + 1] == '.' {
            assert(s@.subrange(cs as int, e as int) =~= seq!['.', '.']);
            String::new()
        } else {
            assert(s@.subrange(cs as int, e as int) != seq!['.', '.']) by {
                if s@.subrange(cs as int, e as int) =~= seq!['.', '.'] {
                    assert(s@.subrange(cs as int, e as int).len() == 2);
                    assert(s@.subrange(cs as int, e as int)[0] == s@[cs as int]);
                    assert(s@.subrange(cs as int, e as int)[1] == s@[cs + 1]);
                }
            }
            copy_range(&s, cs, e)
        }
    } else {
        String::new()
    }
}

/// For a relative path of two or more plain components (no empty, `.` or
/// `..` parts), the dirname, a `/`, and the basename give back the path.
pub proof fn law_dirname_basename_split(dir: Seq<char>, name: Seq<char>)
    requires
        name.len() > 0,
        forall|i: int| 0 <= i < name.len() ==> name[i] != '/',
        name != seq!['.'],
        name != seq!['.', '.'],
        dir.len() > 0,
        dir[0] != '/',
        dir[dir.len() - 1] != '/',
        dir != seq!['.'],
        dir[0] == '.' ==> dir.len() >= 2 && dir[1] != '/',
        dir.len() >= 2 ==> !(dir[dir.len() - 2] == '/' && dir[dir.len() - 1] == '.'),
    ensures
        spec_basename(dir + seq!['/'] + name) == name,
        spec_dirname(dir + seq!['/'] + name) == dir,
{
    let s = dir + seq!['/'] + name;
    let n = s.len() as int;
    let d = dir.len() as int;
    assert(body_start(s) == 0);
    assert(s[d] == '/');
    assert forall|k: int| d < k < n implies s[k] != '/' by {
        assert(s[k] == name[k - d - 1]);
    }
    assert(last_sep(s, 0, n) == d) by {
        lemma_last_sep(s, 0, n);
    }
    assert(s.subrange(d + 1, n) =~= name);
    assert(trim_back(s, n) == n);
    assert(drop_comp(s, n) == d);
    // The remaining prefix ends in a real component.
    lemma_last_sep(s, 0, d);
    let p = last_sep(s, 0, d);
    let cs = if p >= 0 { p + 1 } else { 0 };
    assert(comp_start(s, d) == cs);
    assert(s.subrange(cs, d).len() > 0);
    assert(s.subrange(cs, d) != seq!['.']) by {
        if s.subrange(cs, d) =~= seq!['.'] {
            assert(s.subrange(cs, d).len() == 1);
            assert(cs == d - 1);
            assert(s.subrange(cs, d)[0] == s[cs]);
            assert(s[d - 1] == '.');
            assert(s[d - 1] == dir[d - 1]);
            if p >= 0 {
                assert(s[p] == '/');
                assert(s[p] == dir[d - 2]);
            } else {
                assert(d == 1);
                assert(dir =~= seq!['.']);
            }
        }
    }
    assert(trim_back(s, d) == d);
    assert(s.take(d) =~= dir);
}

/// A plain path component: not empty, free of `/`, neither `.` nor `..`.
pub open spec fn plain_component(c: Seq<char>) -> bool {
    &&& c.len() > 0
    &&& forall|i: int| 0 <= i < c.len() ==> c[i] != '/'
    &&& c != seq!['.']
    &&& c != seq!['.', '.']
}

proof fn lemma_join_plain_ends(cs: Seq<Seq<char>>)
    requires
        cs.len() >= 1,
        forall|i: int| 0 <= i < cs.len() ==> plain_component(#[trigger] cs[i]),
    ensures
        ({
            let j = join(cs, seq!['/']);
            &&& j.len() >= cs[0].len()
            &&& forall|k: int| 0 <= k < cs[0].len() ==> j[k] == cs[0][k]
            &&& j.len() >= cs.last().len()
            &&& forall|k: int| 0 <= k < cs.last().len() ==> j[j.len() - cs.last().len() + k] == cs.last()[k]
            &&& cs.len() >= 2 ==> j.len() >= 3
        }),
    decreases cs.len(),
{
    if cs.len() >= 2 {
        let init = cs.drop_last();
        assert forall|i: int| 0 <= i < init.len() implies plain_component(#[trigger] init[i]) by {
            assert(init[i] == cs[i]);
        }
        lemma_join_plain_ends(init);
        assert(init[0] == cs[0]);
        assert(plain_component(cs[cs.len() - 1]));
        assert(plain_component(cs[0]));
    }
}

/// For a relative path written as two or more plain components joined by
/// `/`, the dirname, a `/`, and the basename give back the path, and the
/// dirname does not end in `/`.
pub proof fn law_dirname_basename_components(cs: Seq<Seq<char>>)
    requires
        cs.len() >= 2,
        forall|i: int| 0 <= i < cs.len() ==> plain_component(#[trigger] cs[i]),
    ensures
        spec_dirname(join(cs, seq!['/'])) + seq!['/'] + spec_basename(join(cs, seq!['/'])) == join(cs, seq!['/']),
        spec_dirname(join(cs, seq!['/'])).len() > 0,
        spec_dirname(join(cs, seq!['/'])).last() != '/',
{
    let dir_parts = cs.drop_last();
    let dir = join(dir_parts, seq!['/']);
    let name = cs.last();
    assert forall|i: int| 0 <= i < dir_parts.len() implies plain_component(#[trigger] dir_parts[i]) by {
        assert(dir_parts[i] == cs[i]);
    }
    lemma_join_plain_ends(dir_parts);
    assert(plain_component(cs[cs.len() - 1]));
    let first = dir_parts[0];
    let last = dir_parts.last();
    assert(plain_component(first));
    assert(plain_component(last)) by {
        assert(last == dir_parts[dir_parts.len() - 1]);
    }
    assert(dir[0] == first[0]);
    assert(dir[dir.len() - 1] == last[last.len() - 1]);
    assert(dir != seq!['.']) by {
        if dir_parts.len() == 1 {
            assert(dir == first);
        }
    }
    assert(dir[0] == '.' ==> dir.len() >= 2 && dir[1] != '/') by {
        if dir[0] == '.' {
            if first.len() == 1 {
                assert(first =~= seq!['.']);
            }
            assert(dir[1] == first[1]);
        }
    }
    assert(dir.len() >= 2 ==> !(dir[dir.len() - 2] == '/' && dir[dir.len() - 1] == '.')) by {
        if dir.len() >= 2 && dir[dir.len() - 1] == '.' {
            if last.len() == 1 {
                assert(last =~= seq!['.']);
            }
            assert(dir[dir.len() - 2] == last[last.len() - 2]);
        }
    }
    law_dirname_basename_split(dir, name);
    assert(join(cs, seq!['/']) == dir + seq!['/'] + name);
}

} // verus!

verus! {

/// The final normal component of a path, if it has one (std's
/// `Path::file_name`).
pub fn file_name(value: &str) -> (r: Option<String>)
    ensures
        match r {
            Some(n) => spec_file_name(value@) == Some(n@),
            None => spec_file_name(value@).is_none(),
        },
{
    let s = chars_of(value);
    let bs = body_start_of(&s);
    let e = trim_back_of(&s, bs, s.len());
    if e > bs {
        let (cs, _) = comp_bounds(&s, bs, e);
        if e - cs == 2 && s[cs] == '.' && s[cs + 1] == '.' {
            assert(s@.subrange(cs as int, e as int) =~= seq!['.', '.']);
            None
        } else {
            assert(s@.subrange(cs as int, e as int) != seq!['.', '.']) by {
                if s@.subrange(cs as int, e as int) =~= seq!['.', '.'] {
                    assert(s@.subrange(cs as int, e as int).len() == 2);
                    assert(s@.subrange(cs as int, e as int)[0] == s@[cs as int]);
                    assert(s@.subrange(cs as int, e as int)[1] == s@[cs + 1]);
                }
            }
            Some(copy_range(&s, cs, e))
        }
    } else {
        None
    }
}

} // verus!
