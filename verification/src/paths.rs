//! Paths as strings, compared and combined component by component the way
//! std's `Path` does on Unix.
use vstd::prelude::*;
use crate::filters::path_parts::{body_start, cur_len, is_real, root_len};
use crate::text::{chars_of, string_of};

verus! {

/// The segments of `t` between separators, empty ones included.
pub open spec fn segments(t: Seq<char>) -> Seq<Seq<char>>
    decreases t.len(),
{
    if t.len() == 0 {
        seq![seq![]]
    } else {
        let prev = segments(t.drop_last());
        if t.last() == '/' {
            prev.push(seq![])
        } else {
            prev.update(prev.len() - 1, prev.last().push(t.last()))
        }
    }
}

/// The segments that count (neither empty nor `.`).
pub open spec fn real_segments(ss: Seq<Seq<char>>) -> Seq<Seq<char>>
    decreases ss.len(),
{
    if ss.len() == 0 {
        seq![]
    } else if is_real(ss.last()) {
        real_segments(ss.drop_last()).push(ss.last())
    } else {
        real_segments(ss.drop_last())
    }
}

/// The components of a path: `/` for the root, `.` for a leading current
/// directory, then its normal components.
pub open spec fn path_components(s: Seq<char>) -> Seq<Seq<char>> {
    path_marks(s) + real_segments(segments(s.subrange(body_start(s), s.len() as int)))
}

/// The root or current-directory mark a path starts with, if any.
pub open spec fn path_marks(s: Seq<char>) -> Seq<Seq<char>> {
    if root_len(s) == 1 {
        seq![seq!['/']]
    } else if cur_len(s) == 1 {
        seq![seq!['.']]
    } else {
        seq![]
    }
}

proof fn lemma_segments_nonempty(t: Seq<char>)
    ensures
        segments(t).len() >= 1,
    decreases t.len(),
{
    if t.len() > 0 {
        lemma_segments_nonempty(t.drop_last());
    }
}

fn push_all(out: &mut Vec<char>, cs: &Vec<char>)
    ensures
        final(out)@ == old(out)@ + cs@,
{
    let ghost start = out@;
    let mut i: usize = 0;
    while i < cs.len()
        invariant
            i <= cs@.len(),
            out@ == start + cs@.take(i as int),
        decreases cs@.len() - i,
    {
        out.push(cs[i]);
        i = i + 1;
        assert(out@ =~= start + cs@.take(i as int));
    }
    assert(cs@.take(cs@.len() as int) =~= cs@);
}

/// The components of `s`, as `path_components` describes them.
pub fn components(s: &str) -> (r: Vec<Vec<char>>)
    ensures
        r@.map_values(|c: Vec<char>| c@) == path_components(s@),
{
    let cs = chars_of(s);
    let mut out: Vec<Vec<char>> = Vec::new();
    let bs: usize;
    if cs.len() > 0 && cs[0] == '/' {
        let mut m: Vec<char> = Vec::new();
        m.push('/');
        out.push(m);
        bs = 1;
    } else if cs.len() >= 1 && cs[0] == '.' && (cs.len() == 1 || cs[1] == '/') {
        let mut m: Vec<char> = Vec::new();
        m.push('.');
        out.push(m);
        bs = 1;
    } else {
        bs = 0;
    }
    let ghost marks = out@.map_values(|c: Vec<char>| c@);
    assert(marks =~= path_marks(s@));
    assert(bs == body_start(s@));
    let ghost body = s@.subrange(bs as int, s@.len() as int);
    let mut cur: Vec<char> = Vec::new();
    let mut i: usize = bs;
    while i < cs.len()
        invariant
            bs <= i <= cs@.len(),
            cs@ == s@,
            body == s@.subrange(bs as int, s@.len() as int),
            marks == path_marks(s@),
            out@.map_values(|c: Vec<char>| c@) == marks + real_segments(
                segments(body.take(i - bs)).drop_last(),
            ),
            cur@ == segments(body.take(i - bs)).last(),
            marks.len() <= 1,
        decreases cs@.len() - i,
    {
        let c = cs[i];
        let ghost pre = body.take(i - bs);
        proof {
            lemma_segments_nonempty(pre);
            assert(body.take(i + 1 - bs).drop_last() =~= pre);
            assert(body.take(i + 1 - bs).last() == c);
        }
        if c == '/' {
            let counts = !(cur.len() == 0 || (cur.len() == 1 && cur[0] == '.'));
            assert(counts == is_real(cur@)) by {
                if cur.len() == 1 {
                    if cur[0] == '.' {
                        assert(cur@ =~= seq!['.']);
                    } else {
                        assert(cur@[0] != seq!['.'][0]);
                    }
                } else {
                    assert(cur@.len() != seq!['.'].len());
                }
            }
            let ghost segs = segments(pre);
            let ghost before = out@.map_values(|c: Vec<char>| c@);
            assert(segs.drop_last().push(segs.last()) =~= segs);
            assert(real_segments(segs) == if is_real(segs.last()) {
                real_segments(segs.drop_last()).push(segs.last())
            } else {
                real_segments(segs.drop_last())
            });
            if counts {
                let done = cur;
                out.push(done);
                assert(out@.map_values(|c: Vec<char>| c@) =~= before.push(segs.last()));
                cur = Vec::new();
            } else {
                cur = Vec::new();
            }
            assert(segments(body.take(i + 1 - bs)).drop_last() =~= segs);
            assert(out@.map_values(|c: Vec<char>| c@) =~= marks + real_segments(segs));
        } else {
            cur.push(c);
            let ghost segs = segments(pre);
            assert(segments(body.take(i + 1 - bs)).drop_last() =~= segs.drop_last());
        }
        i = i + 1;
    }
    let ghost segs = segments(body.take(cs@.len() - bs));
    proof {
        lemma_segments_nonempty(body.take(cs@.len() - bs));
        assert(body.take(cs@.len() - bs) =~= body);
        assert(segs.drop_last().push(segs.last()) =~= segs);
    }
    let counts = !(cur.len() == 0 || (cur.len() == 1 && cur[0] == '.'));
    assert(counts == is_real(cur@)) by {
        if cur.len() == 1 {
            if cur[0] == '.' {
                assert(cur@ =~= seq!['.']);
            } else {
                assert(cur@[0] != seq!['.'][0]);
            }
        } else {
            assert(cur@.len() != seq!['.'].len());
        }
    }
    let ghost before = out@.map_values(|c: Vec<char>| c@);
    assert(real_segments(segs) == if is_real(segs.last()) {
        real_segments(segs.drop_last()).push(segs.last())
    } else {
        real_segments(segs.drop_last())
    });
    if counts {
        out.push(cur);
        assert(out@.map_values(|c: Vec<char>| c@) =~= before.push(segs.last()));
    }
    assert(out@.map_values(|c: Vec<char>| c@) =~= path_components(s@));
    out
}

fn same_chars(a: &Vec<char>, b: &Vec<char>) -> (r: bool)
    ensures
        r == (a@ == b@),
{
    if a.len() != b.len() {
        return false;
    }
    let mut i: usize = 0;
    while i < a.len()
        invariant
            a@.len() == b@.len(),
            i <= a@.len(),
            forall|j: int| 0 <= j < i ==> a@[j] == b@[j],
        decreases a@.len() - i,
    {
        if a[i] != b[i] {
            return false;
        }
        i = i + 1;
    }
    assert(a@ =~= b@);
    true
}

/// Whether the components of `b` begin the components of `a`.
pub open spec fn comps_prefix(a: Seq<Seq<char>>, b: Seq<Seq<char>>) -> bool {
    b.len() <= a.len() && a.take(b.len() as int) == b
}

pub fn comps_starts_with(a: &Vec<Vec<char>>, b: &Vec<Vec<char>>) -> (r: bool)
    ensures
        r == comps_prefix(a@.map_values(|c: Vec<char>| c@), b@.map_values(|c: Vec<char>| c@)),
{
    let ghost av = a@.map_values(|c: Vec<char>| c@);
    let ghost bv = b@.map_values(|c: Vec<char>| c@);
    if b.len() > a.len() {
        return false;
    }
    let mut i: usize = 0;
    while i < b.len()
        invariant
            b@.len() <= a@.len(),
            i <= b@.len(),
            av == a@.map_values(|c: Vec<char>| c@),
            bv == b@.map_values(|c: Vec<char>| c@),
            forall|j: int| 0 <= j < i ==> av[j] == bv[j],
        decreases b@.len() - i,
    {
        if !same_chars(&a[i], &b[i]) {
            assert(av.take(bv.len() as int)[i as int] != bv[i as int]);
            return false;
        }
        i = i + 1;
    }
    assert(av.take(bv.len() as int) =~= bv);
    true
}

/// Whether two paths have the same components (std's `Path` equality).
pub fn path_eq(a: &str, b: &str) -> (r: bool)
    ensures
        r == (path_components(a@) == path_components(b@)),
{
    let ca = components(a);
    let cb = components(b);
    let r = ca.len() == cb.len() && comps_starts_with(&ca, &cb);
    proof {
        let av = ca@.map_values(|c: Vec<char>| c@);
        let bv = cb@.map_values(|c: Vec<char>| c@);
        if r {
            assert(av.take(bv.len() as int) =~= av);
        }
        if av == bv {
            assert(av.take(bv.len() as int) =~= bv);
        }
    }
    r
}

/// Whether path `a` starts with path `b`, component by component (std's
/// `Path::starts_with`).
pub fn path_starts_with(a: &str, b: &str) -> (r: bool)
    ensures
        r == comps_prefix(path_components(a@), path_components(b@)),
{
    let ca = components(a);
    let cb = components(b);
    comps_starts_with(&ca, &cb)
}

/// Whether a component is the parent mark `..`.
pub open spec fn is_parent(c: Seq<char>) -> bool {
    c == seq!['.', '.']
}

/// Whether a component can be undone by a following `..`: a name, neither
/// the root, the current-directory mark nor `..` itself.
pub open spec fn is_name(c: Seq<char>) -> bool {
    c != seq!['/'] && c != seq!['.'] && !is_parent(c)
}

/// One component appended to an already resolved list: `..` removes the
/// name before it, is dropped right after the root (`/..` is `/`), and is
/// kept otherwise; any other component is appended.
pub open spec fn resolve_step(acc: Seq<Seq<char>>, c: Seq<char>) -> Seq<Seq<char>> {
    if is_parent(c) && acc.len() > 0 && is_name(acc.last()) {
        acc.drop_last()
    } else if is_parent(c) && acc.len() > 0 && acc.last() == seq!['/'] {
        acc
    } else {
        acc.push(c)
    }
}

/// The components with every `..` resolved against the name before it,
/// read left to right, without consulting the file system.
pub open spec fn resolve_dots(cs: Seq<Seq<char>>) -> Seq<Seq<char>>
    decreases cs.len(),
{
    if cs.len() == 0 {
        seq![]
    } else {
        resolve_step(resolve_dots(cs.drop_last()), cs.last())
    }
}

/// The components of path `s` after resolving `..`.
pub open spec fn resolved_components(s: Seq<char>) -> Seq<Seq<char>> {
    resolve_dots(path_components(s))
}

/// The components of `s` with `..` resolved, as `resolved_components`
/// describes them.
pub fn resolve_components(s: &str) -> (r: Vec<Vec<char>>)
    ensures
        r@.map_values(|c: Vec<char>| c@) == resolved_components(s@),
{
    let cs = components(s);
    let ghost csv = cs@.map_values(|c: Vec<char>| c@);
    let mut out: Vec<Vec<char>> = Vec::new();
    let mut i: usize = 0;
    while i < cs.len()
        invariant
            i <= cs@.len(),
            csv == cs@.map_values(|c: Vec<char>| c@),
            csv == path_components(s@),
            out@.map_values(|c: Vec<char>| c@) == resolve_dots(csv.take(i as int)),
        decreases cs@.len() - i,
    {
        let c = &cs[i];
        let ghost before = out@.map_values(|c: Vec<char>| c@);
        proof {
            assert(csv.take(i + 1).drop_last() =~= csv.take(i as int));
            assert(csv.take(i + 1).last() == c@);
        }
        let parent = c.len() == 2 && c[0] == '.' && c[1] == '.';
        assert(parent == is_parent(c@)) by {
            if c@.len() == 2 {
                if parent {
                    assert(c@ =~= seq!['.', '.']);
                } else if c@[0] != '.' {
                    assert(c@[0] != seq!['.', '.'][0]);
                } else {
                    assert(c@[1] != seq!['.', '.'][1]);
                }
            } else {
                assert(c@.len() != seq!['.', '.'].len());
            }
        }
        let n = out.len();
        if parent && n > 0 {
            let last = &out[n - 1];
            let root = last.len() == 1 && last[0] == '/';
            let cur = last.len() == 1 && last[0] == '.';
            let par = last.len() == 2 && last[0] == '.' && last[1] == '.';
            assert(root == (last@ == seq!['/'])) by {
                if last@.len() == 1 && !root {
                    assert(last@[0] != seq!['/'][0]);
                }
                if root {
                    assert(last@ =~= seq!['/']);
                }
            }
            assert(cur == (last@ == seq!['.'])) by {
                if last@.len() == 1 && !cur {
                    assert(last@[0] != seq!['.'][0]);
                }
                if cur {
                    assert(last@ =~= seq!['.']);
                }
            }
            assert(par == is_parent(last@)) by {
                if last@.len() == 2 && !par {
                    if last@[0] != '.' {
                        assert(last@[0] != seq!['.', '.'][0]);
                    } else {
                        assert(last@[1] != seq!['.', '.'][1]);
                    }
                }
                if par {
                    assert(last@ =~= seq!['.', '.']);
                }
                if last@.len() != 2 {
                    assert(last@.len() != seq!['.', '.'].len());
                }
            }
            assert(before.last() == last@);
            if !root && !cur && !par {
                out.pop();
                assert(out@.map_values(|c: Vec<char>| c@) =~= before.drop_last());
            } else if !root {
                out.push(c.clone());
                assert(out@.map_values(|c: Vec<char>| c@) =~= before.push(c@));
            }
        } else {
            out.push(c.clone());
            assert(out@.map_values(|c: Vec<char>| c@) =~= before.push(c@));
        }
        i = i + 1;
    }
    assert(csv.take(cs@.len() as int) =~= csv);
    out
}

/// Whether path `p` lies strictly inside path `q` once `..` is resolved in
/// both.
pub fn path_inside(p: &str, q: &str) -> (r: bool)
    ensures
        r == (resolved_components(p@) != resolved_components(q@)
            && comps_prefix(resolved_components(p@), resolved_components(q@))),
{
    let a = resolve_components(p);
    let b = resolve_components(q);
    let pre = comps_starts_with(&a, &b);
    let r = pre && a.len() != b.len();
    proof {
        let av = a@.map_values(|c: Vec<char>| c@);
        let bv = b@.map_values(|c: Vec<char>| c@);
        if pre && a.len() == b.len() {
            assert(av.take(bv.len() as int) =~= av);
        }
    }
    r
}

/// `b` pushed onto `a` (std's `PathBuf::push`): an absolute `b` replaces
/// `a`; otherwise a separator is added unless `a` is empty or ends in one.
pub open spec fn spec_path_join(a: Seq<char>, b: Seq<char>) -> Seq<char> {
    if b.len() > 0 && b[0] == '/' {
        b
    } else if a.len() > 0 && a.last() != '/' {
        a + seq!['/'] + b
    } else {
        a + b
    }
}

/// `a` joined with `b` (std's `Path::join`).
pub fn path_join(a: &str, b: &str) -> (r: String)
    ensures
        r@ == spec_path_join(a@, b@),
{
    let ca = chars_of(a);
    let cb = chars_of(b);
    if cb.len() > 0 && cb[0] == '/' {
        return string_of(&cb);
    }
    let mut out: Vec<char> = Vec::new();
    push_all(&mut out, &ca);
    if ca.len() > 0 && ca[ca.len() - 1] != '/' {
        out.push('/');
    }
    push_all(&mut out, &cb);
    string_of(&out)
}

/// Components written back as a path: a leading root becomes `/`, the rest
/// are joined with `/`.
pub open spec fn render_components(cs: Seq<Seq<char>>) -> Seq<char>
    decreases cs.len(),
{
    if cs.len() == 0 {
        seq![]
    } else if cs.len() == 1 {
        cs[0]
    } else {
        let init = render_components(cs.drop_last());
        if init == seq!['/'] {
            init + cs.last()
        } else {
            init + seq!['/'] + cs.last()
        }
    }
}

/// The rest of path `a` after its prefix `b`, written with single
/// separators; `None` when `b` is not a prefix of `a`.
pub open spec fn spec_strip_prefix(a: Seq<char>, b: Seq<char>) -> Option<Seq<char>> {
    let ca = path_components(a);
    let cb = path_components(b);
    if comps_prefix(ca, cb) {
        Some(render_components(ca.skip(cb.len() as int)))
    } else {
        None
    }
}

fn render_from(cs: &Vec<Vec<char>>, from: usize) -> (r: String)
    requires
        from <= cs@.len(),
    ensures
        r@ == render_components(cs@.map_values(|c: Vec<char>| c@).skip(from as int)),
{
    let ghost all = cs@.map_values(|c: Vec<char>| c@).skip(from as int);
    let mut out: Vec<char> = Vec::new();
    let mut i: usize = from;
    while i < cs.len()
        invariant
            from <= i <= cs@.len(),
            all == cs@.map_values(|c: Vec<char>| c@).skip(from as int),
            out@ == render_components(all.take(i - from)),
        decreases cs@.len() - i,
    {
        let is_root_only = out.len() == 1 && out[0] == '/';
        assert(is_root_only == (out@ == seq!['/'])) by {
            if out@.len() == 1 && out@[0] == '/' {
                assert(out@ =~= seq!['/']);
            }
        }
        if i > from && !is_root_only {
            out.push('/');
        }
        push_all(&mut out, &cs[i]);
        proof {
            let t = all.take(i + 1 - from);
            assert(t.drop_last() =~= all.take(i - from));
            assert(t.last() == cs@[i as int]@);
            if i == from {
                assert(all.take(i - from) =~= Seq::<Seq<char>>::empty());
                assert(t =~= seq![cs@[i as int]@]);
            }
        }
        i = i + 1;
    }
    assert(all.take(cs@.len() - from) =~= all);
    string_of(&out)
}

/// The rest of `a` after its prefix `b` (std's `Path::strip_prefix`, with
/// the rest written with single separators).
pub fn path_strip_prefix(a: &str, b: &str) -> (r: Option<String>)
    ensures
        match r {
            Some(s) => spec_strip_prefix(a@, b@) == Some(s@),
            None => spec_strip_prefix(a@, b@).is_none(),
        },
{
    let ca = components(a);
    let cb = components(b);
    if comps_starts_with(&ca, &cb) {
        Some(render_from(&ca, cb.len()))
    } else {
        None
    }
}

} // verus!
