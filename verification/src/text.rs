//! Character and string helpers shared by the rest of the library.
use vstd::prelude::*;

verus! {

/// The characters of `s`, in order.
pub fn chars_of(s: &str) -> (r: Vec<char>)
    ensures
        r@ == s@,
{
    broadcast use vstd::string::axiom_spec_iter;

    let mut out: Vec<char> = Vec::new();
    for c in it: s.chars()
        invariant
            it.seq() == s@,
            out@ == it.seq().take(it.index() as int),
    {
        out.push(c);
        assert(out@ =~= it.seq().take(it.index() + 1));
    }
    assert(out@ =~= s@);
    out
}

/// The string made of the characters of `v`, in order.
#[verifier::external_body]
pub fn string_of(v: &[char]) -> (r: String)
    ensures
        r@ == v@,
{
    v.iter().collect()
}

/// Whether two string slices hold the same characters.
#[verifier::external_body]
pub fn str_eq(a: &str, b: &str) -> (r: bool)
    ensures
        r == (a@ == b@),
{
    a == b
}

} // verus!

verus! {

/// `a` followed by `b`.
pub fn concat(a: &str, b: &str) -> (r: String)
    ensures
        r@ == a@ + b@,
{
    let mut v = chars_of(a);
    let w = chars_of(b);
    let ghost start = v@;
    let mut i: usize = 0;
    while i < w.len()
        invariant
            i <= w@.len(),
            v@ == start + w@.take(i as int),
        decreases w@.len() - i,
    {
        v.push(w[i]);
        i = i + 1;
        assert(v@ =~= start + w@.take(i as int));
    }
    assert(w@.take(w@.len() as int) =~= w@);
    string_of(&v)
}

/// `v` with the characters of `s` appended.
pub fn push_str(v: &mut Vec<char>, s: &str)
    ensures
        final(v)@ == old(v)@ + s@,
{
    let w = chars_of(s);
    let ghost start = v@;
    let mut i: usize = 0;
    while i < w.len()
        invariant
            i <= w@.len(),
            v@ == start + w@.take(i as int),
        decreases w@.len() - i,
    {
        v.push(w[i]);
        i = i + 1;
        assert(v@ =~= start + w@.take(i as int));
    }
    assert(w@.take(w@.len() as int) =~= w@);
}

} // verus!

verus! {

/// The decimal digit `d` (0 to 9) as a character.
pub open spec fn digit(d: nat) -> char {
    if d == 0 { '0' }
    else if d == 1 { '1' }
    else if d == 2 { '2' }
    else if d == 3 { '3' }
    else if d == 4 { '4' }
    else if d == 5 { '5' }
    else if d == 6 { '6' }
    else if d == 7 { '7' }
    else if d == 8 { '8' }
    else { '9' }
}

/// `n` written in decimal, without leading zeros.
pub open spec fn dec(n: nat) -> Seq<char>
    decreases n,
{
    if n < 10 {
        seq![digit(n)]
    } else {
        dec(n / 10).push(digit(n % 10))
    }
}

fn digit_char(d: u64) -> (r: char)
    requires
        d < 10,
    ensures
        r == digit(d as nat),
{
    match d {
        0 => '0',
        1 => '1',
        2 => '2',
        3 => '3',
        4 => '4',
        5 => '5',
        6 => '6',
        7 => '7',
        8 => '8',
        _ => '9',
    }
}

fn push_dec(v: &mut Vec<char>, n: u64)
    ensures
        final(v)@ == old(v)@ + dec(n as nat),
    decreases n,
{
    if n >= 10 {
        push_dec(v, n / 10);
    }
    v.push(digit_char(n % 10));
    assert(v@ =~= old(v)@ + dec(n as nat));
}

/// `n` in decimal.
pub fn fmt_uint(n: u64) -> (r: String)
    ensures
        r@ == dec(n as nat),
{
    let mut v: Vec<char> = Vec::new();
    push_dec(&mut v, n);
    assert(v@ =~= dec(n as nat));
    string_of(&v)
}

/// The parts joined with `sep` between neighbours.
pub open spec fn join(parts: Seq<Seq<char>>, sep: Seq<char>) -> Seq<char>
    decreases parts.len(),
{
    if parts.len() == 0 {
        seq![]
    } else if parts.len() == 1 {
        parts[0]
    } else {
        join(parts.drop_last(), sep) + sep + parts.last()
    }
}

/// The strings joined with `sep` between neighbours (`[String]::join`).
pub fn join_strings(parts: &Vec<String>, sep: &str) -> (r: String)
    ensures
        r@ == join(parts@.map_values(|p: String| p@), sep@),
{
    let ghost all = parts@.map_values(|p: String| p@);
    let mut out: Vec<char> = Vec::new();
    let mut i: usize = 0;
    while i < parts.len()
        invariant
            i <= parts@.len(),
            all == parts@.map_values(|p: String| p@),
            out@ == join(all.take(i as int), sep@),
        decreases parts@.len() - i,
    {
        if i > 0 {
            push_str(&mut out, sep);
        }
        push_str(&mut out, parts[i].as_str());
        proof {
            let t = all.take(i + 1);
            assert(t.drop_last() =~= all.take(i as int));
            if i == 0 {
                assert(t.len() == 1);
            }
        }
        i = i + 1;
    }
    assert(all.take(parts@.len() as int) =~= all);
    string_of(&out)
}

/// Unicode white space (`char::is_whitespace`).
pub open spec fn is_ws(c: char) -> bool {
    ||| '\u{9}' <= c <= '\u{d}'
    ||| c == ' '
    ||| c == '\u{85}'
    ||| c == '\u{a0}'
    ||| c == '\u{1680}'
    ||| '\u{2000}' <= c <= '\u{200a}'
    ||| c == '\u{2028}'
    ||| c == '\u{2029}'
    ||| c == '\u{202f}'
    ||| c == '\u{205f}'
    ||| c == '\u{3000}'
}

/// `s` without trailing white space (`str::trim_end`).
pub open spec fn trim_end(s: Seq<char>) -> Seq<char>
    decreases s.len(),
{
    if s.len() > 0 && is_ws(s.last()) {
        trim_end(s.drop_last())
    } else {
        s
    }
}

pub fn is_white(c: char) -> (r: bool)
    ensures
        r == is_ws(c),
{
    ('\u{9}' <= c && c <= '\u{d}') || c == ' ' || c == '\u{85}' || c == '\u{a0}' || c == '\u{1680}'
        || ('\u{2000}' <= c && c <= '\u{200a}') || c == '\u{2028}' || c == '\u{2029}' || c == '\u{202f}'
        || c == '\u{205f}' || c == '\u{3000}'
}

/// Position of the first `\n` in `s`, or its length.
pub open spec fn newline_at(s: Seq<char>, from: int) -> int
    decreases s.len() - from,
{
    if from < 0 || from >= s.len() {
        s.len() as int
    } else if s[from] == '\n' {
        from
    } else {
        newline_at(s, from + 1)
    }
}

pub proof fn lemma_newline_at(s: Seq<char>, from: int)
    requires
        0 <= from <= s.len(),
    ensures
        from <= newline_at(s, from) <= s.len(),
        newline_at(s, from) < s.len() ==> s[newline_at(s, from)] == '\n',
    decreases s.len() - from,
{
    if from < s.len() {
        lemma_newline_at(s, from + 1);
    }
}


/// `s` without leading white space (`str::trim_start`).
pub open spec fn trim_start(s: Seq<char>) -> Seq<char>
    decreases s.len(),
{
    if s.len() > 0 && is_ws(s[0]) {
        trim_start(s.skip(1))
    } else {
        s
    }
}

/// `s` without white space at either end (`str::trim`).
pub open spec fn trim(s: Seq<char>) -> Seq<char> {
    trim_end(trim_start(s))
}

/// Whether `p` begins `s`.
pub open spec fn is_prefix(p: Seq<char>, s: Seq<char>) -> bool {
    p.len() <= s.len() && s.take(p.len() as int) == p
}

/// Whether `p` ends `s`.
pub open spec fn is_suffix(p: Seq<char>, s: Seq<char>) -> bool {
    p.len() <= s.len() && s.skip(s.len() - p.len()) == p
}

/// The characters of `s` without white space at either end.
pub fn trim_chars(s: &Vec<char>) -> (r: Vec<char>)
    ensures
        r@ == trim(s@),
{
    let mut lo: usize = 0;
    assert(s@.skip(0) =~= s@);
    while lo < s.len() && is_white(s[lo])
        invariant
            lo <= s@.len(),
            trim_start(s@.skip(lo as int)) == trim_start(s@),
        decreases s@.len() - lo,
    {
        assert(s@.skip(lo as int).skip(1) =~= s@.skip(lo + 1));
        lo = lo + 1;
    }
    assert(trim_start(s@) =~= s@.skip(lo as int)) by {
        if lo < s@.len() {
            assert(s@.skip(lo as int)[0] == s@[lo as int]);
        }
    }
    let mut hi: usize = s.len();
    while hi > lo && is_white(s[hi - 1])
        invariant
            lo <= hi <= s@.len(),
            trim_end(s@.subrange(lo as int, hi as int)) == trim(s@),
        decreases hi,
    {
        assert(s@.subrange(lo as int, hi as int).drop_last() =~= s@.subrange(lo as int, hi - 1));
        hi = hi - 1;
    }
    let mut out: Vec<char> = Vec::new();
    let mut i: usize = lo;
    while i < hi
        invariant
            lo <= i <= hi <= s@.len(),
            out@ == s@.subrange(lo as int, i as int),
        decreases hi - i,
    {
        out.push(s[i]);
        i = i + 1;
        assert(out@ =~= s@.subrange(lo as int, i as int));
    }
    assert(trim_end(out@) == out@) by {
        if hi > lo {
            assert(out@.last() == s@[hi - 1]);
        }
    }
    out
}

/// Whether the characters of `s` from `at` on begin with `p`.
pub fn has_at(s: &Vec<char>, at: usize, p: &str) -> (r: bool)
    ensures
        r == (at <= s@.len() && is_prefix(p@, s@.skip(at as int))),
{
    let pc = chars_of(p);
    if at > s.len() || pc.len() > s.len() - at {
        return false;
    }
    let end = at + pc.len();
    let mut k: usize = at;
    while k < end
        invariant
            at <= k <= end,
            end == at + pc@.len(),
            end <= s@.len(),
            pc@ == p@,
            forall|j: int| 0 <= j < k - at ==> s@[at + j] == pc@[j],
        decreases end - k,
    {
        if s[k] != pc[k - at] {
            assert(s@.skip(at as int).take(pc@.len() as int)[k - at] != pc@[k - at]);
            return false;
        }
        k = k + 1;
    }
    assert(s@.skip(at as int).take(pc@.len() as int) =~= pc@);
    true
}

/// The characters of `s` from `lo` up to `hi`.
pub fn slice_chars(s: &Vec<char>, lo: usize, hi: usize) -> (r: Vec<char>)
    requires
        lo <= hi <= s@.len(),
    ensures
        r@ == s@.subrange(lo as int, hi as int),
{
    let mut out: Vec<char> = Vec::new();
    let mut i: usize = lo;
    while i < hi
        invariant
            lo <= i <= hi <= s@.len(),
            out@ == s@.subrange(lo as int, i as int),
        decreases hi - i,
    {
        out.push(s[i]);
        i = i + 1;
        assert(out@ =~= s@.subrange(lo as int, i as int));
    }
    out
}

/// The lines of `s` from `i` on (`str::lines`): split at `\n`, a `\r`
/// before the `\n` dropped, no line after a final `\n`.
pub open spec fn lines_from(s: Seq<char>, i: int) -> Seq<Seq<char>>
    decreases s.len() - i,
{
    if i < 0 || i >= s.len() {
        seq![]
    } else {
        let k = newline_at(s, i);
        if k < s.len() && k > i {
            let l = s.subrange(i, k);
            seq![if l.last() == '\r' { l.drop_last() } else { l }] + lines_from(s, k + 1)
        } else if k < s.len() {
            seq![seq![]] + lines_from(s, i + 1)
        } else {
            seq![s.subrange(i, s.len() as int)]
        }
    }
}

/// The lines of `s`, as characters.
pub fn split_lines(s: &str) -> (r: Vec<Vec<char>>)
    ensures
        r@.map_values(|l: Vec<char>| l@) == lines_from(s@, 0),
{
    let cs = chars_of(s);
    let mut out: Vec<Vec<char>> = Vec::new();
    let mut i: usize = 0;
    while i < cs.len()
        invariant
            i <= cs@.len(),
            cs@ == s@,
            out@.map_values(|l: Vec<char>| l@) + lines_from(s@, i as int) == lines_from(s@, 0),
        decreases cs@.len() - i,
    {
        let ghost prev = out@.map_values(|l: Vec<char>| l@);
        proof {
            lemma_newline_at(s@, i as int);
        }
        let mut k: usize = i;
        while k < cs.len() && cs[k] != '\n'
            invariant
                i <= k <= cs@.len(),
                cs@ == s@,
                newline_at(s@, k as int) == newline_at(s@, i as int),
            decreases cs@.len() - k,
        {
            k = k + 1;
        }
        let end = if k < cs.len() && k > i && cs[k - 1] == '\r' { k - 1 } else { k };
        let line = slice_chars(&cs, i, end);
        out.push(line);
        proof {
            let l = s@.subrange(i as int, k as int);
            if k < s@.len() && k > i {
                if l.last() == '\r' {
                    assert(l.drop_last() =~= s@.subrange(i as int, end as int));
                }
            } else if k < s@.len() {
                assert(s@.subrange(i as int, end as int) =~= Seq::<char>::empty());
            }
            assert(out@.map_values(|l: Vec<char>| l@) =~= prev.push(s@.subrange(i as int, end as int)));
        }
        let ghost old_i = i;
        if k < cs.len() {
            i = k + 1;
        } else {
            i = k;
        }
        assert(lines_from(s@, old_i as int) == seq![s@.subrange(old_i as int, end as int)] + lines_from(s@, i as int));
        assert(prev + lines_from(s@, old_i as int) =~= out@.map_values(|l: Vec<char>| l@) + lines_from(s@, i as int));
    }
    assert(out@.map_values(|l: Vec<char>| l@) + seq![] =~= out@.map_values(|l: Vec<char>| l@));
    out
}

} // verus!
