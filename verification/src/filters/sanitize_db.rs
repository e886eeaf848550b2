//! Database-identifier-safe sanitization with a hash suffix.
use vstd::prelude::*;
use crate::filters::hash::{short_hash, spec_short_hash, law_short_hash_shape, is_base36_digit};
use crate::text::{chars_of, string_of};

verus! {

/// ASCII letter or digit.
pub open spec fn is_ascii_alnum(c: char) -> bool {
    ('0' <= c && c <= '9') || ('a' <= c && c <= 'z') || ('A' <= c && c <= 'Z')
}

/// ASCII lowercase of `c` (other characters unchanged).
pub open spec fn ascii_lower(c: char) -> char {
    if 'A' <= c && c <= 'Z' {
        ((c as int) + 32) as char
    } else {
        c
    }
}

/// Lowercase alphanumerics kept, each run of other characters folded into
/// one underscore.
pub open spec fn db_scan(s: Seq<char>) -> Seq<char>
    decreases s.len(),
{
    if s.len() == 0 {
        seq![]
    } else {
        let p = db_scan(s.drop_last());
        let c = s.last();
        if is_ascii_alnum(c) {
            p.push(ascii_lower(c))
        } else if p.len() > 0 && p.last() == '_' {
            p
        } else {
            p.push('_')
        }
    }
}

/// `db_scan` with an underscore in front of a leading digit.
pub open spec fn db_guarded(s: Seq<char>) -> Seq<char> {
    let a = db_scan(s);
    if a.len() > 0 && '0' <= a[0] && a[0] <= '9' {
        seq!['_'] + a
    } else {
        a
    }
}

/// The identifier `sanitize_db` gives for `s`.
pub open spec fn spec_sanitize_db(s: Seq<char>) -> Seq<char> {
    if s.len() == 0 {
        seq![]
    } else {
        let b = if db_guarded(s).len() > 44 { db_guarded(s).take(44) } else { db_guarded(s) };
        let c = if b.len() > 0 && b.last() == '_' { b } else { b.push('_') };
        c + spec_short_hash(s)
    }
}

/// Character allowed in an unquoted SQL identifier produced here.
pub open spec fn is_db_char(c: char) -> bool {
    ('0' <= c && c <= '9') || ('a' <= c && c <= 'z') || c == '_'
}

fn is_alnum(c: char) -> (r: bool)
    ensures
        r == is_ascii_alnum(c),
{
    ('0' <= c && c <= '9') || ('a' <= c && c <= 'z') || ('A' <= c && c <= 'Z')
}

fn to_lower(c: char) -> (r: char)
    ensures
        r == ascii_lower(c),
{
    if 'A' <= c && c <= 'Z' {
        ((c as u8) + 32) as char
    } else {
        c
    }
}

proof fn lemma_scan_chars(s: Seq<char>)
    ensures
        forall|i: int| 0 <= i < db_scan(s).len() ==> is_db_char(#[trigger] db_scan(s)[i]),
        db_scan(s).len() <= s.len(),
    decreases s.len(),
{
    if s.len() > 0 {
        lemma_scan_chars(s.drop_last());
    }
}

/// Sanitize a string for use as a database identifier: lowercase, fold runs
/// of other characters into `_`, put `_` before a leading digit, cut the base
/// to 44 characters, end it with `_`, and append the 3-character hash of the
/// whole input. Empty input gives the empty string.
pub fn sanitize_db(s: &str) -> (r: String)
    ensures
        r@ == spec_sanitize_db(s@),
{
    let cs = chars_of(s);
    if cs.len() == 0 {
        return String::new();
    }
    let mut out: Vec<char> = Vec::new();
    let mut prev_underscore = false;
    let mut i: usize = 0;
    while i < cs.len()
        invariant
            i <= cs.len(),
            out@ == db_scan(cs@.take(i as int)),
            prev_underscore == (out@.len() > 0 && out@.last() == '_'),
        decreases cs.len() - i,
    {
        let c = cs[i];
        assert(cs@.take(i as int + 1).drop_last() =~= cs@.take(i as int));
        if is_alnum(c) {
            out.push(to_lower(c));
            prev_underscore = false;
        } else if !prev_underscore {
            out.push('_');
            prev_underscore = true;
        }
        i = i + 1;
    }
    assert(cs@.take(cs.len() as int) =~= cs@);
    if out.len() > 0 && '0' <= out[0] && out[0] <= '9' {
        out.insert(0, '_');
        assert(out@ =~= seq!['_'] + db_scan(s@));
    }
    if out.len() > 44 {
        out.truncate(44);
    }
    if !(out.len() > 0 && out[out.len() - 1] == '_') {
        out.push('_');
    }
    let h = chars_of(short_hash(s).as_str());
    let mut j: usize = 0;
    let ghost base = out@;
    while j < h.len()
        invariant
            j <= h.len(),
            out@ == base + h@.take(j as int),
        decreases h.len() - j,
    {
        out.push(h[j]);
        j = j + 1;
        assert(out@ =~= base + h@.take(j as int));
    }
    assert(h@.take(h.len() as int) =~= h@);
    string_of(&out)
}

/// A non-empty input gives at most 48 characters, all lowercase letters,
/// digits or underscores, ending in `_` and the 3-character digest of the
/// input; the empty input gives the empty string.
pub proof fn law_sanitize_db_shape(s: Seq<char>)
    ensures
        s.len() == 0 ==> spec_sanitize_db(s).len() == 0,
        s.len() > 0 ==> {
            let r = spec_sanitize_db(s);
            &&& 4 <= r.len() <= 48
            &&& forall|i: int| 0 <= i < r.len() ==> is_db_char(#[trigger] r[i])
            &&& r.subrange(r.len() - 3, r.len() as int) == spec_short_hash(s)
            &&& r[r.len() - 4] == '_'
        },
{
    if s.len() > 0 {
        lemma_scan_chars(s);
        law_short_hash_shape(s);
        let g = db_guarded(s);
        assert forall|i: int| 0 <= i < g.len() implies is_db_char(#[trigger] g[i]) by {
            let a = db_scan(s);
            if a.len() > 0 && '0' <= a[0] && a[0] <= '9' {
                if i > 0 {
                    assert(g[i] == a[i - 1]);
                }
            }
        }
        let b = if g.len() > 44 { g.take(44) } else { g };
        let c = if b.len() > 0 && b.last() == '_' { b } else { b.push('_') };
        let r = spec_sanitize_db(s);
        assert(r == c + spec_short_hash(s));
        assert forall|i: int| 0 <= i < r.len() implies is_db_char(#[trigger] r[i]) by {
            if i < c.len() {
                assert(r[i] == c[i]);
                if i < b.len() {
                    assert(c[i] == b[i]);
                    assert(b[i] == g[i]);
                }
            } else {
                assert(r[i] == spec_short_hash(s)[i - c.len()]);
                assert(is_base36_digit(spec_short_hash(s)[i - c.len()]));
            }
        }
        assert(r.subrange(r.len() - 3, r.len() as int) =~= spec_short_hash(s));
        assert(r[r.len() - 4] == c[c.len() - 1]);
    }
}

} // verus!
