//! Simple branch-name sanitization.
use vstd::prelude::*;
use crate::text::{chars_of, string_of};

verus! {

/// Whether `c` separates path components on some platform.
pub open spec fn is_path_separator(c: char) -> bool {
    c == '/' || c == '\\'
}

/// `s` with every path separator replaced by a dash.
pub open spec fn spec_sanitize(s: Seq<char>) -> Seq<char> {
    Seq::new(s.len(), |i: int| if is_path_separator(s[i]) { '-' } else { s[i] })
}

/// Sanitize a branch name for use as a filesystem path component: path
/// separators (`/` and `\`) become dashes, so the name is a single component.
pub fn sanitize(branch: &str) -> (r: String)
    ensures
        r@ == spec_sanitize(branch@),
{
    let cs = chars_of(branch);
    let mut out: Vec<char> = Vec::with_capacity(cs.len());
    let mut i: usize = 0;
    while i < cs.len()
        invariant
            i <= cs.len(),
            out@ == spec_sanitize(cs@.take(i as int)),
        decreases cs.len() - i,
    {
        let c = cs[i];
        if c == '/' || c == '\\' {
            out.push('-');
        } else {
            out.push(c);
        }
        i = i + 1;
        assert(out@ =~= spec_sanitize(cs@.take(i as int)));
    }
    assert(cs@.take(cs.len() as int) =~= cs@);
    string_of(&out)
}

/// Sanitizing never leaves a path separator, keeps the length, and a second
/// pass changes nothing.
pub proof fn law_sanitize_shape(s: Seq<char>)
    ensures
        spec_sanitize(s).len() == s.len(),
        forall|i: int| 0 <= i < s.len() ==> !is_path_separator(#[trigger] spec_sanitize(s)[i]),
        spec_sanitize(spec_sanitize(s)) == spec_sanitize(s),
{
    assert(spec_sanitize(spec_sanitize(s)) =~= spec_sanitize(s));
}

} // verus!
