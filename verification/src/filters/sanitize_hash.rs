//! Filename-safe sanitization with a hash suffix for collision avoidance.
use vstd::prelude::*;
use crate::filters::hash::{short_hash, spec_short_hash};
use crate::text::{chars_of, str_eq, string_of};

verus! {

/// What `sanitize_filename::sanitize_with_options` gives for `s` with
/// Windows rules on, no truncation, and `-` as the replacement.
pub uninterp spec fn filename_sanitized(s: Seq<char>) -> Seq<char>;

/// Runs `sanitize_filename::sanitize_with_options` (illegal and control
/// characters, dot-only names, Windows reserved names and trailing dots or
/// spaces replaced by `-`); its result is named by `filename_sanitized`.
#[verifier::external_body]
fn sanitize_filename_windows(value: &str) -> (r: String)
    ensures
        r@ == filename_sanitized(value@),
{
    sanitize_filename::sanitize_with_options(
        value,
        sanitize_filename::Options { windows: true, truncate: false, replacement: "-" },
    )
}

/// The name `sanitize_hash` gives for `s`.
pub open spec fn spec_sanitize_hash(s: Seq<char>) -> Seq<char> {
    let z = filename_sanitized(s);
    if z == s && s.len() > 0 {
        z
    } else {
        let base = if z.len() == 0 { seq!['_', 'e', 'm', 'p', 't', 'y'] } else { z };
        let dashed = if base.last() == '-' { base } else { base.push('-') };
        dashed + spec_short_hash(s)
    }
}

/// Sanitize a string for use as a filename on all platforms. A name that is
/// already safe comes back unchanged; otherwise the sanitized form (or
/// `_empty`), a `-`, and the 3-character hash of the input, so that distinct
/// inputs whose sanitized forms collide stay distinct.
pub fn sanitize_hash(value: &str) -> (r: String)
    ensures
        r@ == spec_sanitize_hash(value@),
{
    let sanitized = sanitize_filename_windows(value);
    if str_eq(sanitized.as_str(), value) && !value.is_empty() {
        return sanitized;
    }
    let mut out: Vec<char> = if sanitized.as_str().is_empty() {
        let mut e: Vec<char> = Vec::new();
        e.push('_');
        e.push('e');
        e.push('m');
        e.push('p');
        e.push('t');
        e.push('y');
        assert(e@ =~= seq!['_', 'e', 'm', 'p', 't', 'y']);
        e
    } else {
        chars_of(sanitized.as_str())
    };
    if out[out.len() - 1] != '-' {
        out.push('-');
    }
    let h = chars_of(short_hash(value).as_str());
    let ghost base = out@;
    let mut j: usize = 0;
    while j < h.len()
        invariant
            j <= h.len(),
            out@ == base + h@.take(j as int),
        decreases h.len() - j,
    {
        out.push(h[j]);
        j = j + 1;
        assert(out@ =~= base + h@.take(j as int));
    }
    assert(h@.take(h.len() as int) =~= h@);
    string_of(&out)
}

} // verus!
