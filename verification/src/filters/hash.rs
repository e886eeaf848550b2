//! Short base36 digest of a string.
use vstd::prelude::*;
use crate::text::string_of;
use std::hash::{Hash, Hasher};

verus! {

/// What std's `DefaultHasher`, created with `new`, yields for a string fed
/// through `Hash`.
pub uninterp spec fn default_hash(s: Seq<char>) -> u64;

/// Hashes `s` with std's `DefaultHasher` (fixed keys, so equal strings give
/// equal hashes within a build); the result is named by `default_hash`.
#[verifier::external_body]
pub(crate) fn hash_str(s: &str) -> (h: u64)
    ensures
        h == default_hash(s@),
{
    let mut hasher = std::collections::hash_map::DefaultHasher::new();
    Hash::hash(s, &mut hasher);
    Hasher::finish(&hasher)
}

/// The base36 digit for `d` (`0-9` then `a-z`).
pub open spec fn base36_digit(d: int) -> char {
    if d < 10 {
        (('0' as int) + d) as char
    } else {
        (('a' as int) + d - 10) as char
    }
}

/// Whether `c` is one of the 36 base36 digits.
pub open spec fn is_base36_digit(c: char) -> bool {
    ('0' <= c && c <= '9') || ('a' <= c && c <= 'z')
}

/// The three base36 digits of a 64-bit hash, least significant first.
pub open spec fn base36_tag(h: u64) -> Seq<char> {
    seq![base36_digit((h % 36) as int), base36_digit(((h / 36) % 36) as int), base36_digit(((h / 1296) % 36) as int)]
}

/// The 3-character digest of `s`.
pub open spec fn spec_short_hash(s: Seq<char>) -> Seq<char> {
    base36_tag(default_hash(s))
}

fn digit_char(d: u64) -> (c: char)
    requires
        d < 36,
    ensures
        c == base36_digit(d as int),
{
    if d < 10 {
        ((48u8 + d as u8) as char)
    } else {
        ((97u8 + (d - 10) as u8) as char)
    }
}

/// 3-character base36 digest of the input: enough to tell apart inputs whose
/// sanitized forms collide, small enough to keep names short.
pub fn short_hash(s: &str) -> (r: String)
    ensures
        r@ == spec_short_hash(s@),
{
    let h = hash_str(s);
    let mut v: Vec<char> = Vec::new();
    v.push(digit_char(h % 36));
    v.push(digit_char((h / 36) % 36));
    v.push(digit_char((h / 1296) % 36));
    assert(v@ =~= base36_tag(h));
    string_of(&v)
}

/// A digest is three base36 digits.
pub proof fn law_short_hash_shape(s: Seq<char>)
    ensures
        spec_short_hash(s).len() == 3,
        forall|i: int| 0 <= i < 3 ==> is_base36_digit(#[trigger] spec_short_hash(s)[i]),
{
    let h = default_hash(s);
    assert(0 <= h % 36 < 36);
    assert(0 <= (h / 36) % 36 < 36);
    assert(0 <= (h / 1296) % 36 < 36);
}

} // verus!
