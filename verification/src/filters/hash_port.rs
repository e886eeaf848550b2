//! Deterministic port number derived from a string hash.
use vstd::prelude::*;
use crate::filters::hash::{default_hash, hash_str};

verus! {

/// The port `hash_port` gives for `s`.
pub open spec fn spec_hash_port(s: Seq<char>) -> u16 {
    (10000 + default_hash(s) % 10000) as u16
}

/// Hash a string to a port in range 10000-19999.
pub fn hash_port(s: &str) -> (r: u16)
    ensures
        r == spec_hash_port(s@),
        10000 <= r <= 19999,
{
    let h = hash_str(s);
    10000 + (h % 10000) as u16
}

} // verus!
