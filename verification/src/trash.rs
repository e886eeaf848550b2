//! Which entries of the trash directory a sweep deletes. Directories
//! removed in the background are first moved to `.jj/.jjwt-trash/<ms>`,
//! named by the time of the move in milliseconds.
use vstd::prelude::*;
use crate::shortcuts::{digits_value, lemma_digits_value_mono};
use crate::text::{chars_of, dec, digit, slice_chars};

verus! {

/// The time stamp an entry name holds: an optional `+` then one or more
/// ASCII digits, read as a decimal number; nothing for other names.
pub open spec fn trash_stamp(name: Seq<char>) -> Option<nat> {
    let d = stamp_digits(name);
    if d.len() > 0 && forall|i: int| 0 <= i < d.len() ==> '0' <= #[trigger] d[i] <= '9' {
        Some(digits_value(d))
    } else {
        None
    }
}

/// The part of a name after an optional leading `+`.
pub open spec fn stamp_digits(name: Seq<char>) -> Seq<char> {
    if name.len() > 0 && name[0] == '+' { name.skip(1) } else { name }
}

/// The oldest time an entry may have and stay: `now_ms - max_age_ms`, or 0.
pub open spec fn trash_cutoff(now_ms: u64, max_age_ms: u64) -> nat {
    if now_ms > max_age_ms { (now_ms - max_age_ms) as nat } else { 0 }
}

/// An entry is deleted when its name is a time stamp older than the cutoff.
pub open spec fn trash_expired_at(name: Seq<char>, now_ms: u64, max_age_ms: u64) -> bool {
    match trash_stamp(name) {
        Some(t) => t < trash_cutoff(now_ms, max_age_ms),
        None => false,
    }
}

/// Whether the sweep at time `now_ms` deletes the trash entry `name`, with
/// entries kept for `max_age_ms`.
pub fn trash_expired(name: &str, now_ms: u64, max_age_ms: u64) -> (r: bool)
    ensures
        r == trash_expired_at(name@, now_ms, max_age_ms),
{
    let cutoff: u64 = if now_ms > max_age_ms { now_ms - max_age_ms } else { 0 };
    let cs = chars_of(name);
    let start: usize = if cs.len() > 0 && cs[0] == '+' { 1 } else { 0 };
    let d = slice_chars(&cs, start, cs.len());
    let ghost dv = d@;
    assert(dv =~= if name@.len() > 0 && name@[0] == '+' { name@.skip(1) } else { name@ });
    if d.len() == 0 {
        return false;
    }
    let mut i: usize = 0;
    while i < d.len()
        invariant
            i <= dv.len(),
            dv == d@,
            dv == stamp_digits(name@),
            forall|j: int| 0 <= j < i ==> '0' <= #[trigger] dv[j] <= '9',
        decreases dv.len() - i,
    {
        if !('0' <= d[i] && d[i] <= '9') {
            assert(!('0' <= dv[i as int] <= '9'));
            return false;
        }
        i = i + 1;
    }
    assert(trash_stamp(name@) == Some(digits_value(dv)));
    let mut v: u64 = 0;
    let mut k: usize = 0;
    while k < d.len()
        invariant
            k <= dv.len(),
            dv == d@,
            dv.len() > 0,
            forall|j: int| 0 <= j < dv.len() ==> '0' <= #[trigger] dv[j] <= '9',
            v == digits_value(dv.take(k as int)),
            v < cutoff || (k == 0 && v == 0),
            trash_stamp(name@) == Some(digits_value(dv)),
            cutoff == trash_cutoff(now_ms, max_age_ms),
        decreases dv.len() - k,
    {
        assert(dv.take(k + 1).drop_last() =~= dv.take(k as int));
        assert(dv.take(k + 1).last() == dv[k as int]);
        let digit: u128 = (d[k] as u32 - '0' as u32) as u128;
        let next: u128 = (v as u128) * 10 + digit;
        assert(digits_value(dv.take(k + 1)) == next);
        if next >= cutoff as u128 {
            proof {
                lemma_digits_value_mono(dv, k + 1);
            }
            return false;
        }
        v = next as u64;
        k = k + 1;
    }
    assert(dv.take(dv.len() as int) =~= dv);
    true
}

proof fn lemma_digit_value(k: nat)
    requires
        k < 10,
    ensures
        '0' <= digit(k) <= '9',
        (digit(k) as int) - ('0' as int) == k,
{
}

proof fn lemma_dec_digits(n: nat)
    ensures
        dec(n).len() > 0,
        forall|i: int| 0 <= i < dec(n).len() ==> '0' <= #[trigger] dec(n)[i] <= '9',
        digits_value(dec(n)) == n,
    decreases n,
{
    lemma_digit_value(n % 10);
    if n < 10 {
        let d = dec(n);
        assert(d.drop_last() =~= Seq::<char>::empty());
        assert(digits_value(Seq::<char>::empty()) == 0);
        assert(digits_value(d) == digits_value(d.drop_last()) * 10 + ((d.last() as int) - ('0' as int)) as nat);
        assert(n % 10 == n);
    } else {
        lemma_dec_digits(n / 10);
        let d = dec(n);
        assert(d.drop_last() =~= dec(n / 10));
        assert(d.last() == digit(n % 10));
        assert(digits_value(d) == digits_value(dec(n / 10)) * 10 + ((d.last() as int) - ('0' as int)) as nat);
        assert((n / 10) * 10 + n % 10 == n);
        assert forall|i: int| 0 <= i < d.len() implies '0' <= #[trigger] d[i] <= '9' by {
            if i < d.len() - 1 {
                assert(d[i] == dec(n / 10)[i]);
            }
        }
    }
}

/// A directory moved to the trash at time `t` (so named `dec(t)`) is
/// deleted by a sweep at `now_ms` exactly when it is older than
/// `max_age_ms`: `t + max_age_ms < now_ms`.
pub proof fn law_trash_age(t: u64, now_ms: u64, max_age_ms: u64)
    ensures
        trash_expired_at(dec(t as nat), now_ms, max_age_ms) <==> t + max_age_ms < now_ms,
{
    lemma_dec_digits(t as nat);
    let d = dec(t as nat);
    assert(stamp_digits(d) == d);
    assert(trash_stamp(d) == Some(t as nat));
}

} // verus!
