//! The `switch` target shortcuts (`^`, `@`, `-`, `pr:N`, `mr:N`) and the
//! decisions around them.
use vstd::prelude::*;
use crate::text::{chars_of, concat, has_at, is_prefix, slice_chars, str_eq, string_of};

verus! {

/// What a switch target names.
pub enum Shortcut {
    /// `^`: the trunk bookmark.
    Trunk,
    /// `@`: the current workspace.
    Current,
    /// `-`: the workspace switched away from last.
    Previous,
    /// `pr:N`: the head branch of a GitHub pull request.
    PullRequest(u32),
    /// `mr:N`: the source branch of a GitLab merge request.
    MergeRequest(u32),
    /// A name taken as it is.
    Plain,
}

/// Decimal value of a run of ASCII digits.
pub open spec fn digits_value(d: Seq<char>) -> nat
    decreases d.len(),
{
    if d.len() == 0 {
        0
    } else {
        digits_value(d.drop_last()) * 10 + ((d.last() as int) - ('0' as int)) as nat
    }
}

/// `str::parse::<u32>`: an optional `+` then one or more ASCII digits whose
/// value fits in 32 bits.
pub open spec fn parse_u32_of(s: Seq<char>) -> Option<u32> {
    parse_digits(if s.len() > 0 && s[0] == '+' { s.skip(1) } else { s })
}

/// One or more ASCII digits whose value fits in 32 bits, as that value.
pub open spec fn parse_digits(d: Seq<char>) -> Option<u32> {
    if d.len() > 0 && (forall|i: int| 0 <= i < d.len() ==> '0' <= #[trigger] d[i] <= '9') && digits_value(d)
        <= u32::MAX {
        Some(digits_value(d) as u32)
    } else {
        None
    }
}

pub proof fn lemma_digits_value_mono(d: Seq<char>, k: int)
    requires
        0 <= k <= d.len(),
        forall|i: int| 0 <= i < d.len() ==> '0' <= #[trigger] d[i] <= '9',
    ensures
        digits_value(d.take(k)) <= digits_value(d),
    decreases d.len() - k,
{
    if k < d.len() {
        lemma_digits_value_mono(d, k + 1);
        assert(d.take(k + 1).drop_last() =~= d.take(k));
    } else {
        assert(d.take(k) =~= d);
    }
}

/// Parse a decimal `u32` as `str::parse` does.
pub fn parse_u32(s: &str) -> (r: Option<u32>)
    ensures
        r == parse_u32_of(s@),
{
    let cs = chars_of(s);
    let start: usize = if cs.len() > 0 && cs[0] == '+' { 1 } else { 0 };
    let d = slice_chars(&cs, start, cs.len());
    assert(d@ =~= if s@.len() > 0 && s@[0] == '+' { s@.skip(1) } else { s@ });
    assert(parse_u32_of(s@) == parse_digits(d@));
    if d.len() == 0 {
        return None;
    }
    let mut i: usize = 0;
    while i < d.len()
        invariant
            i <= d@.len(),
            parse_u32_of(s@) == parse_digits(d@),
            forall|j: int| 0 <= j < i ==> '0' <= #[trigger] d@[j] <= '9',
        decreases d@.len() - i,
    {
        if !('0' <= d[i] && d[i] <= '9') {
            assert(!('0' <= d@[i as int] <= '9'));
            return None;
        }
        i = i + 1;
    }
    let mut v: u64 = 0;
    let mut k: usize = 0;
    while k < d.len()
        invariant
            k <= d@.len(),
            d@.len() > 0,
            parse_u32_of(s@) == parse_digits(d@),
            forall|j: int| 0 <= j < d@.len() ==> '0' <= #[trigger] d@[j] <= '9',
            v == digits_value(d@.take(k as int)),
            v <= u32::MAX,
        decreases d@.len() - k,
    {
        assert(d@.take(k + 1).drop_last() =~= d@.take(k as int));
        let digit = (d[k] as u32 - '0' as u32) as u64;
        let next = v * 10 + digit;
        assert(d@.take(k + 1).last() == d@[k as int]);
        assert(digits_value(d@.take(k + 1)) == next);
        if next > u32::MAX as u64 {
            proof {
                lemma_digits_value_mono(d@, k + 1);
            }
            return None;
        }
        v = next;
        k = k + 1;
    }
    assert(d@.take(d@.len() as int) =~= d@);
    Some(v as u32)
}

/// `str::parse::<u64>`: an optional `+` then one or more ASCII digits whose
/// value fits in 64 bits.
pub open spec fn parse_u64_of(s: Seq<char>) -> Option<u64> {
    parse_digits_u64(if s.len() > 0 && s[0] == '+' { s.skip(1) } else { s })
}

/// One or more ASCII digits whose value fits in 64 bits, as that value.
pub open spec fn parse_digits_u64(d: Seq<char>) -> Option<u64> {
    if d.len() > 0 && (forall|i: int| 0 <= i < d.len() ==> '0' <= #[trigger] d[i] <= '9') && digits_value(d)
        <= u64::MAX {
        Some(digits_value(d) as u64)
    } else {
        None
    }
}

/// Parse a decimal `u64` as `str::parse` does.
pub fn parse_u64(s: &str) -> (r: Option<u64>)
    ensures
        r == parse_u64_of(s@),
{
    let cs = chars_of(s);
    let start: usize = if cs.len() > 0 && cs[0] == '+' { 1 } else { 0 };
    let d = slice_chars(&cs, start, cs.len());
    assert(d@ =~= if s@.len() > 0 && s@[0] == '+' { s@.skip(1) } else { s@ });
    assert(parse_u64_of(s@) == parse_digits_u64(d@));
    if d.len() == 0 {
        return None;
    }
    let mut i: usize = 0;
    while i < d.len()
        invariant
            i <= d@.len(),
            parse_u64_of(s@) == parse_digits_u64(d@),
            forall|j: int| 0 <= j < i ==> '0' <= #[trigger] d@[j] <= '9',
        decreases d@.len() - i,
    {
        if !('0' <= d[i] && d[i] <= '9') {
            assert(!('0' <= d@[i as int] <= '9'));
            return None;
        }
        i = i + 1;
    }
    let mut v: u128 = 0;
    let mut k: usize = 0;
    while k < d.len()
        invariant
            k <= d@.len(),
            d@.len() > 0,
            parse_u64_of(s@) == parse_digits_u64(d@),
            forall|j: int| 0 <= j < d@.len() ==> '0' <= #[trigger] d@[j] <= '9',
            v == digits_value(d@.take(k as int)),
            v <= u64::MAX,
        decreases d@.len() - k,
    {
        assert(d@.take(k + 1).drop_last() =~= d@.take(k as int));
        let digit = (d[k] as u32 - '0' as u32) as u128;
        let next = v * 10 + digit;
        assert(d@.take(k + 1).last() == d@[k as int]);
        assert(digits_value(d@.take(k + 1)) == next);
        if next > u64::MAX as u128 {
            proof {
                lemma_digits_value_mono(d@, k + 1);
            }
            return None;
        }
        v = next;
        k = k + 1;
    }
    assert(d@.take(d@.len() as int) =~= d@);
    Some(v as u64)
}

/// What a switch target is, or the error of a malformed `pr:`/`mr:`.
pub open spec fn shortcut_of(name: Seq<char>) -> Result<Shortcut, Seq<char>> {
    if name == "^"@ {
        Ok(Shortcut::Trunk)
    } else if name == "@"@ {
        Ok(Shortcut::Current)
    } else if name == "-"@ {
        Ok(Shortcut::Previous)
    } else if is_prefix("pr:"@, name) {
        match parse_u32_of(name.skip(3)) {
            Some(n) => Ok(Shortcut::PullRequest(n)),
            None => Err("invalid PR number: "@ + name.skip(3)),
        }
    } else if is_prefix("mr:"@, name) {
        match parse_u32_of(name.skip(3)) {
            Some(n) => Ok(Shortcut::MergeRequest(n)),
            None => Err("invalid MR number: "@ + name.skip(3)),
        }
    } else {
        Ok(Shortcut::Plain)
    }
}

/// Classify a switch target.
pub fn classify_shortcut(name: &str) -> (r: Result<Shortcut, String>)
    ensures
        match r {
            Ok(k) => shortcut_of(name@) == Ok::<Shortcut, Seq<char>>(k),
            Err(m) => shortcut_of(name@) == Err::<Shortcut, Seq<char>>(m@),
        },
{
    if str_eq(name, "^") {
        return Ok(Shortcut::Trunk);
    }
    if str_eq(name, "@") {
        return Ok(Shortcut::Current);
    }
    if str_eq(name, "-") {
        return Ok(Shortcut::Previous);
    }
    let cs = chars_of(name);
    assert(cs@.skip(0) =~= cs@);
    let is_pr = has_at(&cs, 0, "pr:");
    let is_mr = has_at(&cs, 0, "mr:");
    proof {
        reveal_strlit("pr:");
        reveal_strlit("mr:");
    }
    if is_pr || is_mr {
        let rest = string_of(&slice_chars(&cs, 3, cs.len()));
        assert(rest@ =~= name@.skip(3));
        match parse_u32(rest.as_str()) {
            Some(n) => {
                if is_pr {
                    Ok(Shortcut::PullRequest(n))
                } else {
                    Ok(Shortcut::MergeRequest(n))
                }
            },
            None => {
                if is_pr {
                    Err(concat("invalid PR number: ", rest.as_str()))
                } else {
                    Err(concat("invalid MR number: ", rest.as_str()))
                }
            },
        }
    } else {
        Ok(Shortcut::Plain)
    }
}

/// Whether a target is one of the shortcuts to an existing workspace.
pub open spec fn is_existing_shortcut(name: Seq<char>) -> bool {
    name == "^"@ || name == "@"@ || name == "-"@
}

/// The error of `--create` with a shortcut to an existing workspace.
pub fn create_conflict(name: &str, create: bool) -> (r: Option<String>)
    ensures
        match r {
            Some(m) => create && is_existing_shortcut(name@) && m@ == "`"@ + name@
                + "` is a shortcut to an existing workspace and cannot be combined with --create"@,
            None => !(create && is_existing_shortcut(name@)),
        },
{
    if create && (str_eq(name, "^") || str_eq(name, "@") || str_eq(name, "-")) {
        let a = concat("`", name);
        Some(concat(a.as_str(), "` is a shortcut to an existing workspace and cannot be combined with --create"))
    } else {
        None
    }
}

/// The name a shortcut stands for, from what was looked up for it: the
/// trunk bookmark, the current workspace, the previous workspace, or the
/// branch of the pull or merge request; the error when it was not found.
pub fn resolve_with(
    name: &str,
    kind: &Shortcut,
    trunk: Option<String>,
    current: Option<String>,
    previous: Option<String>,
    request_branch: Option<String>,
) -> (r: Result<String, String>)
    ensures
        match kind {
            Shortcut::Trunk => match trunk {
                Some(t) => r == Ok::<String, String>(t),
                None => r matches Err(m) && m@ == "`^` requires a trunk bookmark; none found"@,
            },
            Shortcut::Current => match current {
                Some(c) => r == Ok::<String, String>(c),
                None => r matches Err(m) && m@ == "`@` requires being inside a known workspace"@,
            },
            Shortcut::Previous => match previous {
                Some(p) => r == Ok::<String, String>(p),
                None => r matches Err(m) && m@ == "no previous workspace recorded yet"@,
            },
            Shortcut::PullRequest(_) | Shortcut::MergeRequest(_) => match request_branch {
                Some(b) => r == Ok::<String, String>(b),
                None => r matches Err(m) && m@ == "pull or merge request branch not found"@,
            },
            Shortcut::Plain => r matches Ok(s) && s@ == name@,
        },
{
    match kind {
        Shortcut::Trunk => match trunk {
            Some(t) => Ok(t),
            None => Err("`^` requires a trunk bookmark; none found".to_owned()),
        },
        Shortcut::Current => match current {
            Some(c) => Ok(c),
            None => Err("`@` requires being inside a known workspace".to_owned()),
        },
        Shortcut::Previous => match previous {
            Some(p) => Ok(p),
            None => Err("no previous workspace recorded yet".to_owned()),
        },
        Shortcut::PullRequest(_) | Shortcut::MergeRequest(_) => match request_branch {
            Some(b) => Ok(b),
            None => Err("pull or merge request branch not found".to_owned()),
        },
        Shortcut::Plain => Ok(name.to_owned()),
    }
}

/// Whether a target came from a `pr:` or `mr:` shortcut (its branch must
/// be fetched first).
pub fn from_request(original_name: &str) -> (r: bool)
    ensures
        r == (is_prefix("pr:"@, original_name@) || is_prefix("mr:"@, original_name@)),
{
    let cs = chars_of(original_name);
    assert(cs@.skip(0) =~= cs@);
    has_at(&cs, 0, "pr:") || has_at(&cs, 0, "mr:")
}

/// Whether `switch` creates the workspace without `--create`: it does not
/// exist yet, and a bookmark of that name is known or the target came from
/// a pull or merge request.
pub fn should_auto_create(ws_exists: bool, bookmark_known: bool, original_name: &str) -> (r: bool)
    ensures
        r == (!ws_exists && (bookmark_known || is_prefix("pr:"@, original_name@) || is_prefix(
            "mr:"@,
            original_name@,
        ))),
{
    if ws_exists {
        return false;
    }
    bookmark_known || from_request(original_name)
}

/// The workspace to remember as the previous one after a switch: the one
/// switched away from, unless it is the target itself.
pub fn previous_to_record(current_before: Option<String>, target: &str) -> (r: Option<String>)
    ensures
        match current_before {
            Some(p) => if p@ != target@ { r == Some(p) } else { r.is_none() },
            None => r.is_none(),
        },
{
    match current_before {
        Some(p) => if str_eq(p.as_str(), target) {
            None
        } else {
            Some(p)
        },
        None => None,
    }
}

} // verus!
