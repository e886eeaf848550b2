//! Shell completion: where the words to complete start, which candidates
//! are offered, and how they are written for each shell.
use vstd::prelude::*;
use crate::shortcuts::digits_value;
use crate::text::{chars_of, has_at, is_prefix, join, push_str, str_eq, string_of};

verus! {

/// Position of the first `--` among `args` at or after `from`, or -1.
pub open spec fn dashdash_from(args: Seq<String>, from: int) -> int
    decreases args.len() - from,
{
    if from < 0 || from >= args.len() {
        -1
    } else if args[from]@ == "--"@ {
        from
    } else {
        dashdash_from(args, from + 1)
    }
}

/// Where the words of the command line start: just after the first `--`,
/// or at the end when there is none.
pub fn escape_index(args: &Vec<String>) -> (r: usize)
    ensures
        r as int == if dashdash_from(args@, 0) >= 0 { dashdash_from(args@, 0) + 1 } else { args@.len() as int },
{
    let mut i: usize = 0;
    while i < args.len()
        invariant
            i <= args@.len(),
            dashdash_from(args@, i as int) == dashdash_from(args@, 0),
        decreases args@.len() - i,
    {
        if str_eq(args[i].as_str(), "--") {
            return i + 1;
        }
        i = i + 1;
    }
    args.len()
}

/// Whether one of the arguments is exactly `needle`.
pub open spec fn has_arg(args: Seq<String>, needle: Seq<char>) -> bool {
    exists|i: int| 0 <= i < args.len() && #[trigger] args[i]@ == needle
}

/// Whether one of the arguments is exactly `needle`.
pub fn contains_arg(args: &Vec<String>, needle: &str) -> (r: bool)
    ensures
        r == has_arg(args@, needle@),
{
    let mut i: usize = 0;
    while i < args.len()
        invariant
            i <= args@.len(),
            forall|j: int| 0 <= j < i ==> #[trigger] args@[j]@ != needle@,
        decreases args@.len() - i,
    {
        if str_eq(args[i].as_str(), needle) {
            return true;
        }
        i = i + 1;
    }
    false
}

/// Whether workspace completion is suppressed: the command line asks to
/// create the workspace (`--create` or `-c`), so no existing name fits.
pub fn suppress_with_create(args: &Vec<String>) -> (r: bool)
    ensures
        r == (has_arg(args@, "--create"@) || has_arg(args@, "-c"@)),
{
    contains_arg(args, "--create") || contains_arg(args, "-c")
}

/// `str::parse::<usize>`: one or more ASCII digits whose value fits.
pub open spec fn parse_usize_of(s: Seq<char>) -> Option<usize> {
    usize_digits(if s.len() > 0 && s[0] == '+' { s.skip(1) } else { s })
}

/// One or more ASCII digits whose value fits in a `usize`, as that value.
pub open spec fn usize_digits(d: Seq<char>) -> Option<usize> {
    if d.len() > 0 && (forall|i: int| 0 <= i < d.len() ==> '0' <= #[trigger] d[i] <= '9') && digits_value(d)
        <= usize::MAX {
        Some(digits_value(d) as usize)
    } else {
        None
    }
}

proof fn lemma_digits_mono(d: Seq<char>, k: int)
    requires
        0 <= k <= d.len(),
        forall|i: int| 0 <= i < d.len() ==> '0' <= #[trigger] d[i] <= '9',
    ensures
        digits_value(d.take(k)) <= digits_value(d),
    decreases d.len() - k,
{
    if k < d.len() {
        lemma_digits_mono(d, k + 1);
        assert(d.take(k + 1).drop_last() =~= d.take(k));
    } else {
        assert(d.take(k) =~= d);
    }
}

fn parse_usize(s: &str) -> (r: Option<usize>)
    ensures
        r == parse_usize_of(s@),
{
    let cs = chars_of(s);
    let start: usize = if cs.len() > 0 && cs[0] == '+' { 1 } else { 0 };
    let d = crate::text::slice_chars(&cs, start, cs.len());
    let ghost dv = if s@.len() > 0 && s@[0] == '+' { s@.skip(1) } else { s@ };
    assert(d@ =~= dv);
    assert(parse_usize_of(s@) == usize_digits(d@));
    if d.len() == 0 {
        return None;
    }
    let mut i: usize = 0;
    while i < d.len()
        invariant
            i <= d@.len(),
            d@ == dv,
            parse_usize_of(s@) == usize_digits(d@),
            forall|j: int| 0 <= j < i ==> '0' <= #[trigger] d@[j] <= '9',
        decreases d@.len() - i,
    {
        if !('0' <= d[i] && d[i] <= '9') {
            assert(!('0' <= dv[i as int] <= '9'));
            return None;
        }
        i = i + 1;
    }
    let mut v: usize = 0;
    let mut k: usize = 0;
    while k < d.len()
        invariant
            k <= d@.len(),
            d@ == dv,
            parse_usize_of(s@) == usize_digits(d@),
            d@.len() > 0,
            forall|j: int| 0 <= j < d@.len() ==> '0' <= #[trigger] d@[j] <= '9',
            v == digits_value(d@.take(k as int)),
        decreases d@.len() - k,
    {
        assert(d@.take(k + 1).drop_last() =~= d@.take(k as int));
        assert(d@.take(k + 1).last() == d@[k as int]);
        let digit = (d[k] as u32 - '0' as u32) as usize;
        if v > (usize::MAX - digit) / 10 {
            proof {
                lemma_digits_mono(d@, k + 1);
                assert(digits_value(d@.take(k + 1)) == v * 10 + digit);
                assert(v * 10 + digit > usize::MAX) by (nonlinear_arith)
                    requires
                        v > (usize::MAX - digit) / 10,
                        digit <= 9,
                ;
            }
            return None;
        }
        assert(v * 10 + digit <= usize::MAX) by (nonlinear_arith)
            requires
                v <= (usize::MAX - digit) / 10,
                digit <= 9,
        ;
        v = v * 10 + digit;
        k = k + 1;
    }
    assert(d@.take(d@.len() as int) =~= d@);
    Some(v)
}

/// The position of the word being completed: the value of
/// `_CLAP_COMPLETE_INDEX` when it parses, else the last word.
pub fn completion_index(env_index: Option<&str>, words: usize) -> (r: usize)
    requires
        words > 0,
    ensures
        r == match env_index {
            Some(s) => match parse_usize_of(s@) {
                Some(n) => n,
                None => (words - 1) as usize,
            },
            None => (words - 1) as usize,
        },
{
    match env_index {
        Some(s) => match parse_usize(s) {
            Some(n) => n,
            None => words - 1,
        },
        None => words - 1,
    }
}

/// The candidates whose value starts with `word`, in order.
pub open spec fn starting_with(cands: Seq<(String, Option<String>)>, word: Seq<char>) -> Seq<(String, Option<String>)>
    decreases cands.len(),
{
    if cands.len() == 0 {
        seq![]
    } else {
        starting_with(cands.drop_last(), word) + if is_prefix(word, cands.last().0@) {
            seq![cands.last()]
        } else {
            seq![]
        }
    }
}

/// The candidates offered, as (value, help): none when a completer
/// suppressed them all; for bash, only those starting with the word being
/// completed (the other shells filter for themselves).
pub open spec fn offered(cands: Seq<(String, Option<String>)>, shell: Seq<char>, word: Seq<char>, suppress: bool) -> Seq<(String, Option<String>)> {
    if suppress {
        seq![]
    } else if shell == "bash"@ && word.len() > 0 {
        starting_with(cands, word)
    } else {
        cands
    }
}

fn clone_opt(s: &Option<String>) -> (r: Option<String>)
    ensures
        r == *s,
{
    match s {
        Some(t) => Some(t.clone()),
        None => None,
    }
}

/// Filter the candidates the completion engine produced.
pub fn filter_candidates(
    cands: Vec<(String, Option<String>)>,
    shell: &str,
    current_word: Option<&str>,
    suppress: bool,
) -> (r: Vec<(String, Option<String>)>)
    ensures
        r@ == offered(
            cands@,
            shell@,
            match current_word {
                Some(w) => w@,
                None => seq![],
            },
            suppress,
        ),
{
    if suppress {
        return Vec::new();
    }
    let word: &str = match current_word {
        Some(w) => w,
        None => "",
    };
    proof {
        reveal_strlit("");
        assert(""@ =~= Seq::<char>::empty());
    }
    if !str_eq(shell, "bash") || word.unicode_len() == 0 {
        return cands;
    }
    let mut out: Vec<(String, Option<String>)> = Vec::new();
    let mut i: usize = 0;
    while i < cands.len()
        invariant
            i <= cands@.len(),
            out@ == starting_with(cands@.take(i as int), word@),
        decreases cands@.len() - i,
    {
        assert(cands@.take(i + 1).drop_last() =~= cands@.take(i as int));
        assert(cands@.take(i + 1).last() == cands@[i as int]);
        let cs = chars_of(cands[i].0.as_str());
        assert(cs@.skip(0) =~= cs@);
        let ghost prev = out@;
        if has_at(&cs, 0, word) {
            out.push((cands[i].0.clone(), clone_opt(&cands[i].1)));
            assert(out@ =~= prev + seq![cands@[i as int]]);
        } else {
            assert(out@ =~= prev + seq![]);
        }
        i = i + 1;
    }
    assert(cands@.take(cands@.len() as int) =~= cands@);
    out
}

/// What separates a candidate from its help: `:` for zsh, a tab for fish
/// and nushell; other shells get no help.
pub open spec fn help_sep(shell: Seq<char>) -> Option<Seq<char>> {
    if shell == "zsh"@ {
        Some(":"@)
    } else if shell == "fish"@ || shell == "nu"@ {
        Some("\t"@)
    } else {
        None
    }
}

/// One candidate as written: its value, and its help behind the shell's
/// separator when both are there.
pub open spec fn candidate_text(c: (String, Option<String>), shell: Seq<char>) -> Seq<char> {
    match (help_sep(shell), c.1) {
        (Some(sep), Some(h)) => c.0@ + sep + h@,
        _ => c.0@,
    }
}

/// Write the candidates for the shell, separated by `_CLAP_IFS` (a newline
/// when it is not set).
pub fn render_candidates(cands: &Vec<(String, Option<String>)>, shell: &str, ifs: Option<&str>) -> (r: String)
    ensures
        r@ == join(
            cands@.map_values(|c: (String, Option<String>)| candidate_text(c, shell@)),
            match ifs {
                Some(s) => s@,
                None => "\n"@,
            },
        ),
{
    let sep_help: Option<&str> = if str_eq(shell, "zsh") {
        Some(":")
    } else if str_eq(shell, "fish") || str_eq(shell, "nu") {
        Some("\t")
    } else {
        None
    };
    assert(match sep_help { Some(s) => help_sep(shell@) == Some(s@), None => help_sep(shell@).is_none() });
    let mut parts: Vec<String> = Vec::new();
    let mut i: usize = 0;
    while i < cands.len()
        invariant
            i <= cands@.len(),
            match sep_help {
                Some(s) => help_sep(shell@) == Some(s@),
                None => help_sep(shell@).is_none(),
            },
            parts@.map_values(|p: String| p@) == cands@.take(i as int).map_values(
                |c: (String, Option<String>)| candidate_text(c, shell@),
            ),
        decreases cands@.len() - i,
    {
        let c = &cands[i];
        let text = match (sep_help, &c.1) {
            (Some(sep), Some(h)) => {
                let mut v = chars_of(c.0.as_str());
                push_str(&mut v, sep);
                push_str(&mut v, h.as_str());
                string_of(&v)
            },
            _ => c.0.clone(),
        };
        let ghost prev = parts@.map_values(|p: String| p@);
        parts.push(text);
        assert(parts@.map_values(|p: String| p@) =~= prev.push(candidate_text(cands@[i as int], shell@)));
        assert(cands@.take(i + 1).map_values(|c: (String, Option<String>)| candidate_text(c, shell@)) =~= cands@.take(
            i as int,
        ).map_values(|c: (String, Option<String>)| candidate_text(c, shell@)).push(candidate_text(cands@[i as int], shell@)));
        i = i + 1;
    }
    assert(cands@.take(cands@.len() as int) =~= cands@);
    let sep: &str = match ifs {
        Some(s) => s,
        None => "\n",
    };
    crate::text::join_strings(&parts, sep)
}

} // verus!
