//! POSIX shell quoting of command tokens, and the reading of quoted text
//! back by a shell.
use vstd::prelude::*;
use crate::text::{chars_of, concat, is_ws, join, join_strings, string_of};

verus! {

/// The body of a single-quoted token: each `'` becomes `'\''` (close the
/// quote, an escaped quote, reopen).
pub open spec fn quote_body(s: Seq<char>) -> Seq<char>
    decreases s.len(),
{
    if s.len() == 0 {
        seq![]
    } else {
        (if s[0] == '\'' { seq!['\'', '\\', '\'', '\''] } else { seq![s[0]] }) + quote_body(s.skip(1))
    }
}

/// `s` quoted for a POSIX shell: wrapped in single quotes, embedded single
/// quotes escaped; the empty string becomes `''`.
pub open spec fn quoted(s: Seq<char>) -> Seq<char> {
    seq!['\''] + quote_body(s) + seq!['\'']
}

/// What a POSIX shell reads from `q`, from `i` on, for the quoting this
/// module writes: inside single quotes every character stands for itself
/// until the closing quote; outside, a backslash escapes the next
/// character and a quote opens a quoted run.
pub open spec fn unquote(q: Seq<char>, i: int, in_quote: bool) -> Seq<char>
    decreases q.len() - i,
{
    if i < 0 || i >= q.len() {
        seq![]
    } else if in_quote {
        if q[i] == '\'' {
            unquote(q, i + 1, false)
        } else {
            seq![q[i]] + unquote(q, i + 1, true)
        }
    } else if q[i] == '\'' {
        unquote(q, i + 1, true)
    } else if q[i] == '\\' && i + 1 < q.len() {
        seq![q[i + 1]] + unquote(q, i + 2, false)
    } else {
        seq![q[i]] + unquote(q, i + 1, false)
    }
}

/// Reading text that starts with a quoted body and its closing quote.
proof fn lemma_unquote_body(s: Seq<char>, rest: Seq<char>)
    ensures
        unquote(quote_body(s) + seq!['\''] + rest, 0, true) == s + unquote(rest, 0, false),
    decreases s.len(),
{
    let q = quote_body(s) + seq!['\''] + rest;
    if s.len() == 0 {
        assert(q =~= seq!['\''] + rest);
        lemma_unquote_shift(rest, seq!['\''], 0, false);
        assert(s + unquote(rest, 0, false) =~= unquote(rest, 0, false));
    } else {
        let tail = quote_body(s.skip(1)) + seq!['\''] + rest;
        lemma_unquote_body(s.skip(1), rest);
        if s[0] == '\'' {
            let head = seq!['\'', '\\', '\'', '\''];
            assert(q =~= head + tail);
            lemma_unquote_shift(tail, head, 0, true);
            assert(unquote(q, 0, true) == unquote(q, 1, false));
            assert(unquote(q, 1, false) == seq!['\''] + unquote(q, 3, false));
            assert(unquote(q, 3, false) == unquote(q, 4, true));
        } else {
            let head = seq![s[0]];
            assert(q =~= head + tail);
            lemma_unquote_shift(tail, head, 0, true);
            assert(unquote(q, 0, true) == seq![s[0]] + unquote(q, 1, true));
        }
        assert(s =~= seq![s[0]] + s.skip(1));
    }
}

/// Reading is unaffected by text before the reading position.
proof fn lemma_unquote_shift(t: Seq<char>, pre: Seq<char>, i: int, in_quote: bool)
    requires
        0 <= i,
    ensures
        unquote(pre + t, pre.len() + i, in_quote) == unquote(t, i, in_quote),
    decreases t.len() - i,
{
    let q = pre + t;
    if i < t.len() {
        assert(q[pre.len() + i] == t[i]);
        if i + 1 < t.len() {
            assert(q[pre.len() + i + 1] == t[i + 1]);
        }
        lemma_unquote_shift(t, pre, i + 1, true);
        lemma_unquote_shift(t, pre, i + 1, false);
        if i + 1 < t.len() {
            lemma_unquote_shift(t, pre, i + 2, false);
        }
    }
}

/// Quoting round-trips: a POSIX shell reads back exactly the token that
/// was quoted.
pub proof fn law_quote_round_trip(s: Seq<char>)
    ensures
        unquote(quoted(s), 0, false) == s,
{
    let q = quoted(s);
    lemma_unquote_body(s, seq![]);
    assert(q =~= seq!['\''] + (quote_body(s) + seq!['\''] + seq![]));
    lemma_unquote_shift(quote_body(s) + seq!['\''] + seq![], seq!['\''], 0, true);
    assert(s + unquote(seq![], 0, false) =~= s);
}

/// Minimal POSIX shell quoting: wrap in single quotes, escaping embedded
/// single quotes. Every token is quoted, even one that would not need it.
pub fn posix_quote(s: &str) -> (r: String)
    ensures
        r@ == quoted(s@),
{
    let cs = chars_of(s);
    let mut out: Vec<char> = Vec::new();
    out.push('\'');
    let mut i: usize = 0;
    assert(cs@.skip(0) =~= cs@);
    assert(out@ =~= seq!['\'']);
    while i < cs.len()
        invariant
            i <= cs@.len(),
            cs@ == s@,
            out@ + quote_body(cs@.skip(i as int)) == seq!['\''] + quote_body(cs@),
        decreases cs@.len() - i,
    {
        let ghost o = out@;
        assert(cs@.skip(i as int).skip(1) =~= cs@.skip(i + 1));
        assert(cs@.skip(i as int)[0] == cs@[i as int]);
        if cs[i] == '\'' {
            out.push('\'');
            out.push('\\');
            out.push('\'');
            out.push('\'');
            assert(o + quote_body(cs@.skip(i as int)) =~= out@ + quote_body(cs@.skip(i + 1)));
        } else {
            out.push(cs[i]);
            assert(o + quote_body(cs@.skip(i as int)) =~= out@ + quote_body(cs@.skip(i + 1)));
        }
        i = i + 1;
    }
    assert(cs@.skip(cs@.len() as int) =~= Seq::<char>::empty());
    assert(out@ + seq![] =~= out@);
    out.push('\'');
    assert(cs@.skip(0) =~= cs@);
    string_of(&out)
}

/// Characters that make a token need quoting.
pub open spec fn is_special(c: char) -> bool {
    is_ws(c) || c == '"' || c == '\'' || c == '\\' || c == '$' || c == '`' || c == '!' || c == '#'
        || c == '&' || c == '|' || c == ';' || c == '(' || c == ')' || c == '{' || c == '}' || c == '['
        || c == ']' || c == '<' || c == '>' || c == '?' || c == '*' || c == '~'
}

/// Wrap a token in POSIX single quotes when it holds white space or a
/// shell metacharacter; leave it as it is otherwise.
pub fn shell_escape(s: &str) -> (r: String)
    ensures
        r@ == if exists|i: int| 0 <= i < s@.len() && is_special(#[trigger] s@[i]) { quoted(s@) } else { s@ },
{
    let cs = chars_of(s);
    let mut i: usize = 0;
    while i < cs.len()
        invariant
            i <= cs@.len(),
            cs@ == s@,
            forall|j: int| 0 <= j < i ==> !is_special(#[trigger] s@[j]),
        decreases cs@.len() - i,
    {
        let c = cs[i];
        let special = crate::text::is_white(c) || c == '"' || c == '\'' || c == '\\' || c == '$' || c == '`'
            || c == '!' || c == '#' || c == '&' || c == '|' || c == ';' || c == '(' || c == ')' || c == '{'
            || c == '}' || c == '[' || c == ']' || c == '<' || c == '>' || c == '?' || c == '*' || c == '~';
        if special {
            assert(is_special(s@[i as int]));
            return posix_quote(s);
        }
        i = i + 1;
    }
    s.to_owned()
}

/// A token as `shell_escape` leaves it.
pub open spec fn escaped(s: Seq<char>) -> Seq<char> {
    if exists|i: int| 0 <= i < s.len() && is_special(#[trigger] s[i]) { quoted(s) } else { s }
}

/// The command line `step for-each` runs: every token quoted, joined by
/// spaces.
pub fn quote_command_line(tokens: &Vec<String>) -> (r: String)
    ensures
        r@ == join(tokens@.map_values(|t: String| quoted(t@)), " "@),
{
    let mut parts: Vec<String> = Vec::new();
    let mut i: usize = 0;
    while i < tokens.len()
        invariant
            i <= tokens@.len(),
            parts@.map_values(|p: String| p@) == tokens@.take(i as int).map_values(|t: String| quoted(t@)),
        decreases tokens@.len() - i,
    {
        let q = posix_quote(tokens[i].as_str());
        let ghost prev = parts@.map_values(|p: String| p@);
        parts.push(q);
        assert(parts@.map_values(|p: String| p@) =~= prev.push(quoted(tokens@[i as int]@)));
        assert(tokens@.take(i + 1).map_values(|t: String| quoted(t@)) =~= tokens@.take(i as int).map_values(
            |t: String| quoted(t@),
        ).push(quoted(tokens@[i as int]@)));
        i = i + 1;
    }
    assert(tokens@.take(tokens@.len() as int) =~= tokens@);
    join_strings(&parts, " ")
}

/// The command `step diff` runs: `jj diff -r 'trunk()..@'` followed by
/// the extra arguments, the revset and every extra argument quoted so the
/// shell passes each through verbatim.
pub fn diff_command(extra: &Vec<String>) -> (r: String)
    ensures
        r@ == join(
            seq!["jj"@, "diff"@, "-r"@, quoted("trunk()..@"@)] + extra@.map_values(|t: String| quoted(t@)),
            " "@,
        ),
{
    let mut parts: Vec<String> = vec!["jj".to_owned(), "diff".to_owned(), "-r".to_owned(), posix_quote("trunk()..@")];
    let ghost head = seq!["jj"@, "diff"@, "-r"@, quoted("trunk()..@"@)];
    assert(parts@.map_values(|p: String| p@) =~= head);
    let mut i: usize = 0;
    while i < extra.len()
        invariant
            i <= extra@.len(),
            head == seq!["jj"@, "diff"@, "-r"@, quoted("trunk()..@"@)],
            parts@.map_values(|p: String| p@) == head + extra@.take(i as int).map_values(|t: String| quoted(t@)),
        decreases extra@.len() - i,
    {
        let q = posix_quote(extra[i].as_str());
        let ghost prev = parts@.map_values(|p: String| p@);
        parts.push(q);
        assert(parts@.map_values(|p: String| p@) =~= prev.push(quoted(extra@[i as int]@)));
        assert(extra@.take(i + 1).map_values(|t: String| quoted(t@)) =~= extra@.take(i as int).map_values(
            |t: String| quoted(t@),
        ).push(quoted(extra@[i as int]@)));
        i = i + 1;
    }
    assert(extra@.take(extra@.len() as int) =~= extra@);
    join_strings(&parts, " ")
}

/// The command that sets the working-copy description to `message`.
pub fn describe_command(message: &str) -> (r: String)
    ensures
        r@ == "jj describe -m "@ + quoted(message@),
{
    concat("jj describe -m ", posix_quote(message).as_str())
}

} // verus!
