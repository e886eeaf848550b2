//! The hook command echoed before a hook runs: each line behind a gutter,
//! plain or with bash syntax colors.
use vstd::prelude::*;
use crate::text::{chars_of, join, push_str, str_eq, string_of};
use anstyle::{AnsiColor, Color, Style};
use tree_sitter_highlight::{HighlightConfiguration, HighlightEvent, Highlighter};

verus! {

/// Styles of bash tokens: each color dimmed.
#[derive(Clone, Copy, PartialEq, Eq, Structural)]
pub enum TokenPaint {
    Blue,
    Magenta,
    Green,
    Cyan,
    Yellow,
}

/// The escape sequences the highlighter writes.
#[derive(Clone, Copy)]
pub enum Code {
    /// Dimmed text.
    Dim,
    /// Reset every style.
    Reset,
    /// The gutter block (bright white background).
    GutterOn,
    /// The end of the gutter block.
    GutterOff,
}

/// The text of each escape sequence.
pub open spec fn code_text(c: Code) -> Seq<char> {
    match c {
        Code::Dim => "\u{1b}[2m"@,
        Code::Reset => "\u{1b}[0m"@,
        Code::GutterOn => "\u{1b}[107m"@,
        Code::GutterOff => "\u{1b}[0m"@,
    }
}

/// The escape sequence of a token style: dim, then the color.
pub open spec fn token_text(p: TokenPaint) -> Seq<char> {
    "\u{1b}[2m"@ + match p {
        TokenPaint::Blue => "\u{1b}[34m"@,
        TokenPaint::Magenta => "\u{1b}[35m"@,
        TokenPaint::Green => "\u{1b}[32m"@,
        TokenPaint::Cyan => "\u{1b}[36m"@,
        TokenPaint::Yellow => "\u{1b}[33m"@,
    }
}

/// The escape sequence `anstyle` writes for a style (`Display` of a
/// `Style`: its effects, then its foreground, then its background; the
/// alternate form and `Reset` write `ESC[0m`).
#[verifier::external_body]
fn code(c: Code) -> (r: String)
    ensures
        r@ == code_text(c),
{
    let gutter = Style::new().bg_color(Some(Color::Ansi(AnsiColor::BrightWhite)));
    match c {
        Code::Dim => format!("{}", Style::new().dimmed()),
        Code::Reset => format!("{}", anstyle::Reset),
        Code::GutterOn => format!("{gutter}"),
        Code::GutterOff => format!("{gutter:#}"),
    }
}

/// The escape sequence `anstyle` writes for a dimmed foreground color
/// (`Display` of a `Style`: the dim effect, then the color).
#[verifier::external_body]
fn token_code(p: TokenPaint) -> (r: String)
    ensures
        r@ == token_text(p),
{
    let color = match p {
        TokenPaint::Blue => AnsiColor::Blue,
        TokenPaint::Magenta => AnsiColor::Magenta,
        TokenPaint::Green => AnsiColor::Green,
        TokenPaint::Cyan => AnsiColor::Cyan,
        TokenPaint::Yellow => AnsiColor::Yellow,
    };
    format!("{}", Style::new().fg_color(Some(Color::Ansi(color))).dimmed())
}

/// The style of a bash token by its highlight name: commands blue,
/// keywords magenta, strings green, operators and constants cyan,
/// properties and numbers yellow.
pub open spec fn token_paint(kind: Seq<char>) -> Option<TokenPaint> {
    if kind == "function"@ {
        Some(TokenPaint::Blue)
    } else if kind == "keyword"@ {
        Some(TokenPaint::Magenta)
    } else if kind == "string"@ {
        Some(TokenPaint::Green)
    } else if kind == "operator"@ {
        Some(TokenPaint::Cyan)
    } else if kind == "property"@ {
        Some(TokenPaint::Yellow)
    } else if kind == "number"@ {
        Some(TokenPaint::Yellow)
    } else if kind == "constant"@ {
        Some(TokenPaint::Cyan)
    } else {
        None
    }
}

/// Map a bash token capture name to its display style.
pub fn bash_token_style(kind: &str) -> (r: Option<TokenPaint>)
    ensures
        r == token_paint(kind@),
{
    if str_eq(kind, "function") {
        Some(TokenPaint::Blue)
    } else if str_eq(kind, "keyword") {
        Some(TokenPaint::Magenta)
    } else if str_eq(kind, "string") {
        Some(TokenPaint::Green)
    } else if str_eq(kind, "operator") {
        Some(TokenPaint::Cyan)
    } else if str_eq(kind, "property") {
        Some(TokenPaint::Yellow)
    } else if str_eq(kind, "number") {
        Some(TokenPaint::Yellow)
    } else if str_eq(kind, "constant") {
        Some(TokenPaint::Cyan)
    } else {
        None
    }
}

/// The highlight names given to the highlighter, in order.
pub open spec fn highlight_name(i: int) -> Seq<char> {
    if i == 0 {
        "comment"@
    } else if i == 1 {
        "constant"@
    } else if i == 2 {
        "embedded"@
    } else if i == 3 {
        "function"@
    } else if i == 4 {
        "keyword"@
    } else if i == 5 {
        "number"@
    } else if i == 6 {
        "operator"@
    } else if i == 7 {
        "property"@
    } else {
        "string"@
    }
}

fn highlight_name_text(i: usize) -> (r: &'static str)
    requires
        i < 9,
    ensures
        r@ == highlight_name(i as int),
{
    match i {
        0 => "comment",
        1 => "constant",
        2 => "embedded",
        3 => "function",
        4 => "keyword",
        5 => "number",
        6 => "operator",
        7 => "property",
        _ => "string",
    }
}

/// An event of the bash highlighter: a run of source text, the start of a
/// highlight (an index into the highlight names), or its end.
pub enum HlEvent {
    Source(String),
    Start(usize),
    End,
}

/// What a highlighter event holds.
pub enum HlEventView {
    Source(Seq<char>),
    Start(usize),
    End,
}

/// The events' text.
pub open spec fn events_view(es: Seq<HlEvent>) -> Seq<HlEventView> {
    es.map_values(
        |e: HlEvent|
            match e {
                HlEvent::Source(s) => HlEventView::Source(s@),
                HlEvent::Start(i) => HlEventView::Start(i),
                HlEvent::End => HlEventView::End,
            },
    )
}

/// The events `tree-sitter-highlight` gives for bash source with the
/// highlight names above, each source run as its text; `None` when setup,
/// highlighting or decoding fails.
pub uninterp spec fn bash_events(source: Seq<char>) -> Option<Seq<HlEventView>>;

/// Runs the `tree-sitter-highlight` bash highlighter on `content`; the
/// events depend on the content alone and are named by `bash_events`.
#[verifier::external_body]
fn highlight_events(content: &str) -> (r: Option<Vec<HlEvent>>)
    ensures
        match r {
            Some(es) => bash_events(content@) == Some(events_view(es@)),
            None => bash_events(content@).is_none(),
        },
{
    let names = ["comment", "constant", "embedded", "function", "keyword", "number", "operator", "property", "string"];
    let mut config = HighlightConfiguration::new(
        tree_sitter_bash::LANGUAGE.into(), "bash", tree_sitter_bash::HIGHLIGHT_QUERY, "", "",
    ).ok()?;
    config.configure(&names);
    let mut highlighter = Highlighter::new();
    let bytes = content.as_bytes();
    let events = highlighter.highlight(&config, bytes, None, None, |_| None).ok()?;
    events.map(|e| match e.ok()? {
        HighlightEvent::Source { start, end } => Some(HlEvent::Source(std::str::from_utf8(&bytes[start..end]).ok()?.to_owned())),
        HighlightEvent::HighlightStart(h) => Some(HlEvent::Start(h.0)),
        HighlightEvent::HighlightEnd => Some(HlEvent::End),
    }).collect()
}

/// `s` with every `\n` followed by `r`.
pub open spec fn after_newlines(s: Seq<char>, r: Seq<char>) -> Seq<char>
    decreases s.len(),
{
    if s.len() == 0 {
        seq![]
    } else {
        after_newlines(s.drop_last(), r) + if s.last() == '\n' { seq!['\n'] + r } else { seq![s.last()] }
    }
}

/// The styled text of the events from `i` on: the text so far is `out`,
/// `pending` the highlight started and not yet applied, `active` the token
/// style in force. A run of source applies a pending token style and
/// restores the dim base and the active style after each of its newlines;
/// the end of a highlight resets to the dim base.
pub open spec fn styled_from(es: Seq<HlEventView>, i: int, out: Seq<char>, pending: Option<usize>, active: Option<TokenPaint>) -> Seq<char>
    decreases es.len() - i,
{
    if i < 0 || i >= es.len() {
        out
    } else {
        match es[i] {
            HlEventView::Source(text) => {
                let p = match pending {
                    Some(idx) => if idx < 9 { token_paint(highlight_name(idx as int)) } else { None },
                    None => None,
                };
                let (out2, active2) = match p {
                    Some(st) => (out + code_text(Code::Reset) + token_text(st), Some(st)),
                    None => (out, active),
                };
                let restore = match active2 {
                    Some(st) => code_text(Code::Dim) + code_text(Code::Reset) + token_text(st),
                    None => code_text(Code::Dim),
                };
                styled_from(es, i + 1, out2 + after_newlines(text, restore), None, active2)
            },
            HlEventView::Start(idx) => styled_from(es, i + 1, out, Some(idx), active),
            HlEventView::End => styled_from(es, i + 1, out + code_text(Code::Reset) + code_text(Code::Dim), None, None),
        }
    }
}

/// The pieces of `s` between `\n`s (`str::split('\n')`): always at least
/// one, empty pieces kept.
pub open spec fn split_nl(s: Seq<char>) -> Seq<Seq<char>>
    decreases s.len(),
{
    if s.len() == 0 {
        seq![seq![]]
    } else {
        let p = split_nl(s.drop_last());
        if s.last() == '\n' {
            p.push(seq![])
        } else {
            p.update(p.len() - 1, p.last().push(s.last()))
        }
    }
}

proof fn lemma_split_nl_len(s: Seq<char>)
    ensures
        split_nl(s).len() >= 1,
    decreases s.len(),
{
    if s.len() > 0 {
        lemma_split_nl_len(s.drop_last());
    }
}

fn split_newlines(s: &Vec<char>) -> (r: Vec<Vec<char>>)
    ensures
        r@.map_values(|l: Vec<char>| l@) == split_nl(s@),
{
    let mut out: Vec<Vec<char>> = Vec::new();
    let mut cur: Vec<char> = Vec::new();
    let mut i: usize = 0;
    while i < s.len()
        invariant
            i <= s@.len(),
            out@.map_values(|l: Vec<char>| l@).push(cur@) == split_nl(s@.take(i as int)),
        decreases s@.len() - i,
    {
        let ghost prev = out@.map_values(|l: Vec<char>| l@);
        assert(s@.take(i + 1).drop_last() =~= s@.take(i as int));
        proof {
            lemma_split_nl_len(s@.take(i as int));
        }
        if s[i] == '\n' {
            let mut done: Vec<char> = Vec::new();
            std::mem::swap(&mut done, &mut cur);
            out.push(done);
            assert(out@.map_values(|l: Vec<char>| l@).push(cur@) =~= split_nl(s@.take(i + 1)));
        } else {
            let ghost c0 = cur@;
            cur.push(s[i]);
            assert(out@.map_values(|l: Vec<char>| l@).push(cur@) =~= prev.push(c0).update(prev.len() as int, c0.push(s[i as int])));
        }
        i = i + 1;
    }
    assert(s@.take(s@.len() as int) =~= s@);
    out.push(cur);
    out
}

/// The lines of the colored output: each behind the gutter block and a
/// space, closed with a reset.
pub open spec fn colored_lines(styled: Seq<char>) -> Seq<Seq<char>> {
    split_nl(styled).map_values(
        |l: Seq<char>|
            code_text(Code::GutterOn) + seq![' '] + code_text(Code::GutterOff) + seq![' '] + l + code_text(Code::Reset),
    )
}

/// The bash highlight of `content`, behind gutters; `None` when the
/// highlighter fails.
pub open spec fn highlighted_of(content: Seq<char>) -> Option<Seq<char>> {
    match bash_events(content) {
        Some(es) => Some(join(colored_lines(styled_from(es, 0, code_text(Code::Dim), None, None)), seq!['\n'])),
        None => None,
    }
}

fn push_after_newlines(out: &mut Vec<char>, text: &str, restore: &Vec<char>)
    ensures
        final(out)@ == old(out)@ + after_newlines(text@, restore@),
{
    let t = chars_of(text);
    let ghost start = out@;
    let mut i: usize = 0;
    while i < t.len()
        invariant
            i <= t@.len(),
            t@ == text@,
            out@ == start + after_newlines(t@.take(i as int), restore@),
        decreases t@.len() - i,
    {
        assert(t@.take(i + 1).drop_last() =~= t@.take(i as int));
        let ghost o = out@;
        out.push(t[i]);
        if t[i] == '\n' {
            let mut k: usize = 0;
            while k < restore.len()
                invariant
                    k <= restore@.len(),
                    out@ == o.push('\n') + restore@.take(k as int),
                decreases restore@.len() - k,
            {
                out.push(restore[k]);
                k = k + 1;
                assert(out@ =~= o.push('\n') + restore@.take(k as int));
            }
            assert(restore@.take(restore@.len() as int) =~= restore@);
        }
        assert(out@ =~= start + after_newlines(t@.take(i + 1), restore@));
        i = i + 1;
    }
    assert(t@.take(t@.len() as int) =~= t@);
}

fn gutter_lines(styled: &Vec<char>) -> (r: String)
    ensures
        r@ == join(colored_lines(styled@), seq!['\n']),
{
    let lines = split_newlines(styled);
    let on = code(Code::GutterOn);
    let off = code(Code::GutterOff);
    let reset = code(Code::Reset);
    let mut parts: Vec<String> = Vec::new();
    let mut i: usize = 0;
    while i < lines.len()
        invariant
            i <= lines@.len(),
            lines@.map_values(|l: Vec<char>| l@) == split_nl(styled@),
            on@ == code_text(Code::GutterOn),
            off@ == code_text(Code::GutterOff),
            reset@ == code_text(Code::Reset),
            parts@.map_values(|p: String| p@) == colored_lines(styled@).take(i as int),
        decreases lines@.len() - i,
    {
        let mut l: Vec<char> = Vec::new();
        push_str(&mut l, on.as_str());
        l.push(' ');
        push_str(&mut l, off.as_str());
        l.push(' ');
        let line_text = string_of(&lines[i]);
        push_str(&mut l, line_text.as_str());
        push_str(&mut l, reset.as_str());
        let ghost prev = parts@.map_values(|p: String| p@);
        parts.push(string_of(&l));
        assert(lines@[i as int]@ == split_nl(styled@)[i as int]);
        assert(l@ =~= on@ + seq![' '] + off@ + seq![' '] + lines@[i as int]@ + reset@);
        assert(parts@.map_values(|p: String| p@) =~= prev.push(colored_lines(styled@)[i as int]));
        assert(colored_lines(styled@).take(i + 1) =~= colored_lines(styled@).take(i as int).push(colored_lines(styled@)[i as int]));
        i = i + 1;
    }
    assert(colored_lines(styled@).take(lines@.len() as int) =~= colored_lines(styled@));
    proof {
        reveal_strlit("\n");
        assert("\n"@ =~= seq!['\n']);
    }
    crate::text::join_strings(&parts, "\n")
}

/// Tree-sitter highlighting of `content` behind gutters; `None` on any
/// setup or parse failure, so that the caller can fall back.
pub fn highlighted(content: &str) -> (r: Option<String>)
    ensures
        match r {
            Some(s) => highlighted_of(content@) == Some(s@),
            None => highlighted_of(content@).is_none(),
        },
{
    let events = match highlight_events(content) {
        Some(e) => e,
        None => {
            return None;
        },
    };
    let ghost es = events_view(events@);
    let dim = code(Code::Dim);
    let reset = code(Code::Reset);
    let mut out: Vec<char> = chars_of(dim.as_str());
    let mut pending: Option<usize> = None;
    let mut active: Option<TokenPaint> = None;
    let mut i: usize = 0;
    while i < events.len()
        invariant
            i <= events@.len(),
            es == events_view(events@),
            dim@ == code_text(Code::Dim),
            reset@ == code_text(Code::Reset),
            styled_from(es, i as int, out@, pending, active) == styled_from(es, 0, code_text(Code::Dim), None, None),
        decreases events@.len() - i,
    {
        match &events[i] {
            HlEvent::Source(text) => {
                let p = match pending {
                    Some(idx) => if idx < 9 { bash_token_style(highlight_name_text(idx)) } else { None },
                    None => None,
                };
                match p {
                    Some(st) => {
                        push_str(&mut out, reset.as_str());
                        push_str(&mut out, token_code(st).as_str());
                        active = Some(st);
                    },
                    None => {},
                }
                let restore = match active {
                    Some(st) => {
                        let mut r = chars_of(dim.as_str());
                        push_str(&mut r, reset.as_str());
                        push_str(&mut r, token_code(st).as_str());
                        r
                    },
                    None => chars_of(dim.as_str()),
                };
                push_after_newlines(&mut out, text.as_str(), &restore);
                pending = None;
            },
            HlEvent::Start(idx) => {
                pending = Some(*idx);
            },
            HlEvent::End => {
                pending = None;
                active = None;
                push_str(&mut out, reset.as_str());
                push_str(&mut out, dim.as_str());
            },
        }
        i = i + 1;
    }
    Some(gutter_lines(&out))
}

/// `\r\n` written as `\n`, from `i` on.
pub open spec fn crlf_from(s: Seq<char>, i: int) -> Seq<char>
    decreases s.len() - i,
{
    if i < 0 || i >= s.len() {
        seq![]
    } else if s[i] == '\r' && i + 1 < s.len() && s[i + 1] == '\n' {
        seq!['\n'] + crlf_from(s, i + 2)
    } else {
        seq![s[i]] + crlf_from(s, i + 1)
    }
}

/// `s` without trailing `\n`s.
pub open spec fn trim_newlines(s: Seq<char>) -> Seq<char>
    decreases s.len(),
{
    if s.len() > 0 && s.last() == '\n' {
        trim_newlines(s.drop_last())
    } else {
        s
    }
}

/// Two-space margin before each line, no escapes.
pub open spec fn plain_gutter_of(content: Seq<char>) -> Seq<char> {
    join(split_nl(content).map_values(|l: Seq<char>| seq![' ', ' '] + l), seq!['\n'])
}

/// Gutter block before each dimmed line.
pub open spec fn dim_gutter_of(content: Seq<char>) -> Seq<char> {
    join(
        split_nl(content).map_values(
            |l: Seq<char>|
                code_text(Code::GutterOn) + seq![' '] + code_text(Code::GutterOff) + seq![' '] + code_text(Code::Dim)
                    + l + code_text(Code::Reset),
        ),
        seq!['\n'],
    )
}

/// The echoed hook command: line endings normalized, trailing newlines
/// dropped, each line behind a two-space margin, or with `color` behind a
/// gutter block with bash colors (dimmed plain lines when highlighting
/// fails).
pub open spec fn gutter_text(cmd: Seq<char>, color: bool) -> Seq<char> {
    let content = trim_newlines(crlf_from(cmd, 0));
    if !color {
        plain_gutter_of(content)
    } else {
        match highlighted_of(content) {
            Some(h) => h,
            None => dim_gutter_of(content),
        }
    }
}

fn prefixed_lines(content: &Vec<char>, pre: &Vec<char>, post: &Vec<char>) -> (r: String)
    ensures
        r@ == join(split_nl(content@).map_values(|l: Seq<char>| pre@ + l + post@), seq!['\n']),
{
    let lines = split_newlines(content);
    let ghost want = split_nl(content@).map_values(|l: Seq<char>| pre@ + l + post@);
    let mut parts: Vec<String> = Vec::new();
    let mut i: usize = 0;
    while i < lines.len()
        invariant
            i <= lines@.len(),
            lines@.map_values(|l: Vec<char>| l@) == split_nl(content@),
            want == split_nl(content@).map_values(|l: Seq<char>| pre@ + l + post@),
            parts@.map_values(|p: String| p@) == want.take(i as int),
        decreases lines@.len() - i,
    {
        let mut l: Vec<char> = Vec::new();
        push_str(&mut l, string_of(pre).as_str());
        push_str(&mut l, string_of(&lines[i]).as_str());
        push_str(&mut l, string_of(post).as_str());
        let ghost prev = parts@.map_values(|p: String| p@);
        parts.push(string_of(&l));
        assert(lines@[i as int]@ == split_nl(content@)[i as int]);
        assert(l@ =~= pre@ + lines@[i as int]@ + post@);
        assert(parts@.map_values(|p: String| p@) =~= prev.push(want[i as int]));
        assert(want.take(i + 1) =~= want.take(i as int).push(want[i as int]));
        i = i + 1;
    }
    assert(want.take(lines@.len() as int) =~= want);
    proof {
        reveal_strlit("\n");
        assert("\n"@ =~= seq!['\n']);
    }
    crate::text::join_strings(&parts, "\n")
}

/// Two-space left margin per line, no escapes.
pub fn plain_gutter(content: &str) -> (r: String)
    ensures
        r@ == plain_gutter_of(content@),
{
    let c = chars_of(content);
    let pre: Vec<char> = vec![' ', ' '];
    let post: Vec<char> = Vec::new();
    let r = prefixed_lines(&c, &pre, &post);
    assert(split_nl(c@).map_values(|l: Seq<char>| pre@ + l + post@) =~= split_nl(c@).map_values(
        |l: Seq<char>| seq![' ', ' '] + l,
    )) by {
        assert forall|i: int| 0 <= i < split_nl(c@).len() implies pre@ + split_nl(c@)[i] + post@ =~= seq![' ', ' ']
            + split_nl(c@)[i] by {}
    }
    r
}

/// Gutter block with dimmed command text, used when color is on but
/// highlighting fails.
pub fn dim_gutter(content: &str) -> (r: String)
    ensures
        r@ == dim_gutter_of(content@),
{
    let c = chars_of(content);
    let mut pre: Vec<char> = Vec::new();
    push_str(&mut pre, code(Code::GutterOn).as_str());
    pre.push(' ');
    push_str(&mut pre, code(Code::GutterOff).as_str());
    pre.push(' ');
    push_str(&mut pre, code(Code::Dim).as_str());
    let post = chars_of(code(Code::Reset).as_str());
    assert(pre@ =~= code_text(Code::GutterOn) + seq![' '] + code_text(Code::GutterOff) + seq![' '] + code_text(Code::Dim));
    let r = prefixed_lines(&c, &pre, &post);
    assert(split_nl(c@).map_values(|l: Seq<char>| pre@ + l + post@) =~= split_nl(c@).map_values(
        |l: Seq<char>|
            code_text(Code::GutterOn) + seq![' '] + code_text(Code::GutterOff) + seq![' '] + code_text(Code::Dim) + l
                + code_text(Code::Reset),
    ));
    r
}

/// Render a bash command inside a gutter, with syntax colors when `color`
/// is true. Multi-line commands get a gutter per line.
pub fn highlight_bash_with_gutter(cmd: &str, color: bool) -> (r: String)
    ensures
        r@ == gutter_text(cmd@, color),
{
    let c = chars_of(cmd);
    let mut norm: Vec<char> = Vec::new();
    let mut i: usize = 0;
    while i < c.len()
        invariant
            i <= c@.len(),
            c@ == cmd@,
            norm@ + crlf_from(cmd@, i as int) == crlf_from(cmd@, 0),
        decreases c@.len() - i,
    {
        let ghost n0 = norm@;
        if c[i] == '\r' && i + 1 < c.len() && c[i + 1] == '\n' {
            norm.push('\n');
            assert(n0 + crlf_from(cmd@, i as int) =~= norm@ + crlf_from(cmd@, i + 2));
            i = i + 2;
        } else {
            norm.push(c[i]);
            assert(n0 + crlf_from(cmd@, i as int) =~= norm@ + crlf_from(cmd@, i + 1));
            i = i + 1;
        }
    }
    assert(norm@ + seq![] =~= norm@);
    let mut end = norm.len();
    assert(norm@.take(norm@.len() as int) =~= norm@);
    while end > 0 && norm[end - 1] == '\n'
        invariant
            end <= norm@.len(),
            trim_newlines(norm@.take(end as int)) == trim_newlines(norm@),
        decreases end,
    {
        assert(norm@.take(end as int).drop_last() =~= norm@.take(end - 1));
        end = end - 1;
    }
    proof {
        assert(norm@.take(norm@.len() as int) =~= norm@);
    }
    let content = string_of(&crate::text::slice_chars(&norm, 0, end));
    assert(content@ == trim_newlines(norm@)) by {
        assert(norm@.subrange(0, end as int) =~= norm@.take(end as int));
        if end > 0 {
            assert(norm@.take(end as int).last() == norm@[end - 1]);
        }
    }
    if !color {
        return plain_gutter(content.as_str());
    }
    match highlighted(content.as_str()) {
        Some(h) => h,
        None => dim_gutter(content.as_str()),
    }
}

} // verus!
