//! Rendering of plans' output: the list table, JSON envelopes and the
//! statusline.
use vstd::prelude::*;
use crate::json::{
    items_view, json_pretty_text, json_text, members_view, object, write_json, write_json_pretty, JsonValue,
    JsonView,
};
use crate::text::{concat, dec, fmt_uint, is_white, is_ws, push_str, string_of, trim_end};
use crate::types::{AheadBehind, CiStatus, LineDiff, ListRow, ListRowKind, StatusFlags, TrunkRel};
use anstyle::{AnsiColor, Color, Style};
use unicode_width::{UnicodeWidthChar, UnicodeWidthStr};

verus! {

/// The JSON object `switch` prints.
pub open spec fn switch_json(name: Seq<char>, path: Seq<char>, created: bool) -> JsonView {
    JsonView::Object(
        seq![
            ("name"@, JsonView::Text(name)),
            ("path"@, JsonView::Text(path)),
            ("created"@, JsonView::Bool(created)),
        ],
    )
}

/// The JSON object `remove` prints.
pub open spec fn remove_json(name: Seq<char>, path: Seq<char>, bookmark_deleted: bool) -> JsonView {
    JsonView::Object(
        seq![
            ("name"@, JsonView::Text(name)),
            ("path"@, JsonView::Text(path)),
            ("bookmark_deleted"@, JsonView::Bool(bookmark_deleted)),
        ],
    )
}

/// JSON envelope of `switch`: `name`, `path` and `created`.
pub fn format_switch_json(name: &str, path: &str, created: bool) -> (r: String)
    ensures
        r@ == json_text(switch_json(name@, path@, created)),
{
    let members = vec![
        ("name".to_owned(), JsonValue::Text(name.to_owned())),
        ("path".to_owned(), JsonValue::Text(path.to_owned())),
        ("created".to_owned(), JsonValue::Bool(created)),
    ];
    assert(members_view(members@) =~= switch_json(name@, path@, created)->Object_0);
    write_json(&object(members))
}

/// JSON envelope of `remove`: `name`, `path` and `bookmark_deleted` (true
/// when the bookmark was removed too).
pub fn format_remove_json(name: &str, path: &str, bookmark_deleted: bool) -> (r: String)
    ensures
        r@ == json_text(remove_json(name@, path@, bookmark_deleted)),
{
    let members = vec![
        ("name".to_owned(), JsonValue::Text(name.to_owned())),
        ("path".to_owned(), JsonValue::Text(path.to_owned())),
        ("bookmark_deleted".to_owned(), JsonValue::Bool(bookmark_deleted)),
    ];
    assert(members_view(members@) =~= remove_json(name@, path@, bookmark_deleted)->Object_0);
    write_json(&object(members))
}


/// The text styles the table uses.
#[derive(Clone, Copy, PartialEq, Eq, Structural)]
pub enum Paint {
    Dim,
    Bold,
    Green,
    Red,
    Yellow,
    Cyan,
}

/// The escape sequence that turns a style on.
pub open spec fn ansi_open(p: Paint) -> Seq<char> {
    match p {
        Paint::Bold => "\u{1b}[1m"@,
        Paint::Dim => "\u{1b}[2m"@,
        Paint::Red => "\u{1b}[31m"@,
        Paint::Green => "\u{1b}[32m"@,
        Paint::Yellow => "\u{1b}[33m"@,
        Paint::Cyan => "\u{1b}[36m"@,
    }
}

/// The escape sequence that resets all styles.
pub open spec fn ansi_reset() -> Seq<char> {
    "\u{1b}[0m"@
}

/// `s` wrapped in the escapes of style `p`.
pub open spec fn painted(s: Seq<char>, p: Paint) -> Seq<char> {
    ansi_open(p) + s + ansi_reset()
}

/// Wraps `s` in the escapes of an `anstyle::Style` (its `Display` writes
/// the SGR sequence that turns the style on, its alternate form the reset
/// `ESC[0m`).
#[verifier::external_body]
fn wrap(s: &str, p: Paint) -> (r: String)
    ensures
        r@ == painted(s@, p),
{
    let style = match p {
        Paint::Dim => Style::new().dimmed(),
        Paint::Bold => Style::new().bold(),
        Paint::Green => Style::new().fg_color(Some(Color::Ansi(AnsiColor::Green))),
        Paint::Red => Style::new().fg_color(Some(Color::Ansi(AnsiColor::Red))),
        Paint::Yellow => Style::new().fg_color(Some(Color::Ansi(AnsiColor::Yellow))),
        Paint::Cyan => Style::new().fg_color(Some(Color::Ansi(AnsiColor::Cyan))),
    };
    format!("{style}{s}{style:#}")
}

/// The display width `UnicodeWidthStr::width` gives a string.
pub uninterp spec fn text_cols(s: Seq<char>) -> usize;

/// The display width `UnicodeWidthChar::width` gives a character (`None`
/// for control characters).
pub uninterp spec fn char_cols(c: char) -> Option<usize>;

/// Display width of a string (`UnicodeWidthStr::width`).
#[verifier::external_body]
fn str_width(s: &str) -> (r: usize)
    ensures
        r == text_cols(s@),
{
    s.width()
}

/// Display width of a character (`UnicodeWidthChar::width`).
#[verifier::external_body]
fn char_width(c: char) -> (r: Option<usize>)
    ensures
        r == char_cols(c),
{
    c.width()
}

/// One rendered cell: `plain` is measured and padded, `display` is written
/// out (it may hold escapes).
pub struct Cell {
    pub plain: String,
    pub display: String,
}

impl Cell {
    /// The cell's text, then what it shows.
    pub open spec fn view(&self) -> (Seq<char>, Seq<char>) {
        (self.plain@, self.display@)
    }

    fn raw(s: String) -> (r: Self)
        ensures
            r.view() == (s@, s@),
    {
        Cell { plain: s.clone(), display: s }
    }

    fn width(&self) -> (r: usize)
        ensures
            r == text_cols(self.plain@),
    {
        str_width(self.plain.as_str())
    }

    fn duplicate(&self) -> (r: Self)
        ensures
            r.view() == self.view(),
    {
        Cell { plain: self.plain.clone(), display: self.display.clone() }
    }
}

/// A cell showing `s`, styled when a style is given and `s` is not empty.
pub open spec fn text_cell_view(s: Seq<char>, style: Option<Paint>) -> (Seq<char>, Seq<char>) {
    match style {
        Some(p) => if s.len() > 0 { (s, painted(s, p)) } else { (s, s) },
        None => (s, s),
    }
}

fn text_cell(s: &str, style: Option<Paint>) -> (r: Cell)
    ensures
        r.view() == text_cell_view(s@, style),
{
    match style {
        Some(p) => {
            if s.unicode_len() > 0 {
                Cell { plain: s.to_owned(), display: wrap(s, p) }
            } else {
                Cell::raw(s.to_owned())
            }
        },
        None => Cell::raw(s.to_owned()),
    }
}

/// Compact notation of a line count: literal up to 999, then `NK`, then
/// `∞` from 10000; and whether it was compacted.
pub open spec fn compact_signs_of(v: u32) -> (Seq<char>, bool) {
    if v >= 10000 {
        ("\u{221e}"@, true)
    } else if v >= 1000 {
        (dec((v / 1000) as nat) + "K"@, true)
    } else {
        (dec(v as nat), false)
    }
}

/// Compact notation of a commit count: literal up to 99, then `NC`, `NK`,
/// and `∞` from 10000; and whether it was compacted.
pub open spec fn compact_arrows_of(v: u32) -> (Seq<char>, bool) {
    if v >= 10000 {
        ("\u{221e}"@, true)
    } else if v >= 1000 {
        (dec((v / 1000) as nat) + "K"@, true)
    } else if v >= 100 {
        (dec((v / 100) as nat) + "C"@, true)
    } else {
        (dec(v as nat), false)
    }
}

/// Compact notation for sign-style diffs (HEAD±).
fn compact_signs(value: u32) -> (r: (String, bool))
    ensures
        (r.0@, r.1) == compact_signs_of(value),
{
    if value >= 10000 {
        ("\u{221e}".to_owned(), true)
    } else if value >= 1000 {
        (concat(fmt_uint((value / 1000) as u64).as_str(), "K"), true)
    } else {
        (fmt_uint(value as u64), false)
    }
}

/// Compact notation for arrow-style diffs (main↕).
fn compact_arrows(value: u32) -> (r: (String, bool))
    ensures
        (r.0@, r.1) == compact_arrows_of(value),
{
    if value >= 10000 {
        ("\u{221e}".to_owned(), true)
    } else if value >= 1000 {
        (concat(fmt_uint((value / 1000) as u64).as_str(), "K"), true)
    } else if value >= 100 {
        (concat(fmt_uint((value / 100) as u64).as_str(), "C"), true)
    } else {
        (fmt_uint(value as u64), false)
    }
}

/// The HEAD± column: `+A`, `-R`, `+A -R`, or nothing for no change.
pub open spec fn head_diff_text(d: LineDiff) -> Seq<char> {
    let a = compact_signs_of(d.added).0;
    let r = compact_signs_of(d.removed).0;
    if d.added == 0 && d.removed == 0 {
        seq![]
    } else if d.removed == 0 {
        "+"@ + a
    } else if d.added == 0 {
        "-"@ + r
    } else {
        "+"@ + a + " -"@ + r
    }
}

/// The main↕ column: `↑A`, `↓B`, `↑A ↓B`, or nothing on trunk.
pub open spec fn ahead_behind_text(ab: AheadBehind) -> Seq<char> {
    let a = compact_arrows_of(ab.ahead).0;
    let b = compact_arrows_of(ab.behind).0;
    if ab.ahead == 0 && ab.behind == 0 {
        seq![]
    } else if ab.behind == 0 {
        "\u{2191}"@ + a
    } else if ab.ahead == 0 {
        "\u{2193}"@ + b
    } else {
        "\u{2191}"@ + a + " \u{2193}"@ + b
    }
}

fn format_head_diff(d: &LineDiff) -> (r: String)
    ensures
        r@ == head_diff_text(*d),
{
    let (a, _) = compact_signs(d.added);
    let (r, _) = compact_signs(d.removed);
    if d.added == 0 && d.removed == 0 {
        String::new()
    } else if d.removed == 0 {
        concat("+", a.as_str())
    } else if d.added == 0 {
        concat("-", r.as_str())
    } else {
        concat(concat(concat("+", a.as_str()).as_str(), " -").as_str(), r.as_str())
    }
}

fn format_ahead_behind(ab: &AheadBehind) -> (r: String)
    ensures
        r@ == ahead_behind_text(*ab),
{
    let (a, _) = compact_arrows(ab.ahead);
    let (b, _) = compact_arrows(ab.behind);
    if ab.ahead == 0 && ab.behind == 0 {
        String::new()
    } else if ab.behind == 0 {
        concat("\u{2191}", a.as_str())
    } else if ab.ahead == 0 {
        concat("\u{2193}", b.as_str())
    } else {
        concat(concat(concat("\u{2191}", a.as_str()).as_str(), " \u{2193}").as_str(), b.as_str())
    }
}

/// The style of a count: bold when compacted, else the given color.
pub open spec fn count_paint(compact: bool, color: Paint) -> Paint {
    if compact { Paint::Bold } else { color }
}

/// The HEAD± cell: additions green, removals red, compacted counts bold.
pub open spec fn head_diff_cell_view(d: LineDiff, styled: bool) -> (Seq<char>, Seq<char>) {
    let plain = head_diff_text(d);
    let (a, ac) = compact_signs_of(d.added);
    let (r, rc) = compact_signs_of(d.removed);
    if !styled || plain.len() == 0 {
        (plain, plain)
    } else if d.removed == 0 {
        (plain, painted("+"@ + a, count_paint(ac, Paint::Green)))
    } else if d.added == 0 {
        (plain, painted("-"@ + r, count_paint(rc, Paint::Red)))
    } else {
        (plain, painted("+"@ + a, count_paint(ac, Paint::Green)) + " "@ + painted("-"@ + r, count_paint(rc, Paint::Red)))
    }
}

/// The main↕ cell: ahead green, behind yellow, compacted counts bold.
pub open spec fn ahead_behind_cell_view(ab: AheadBehind, styled: bool) -> (Seq<char>, Seq<char>) {
    let plain = ahead_behind_text(ab);
    let (a, ac) = compact_arrows_of(ab.ahead);
    let (b, bc) = compact_arrows_of(ab.behind);
    if !styled || plain.len() == 0 {
        (plain, plain)
    } else if ab.behind == 0 {
        (plain, painted("\u{2191}"@ + a, count_paint(ac, Paint::Green)))
    } else if ab.ahead == 0 {
        (plain, painted("\u{2193}"@ + b, count_paint(bc, Paint::Yellow)))
    } else {
        (plain, painted("\u{2191}"@ + a, count_paint(ac, Paint::Green)) + " "@ + painted("\u{2193}"@ + b, count_paint(bc, Paint::Yellow)))
    }
}

fn count_style(compact: bool, color: Paint) -> (r: Paint)
    ensures
        r == count_paint(compact, color),
{
    if compact { Paint::Bold } else { color }
}

fn head_diff_cell(d: &LineDiff, styled: bool) -> (r: Cell)
    ensures
        r.view() == head_diff_cell_view(*d, styled),
{
    let plain = format_head_diff(d);
    if !styled || plain.as_str().unicode_len() == 0 {
        return Cell::raw(plain);
    }
    let (a, ac) = compact_signs(d.added);
    let (r, rc) = compact_signs(d.removed);
    let display = if d.removed == 0 {
        wrap(concat("+", a.as_str()).as_str(), count_style(ac, Paint::Green))
    } else if d.added == 0 {
        wrap(concat("-", r.as_str()).as_str(), count_style(rc, Paint::Red))
    } else {
        let x = wrap(concat("+", a.as_str()).as_str(), count_style(ac, Paint::Green));
        let y = wrap(concat("-", r.as_str()).as_str(), count_style(rc, Paint::Red));
        concat(concat(x.as_str(), " ").as_str(), y.as_str())
    };
    Cell { plain, display }
}

fn ahead_behind_cell(ab: &AheadBehind, styled: bool) -> (r: Cell)
    ensures
        r.view() == ahead_behind_cell_view(*ab, styled),
{
    let plain = format_ahead_behind(ab);
    if !styled || plain.as_str().unicode_len() == 0 {
        return Cell::raw(plain);
    }
    let (a, ac) = compact_arrows(ab.ahead);
    let (b, bc) = compact_arrows(ab.behind);
    let display = if ab.behind == 0 {
        wrap(concat("\u{2191}", a.as_str()).as_str(), count_style(ac, Paint::Green))
    } else if ab.ahead == 0 {
        wrap(concat("\u{2193}", b.as_str()).as_str(), count_style(bc, Paint::Yellow))
    } else {
        let x = wrap(concat("\u{2191}", a.as_str()).as_str(), count_style(ac, Paint::Green));
        let y = wrap(concat("\u{2193}", b.as_str()).as_str(), count_style(bc, Paint::Yellow));
        concat(concat(x.as_str(), " ").as_str(), y.as_str())
    };
    Cell { plain, display }
}

/// The CI cell: `✓` green, `✗` red, `◌` yellow, empty without a status.
pub open spec fn ci_cell_view(ci: CiStatus, styled: bool) -> (Seq<char>, Seq<char>) {
    match ci {
        CiStatus::Absent => (seq![], seq![]),
        CiStatus::Pass => ("\u{2713}"@, if styled { painted("\u{2713}"@, Paint::Green) } else { "\u{2713}"@ }),
        CiStatus::Fail => ("\u{2717}"@, if styled { painted("\u{2717}"@, Paint::Red) } else { "\u{2717}"@ }),
        CiStatus::Pending => ("\u{25cc}"@, if styled { painted("\u{25cc}"@, Paint::Yellow) } else { "\u{25cc}"@ }),
    }
}

fn ci_status_cell(ci: CiStatus, styled: bool) -> (r: Cell)
    ensures
        r.view() == ci_cell_view(ci, styled),
{
    match ci {
        CiStatus::Absent => Cell::raw(String::new()),
        CiStatus::Pass => if styled {
            Cell { plain: "\u{2713}".to_owned(), display: wrap("\u{2713}", Paint::Green) }
        } else {
            Cell::raw("\u{2713}".to_owned())
        },
        CiStatus::Fail => if styled {
            Cell { plain: "\u{2717}".to_owned(), display: wrap("\u{2717}", Paint::Red) }
        } else {
            Cell::raw("\u{2717}".to_owned())
        },
        CiStatus::Pending => if styled {
            Cell { plain: "\u{25cc}".to_owned(), display: wrap("\u{25cc}", Paint::Yellow) }
        } else {
            Cell::raw("\u{25cc}".to_owned())
        },
    }
}


/// The seven status positions of a row, each a glyph and its style:
/// changes, modified, untracked, conflicts-or-stale, relation to trunk,
/// remote, and the always blank user marker.
pub open spec fn status_slots(f: StatusFlags) -> Seq<(char, Option<Paint>)> {
    seq![
        if f.has_changes { ('+', Some(Paint::Green)) } else { (' ', None) },
        if f.modified { ('!', Some(Paint::Yellow)) } else { (' ', None) },
        if f.untracked { ('?', Some(Paint::Cyan)) } else { (' ', None) },
        if f.conflicts {
            ('\u{2718}', Some(Paint::Red))
        } else if f.stale {
            ('\u{2691}', Some(Paint::Yellow))
        } else {
            (' ', None)
        },
        match f.vs_trunk {
            Some(TrunkRel::IsTrunk) => ('^', Some(Paint::Bold)),
            Some(TrunkRel::Ancestor) => ('\u{2282}', Some(Paint::Cyan)),
            Some(TrunkRel::Diverged) => ('\u{2195}', Some(Paint::Yellow)),
            Some(TrunkRel::Ahead) => ('\u{2191}', Some(Paint::Green)),
            Some(TrunkRel::Behind) => ('\u{2193}', Some(Paint::Yellow)),
            _ => (' ', None),
        },
        if f.has_remote { ('|', Some(Paint::Dim)) } else { (' ', None) },
        (' ', None),
    ]
}

/// How many positions remain once trailing blanks are dropped.
pub open spec fn used_len(g: Seq<(char, Option<Paint>)>) -> nat
    decreases g.len(),
{
    if g.len() == 0 {
        0
    } else if g.last().0 == ' ' {
        used_len(g.drop_last())
    } else {
        g.len()
    }
}

/// What one glyph shows: styled when asked and it has a style.
pub open spec fn glyph_display(g: (char, Option<Paint>), styled: bool) -> Seq<char> {
    match g.1 {
        Some(p) => if styled { painted(seq![g.0], p) } else { seq![g.0] },
        None => seq![g.0],
    }
}

/// What the glyphs show, in order.
pub open spec fn glyphs_display(g: Seq<(char, Option<Paint>)>, styled: bool) -> Seq<char>
    decreases g.len(),
{
    if g.len() == 0 {
        seq![]
    } else {
        glyphs_display(g.drop_last(), styled) + glyph_display(g.last(), styled)
    }
}

/// The status cell: the positions up to the last non-blank one.
pub open spec fn status_cell_view(f: StatusFlags, styled: bool) -> (Seq<char>, Seq<char>) {
    let g = status_slots(f).take(used_len(status_slots(f)) as int);
    (g.map_values(|x: (char, Option<Paint>)| x.0), glyphs_display(g, styled))
}

fn status_slot_list(f: &StatusFlags) -> (r: Vec<(char, Option<Paint>)>)
    ensures
        r@ == status_slots(*f),
{
    let mut v: Vec<(char, Option<Paint>)> = Vec::new();
    v.push(if f.has_changes { ('+', Some(Paint::Green)) } else { (' ', None) });
    v.push(if f.modified { ('!', Some(Paint::Yellow)) } else { (' ', None) });
    v.push(if f.untracked { ('?', Some(Paint::Cyan)) } else { (' ', None) });
    v.push(
        if f.conflicts {
            ('\u{2718}', Some(Paint::Red))
        } else if f.stale {
            ('\u{2691}', Some(Paint::Yellow))
        } else {
            (' ', None)
        },
    );
    v.push(
        match f.vs_trunk {
            Some(TrunkRel::IsTrunk) => ('^', Some(Paint::Bold)),
            Some(TrunkRel::Ancestor) => ('\u{2282}', Some(Paint::Cyan)),
            Some(TrunkRel::Diverged) => ('\u{2195}', Some(Paint::Yellow)),
            Some(TrunkRel::Ahead) => ('\u{2191}', Some(Paint::Green)),
            Some(TrunkRel::Behind) => ('\u{2193}', Some(Paint::Yellow)),
            _ => (' ', None),
        },
    );
    v.push(if f.has_remote { ('|', Some(Paint::Dim)) } else { (' ', None) });
    v.push((' ', None));
    assert(v@ =~= status_slots(*f));
    v
}

/// The 7-position status column of a row; trailing blank positions are
/// dropped.
fn status_cell(f: &StatusFlags, styled: bool) -> (r: Cell)
    ensures
        r.view() == status_cell_view(*f, styled),
{
    let slots = status_slot_list(f);
    let ghost g = slots@;
    let mut k: usize = 7;
    assert(g.take(7) =~= g);
    while k > 0 && slots[k - 1].0 == ' '
        invariant
            k <= 7,
            g == slots@,
            g.len() == 7,
            used_len(g) == used_len(g.take(k as int)),
        decreases k,
    {
        assert(g.take(k as int).drop_last() =~= g.take(k - 1));
        k = k - 1;
    }
    assert(g.take(7) =~= g);
    assert(used_len(g.take(k as int)) == k) by {
        if k > 0 {
            assert(g.take(k as int).last() == g[k - 1]);
        }
    }
    let mut plain: Vec<char> = Vec::new();
    let mut display: Vec<char> = Vec::new();
    let mut i: usize = 0;
    while i < k
        invariant
            i <= k <= 7,
            g == slots@,
            g.len() == 7,
            plain@ == g.take(i as int).map_values(|x: (char, Option<Paint>)| x.0),
            display@ == glyphs_display(g.take(i as int), styled),
        decreases k - i,
    {
        let (ch, style) = slots[i];
        plain.push(ch);
        let ghost before = display@;
        match style {
            Some(p) => {
                if styled {
                    let one = string_of(&vec![ch]);
                    assert(one@ =~= seq![ch]);
                    push_str(&mut display, wrap(one.as_str(), p).as_str());
                } else {
                    display.push(ch);
                }
            },
            None => {
                display.push(ch);
            },
        }
        proof {
            assert(g.take(i + 1).drop_last() =~= g.take(i as int));
            assert(g.take(i + 1).last() == g[i as int]);
            assert(display@ =~= before + glyph_display(g[i as int], styled));
            assert(g.take(i + 1).map_values(|x: (char, Option<Paint>)| x.0) =~= g.take(i as int).map_values(
                |x: (char, Option<Paint>)| x.0,
            ).push(ch));
        }
        i = i + 1;
    }
    Cell { plain: string_of(&plain), display: string_of(&display) }
}

/// The 7-position status column as text: one character per position,
/// blank positions filled with spaces so positions align across rows.
pub open spec fn status_glyphs(f: StatusFlags) -> Seq<char> {
    status_slots(f).map_values(|x: (char, Option<Paint>)| x.0)
}

/// Render the 7-position status column, blank positions as spaces.
pub fn render_status_glyphs(f: &StatusFlags) -> (r: String)
    ensures
        r@ == status_glyphs(*f),
        r@.len() == 7,
{
    let slots = status_slot_list(f);
    let mut plain: Vec<char> = Vec::new();
    let mut i: usize = 0;
    while i < slots.len()
        invariant
            i <= slots@.len(),
            slots@ == status_slots(*f),
            plain@ == slots@.take(i as int).map_values(|x: (char, Option<Paint>)| x.0),
        decreases slots@.len() - i,
    {
        plain.push(slots[i].0);
        i = i + 1;
        assert(plain@ =~= slots@.take(i as int).map_values(|x: (char, Option<Paint>)| x.0));
    }
    assert(slots@.take(slots@.len() as int) =~= slots@);
    string_of(&plain)
}

/// The gutter mark of a row: `/` for a bookmark row, `@` for the current
/// workspace, `^` for the default one, `+` otherwise.
pub open spec fn gutter_of(row: &ListRow) -> char {
    if row.kind == ListRowKind::Bookmark {
        '/'
    } else if row.is_current {
        '@'
    } else if row.is_default {
        '^'
    } else {
        '+'
    }
}

fn gutter_char(row: &ListRow) -> (r: char)
    ensures
        r == gutter_of(row),
{
    match row.kind {
        ListRowKind::Bookmark => '/',
        ListRowKind::Workspace => if row.is_current {
            '@'
        } else if row.is_default {
            '^'
        } else {
            '+'
        },
    }
}

/// The Path column: empty for a bookmark row, `.` for the default
/// workspace, `./.worktrees/<name>` otherwise.
pub open spec fn path_text(row: &ListRow) -> Seq<char> {
    if row.kind == ListRowKind::Bookmark {
        seq![]
    } else if row.is_default {
        "."@
    } else {
        "./.worktrees/"@ + row.name@
    }
}

fn format_path(row: &ListRow) -> (r: String)
    ensures
        r@ == path_text(row),
{
    match row.kind {
        ListRowKind::Bookmark => String::new(),
        ListRowKind::Workspace => if row.is_default {
            ".".to_owned()
        } else {
            concat("./.worktrees/", row.name.as_str())
        },
    }
}

/// An age in seconds as a short relative string: `future`, `now` under a
/// minute, else the count of the largest whole unit among years (365
/// days), months (30 days), weeks, days, hours and minutes.
pub open spec fn age_text(s: int) -> Seq<char> {
    if s < 0 {
        "future"@
    } else if s < 60 {
        "now"@
    } else if s >= 31536000 {
        dec((s / 31536000) as nat) + "y"@
    } else if s >= 2592000 {
        dec((s / 2592000) as nat) + "mo"@
    } else if s >= 604800 {
        dec((s / 604800) as nat) + "w"@
    } else if s >= 86400 {
        dec((s / 86400) as nat) + "d"@
    } else if s >= 3600 {
        dec((s / 3600) as nat) + "h"@
    } else {
        dec((s / 60) as nat) + "m"@
    }
}

/// Format an age in seconds as a short relative string.
pub fn format_age(seconds_ago: i64) -> (r: String)
    ensures
        r@ == age_text(seconds_ago as int),
{
    if seconds_ago < 0 {
        return "future".to_owned();
    }
    if seconds_ago < 60 {
        return "now".to_owned();
    }
    let (unit, abbrev): (i64, &str) = if seconds_ago >= 31536000 {
        (31536000, "y")
    } else if seconds_ago >= 2592000 {
        (2592000, "mo")
    } else if seconds_ago >= 604800 {
        (604800, "w")
    } else if seconds_ago >= 86400 {
        (86400, "d")
    } else if seconds_ago >= 3600 {
        (3600, "h")
    } else {
        (60, "m")
    };
    let v = seconds_ago / unit;
    concat(fmt_uint(v as u64).as_str(), abbrev)
}

/// How many rows have working-copy changes (modified, untracked or
/// conflicted).
pub open spec fn count_dirty(rows: Seq<ListRow>) -> nat
    decreases rows.len(),
{
    if rows.len() == 0 {
        0
    } else {
        count_dirty(rows.drop_last()) + if rows.last().status.modified || rows.last().status.untracked
            || rows.last().status.conflicts { 1nat } else { 0nat }
    }
}

/// The footer's count of rows with changes is the number of rows whose
/// status is modified, untracked or conflicted.
pub proof fn law_count_dirty(rows: Seq<ListRow>)
    ensures
        count_dirty(rows) == rows.filter(
            |r: ListRow| r.status.modified || r.status.untracked || r.status.conflicts,
        ).len(),
    decreases rows.len(),
{
    reveal(Seq::filter);
    if rows.len() > 0 {
        law_count_dirty(rows.drop_last());
    }
}

/// How many rows are ahead of trunk.
pub open spec fn count_ahead(rows: Seq<ListRow>) -> nat
    decreases rows.len(),
{
    if rows.len() == 0 {
        0
    } else {
        count_ahead(rows.drop_last()) + if rows.last().vs_trunk.ahead > 0 { 1nat } else { 0nat }
    }
}

/// The footer under the table: `○ Showing N worktree(s)`, then how many
/// have changes and how many are ahead when there are any.
pub open spec fn summary_text(rows: Seq<ListRow>, styled: bool) -> Seq<char> {
    let n = rows.len();
    let d = count_dirty(rows);
    let a = count_ahead(rows);
    let parts = seq![dec(n) + " worktree"@ + if n == 1 { seq![] } else { "s"@ }]
        + (if d > 0 { seq![dec(d) + " with changes"@] } else { seq![] })
        + (if a > 0 { seq![dec(a) + " ahead"@] } else { seq![] });
    let body = "\u{25cb} Showing "@ + crate::text::join(parts, ", "@);
    if styled { painted(body, Paint::Dim) } else { body }
}

fn format_summary(rows: &Vec<ListRow>, styled: bool) -> (r: String)
    ensures
        r@ == summary_text(rows@, styled),
{
    let mut dirty: usize = 0;
    let mut ahead: usize = 0;
    let mut i: usize = 0;
    while i < rows.len()
        invariant
            i <= rows@.len(),
            dirty == count_dirty(rows@.take(i as int)),
            ahead == count_ahead(rows@.take(i as int)),
            dirty <= i,
            ahead <= i,
        decreases rows@.len() - i,
    {
        assert(rows@.take(i + 1).drop_last() =~= rows@.take(i as int));
        let r = &rows[i];
        if r.status.modified || r.status.untracked || r.status.conflicts {
            dirty = dirty + 1;
        }
        if r.vs_trunk.ahead > 0 {
            ahead = ahead + 1;
        }
        i = i + 1;
    }
    assert(rows@.take(rows@.len() as int) =~= rows@);
    let n = rows.len();
    let mut parts: Vec<String> = Vec::new();
    let first = concat(fmt_uint(n as u64).as_str(), " worktree");
    parts.push(if n == 1 { first } else { concat(first.as_str(), "s") });
    if dirty > 0 {
        parts.push(concat(fmt_uint(dirty as u64).as_str(), " with changes"));
    }
    if ahead > 0 {
        parts.push(concat(fmt_uint(ahead as u64).as_str(), " ahead"));
    }
    let ghost want = seq![dec(n as nat) + " worktree"@ + if n == 1 { seq![] } else { "s"@ }]
        + (if dirty > 0 { seq![dec(dirty as nat) + " with changes"@] } else { seq![] })
        + (if ahead > 0 { seq![dec(ahead as nat) + " ahead"@] } else { seq![] });
    assert(parts@.map_values(|p: String| p@) =~= want) by {
        if n == 1 {
            assert(first@ + seq![] =~= first@);
        }
    }
    let body = concat("\u{25cb} Showing ", crate::text::join_strings(&parts, ", ").as_str());
    if styled {
        wrap(body.as_str(), Paint::Dim)
    } else {
        body
    }
}

/// Position of the first row named `name` at or after `from`, or -1.
pub open spec fn row_from(rows: Seq<ListRow>, name: Seq<char>, from: int) -> int
    decreases rows.len() - from,
{
    if from < 0 || from >= rows.len() {
        -1
    } else if rows[from].name@ == name {
        from
    } else {
        row_from(rows, name, from + 1)
    }
}

/// Where a row name lies, when it lies anywhere.
pub proof fn lemma_row_from(rows: Seq<ListRow>, name: Seq<char>, from: int)
    requires
        0 <= from,
    ensures
        row_from(rows, name, from) == -1 || (from <= row_from(rows, name, from) < rows.len()
            && rows[row_from(rows, name, from)].name@ == name),
    decreases rows.len() - from,
{
    if from < rows.len() {
        lemma_row_from(rows, name, from + 1);
    }
}

fn find_row(rows: &Vec<ListRow>, name: &str) -> (r: Option<usize>)
    ensures
        match r {
            Some(k) => k < rows@.len() && k as int == row_from(rows@, name@, 0),
            None => row_from(rows@, name@, 0) == -1,
        },
{
    proof {
        lemma_row_from(rows@, name@, 0);
    }
    let mut i: usize = 0;
    while i < rows.len()
        invariant
            i <= rows@.len(),
            row_from(rows@, name@, i as int) == row_from(rows@, name@, 0),
        decreases rows@.len() - i,
    {
        if crate::text::str_eq(rows[i].name.as_str(), name) {
            return Some(i);
        }
        i = i + 1;
    }
    None
}

/// The statusline: `@<current> +A-R ↑H↓B | N ws` for the current
/// workspace's row, `@? | N ws` without one.
pub open spec fn statusline_text(rows: Seq<ListRow>, current: Option<Seq<char>>) -> Seq<char> {
    let total = dec(rows.len());
    let k = match current {
        Some(n) => row_from(rows, n, 0),
        None => -1,
    };
    if k >= 0 {
        let r = rows[k];
        "@"@ + r.name@ + " +"@ + dec(r.head_diff.added as nat) + "-"@ + dec(r.head_diff.removed as nat)
            + " \u{2191}"@ + dec(r.vs_trunk.ahead as nat) + "\u{2193}"@ + dec(r.vs_trunk.behind as nat) + " | "@
            + total + " ws"@
    } else {
        "@? | "@ + total + " ws"@
    }
}

/// Compact one-line summary of workspaces for status display
/// integrations.
pub fn format_statusline(rows: &Vec<ListRow>, current: Option<&str>) -> (r: String)
    ensures
        r@ == statusline_text(rows@, match current { Some(c) => Some(c@), None => None }),
{
    let total = fmt_uint(rows.len() as u64);
    let found: Option<usize> = match current {
        Some(name) => find_row(rows, name),
        None => None,
    };
    match found {
        Some(k) => {
            let r = &rows[k];
            let mut out: Vec<char> = Vec::new();
            push_str(&mut out, "@");
            push_str(&mut out, r.name.as_str());
            push_str(&mut out, " +");
            push_str(&mut out, fmt_uint(r.head_diff.added as u64).as_str());
            push_str(&mut out, "-");
            push_str(&mut out, fmt_uint(r.head_diff.removed as u64).as_str());
            push_str(&mut out, " \u{2191}");
            push_str(&mut out, fmt_uint(r.vs_trunk.ahead as u64).as_str());
            push_str(&mut out, "\u{2193}");
            push_str(&mut out, fmt_uint(r.vs_trunk.behind as u64).as_str());
            push_str(&mut out, " | ");
            push_str(&mut out, total.as_str());
            push_str(&mut out, " ws");
            string_of(&out)
        },
        None => concat(concat("@? | ", total.as_str()).as_str(), " ws"),
    }
}


/// The trunk relation as JSON: a lowercase name, or null without one.
pub open spec fn trunk_rel_json(rel: Option<TrunkRel>) -> JsonView {
    match rel {
        Some(TrunkRel::IsTrunk) => JsonView::Text("is_trunk"@),
        Some(TrunkRel::Ancestor) => JsonView::Text("ancestor"@),
        Some(TrunkRel::Diverged) => JsonView::Text("diverged"@),
        Some(TrunkRel::Ahead) => JsonView::Text("ahead"@),
        Some(TrunkRel::Behind) => JsonView::Text("behind"@),
        _ => JsonView::Null,
    }
}

/// A string, or null when it is empty.
pub open spec fn text_or_null(s: Seq<char>) -> JsonView {
    if s.len() == 0 { JsonView::Null } else { JsonView::Text(s) }
}

/// The JSON object of one list row: the table's columns as raw values.
pub open spec fn row_json(r: &ListRow) -> JsonView {
    JsonView::Object(
        seq![
            ("name"@, JsonView::Text(r.name@)),
            ("kind"@, JsonView::Text(if r.kind == ListRowKind::Workspace { "workspace"@ } else { "branch"@ })),
            ("path"@, JsonView::Text(r.path@)),
            ("url"@, text_or_null(r.url@)),
            ("is_current"@, JsonView::Bool(r.is_current)),
            ("is_default"@, JsonView::Bool(r.is_default)),
            ("commit"@, JsonView::Text(r.commit@)),
            ("age"@, JsonView::Text(r.age@)),
            ("message"@, JsonView::Text(r.message@)),
            (
                "status"@,
                JsonView::Object(
                    seq![
                        ("has_changes"@, JsonView::Bool(r.status.has_changes)),
                        ("modified"@, JsonView::Bool(r.status.modified)),
                        ("untracked"@, JsonView::Bool(r.status.untracked)),
                        ("conflicts"@, JsonView::Bool(r.status.conflicts)),
                        ("stale"@, JsonView::Bool(r.status.stale)),
                        ("has_remote"@, JsonView::Bool(r.status.has_remote)),
                        ("vs_trunk"@, trunk_rel_json(r.status.vs_trunk)),
                    ],
                ),
            ),
            (
                "head_diff"@,
                JsonView::Object(
                    seq![
                        ("added"@, JsonView::Number(r.head_diff.added as u64)),
                        ("removed"@, JsonView::Number(r.head_diff.removed as u64)),
                    ],
                ),
            ),
            (
                "vs_trunk"@,
                JsonView::Object(
                    seq![
                        ("ahead"@, JsonView::Number(r.vs_trunk.ahead as u64)),
                        ("behind"@, JsonView::Number(r.vs_trunk.behind as u64)),
                    ],
                ),
            ),
            ("ci_status"@, JsonView::Text(r.ci_status.name())),
            ("summary"@, text_or_null(r.summary@)),
        ],
    )
}

fn trunk_rel_value(rel: Option<TrunkRel>) -> (r: JsonValue)
    ensures
        r.view() == trunk_rel_json(rel),
{
    match rel {
        Some(TrunkRel::IsTrunk) => JsonValue::Text("is_trunk".to_owned()),
        Some(TrunkRel::Ancestor) => JsonValue::Text("ancestor".to_owned()),
        Some(TrunkRel::Diverged) => JsonValue::Text("diverged".to_owned()),
        Some(TrunkRel::Ahead) => JsonValue::Text("ahead".to_owned()),
        Some(TrunkRel::Behind) => JsonValue::Text("behind".to_owned()),
        _ => JsonValue::Null,
    }
}

fn text_or_null_value(s: &String) -> (r: JsonValue)
    ensures
        r.view() == text_or_null(s@),
{
    if s.as_str().unicode_len() == 0 {
        JsonValue::Null
    } else {
        JsonValue::Text(s.clone())
    }
}

fn list_row_json(r: &ListRow) -> (v: JsonValue)
    ensures
        v.view() == row_json(r),
{
    let status = vec![
        ("has_changes".to_owned(), JsonValue::Bool(r.status.has_changes)),
        ("modified".to_owned(), JsonValue::Bool(r.status.modified)),
        ("untracked".to_owned(), JsonValue::Bool(r.status.untracked)),
        ("conflicts".to_owned(), JsonValue::Bool(r.status.conflicts)),
        ("stale".to_owned(), JsonValue::Bool(r.status.stale)),
        ("has_remote".to_owned(), JsonValue::Bool(r.status.has_remote)),
        ("vs_trunk".to_owned(), trunk_rel_value(r.status.vs_trunk)),
    ];
    let head = vec![
        ("added".to_owned(), JsonValue::Number(r.head_diff.added as u64)),
        ("removed".to_owned(), JsonValue::Number(r.head_diff.removed as u64)),
    ];
    let trunk = vec![
        ("ahead".to_owned(), JsonValue::Number(r.vs_trunk.ahead as u64)),
        ("behind".to_owned(), JsonValue::Number(r.vs_trunk.behind as u64)),
    ];
    let ghost want = row_json(r)->Object_0;
    assert(members_view(status@) =~= want[9].1->Object_0);
    assert(members_view(head@) =~= want[10].1->Object_0);
    assert(members_view(trunk@) =~= want[11].1->Object_0);
    let kind = match r.kind {
        ListRowKind::Workspace => "workspace".to_owned(),
        ListRowKind::Bookmark => "branch".to_owned(),
    };
    let members = vec![
        ("name".to_owned(), JsonValue::Text(r.name.clone())),
        ("kind".to_owned(), JsonValue::Text(kind)),
        ("path".to_owned(), JsonValue::Text(r.path.clone())),
        ("url".to_owned(), text_or_null_value(&r.url)),
        ("is_current".to_owned(), JsonValue::Bool(r.is_current)),
        ("is_default".to_owned(), JsonValue::Bool(r.is_default)),
        ("commit".to_owned(), JsonValue::Text(r.commit.clone())),
        ("age".to_owned(), JsonValue::Text(r.age.clone())),
        ("message".to_owned(), JsonValue::Text(r.message.clone())),
        ("status".to_owned(), object(status)),
        ("head_diff".to_owned(), object(head)),
        ("vs_trunk".to_owned(), object(trunk)),
        ("ci_status".to_owned(), JsonValue::Text(r.ci_status.to_string())),
        ("summary".to_owned(), text_or_null_value(&r.summary)),
    ];
    assert(members_view(members@) =~= want);
    object(members)
}

/// What the list looks like as JSON: one object per row.
pub open spec fn list_json(rows: Seq<ListRow>) -> JsonView {
    JsonView::Array(rows.map_values(|r: ListRow| row_json(&r)))
}

/// Render the list as a pretty-printed JSON array, one object per row.
pub fn format_list_json(rows: &Vec<ListRow>) -> (r: String)
    ensures
        r@ == json_pretty_text(list_json(rows@)),
{
    let mut items: Vec<JsonValue> = Vec::new();
    let mut i: usize = 0;
    while i < rows.len()
        invariant
            i <= rows@.len(),
            items_view(items@) == rows@.take(i as int).map_values(|r: ListRow| row_json(&r)),
        decreases rows@.len() - i,
    {
        let ghost prev = items@;
        items.push(list_row_json(&rows[i]));
        assert(items_view(items@) =~= items_view(prev).push(row_json(&rows@[i as int])));
        assert(rows@.take(i + 1).map_values(|r: ListRow| row_json(&r)) =~= rows@.take(i as int).map_values(
            |r: ListRow| row_json(&r),
        ).push(row_json(&rows@[i as int])));
        i = i + 1;
    }
    assert(rows@.take(rows@.len() as int) =~= rows@);
    let ghost iv = items_view(items@);
    let arr = JsonValue::Array(items);
    assert(arr.view()->Array_0 =~= iv);
    write_json_pretty(&arr)
}


/// The heading of column `c`.
pub open spec fn header(c: int) -> Seq<char> {
    if c == 0 {
        "Branch"@
    } else if c == 1 {
        "Status"@
    } else if c == 2 {
        "HEAD\u{b1}"@
    } else if c == 3 {
        "main\u{2195}"@
    } else if c == 4 {
        "CI"@
    } else if c == 5 {
        "Path"@
    } else if c == 6 {
        "URL"@
    } else if c == 7 {
        "Commit"@
    } else if c == 8 {
        "Age"@
    } else if c == 9 {
        "Message"@
    } else {
        "Summary"@
    }
}

/// Priority of column `c` when space is short (lower is kept first).
pub open spec fn col_priority(c: int) -> int {
    if c <= 4 {
        c + 1
    } else if c == 5 {
        7
    } else if c == 6 {
        9
    } else if c == 7 {
        11
    } else if c == 8 {
        12
    } else if c == 9 {
        13
    } else {
        6
    }
}

/// The least width of a column that may be squeezed.
pub open spec fn col_min(c: int) -> Option<int> {
    if c == 0 {
        Some(6)
    } else if c == 9 {
        Some(10)
    } else if c == 10 {
        Some(8)
    } else {
        None
    }
}

/// The most width a column asks for.
pub open spec fn col_max(c: int) -> Option<int> {
    if c == 9 {
        Some(100)
    } else if c == 10 {
        Some(50)
    } else {
        None
    }
}

/// Whether column `c` (Branch alone) takes whatever room is left.
pub open spec fn col_shrinkable(c: int) -> bool {
    c == 0
}

/// Whether column `c` is right-aligned (the two count columns).
pub open spec fn col_right(c: int) -> bool {
    c == 2 || c == 3
}

/// Whether the cells of column `c` are cut to its width.
pub open spec fn col_truncatable(c: int) -> bool {
    c == 5 || c == 6 || c == 9 || c == 10
}

/// Whether column `c` is shown only with `--full` (CI, URL, Commit, Age,
/// Summary).
pub open spec fn col_optional(c: int) -> bool {
    c == 4 || c == 6 || c == 7 || c == 8 || c == 10
}

/// Whether column `c` takes part in the table.
pub open spec fn col_shown(c: int, full: bool) -> bool {
    full || !col_optional(c)
}

/// A table of cells: rows of eleven (plain, display) cells.
pub type CellTable = Seq<Seq<(Seq<char>, Seq<char>)>>;

/// The natural width of column `c` over the first `n` rows: the widest of
/// its heading and its cells.
pub open spec fn ideal_width(cells: CellTable, c: int, n: int) -> int
    decreases n,
{
    if n <= 0 {
        text_cols(header(c)) as int
    } else {
        let p = ideal_width(cells, c, n - 1);
        let w = text_cols(cells[n - 1][c].0) as int;
        if w > p { w } else { p }
    }
}

/// Whether column `c` is empty in the first `n` rows.
pub open spec fn col_empty(cells: CellTable, c: int, n: int) -> bool
    decreases n,
{
    if n <= 0 {
        true
    } else {
        col_empty(cells, c, n - 1) && text_cols(cells[n - 1][c].0) == 0
    }
}

/// The order key of column `c`: its priority, raised by ten when the
/// column is empty, then its index.
pub open spec fn col_key(cells: CellTable, c: int) -> int {
    (col_priority(c) + if col_empty(cells, c, cells.len() as int) { 10int } else { 0int }) * 16 + c
}

/// Among the first `n` columns, the one of least key above `last`, or -1.
pub open spec fn argmin_above(keys: Seq<int>, last: int, n: int) -> int
    decreases n,
{
    if n <= 0 {
        -1
    } else {
        let b = argmin_above(keys, last, n - 1);
        if keys[n - 1] > last && (b < 0 || keys[n - 1] < keys[b]) {
            n - 1
        } else {
            b
        }
    }
}

/// The column handled at step `p`: columns are taken in increasing key.
pub open spec fn nth_col(keys: Seq<int>, p: nat) -> int
    decreases p,
{
    if p == 0 {
        argmin_above(keys, -1, 11)
    } else {
        let q = nth_col(keys, (p - 1) as nat);
        argmin_above(keys, if 0 <= q < 11 { keys[q] } else { -1 }, 11)
    }
}

/// How many of the first `n` columns are visible.
pub open spec fn vis_count(v: Seq<bool>, n: int) -> int
    decreases n,
{
    if n <= 0 {
        0
    } else {
        vis_count(v, n - 1) + if v[n - 1] { 1int } else { 0int }
    }
}

/// The widths of the visible columns among the first `n`, summed.
pub open spec fn vis_sum(w: Seq<int>, v: Seq<bool>, n: int) -> int
    decreases n,
{
    if n <= 0 {
        0
    } else {
        vis_sum(w, v, n - 1) + if v[n - 1] { w[n - 1] } else { 0int }
    }
}

/// The room the visible columns take: their widths and a two-space
/// separator between neighbours.
pub open spec fn used_width(w: Seq<int>, v: Seq<bool>) -> int {
    vis_sum(w, v, 11) + if vis_count(v, 11) > 0 { 2 * (vis_count(v, 11) - 1) } else { 0 }
}

/// What column `c` asks for: its natural width, capped by its maximum.
pub open spec fn want_of(cells: CellTable, c: int) -> int {
    let i = ideal_width(cells, c, cells.len() as int);
    match col_max(c) {
        Some(m) => if i < m { i } else { m },
        None => i,
    }
}

/// Widths, visibility and room left while columns are placed.
pub type Alloc = (Seq<int>, Seq<bool>, int);

/// Placing column `c`, which asks for `want`: in full when it fits with
/// its separator; a squeezable column takes the rest when its minimum
/// fits; a column with a minimum takes that when it fits; otherwise it is
/// hidden.
pub open spec fn alloc_step(st: Alloc, c: int, want: int, full: bool) -> Alloc {
    let (w, v, rem) = st;
    let sep: int = if vis_count(v, 11) > 0 { 2 } else { 0 };
    if c < 0 || c >= 11 || v[c] || !col_shown(c, full) {
        st
    } else if want + sep <= rem {
        (w.update(c, want), v.update(c, true), rem - want - sep)
    } else if col_shrinkable(c) {
        let m = match col_min(c) {
            Some(m) => m,
            None => 1,
        };
        if m + sep <= rem {
            (w.update(c, rem - sep), v.update(c, true), 0)
        } else {
            st
        }
    } else {
        match col_min(c) {
            Some(m) => if m + sep <= rem {
                (w.update(c, m), v.update(c, true), rem - m - sep)
            } else {
                st
            },
            None => st,
        }
    }
}

/// The keys of the eleven columns.
pub open spec fn keys_of(cells: CellTable) -> Seq<int> {
    Seq::new(11, |c: int| col_key(cells, c))
}

/// The placement after `p` steps within `budget`.
pub open spec fn placement(cells: CellTable, full: bool, budget: int, p: nat) -> Alloc
    decreases p,
{
    if p == 0 {
        (Seq::new(11, |i: int| 0int), Seq::new(11, |i: int| false), budget)
    } else {
        let c = nth_col(keys_of(cells), (p - 1) as nat);
        alloc_step(placement(cells, full, budget, (p - 1) as nat), c, want_of(cells, c), full)
    }
}

/// The room for columns on a terminal `t` wide: all but the gutter.
pub open spec fn budget_of(t: u16) -> int {
    if t >= 2 { t - 2 } else { 0 }
}

/// Column widths and visibility: natural widths when the terminal width
/// is unknown; otherwise columns placed by priority within the terminal,
/// with room left over going to Message up to its maximum.
pub open spec fn widths_of(cells: CellTable, tw: Option<u16>, full: bool) -> (Seq<int>, Seq<bool>) {
    match tw {
        None => (
            Seq::new(11, |c: int| ideal_width(cells, c, cells.len() as int)),
            Seq::new(11, |c: int| col_shown(c, full)),
        ),
        Some(t) => {
            let (w, v, rem) = placement(cells, full, budget_of(t), 11);
            if v[9] && rem > 0 {
                let room = if 100 >= w[9] { 100 - w[9] } else { 0 };
                let e = if rem < room { rem } else { room };
                (w.update(9, w[9] + e), v)
            } else {
                (w, v)
            }
        },
    }
}

proof fn lemma_vis_add(w: Seq<int>, v: Seq<bool>, c: int, x: int, n: int)
    requires
        0 <= c < 11,
        w.len() == 11,
        v.len() == 11,
        !v[c],
        0 <= n <= 11,
    ensures
        vis_sum(w.update(c, x), v.update(c, true), n) == vis_sum(w, v, n) + if c < n { x } else { 0 },
        vis_count(v.update(c, true), n) == vis_count(v, n) + if c < n { 1int } else { 0int },
    decreases n,
{
    if n > 0 {
        lemma_vis_add(w, v, c, x, n - 1);
    }
}

proof fn lemma_vis_grow(w: Seq<int>, v: Seq<bool>, c: int, e: int, n: int)
    requires
        0 <= c < 11,
        w.len() == 11,
        v.len() == 11,
        v[c],
        0 <= n <= 11,
    ensures
        vis_sum(w.update(c, w[c] + e), v, n) == vis_sum(w, v, n) + if c < n { e } else { 0 },
    decreases n,
{
    if n > 0 {
        lemma_vis_grow(w, v, c, e, n - 1);
    }
}

proof fn lemma_vis_zero(w: Seq<int>, v: Seq<bool>, n: int)
    requires
        0 <= n <= v.len(),
        forall|i: int| 0 <= i < v.len() ==> !v[i],
    ensures
        vis_count(v, n) == 0,
        vis_sum(w, v, n) == 0,
    decreases n,
{
    if n > 0 {
        lemma_vis_zero(w, v, n - 1);
    }
}

proof fn lemma_vis_count_bounds(v: Seq<bool>, n: int)
    requires
        0 <= n,
    ensures
        0 <= vis_count(v, n) <= n,
    decreases n,
{
    if n > 0 {
        lemma_vis_count_bounds(v, n - 1);
    }
}

/// Each placement step keeps the room taken plus the room left equal to
/// the budget.
proof fn lemma_alloc_step(st: Alloc, c: int, want: int, full: bool, budget: int)
    requires
        st.0.len() == 11,
        st.1.len() == 11,
        st.2 >= 0,
        want >= 0,
        used_width(st.0, st.1) + st.2 == budget,
    ensures
        alloc_step(st, c, want, full).0.len() == 11,
        alloc_step(st, c, want, full).1.len() == 11,
        alloc_step(st, c, want, full).2 >= 0,
        used_width(alloc_step(st, c, want, full).0, alloc_step(st, c, want, full).1) + alloc_step(
            st,
            c,
            want,
            full,
        ).2 == budget,
{
    let (w, v, rem) = st;
    lemma_vis_count_bounds(v, 11);
    if 0 <= c < 11 && !v[c] {
        lemma_vis_add(w, v, c, want, 11);
        lemma_vis_add(w, v, c, rem - (if vis_count(v, 11) > 0 { 2int } else { 0int }), 11);
        match col_min(c) {
            Some(m) => {
                lemma_vis_add(w, v, c, m, 11);
            },
            None => {},
        }
    }
}

/// Placement keeps the room taken plus the room left equal to the budget.
proof fn lemma_placement(cells: CellTable, full: bool, budget: int, p: nat)
    requires
        budget >= 0,
        forall|c: int| 0 <= c < 11 ==> want_of(cells, c) >= 0,
    ensures
        placement(cells, full, budget, p).0.len() == 11,
        placement(cells, full, budget, p).1.len() == 11,
        placement(cells, full, budget, p).2 >= 0,
        used_width(placement(cells, full, budget, p).0, placement(cells, full, budget, p).1) + placement(
            cells,
            full,
            budget,
            p,
        ).2 == budget,
    decreases p,
{
    if p == 0 {
        let st = placement(cells, full, budget, 0);
        lemma_vis_zero(st.0, st.1, 11);
    } else {
        lemma_placement(cells, full, budget, (p - 1) as nat);
        let c = nth_col(keys_of(cells), (p - 1) as nat);
        let prev = placement(cells, full, budget, (p - 1) as nat);
        if 0 <= c < 11 {
            lemma_alloc_step(prev, c, want_of(cells, c), full, budget);
        }
    }
}

proof fn lemma_ideal_nonneg(cells: CellTable, c: int, n: int)
    ensures
        ideal_width(cells, c, n) >= 0,
    decreases n,
{
    if n > 0 {
        lemma_ideal_nonneg(cells, c, n - 1);
    }
}

/// Fitting the terminal: when its width is known, the visible columns
/// with their separators take no more room than the terminal has beside
/// the gutter.
pub proof fn law_columns_fit(cells: CellTable, t: u16, full: bool)
    ensures
        used_width(widths_of(cells, Some(t), full).0, widths_of(cells, Some(t), full).1) <= budget_of(t),
{
    assert forall|c: int| 0 <= c < 11 implies want_of(cells, c) >= 0 by {
        lemma_ideal_nonneg(cells, c, cells.len() as int);
    }
    lemma_placement(cells, full, budget_of(t), 11);
    let (w, v, rem) = placement(cells, full, budget_of(t), 11);
    if v[9] && rem > 0 {
        let room = if 100 >= w[9] { 100 - w[9] } else { 0 };
        let e = if rem < room { rem } else { room };
        lemma_vis_grow(w, v, 9, e, 11);
    }
}

/// How many of the first `n` keys are below `x`.
pub open spec fn count_below(keys: Seq<int>, x: int, n: int) -> int
    decreases n,
{
    if n <= 0 {
        0
    } else {
        count_below(keys, x, n - 1) + if keys[n - 1] < x { 1int } else { 0int }
    }
}

/// The place of column `c` in the order of the keys.
pub open spec fn key_rank(keys: Seq<int>, c: int) -> int {
    count_below(keys, keys[c], 11)
}

/// Among the first `n` keys, the index of the largest one below `x`, or -1.
pub open spec fn argmax_below(keys: Seq<int>, x: int, n: int) -> int
    decreases n,
{
    if n <= 0 {
        -1
    } else {
        let b = argmax_below(keys, x, n - 1);
        if keys[n - 1] < x && (b < 0 || keys[n - 1] > keys[b]) {
            n - 1
        } else {
            b
        }
    }
}

/// Eleven distinct, non-negative keys.
pub open spec fn good_keys(keys: Seq<int>) -> bool {
    &&& keys.len() == 11
    &&& forall|j: int| 0 <= j < 11 ==> keys[j] >= 0
    &&& forall|a: int, b: int| 0 <= a < 11 && 0 <= b < 11 && a != b ==> keys[a] != keys[b]
}

proof fn lemma_argmin_above(keys: Seq<int>, last: int, n: int)
    requires
        0 <= n <= keys.len(),
    ensures
        argmin_above(keys, last, n) == -1 <==> forall|j: int| 0 <= j < n ==> keys[j] <= last,
        argmin_above(keys, last, n) != -1 ==> {
            let b = argmin_above(keys, last, n);
            &&& 0 <= b < n
            &&& keys[b] > last
            &&& forall|j: int| 0 <= j < n && keys[j] > last ==> keys[b] <= keys[j]
        },
    decreases n,
{
    if n > 0 {
        lemma_argmin_above(keys, last, n - 1);
    }
}

proof fn lemma_argmax_below(keys: Seq<int>, x: int, n: int)
    requires
        0 <= n <= keys.len(),
    ensures
        argmax_below(keys, x, n) == -1 <==> forall|j: int| 0 <= j < n ==> keys[j] >= x,
        argmax_below(keys, x, n) != -1 ==> {
            let d = argmax_below(keys, x, n);
            &&& 0 <= d < n
            &&& keys[d] < x
            &&& forall|j: int| 0 <= j < n && keys[j] < x ==> keys[j] <= keys[d]
        },
    decreases n,
{
    if n > 0 {
        lemma_argmax_below(keys, x, n - 1);
    }
}

proof fn lemma_count_zero(keys: Seq<int>, x: int, n: int)
    requires
        0 <= n <= keys.len(),
    ensures
        count_below(keys, x, n) >= 0,
        count_below(keys, x, n) == 0 <==> forall|j: int| 0 <= j < n ==> keys[j] >= x,
    decreases n,
{
    if n > 0 {
        lemma_count_zero(keys, x, n - 1);
    }
}

proof fn lemma_count_le(keys: Seq<int>, x: int, c: int, n: int)
    requires
        0 <= n <= keys.len(),
        0 <= c < keys.len(),
        keys[c] >= x,
    ensures
        count_below(keys, x, n) <= n - if c < n { 1int } else { 0int },
    decreases n,
{
    if n > 0 {
        lemma_count_le(keys, x, c, n - 1);
    }
}

proof fn lemma_count_shift(keys: Seq<int>, x: int, y: int, d: int, n: int)
    requires
        0 <= n <= keys.len(),
        0 <= d < keys.len(),
        keys[d] >= y,
        forall|j: int| 0 <= j < n ==> ((keys[j] < x) <==> (keys[j] < y || j == d)),
    ensures
        count_below(keys, x, n) == count_below(keys, y, n) + if d < n { 1int } else { 0int },
    decreases n,
{
    if n > 0 {
        lemma_count_shift(keys, x, y, d, n - 1);
    }
}

/// The column of rank `r` is the one handled at step `r`.
proof fn lemma_nth_col_rank(keys: Seq<int>, c: int)
    requires
        good_keys(keys),
        0 <= c < 11,
    ensures
        nth_col(keys, key_rank(keys, c) as nat) == c,
        0 <= key_rank(keys, c) <= 10,
    decreases key_rank(keys, c),
{
    lemma_count_zero(keys, keys[c], 11);
    lemma_count_le(keys, keys[c], c, 11);
    let p = key_rank(keys, c);
    if p == 0 {
        lemma_argmin_above(keys, -1, 11);
        let b = argmin_above(keys, -1, 11);
        assert(b != -1) by {
            assert(keys[c] > -1);
        }
        assert(keys[b] <= keys[c] && keys[c] <= keys[b]);
    } else {
        lemma_argmax_below(keys, keys[c], 11);
        let d = argmax_below(keys, keys[c], 11);
        assert(d != -1);
        assert forall|j: int| 0 <= j < 11 implies ((keys[j] < keys[c]) <==> (keys[j] < keys[d] || j == d)) by {
            if keys[j] < keys[c] && j != d {
                assert(keys[j] <= keys[d]);
                assert(keys[j] != keys[d]);
            }
        }
        lemma_count_shift(keys, keys[c], keys[d], d, 11);
        assert(key_rank(keys, d) == p - 1);
        lemma_nth_col_rank(keys, d);
        assert(nth_col(keys, (p - 1) as nat) == d);
        lemma_argmin_above(keys, keys[d], 11);
        let b = argmin_above(keys, keys[d], 11);
        assert(b != -1) by {
            assert(keys[c] > keys[d]);
        }
        assert forall|j: int| 0 <= j < 11 && keys[j] > keys[d] implies keys[c] <= keys[j] by {
            if keys[j] < keys[c] {
                assert(keys[j] < keys[d] || j == d);
            }
        }
        assert(keys[b] <= keys[c] && keys[c] <= keys[b]);
        assert(nth_col(keys, p as nat) == argmin_above(keys, keys[d], 11));
    }
}

/// The keys of the columns are distinct and non-negative.
proof fn lemma_good_keys(cells: CellTable)
    ensures
        good_keys(keys_of(cells)),
{
    let keys = keys_of(cells);
    assert forall|a: int, b: int| 0 <= a < 11 && 0 <= b < 11 && a != b implies keys[a] != keys[b] by {
        let pa = col_priority(a) + if col_empty(cells, a, cells.len() as int) { 10int } else { 0int };
        let pb = col_priority(b) + if col_empty(cells, b, cells.len() as int) { 10int } else { 0int };
        assert(keys[a] == pa * 16 + a);
        assert(keys[b] == pb * 16 + b);
        assert(pa * 16 + a != pb * 16 + b) by (nonlinear_arith)
            requires
                0 <= a < 11,
                0 <= b < 11,
                a != b,
        ;
    }
    assert forall|j: int| 0 <= j < 11 implies keys[j] >= 0 by {
        assert(col_priority(j) >= 1);
    }
}

/// The room the shown columns not yet visible among the first `n` still
/// ask for, each with a separator.
pub open spec fn room_needed(cells: CellTable, full: bool, v: Seq<bool>, n: int) -> int
    decreases n,
{
    if n <= 0 {
        0
    } else {
        room_needed(cells, full, v, n - 1) + if col_shown(n - 1, full) && !v[n - 1] {
            want_of(cells, n - 1) + 2
        } else {
            0int
        }
    }
}

/// The room every shown column asks for at its natural width (capped by
/// its maximum), with separators.
pub open spec fn room_for_all(cells: CellTable, full: bool) -> int {
    room_needed(cells, full, Seq::new(11, |i: int| false), 11)
}

proof fn lemma_room_update(cells: CellTable, full: bool, v: Seq<bool>, s: int, n: int)
    requires
        v.len() == 11,
        0 <= s < 11,
        0 <= n <= 11,
        col_shown(s, full),
        !v[s],
        forall|c: int| 0 <= c < 11 ==> want_of(cells, c) >= 0,
    ensures
        room_needed(cells, full, v.update(s, true), n) == room_needed(cells, full, v, n) - if s < n {
            want_of(cells, s) + 2
        } else {
            0int
        },
        room_needed(cells, full, v.update(s, true), n) >= 0,
    decreases n,
{
    if n > 0 {
        lemma_room_update(cells, full, v, s, n - 1);
    }
}

/// Column `c` was handled within the first `p` steps.
pub open spec fn handled(keys: Seq<int>, c: int, p: nat) -> bool {
    exists|q: nat| q < p && #[trigger] nth_col(keys, q) == c
}

proof fn lemma_placement_roomy(cells: CellTable, full: bool, budget: int, p: nat)
    requires
        p <= 11,
        forall|c: int| 0 <= c < 11 ==> want_of(cells, c) >= 0,
        budget >= room_for_all(cells, full),
    ensures
        placement(cells, full, budget, p).0.len() == 11,
        placement(cells, full, budget, p).1.len() == 11,
        forall|c: int| 0 <= c < 11 ==> (#[trigger] placement(cells, full, budget, p).1[c] <==> col_shown(c, full)
            && handled(keys_of(cells), c, p)),
        forall|c: int| 0 <= c < 11 && #[trigger] placement(cells, full, budget, p).1[c] ==> placement(
            cells,
            full,
            budget,
            p,
        ).0[c] == want_of(cells, c),
        placement(cells, full, budget, p).2 >= room_needed(cells, full, placement(cells, full, budget, p).1, 11),
    decreases p,
{
    let keys = keys_of(cells);
    if p == 0 {
        let v0 = Seq::new(11, |i: int| false);
        assert(placement(cells, full, budget, 0).1 =~= v0);
    } else {
        lemma_placement_roomy(cells, full, budget, (p - 1) as nat);
        let st = placement(cells, full, budget, (p - 1) as nat);
        let (w, v, rem) = st;
        let s = nth_col(keys, (p - 1) as nat);
        let want = want_of(cells, s);
        lemma_vis_count_bounds(v, 11);
        assert forall|c: int| 0 <= c < 11 && handled(keys, c, (p - 1) as nat) implies handled(keys, c, p) by {
            let q = choose|q: nat| q < (p - 1) as nat && #[trigger] nth_col(keys, q) == c;
            assert(q < p && nth_col(keys, q) == c);
        }
        assert(handled(keys, s, p)) by {
            assert(((p - 1) as nat) < p && nth_col(keys, (p - 1) as nat) == s);
        }
        assert forall|c: int| 0 <= c < 11 && handled(keys, c, p) && c != s implies handled(
            keys,
            c,
            (p - 1) as nat,
        ) by {
            let q = choose|q: nat| q < p && #[trigger] nth_col(keys, q) == c;
            assert(q != (p - 1) as nat);
        }
        if 0 <= s < 11 && !v[s] && col_shown(s, full) {
            lemma_room_update(cells, full, v, s, 11);
            let sep: int = if vis_count(v, 11) > 0 { 2 } else { 0 };
            assert(want + sep <= rem);
            let v2 = v.update(s, true);
            assert(placement(cells, full, budget, p) == (w.update(s, want), v2, rem - want - sep));
            assert forall|c: int| 0 <= c < 11 implies (#[trigger] v2[c] <==> col_shown(c, full) && handled(
                keys,
                c,
                p,
            )) by {
                if c != s {
                    assert(v2[c] == v[c]);
                }
            }
        } else {
            assert(placement(cells, full, budget, p) == st);
        }
    }
}

/// When the terminal has room for every shown column at the width it asks
/// for, none is hidden and each gets at least that width; the columns that
/// are not shown stay hidden.
pub proof fn law_columns_all_visible_with_room(cells: CellTable, t: u16, full: bool)
    requires
        budget_of(t) >= room_for_all(cells, full),
    ensures
        forall|c: int| 0 <= c < 11 ==> (#[trigger] widths_of(cells, Some(t), full).1[c] <==> col_shown(c, full)),
        forall|c: int| 0 <= c < 11 && col_shown(c, full) ==> #[trigger] widths_of(cells, Some(t), full).0[c]
            >= want_of(cells, c),
{
    assert forall|c: int| 0 <= c < 11 implies want_of(cells, c) >= 0 by {
        lemma_ideal_nonneg(cells, c, cells.len() as int);
    }
    lemma_good_keys(cells);
    let keys = keys_of(cells);
    lemma_placement_roomy(cells, full, budget_of(t), 11);
    assert forall|c: int| 0 <= c < 11 implies handled(keys, c, 11) by {
        lemma_nth_col_rank(keys, c);
        let r = key_rank(keys, c) as nat;
        assert(r < 11 && nth_col(keys, r) == c);
    }
    let (w, v, rem) = placement(cells, full, budget_of(t), 11);
    assert forall|c: int| 0 <= c < 11 && col_shown(c, full) implies #[trigger] widths_of(cells, Some(t), full).0[c]
        >= want_of(cells, c) by {
        assert(v[c]);
        assert(w[c] == want_of(cells, c));
        if v[9] && rem > 0 {
            let room = if 100 >= w[9] { 100 - w[9] } else { 0 };
            let e = if rem < room { rem } else { room };
            assert(e >= 0);
            assert(widths_of(cells, Some(t), full).0 == w.update(9, w[9] + e));
        } else {
            assert(widths_of(cells, Some(t), full).0 == w);
        }
    }
}


/// The cells of a table, as text.
pub open spec fn cells_view(cells: Seq<Vec<Cell>>) -> CellTable {
    cells.map_values(|row: Vec<Cell>| row@.map_values(|c: Cell| c.view()))
}

/// Whether every row has eleven cells.
pub open spec fn rows_of_eleven(cells: Seq<Vec<Cell>>) -> bool {
    forall|r: int| 0 <= r < cells.len() ==> #[trigger] cells[r]@.len() == 11
}

/// Widths as integers.
pub open spec fn ints(w: Seq<usize>) -> Seq<int> {
    w.map_values(|x: usize| x as int)
}

fn header_text(c: usize) -> (r: &'static str)
    requires
        c < 11,
    ensures
        r@ == header(c as int),
{
    match c {
        0 => "Branch",
        1 => "Status",
        2 => "HEAD\u{b1}",
        3 => "main\u{2195}",
        4 => "CI",
        5 => "Path",
        6 => "URL",
        7 => "Commit",
        8 => "Age",
        9 => "Message",
        _ => "Summary",
    }
}

fn priority_of(c: usize) -> (r: i64)
    requires
        c < 11,
    ensures
        r == col_priority(c as int),
{
    match c {
        0 => 1,
        1 => 2,
        2 => 3,
        3 => 4,
        4 => 5,
        5 => 7,
        6 => 9,
        7 => 11,
        8 => 12,
        9 => 13,
        _ => 6,
    }
}

fn min_of(c: usize) -> (r: Option<usize>)
    ensures
        match r {
            Some(m) => col_min(c as int) == Some(m as int),
            None => col_min(c as int).is_none(),
        },
{
    if c == 0 {
        Some(6)
    } else if c == 9 {
        Some(10)
    } else if c == 10 {
        Some(8)
    } else {
        None
    }
}

fn max_of(c: usize) -> (r: Option<usize>)
    ensures
        match r {
            Some(m) => col_max(c as int) == Some(m as int),
            None => col_max(c as int).is_none(),
        },
{
    if c == 9 {
        Some(100)
    } else if c == 10 {
        Some(50)
    } else {
        None
    }
}

fn shown(c: usize, full: bool) -> (r: bool)
    ensures
        r == col_shown(c as int, full),
{
    full || !(c == 4 || c == 6 || c == 7 || c == 8 || c == 10)
}

fn argmin_key(keys: &Vec<i64>, last: i64) -> (r: i64)
    requires
        keys@.len() == 11,
    ensures
        r == argmin_above(keys@.map_values(|k: i64| k as int), last as int, 11),
        -1 <= r < 11,
{
    let ghost kv = keys@.map_values(|k: i64| k as int);
    let mut best: i64 = -1;
    let mut j: usize = 0;
    while j < 11
        invariant
            j <= 11,
            keys@.len() == 11,
            kv == keys@.map_values(|k: i64| k as int),
            best == argmin_above(kv, last as int, j as int),
            -1 <= best < j,
        decreases 11 - j,
    {
        if keys[j] > last && (best < 0 || keys[j] < keys[best as usize]) {
            best = j as i64;
        }
        j = j + 1;
    }
    best
}

/// Place one column as `alloc_step` says.
fn place_column(
    widths: &mut Vec<usize>,
    visible: &mut Vec<bool>,
    remaining: &mut usize,
    nvis: &mut usize,
    cu: usize,
    want: usize,
    full: bool,
)
    requires
        old(widths)@.len() == 11,
        old(visible)@.len() == 11,
        cu < 11,
        *old(nvis) as int == vis_count(old(visible)@, 11),
    ensures
        final(widths)@.len() == 11,
        final(visible)@.len() == 11,
        *final(nvis) as int == vis_count(final(visible)@, 11),
        (ints(final(widths)@), final(visible)@, *final(remaining) as int) == alloc_step(
            (ints(old(widths)@), old(visible)@, *old(remaining) as int),
            cu as int,
            want as int,
            full,
        ),
{
    let ghost st = (ints(widths@), visible@, *remaining as int);
    proof {
        lemma_vis_count_bounds(visible@, 11);
        if !visible@[cu as int] {
            lemma_vis_add(ints(widths@), visible@, cu as int, 0, 11);
        }
    }
    let sep: usize = if *nvis > 0 { 2 } else { 0 };
    if visible[cu] || !shown(cu, full) {
        return;
    }
    if sep <= *remaining && want <= *remaining - sep {
        widths.set(cu, want);
        visible.set(cu, true);
        *remaining = *remaining - want - sep;
        *nvis = *nvis + 1;
    } else if cu == 0 {
        let m: usize = match min_of(cu) {
            Some(m) => m,
            None => 1,
        };
        if sep <= *remaining && m <= *remaining - sep {
            widths.set(cu, *remaining - sep);
            visible.set(cu, true);
            *remaining = 0;
            *nvis = *nvis + 1;
        }
    } else {
        match min_of(cu) {
            Some(m) => {
                if sep <= *remaining && m <= *remaining - sep {
                    widths.set(cu, m);
                    visible.set(cu, true);
                    *remaining = *remaining - m - sep;
                    *nvis = *nvis + 1;
                }
            },
            None => {},
        }
    }
    assert(ints(widths@) =~= alloc_step(st, cu as int, want as int, full).0);
    assert(visible@ =~= alloc_step(st, cu as int, want as int, full).1);
}

/// Compute column widths and a visibility mask: natural widths when the
/// terminal width is unknown; otherwise columns are kept by priority,
/// squeezed and capped to fit.
fn compute_widths(cells: &Vec<Vec<Cell>>, term_width: Option<u16>, full: bool) -> (r: (Vec<usize>, Vec<bool>))
    requires
        rows_of_eleven(cells@),
    ensures
        r.0@.len() == 11,
        r.1@.len() == 11,
        (ints(r.0@), r.1@) == widths_of(cells_view(cells@), term_width, full),
{
    let ghost ct = cells_view(cells@);
    let n = cells.len();
    let mut ideal: Vec<usize> = Vec::new();
    let mut empty: Vec<bool> = Vec::new();
    let mut c: usize = 0;
    while c < 11
        invariant
            c <= 11,
            n == cells@.len(),
            ct == cells_view(cells@),
            rows_of_eleven(cells@),
            ideal@.len() == c,
            empty@.len() == c,
            forall|q: int| 0 <= q < c ==> ideal@[q] as int == ideal_width(ct, q, n as int),
            forall|q: int| 0 <= q < c ==> empty@[q] == col_empty(ct, q, n as int),
        decreases 11 - c,
    {
        let mut best = str_width(header_text(c));
        let mut all_empty = true;
        let mut r: usize = 0;
        while r < n
            invariant
                c < 11,
                r <= n,
                n == cells@.len(),
                ct == cells_view(cells@),
                rows_of_eleven(cells@),
                best as int == ideal_width(ct, c as int, r as int),
                all_empty == col_empty(ct, c as int, r as int),
            decreases n - r,
        {
            assert(cells@[r as int]@.len() == 11);
            assert(ct[r as int][c as int] == cells@[r as int]@[c as int].view());
            let w = cells[r][c].width();
            if w > best {
                best = w;
            }
            if w != 0 {
                all_empty = false;
            }
            r = r + 1;
        }
        ideal.push(best);
        empty.push(all_empty);
        c = c + 1;
    }
    match term_width {
        None => {
            let mut vis: Vec<bool> = Vec::new();
            let mut q: usize = 0;
            while q < 11
                invariant
                    q <= 11,
                    vis@.len() == q,
                    forall|j: int| 0 <= j < q ==> vis@[j] == col_shown(j, full),
                decreases 11 - q,
            {
                vis.push(shown(q, full));
                q = q + 1;
            }
            assert(ints(ideal@) =~= Seq::new(11, |c: int| ideal_width(ct, c, ct.len() as int)));
            assert(vis@ =~= Seq::new(11, |c: int| col_shown(c, full)));
            (ideal, vis)
        },
        Some(t) => {
            let mut keys: Vec<i64> = Vec::new();
            let mut q: usize = 0;
            while q < 11
                invariant
                    q <= 11,
                    empty@.len() == 11,
                    n == cells@.len(),
                    ct == cells_view(cells@),
                    forall|j: int| 0 <= j < 11 ==> empty@[j] == col_empty(ct, j, n as int),
                    keys@.len() == q,
                    forall|j: int| 0 <= j < q ==> keys@[j] as int == col_key(ct, j),
                decreases 11 - q,
            {
                let pen: i64 = if empty[q] { 10 } else { 0 };
                keys.push((priority_of(q) + pen) * 16 + q as i64);
                q = q + 1;
            }
            let ghost kv = keys@.map_values(|k: i64| k as int);
            assert(kv =~= keys_of(ct));
            let tw = t as usize;
            let budget: usize = if tw >= 2 { tw - 2 } else { 0 };
            let mut widths: Vec<usize> = vec![0, 0, 0, 0, 0, 0, 0, 0, 0, 0, 0];
            let mut visible: Vec<bool> = vec![false, false, false, false, false, false, false, false, false, false, false];
            let mut remaining: usize = budget;
            let mut nvis: usize = 0;
            let mut last: i64 = -1;
            assert(ints(widths@) =~= Seq::new(11, |i: int| 0int));
            assert(visible@ =~= Seq::new(11, |i: int| false));
            proof {
                lemma_vis_zero(ints(widths@), visible@, 11);
            }
            let mut p: usize = 0;
            while p < 11
                invariant
                    p <= 11,
                    ideal@.len() == 11,
                    keys@.len() == 11,
                    widths@.len() == 11,
                    visible@.len() == 11,
                    n == cells@.len(),
                    ct == cells_view(cells@),
                    kv == keys@.map_values(|k: i64| k as int),
                    kv == keys_of(ct),
                    forall|j: int| 0 <= j < 11 ==> ideal@[j] as int == ideal_width(ct, j, n as int),
                    (ints(widths@), visible@, remaining as int) == placement(ct, full, budget as int, p as nat),
                    nvis as int == vis_count(visible@, 11),
                    p == 0 ==> last == -1,
                    p > 0 ==> last as int == (if 0 <= nth_col(kv, (p - 1) as nat) < 11 {
                        kv[nth_col(kv, (p - 1) as nat)]
                    } else {
                        -1
                    }),
                decreases 11 - p,
            {
                let col = argmin_key(&keys, last);
                assert(col as int == nth_col(kv, p as nat));
                if col >= 0 {
                    let cu = col as usize;
                    let want = match max_of(cu) {
                        Some(m) => if ideal[cu] < m { ideal[cu] } else { m },
                        None => ideal[cu],
                    };
                    assert(want as int == want_of(ct, cu as int));
                    place_column(&mut widths, &mut visible, &mut remaining, &mut nvis, cu, want, full);
                    last = keys[cu];
                } else {
                    last = -1;
                }
                p = p + 1;
            }
            if visible[9] && remaining > 0 {
                let room: usize = if 100 >= widths[9] { 100 - widths[9] } else { 0 };
                let e = if remaining < room { remaining } else { room };
                let grown = widths[9] + e;
                widths.set(9, grown);
            }
            assert(ints(widths@) =~= widths_of(ct, term_width, full).0);
            (widths, visible)
        },
    }
}


/// Display width of a character, a control character counting nothing.
pub open spec fn cw(c: char) -> int {
    match char_cols(c) {
        Some(w) => w as int,
        None => 0,
    }
}

/// How many characters of `s`, from `i` on with `acc` columns already
/// used, fit in `target` columns: the walk stops at the first character
/// that would overflow.
pub open spec fn fit_from(s: Seq<char>, i: int, acc: int, target: int) -> int
    decreases s.len() - i,
{
    if i < 0 || i >= s.len() {
        s.len() as int
    } else if acc + cw(s[i]) > target {
        i
    } else {
        fit_from(s, i + 1, acc + cw(s[i]), target)
    }
}

/// ASCII letters, which end an escape sequence.
pub open spec fn is_alpha(c: char) -> bool {
    ('a' <= c <= 'z') || ('A' <= c <= 'Z')
}

/// Index just past the first letter at or after `j`, or the length.
pub open spec fn esc_end(d: Seq<char>, j: int) -> int
    decreases d.len() - j,
{
    if j < 0 || j >= d.len() {
        d.len() as int
    } else if is_alpha(d[j]) {
        j + 1
    } else {
        esc_end(d, j + 1)
    }
}

/// An escape sequence ends after where it starts, at most at the end.
pub proof fn lemma_esc_end(d: Seq<char>, j: int)
    requires
        0 <= j,
    ensures
        j <= esc_end(d, j) <= d.len() || (j > d.len() && esc_end(d, j) == d.len()),
    decreases d.len() - j,
{
    if j < d.len() {
        lemma_esc_end(d, j + 1);
    }
}

/// What remains of a styled text from `i` on, with `vis` columns already
/// shown, when it is cut to `target` columns: escape sequences are kept
/// whole, visible characters stop at the first that would overflow.
pub open spec fn cut_display(d: Seq<char>, i: int, vis: int, target: int) -> Seq<char>
    decreases d.len() - i,
{
    if i < 0 || i >= d.len() {
        seq![]
    } else if d[i] == '\u{1b}' && i + 1 < d.len() && d[i + 1] == '[' {
        let e = esc_end(d, i + 2);
        proof {
            lemma_esc_end(d, i + 2);
        }
        d.subrange(i, e) + cut_display(d, e, vis, target)
    } else if vis + cw(d[i]) > target {
        seq![]
    } else {
        seq![d[i]] + cut_display(d, i + 1, vis + cw(d[i]), target)
    }
}

/// A cell cut to `max` columns with `…` at the end; the plain text loses
/// its trailing white space before the mark, a styled text keeps its
/// escapes and is closed with a reset.
pub open spec fn truncated_cell(c: (Seq<char>, Seq<char>), max: int) -> (Seq<char>, Seq<char>) {
    if text_cols(c.0) <= max || max == 0 {
        c
    } else {
        let target = max - 1;
        let np = trim_end(c.0.take(fit_from(c.0, 0, 0, target))) + "\u{2026}"@;
        if c.0 == c.1 {
            (np, np)
        } else {
            (np, cut_display(c.1, 0, 0, target) + ansi_reset() + "\u{2026}"@)
        }
    }
}

fn col_width(c: char) -> (r: usize)
    ensures
        r as int == cw(c),
{
    match char_width(c) {
        Some(w) => w,
        None => 0,
    }
}

/// Truncate a cell to fit within `max_width` columns, appending `…`.
fn truncate_cell(cell: &Cell, max_width: usize) -> (r: Cell)
    ensures
        r.view() == truncated_cell(cell.view(), max_width as int),
{
    if cell.width() <= max_width || max_width == 0 {
        return cell.duplicate();
    }
    let target = max_width - 1;
    let p = crate::text::chars_of(cell.plain.as_str());
    let mut cur: usize = 0;
    let mut last: usize = 0;
    let mut stop = false;
    while last < p.len() && !stop
        invariant
            last <= p@.len(),
            cur <= target,
            !stop ==> fit_from(p@, last as int, cur as int, target as int) == fit_from(p@, 0, 0, target as int),
            stop ==> last as int == fit_from(p@, 0, 0, target as int),
        decreases p@.len() - last + if stop { 0int } else { 1int },
    {
        let w = col_width(p[last]);
        if w > target - cur {
            stop = true;
        } else {
            cur = cur + w;
            last = last + 1;
        }
    }
    let ghost k = fit_from(p@, 0, 0, target as int);
    assert(last as int == k);
    let mut end = last;
    while end > 0 && is_white(p[end - 1])
        invariant
            end <= last <= p@.len(),
            trim_end(p@.take(end as int)) == trim_end(p@.take(k)),
        decreases end,
    {
        assert(p@.take(end as int).drop_last() =~= p@.take(end - 1));
        end = end - 1;
    }
    let mut np: Vec<char> = Vec::new();
    let mut i: usize = 0;
    while i < end
        invariant
            i <= end <= p@.len(),
            np@ == p@.take(i as int),
        decreases end - i,
    {
        np.push(p[i]);
        i = i + 1;
        assert(np@ =~= p@.take(i as int));
    }
    assert(trim_end(np@) == np@) by {
        if end > 0 {
            assert(np@.last() == p@[end - 1]);
        }
    }
    np.push('\u{2026}');
    assert(np@ =~= trim_end(p@.take(k)) + "\u{2026}"@) by {
        reveal_strlit("\u{2026}");
    }
    let new_plain = string_of(&np);
    if crate::text::str_eq(cell.plain.as_str(), cell.display.as_str()) {
        return Cell { plain: new_plain.clone(), display: new_plain };
    }
    let d = crate::text::chars_of(cell.display.as_str());
    let ghost dv = d@;
    let mut out: Vec<char> = Vec::new();
    let mut i: usize = 0;
    let mut vis: usize = 0;
    let mut done = false;
    while i < d.len() && !done
        invariant
            dv == d@,
            i <= d@.len(),
            vis <= target,
            !done ==> out@ + cut_display(dv, i as int, vis as int, target as int) == cut_display(dv, 0, 0, target as int),
            done ==> out@ == cut_display(dv, 0, 0, target as int),
        decreases d@.len() - i + if done { 0int } else { 1int },
    {
        let ghost o = out@;
        if d[i] == '\u{1b}' && i + 1 < d.len() && d[i + 1] == '[' {
            let mut j: usize = i + 2;
            proof {
                lemma_esc_end(dv, i + 2);
            }
            while j < d.len() && !(('a' <= d[j] && d[j] <= 'z') || ('A' <= d[j] && d[j] <= 'Z'))
                invariant
                    i + 2 <= j <= d@.len(),
                    dv == d@,
                    esc_end(dv, j as int) == esc_end(dv, i + 2),
                decreases d@.len() - j,
            {
                j = j + 1;
            }
            let e = if j < d.len() { j + 1 } else { j };
            assert(e as int == esc_end(dv, i + 2));
            let mut q: usize = i;
            while q < e
                invariant
                    i <= q <= e <= d@.len(),
                    dv == d@,
                    out@ == o + dv.subrange(i as int, q as int),
                decreases e - q,
            {
                out.push(d[q]);
                q = q + 1;
                assert(out@ =~= o + dv.subrange(i as int, q as int));
            }
            assert(o + (dv.subrange(i as int, e as int) + cut_display(dv, e as int, vis as int, target as int))
                =~= out@ + cut_display(dv, e as int, vis as int, target as int));
            i = e;
        } else {
            let w = col_width(d[i]);
            if w > target - vis {
                done = true;
                assert(out@ =~= out@ + cut_display(dv, i as int, vis as int, target as int));
            } else {
                out.push(d[i]);
                assert(o + (seq![dv[i as int]] + cut_display(dv, i + 1, vis + w, target as int)) =~= out@
                    + cut_display(dv, i + 1, vis + w, target as int));
                vis = vis + w;
                i = i + 1;
            }
        }
    }
    if !done {
        assert(out@ + seq![] =~= out@);
    }
    push_str(&mut out, "\u{1b}[0m\u{2026}");
    assert(out@ =~= cut_display(dv, 0, 0, target as int) + ansi_reset() + "\u{2026}"@) by {
        reveal_strlit("\u{1b}[0m\u{2026}");
        reveal_strlit("\u{1b}[0m");
        reveal_strlit("\u{2026}");
    }
    Cell { plain: new_plain, display: string_of(&out) }
}


/// `n` spaces (none when `n` is not positive).
pub open spec fn spaces(n: int) -> Seq<char> {
    Seq::new(if n > 0 { n as nat } else { 0 }, |i: int| ' ')
}

/// Whether no column after `i` is visible.
pub open spec fn last_visible(v: Seq<bool>, i: int) -> bool {
    forall|j: int| i < j < 11 ==> !#[trigger] v[j]
}

/// One column of a line: the cell padded to width `w` on the left when
/// right-aligned, else on the right unless it is the last visible column.
pub open spec fn col_text(c: (Seq<char>, Seq<char>), w: int, i: int, last: bool) -> Seq<char> {
    let pad = w - text_cols(c.0);
    if col_right(i) {
        spaces(pad) + c.1
    } else {
        c.1 + if last { seq![] } else { spaces(pad) }
    }
}

/// The visible columns from `i` on, two spaces between neighbours.
pub open spec fn cols_text(cells: Seq<(Seq<char>, Seq<char>)>, w: Seq<int>, v: Seq<bool>, i: int, first: bool) -> Seq<char>
    decreases 11 - i,
{
    if i < 0 || i >= 11 {
        seq![]
    } else if !v[i] {
        cols_text(cells, w, v, i + 1, first)
    } else {
        (if first { seq![] } else { seq![' ', ' '] }) + col_text(cells[i], w[i], i, last_visible(v, i))
            + cols_text(cells, w, v, i + 1, false)
    }
}

fn push_spaces(out: &mut Vec<char>, n: usize)
    ensures
        final(out)@ == old(out)@ + spaces(n as int),
{
    let ghost start = out@;
    let mut k: usize = 0;
    while k < n
        invariant
            k <= n,
            out@ == start + spaces(k as int),
        decreases n - k,
    {
        out.push(' ');
        k = k + 1;
        assert(out@ =~= start + spaces(k as int));
    }
}

fn is_last_visible(visible: &Vec<bool>, i: usize) -> (r: bool)
    requires
        visible@.len() == 11,
        i < 11,
    ensures
        r == last_visible(visible@, i as int),
{
    let mut j: usize = i + 1;
    while j < 11
        invariant
            i < j <= 11,
            visible@.len() == 11,
            forall|q: int| i < q < j ==> !#[trigger] visible@[q],
        decreases 11 - j,
    {
        if visible[j] {
            return false;
        }
        j = j + 1;
    }
    true
}

fn push_cell(out: &mut Vec<char>, cell: &Cell, width: usize, i: usize, first: bool, last: bool)
    ensures
        final(out)@ == old(out)@ + (if first { seq![] } else { seq![' ', ' '] }) + col_text(
            cell.view(),
            width as int,
            i as int,
            last,
        ),
{
    let ghost o = out@;
    if !first {
        out.push(' ');
        out.push(' ');
    }
    let cw_ = cell.width();
    let pad: usize = if width > cw_ { width - cw_ } else { 0 };
    assert(spaces(pad as int) =~= spaces(width - text_cols(cell.view().0)));
    if i == 2 || i == 3 {
        push_spaces(out, pad);
        push_str(out, cell.display.as_str());
    } else {
        push_str(out, cell.display.as_str());
        if !last {
            push_spaces(out, pad);
        }
    }
    assert(out@ =~= o + (if first { seq![] } else { seq![' ', ' '] }) + col_text(cell.view(), width as int, i as int, last));
}

fn push_columns(out: &mut Vec<char>, cells: &Vec<Cell>, widths: &Vec<usize>, visible: &Vec<bool>)
    requires
        cells@.len() == 11,
        widths@.len() == 11,
        visible@.len() == 11,
    ensures
        final(out)@ == old(out)@ + cols_text(
            cells@.map_values(|c: Cell| c.view()),
            ints(widths@),
            visible@,
            0,
            true,
        ),
{
    let ghost cv = cells@.map_values(|c: Cell| c.view());
    let ghost w = ints(widths@);
    let ghost v = visible@;
    let ghost start = out@;
    let mut first = true;
    let mut i: usize = 0;
    assert(out@ + cols_text(cv, w, v, 0, true) =~= start + cols_text(cv, w, v, 0, true));
    while i < 11
        invariant
            i <= 11,
            cells@.len() == 11,
            widths@.len() == 11,
            visible@.len() == 11,
            cv == cells@.map_values(|c: Cell| c.view()),
            w == ints(widths@),
            v == visible@,
            out@ + cols_text(cv, w, v, i as int, first) == start + cols_text(cv, w, v, 0, true),
        decreases 11 - i,
    {
        let ghost o = out@;
        let ghost was_first = first;
        if visible[i] {
            let last = is_last_visible(visible, i);
            push_cell(out, &cells[i], widths[i], i, first, last);
            first = false;
            assert(o + cols_text(cv, w, v, i as int, was_first) =~= out@ + cols_text(cv, w, v, i + 1, false));
        }
        i = i + 1;
    }
}


/// The eleven cells of a row: the branch bold when current, the Path
/// plain, the metadata columns dimmed, when styled.
pub open spec fn row_cells(r: &ListRow, styled: bool) -> Seq<(Seq<char>, Seq<char>)> {
    let dim = if styled { Some(Paint::Dim) } else { None };
    seq![
        text_cell_view(r.name@, if styled && r.is_current { Some(Paint::Bold) } else { None }),
        status_cell_view(r.status, styled),
        head_diff_cell_view(r.head_diff, styled),
        ahead_behind_cell_view(r.vs_trunk, styled),
        ci_cell_view(r.ci_status, styled),
        text_cell_view(path_text(r), None),
        text_cell_view(r.url@, dim),
        text_cell_view(r.commit@, dim),
        text_cell_view(r.age@, dim),
        text_cell_view(r.message@, dim),
        text_cell_view(r.summary@, dim),
    ]
}

/// The heading cells, bold when styled.
pub open spec fn header_cells(styled: bool) -> Seq<(Seq<char>, Seq<char>)> {
    Seq::new(11, |i: int| if styled { (header(i), painted(header(i), Paint::Bold)) } else { (header(i), header(i)) })
}

/// A cell as printed: cut to its column's width when the column is
/// visible, may be cut, and the cell is wider.
pub open spec fn fit_cell(c: (Seq<char>, Seq<char>), w: int, v: bool, i: int) -> (Seq<char>, Seq<char>) {
    if v && col_truncatable(i) && text_cols(c.0) > w {
        truncated_cell(c, w)
    } else {
        c
    }
}

/// The cells of a row as printed.
pub open spec fn fitted_row(cells: Seq<(Seq<char>, Seq<char>)>, w: Seq<int>, v: Seq<bool>) -> Seq<(Seq<char>, Seq<char>)> {
    Seq::new(11, |i: int| fit_cell(cells[i], w[i], v[i], i))
}

/// The data lines of the table: gutter mark, a space, the columns.
pub open spec fn rows_text(rows: Seq<ListRow>, cells: CellTable, w: Seq<int>, v: Seq<bool>) -> Seq<char>
    decreases rows.len(),
{
    if rows.len() == 0 {
        seq![]
    } else {
        rows_text(rows.drop_last(), cells.drop_last(), w, v) + seq![gutter_of(&rows.last()), ' ']
            + cols_text(fitted_row(cells.last(), w, v), w, v, 0, true) + seq!['\n']
    }
}

/// The list table: heading line, one line per row, a blank line and the
/// summary.
pub open spec fn table_text(rows: Seq<ListRow>, styled: bool, tw: Option<u16>, full: bool) -> Seq<char> {
    let ct = rows.map_values(|r: ListRow| row_cells(&r, styled));
    let (w, v) = widths_of(ct, tw, full);
    seq![' ', ' '] + cols_text(header_cells(styled), w, v, 0, true) + seq!['\n'] + rows_text(rows, ct, w, v)
        + seq!['\n'] + summary_text(rows, styled) + seq!['\n']
}

fn build_row_cells(r: &ListRow, styled: bool) -> (out: Vec<Cell>)
    ensures
        out@.len() == 11,
        out@.map_values(|c: Cell| c.view()) == row_cells(r, styled),
{
    let dim = if styled { Some(Paint::Dim) } else { None };
    let bold = if styled && r.is_current { Some(Paint::Bold) } else { None };
    let path = format_path(r);
    let out = vec![
        text_cell(r.name.as_str(), bold),
        status_cell(&r.status, styled),
        head_diff_cell(&r.head_diff, styled),
        ahead_behind_cell(&r.vs_trunk, styled),
        ci_status_cell(r.ci_status, styled),
        text_cell(path.as_str(), None),
        text_cell(r.url.as_str(), dim),
        text_cell(r.commit.as_str(), dim),
        text_cell(r.age.as_str(), dim),
        text_cell(r.message.as_str(), dim),
        text_cell(r.summary.as_str(), dim),
    ];
    assert(out@.map_values(|c: Cell| c.view()) =~= row_cells(r, styled));
    out
}

fn build_cells(rows: &Vec<ListRow>, styled: bool) -> (out: Vec<Vec<Cell>>)
    ensures
        rows_of_eleven(out@),
        cells_view(out@) == rows@.map_values(|r: ListRow| row_cells(&r, styled)),
{
    let mut out: Vec<Vec<Cell>> = Vec::new();
    let mut i: usize = 0;
    while i < rows.len()
        invariant
            i <= rows@.len(),
            rows_of_eleven(out@),
            cells_view(out@) == rows@.take(i as int).map_values(|r: ListRow| row_cells(&r, styled)),
        decreases rows@.len() - i,
    {
        let ghost prev = out@;
        let rc = build_row_cells(&rows[i], styled);
        out.push(rc);
        assert(cells_view(out@) =~= cells_view(prev).push(row_cells(&rows@[i as int], styled)));
        assert(rows@.take(i + 1).map_values(|r: ListRow| row_cells(&r, styled)) =~= rows@.take(i as int).map_values(
            |r: ListRow| row_cells(&r, styled),
        ).push(row_cells(&rows@[i as int], styled)));
        i = i + 1;
    }
    assert(rows@.take(rows@.len() as int) =~= rows@);
    out
}

fn header_cell_list(styled: bool) -> (out: Vec<Cell>)
    ensures
        out@.len() == 11,
        out@.map_values(|c: Cell| c.view()) == header_cells(styled),
{
    let mut out: Vec<Cell> = Vec::new();
    let mut i: usize = 0;
    while i < 11
        invariant
            i <= 11,
            out@.len() == i,
            forall|j: int| 0 <= j < i ==> #[trigger] out@[j].view() == header_cells(styled)[j],
        decreases 11 - i,
    {
        let h = header_text(i);
        if styled {
            out.push(Cell { plain: h.to_owned(), display: wrap(h, Paint::Bold) });
        } else {
            out.push(Cell::raw(h.to_owned()));
        }
        i = i + 1;
    }
    assert(out@.map_values(|c: Cell| c.view()) =~= header_cells(styled));
    out
}

fn fit_row(cells: &Vec<Cell>, widths: &Vec<usize>, visible: &Vec<bool>) -> (out: Vec<Cell>)
    requires
        cells@.len() == 11,
        widths@.len() == 11,
        visible@.len() == 11,
    ensures
        out@.len() == 11,
        out@.map_values(|c: Cell| c.view()) == fitted_row(cells@.map_values(|c: Cell| c.view()), ints(widths@), visible@),
{
    let ghost cv = cells@.map_values(|c: Cell| c.view());
    let mut out: Vec<Cell> = Vec::new();
    let mut i: usize = 0;
    while i < 11
        invariant
            i <= 11,
            cells@.len() == 11,
            widths@.len() == 11,
            visible@.len() == 11,
            cv == cells@.map_values(|c: Cell| c.view()),
            out@.len() == i,
            forall|j: int| 0 <= j < i ==> #[trigger] out@[j].view() == fit_cell(cv[j], widths@[j] as int, visible@[j], j),
        decreases 11 - i,
    {
        let c = &cells[i];
        if visible[i] && (i == 5 || i == 6 || i == 9 || i == 10) && c.width() > widths[i] {
            out.push(truncate_cell(c, widths[i]));
        } else {
            out.push(c.duplicate());
        }
        i = i + 1;
    }
    assert(out@.map_values(|c: Cell| c.view()) =~= fitted_row(cv, ints(widths@), visible@));
    out
}

/// Render the list table: heading, one line per row, a blank line and the
/// summary. When `styled`, output carries ANSI escapes; when the terminal
/// width is known, columns are dropped, squeezed and cut to fit; without
/// `full`, the CI, URL, Commit, Age and Summary columns are left out.
pub fn format_list_table(rows: &Vec<ListRow>, styled: bool, term_width: Option<u16>, full: bool) -> (r: String)
    ensures
        r@ == table_text(rows@, styled, term_width, full),
{
    let cells = build_cells(rows, styled);
    let ghost ct = cells_view(cells@);
    let (widths, visible) = compute_widths(&cells, term_width, full);
    let ghost w = ints(widths@);
    let ghost v = visible@;
    let mut out: Vec<char> = Vec::new();
    out.push(' ');
    out.push(' ');
    let header = header_cell_list(styled);
    push_columns(&mut out, &header, &widths, &visible);
    out.push('\n');
    let ghost head = out@;
    let mut i: usize = 0;
    while i < rows.len()
        invariant
            i <= rows@.len(),
            rows@.len() == cells@.len(),
            rows_of_eleven(cells@),
            widths@.len() == 11,
            visible@.len() == 11,
            ct == cells_view(cells@),
            w == ints(widths@),
            v == visible@,
            out@ == head + rows_text(rows@.take(i as int), ct.take(i as int), w, v),
        decreases rows@.len() - i,
    {
        assert(cells@[i as int]@.len() == 11);
        let fitted = fit_row(&cells[i], &widths, &visible);
        out.push(gutter_char(&rows[i]));
        out.push(' ');
        push_columns(&mut out, &fitted, &widths, &visible);
        out.push('\n');
        proof {
            assert(rows@.take(i + 1).drop_last() =~= rows@.take(i as int));
            assert(ct.take(i + 1).drop_last() =~= ct.take(i as int));
            assert(ct.take(i + 1).last() == cells@[i as int]@.map_values(|c: Cell| c.view()));
        }
        i = i + 1;
    }
    assert(rows@.take(rows@.len() as int) =~= rows@);
    assert(ct.take(rows@.len() as int) =~= ct);
    out.push('\n');
    push_str(&mut out, format_summary(rows, styled).as_str());
    out.push('\n');
    assert(out@ =~= table_text(rows@, styled, term_width, full));
    string_of(&out)
}

} // verus!
