//! `config check`: the templates of the merged configuration are parsed,
//! and a report of the problems found is written.
use vstd::prelude::*;
use minijinja::Environment;
use crate::hookgroup::{map_entries, map_get_index, map_len};
use crate::plan::{configured_hooks, entries_view, hook_slots, show_entries, ShowEntry};
use crate::text::{chars_of, concat, dec, fmt_uint, is_ws, slice_chars, string_of, trim_start};
use crate::types::{MergedConfig, MergedView};

verus! {

/// The message of the syntax error `minijinja` finds when it compiles
/// `template`, if it finds one.
pub uninterp spec fn template_syntax_error(template: Seq<char>) -> Option<Seq<char>>;

/// Compiles `template` in a default `minijinja` environment; the message of
/// the error, if any, is named by `template_syntax_error`.
#[verifier::external_body]
fn syntax_error(template: &str) -> (r: Option<String>)
    ensures
        match r {
            Some(e) => template_syntax_error(template@) == Some(e@),
            None => template_syntax_error(template@).is_none(),
        },
{
    Environment::new().template_from_str(template).err().map(|e| e.to_string())
}

/// The label of a hook template.
pub open spec fn hook_label(e: ShowEntry) -> Seq<char> {
    "Hook '"@ + e.1 + "' ("@ + e.0 + ", "@ + e.3.name() + "): invalid template"@
}

/// The label of an alias template.
pub open spec fn alias_label(name: Seq<char>) -> Seq<char> {
    "Alias '"@ + name + "': invalid template"@
}

/// The templates checked before the generation command, with their
/// labels: every hook, every alias, the worktree-path template and the
/// `[list]` URL template.
pub open spec fn first_checks(c: MergedView) -> Seq<(Seq<char>, Seq<char>)> {
    show_entries(hook_slots(c), None).map_values(|e: ShowEntry| (hook_label(e), e.2))
        + c.aliases.map_values(|a: (Seq<char>, Seq<char>)| (alias_label(a.0), a.1))
        + seq![("worktree-path template: invalid"@, c.worktree_path_template)]
        + match c.list {
            Some(l) => seq![("[list].url template: invalid"@, l.url@)],
            None => seq![],
        }
}

/// The generation templates checked last: the prompt template and its
/// addition, when set.
pub open spec fn generation_checks(c: MergedView) -> Seq<(Seq<char>, Seq<char>)> {
    match c.commit {
        Some(cc) => match cc.generation {
            Some(g) => opt_check("[commit.generation].template: invalid"@, g.template) + opt_check(
                "[commit.generation].template-append: invalid"@,
                g.template_append,
            ),
            None => seq![],
        },
        None => seq![],
    }
}

/// A check of an optional template.
pub open spec fn opt_check(label: Seq<char>, t: Option<String>) -> Seq<(Seq<char>, Seq<char>)> {
    match t {
        Some(x) => seq![(label, x@)],
        None => seq![],
    }
}

/// One error line per checked template that does not compile.
pub open spec fn problem_lines(ts: Seq<(Seq<char>, Seq<char>)>) -> Seq<Seq<char>>
    decreases ts.len(),
{
    if ts.len() == 0 {
        seq![]
    } else {
        problem_lines(ts.drop_last()) + match template_syntax_error(ts.last().1) {
            Some(e) => seq!["[err]  "@ + ts.last().0 + ": "@ + e],
            None => seq![],
        }
    }
}

/// The first word of a command (`split_whitespace`), or the command itself
/// when it has none.
pub open spec fn first_word(cmd: Seq<char>) -> Seq<char> {
    let t = trim_start(cmd);
    if t.len() == 0 {
        cmd
    } else {
        t.take(word_end(t, 0))
    }
}

/// The position of the first white space in `t` at or after `i`, or its
/// length.
pub open spec fn word_end(t: Seq<char>, i: int) -> int
    decreases t.len() - i,
{
    if i < 0 || i >= t.len() {
        t.len() as int
    } else if is_ws(t[i]) {
        i
    } else {
        word_end(t, i + 1)
    }
}

/// The generation command, when one is configured.
pub open spec fn generation_command(c: MergedView) -> Option<Seq<char>> {
    match c.commit {
        Some(cc) => match cc.generation {
            Some(g) => match g.command {
                Some(cmd) => Some(cmd@),
                None => None,
            },
            None => None,
        },
        None => None,
    }
}

/// The warning about a generation command whose program was not found.
pub open spec fn command_warning(c: MergedView, found: bool) -> Seq<Seq<char>> {
    match generation_command(c) {
        Some(cmd) => if found {
            seq![]
        } else {
            seq!["[warn] [commit.generation].command: '"@ + first_word(cmd) + "' not found on PATH"@]
        },
        None => seq![],
    }
}

/// The last line of the report.
pub open spec fn summary_line(errors: nat, warnings: nat) -> Seq<char> {
    if errors == 0 && warnings == 0 {
        "[ok]   All checks passed"@
    } else {
        "\n"@ + dec(errors) + " error(s), "@ + dec(warnings) + " warning(s)"@
    }
}

/// The number of errors a configuration has.
pub open spec fn error_count(c: MergedView) -> nat {
    problem_lines(first_checks(c)).len() + problem_lines(generation_checks(c)).len()
}

/// The lines of the report, given whether the generation command's program
/// was found.
pub open spec fn report_lines(c: MergedView, found: bool) -> Seq<Seq<char>> {
    problem_lines(first_checks(c)) + command_warning(c, found) + problem_lines(generation_checks(c)) + seq![
        summary_line(error_count(c), command_warning(c, found).len()),
    ]
}

/// What `config check` prints and whether it found errors.
pub struct CheckReport {
    /// The lines to print, in order.
    pub lines: Vec<String>,
    /// How many templates failed to compile.
    pub errors: u64,
    /// How many warnings were given.
    pub warnings: u64,
}

/// The program the generation command runs, whose presence `config check`
/// verifies; `None` when no command is configured.
pub fn generation_binary(cfg: &MergedConfig) -> (r: Option<String>)
    ensures
        match generation_command(cfg.view()) {
            Some(cmd) => r matches Some(b) && b@ == first_word(cmd),
            None => r.is_none(),
        },
{
    match &cfg.commit {
        Some(cc) => match &cc.generation {
            Some(g) => match &g.command {
                Some(cmd) => Some(first_word_of(cmd.as_str())),
                None => None,
            },
            None => None,
        },
        None => None,
    }
}

fn first_word_of(cmd: &str) -> (r: String)
    ensures
        r@ == first_word(cmd@),
{
    let cs = chars_of(cmd);
    let mut lo: usize = 0;
    assert(cs@.skip(0) =~= cs@);
    while lo < cs.len() && crate::text::is_white(cs[lo])
        invariant
            lo <= cs@.len(),
            cs@ == cmd@,
            trim_start(cs@.skip(lo as int)) == trim_start(cmd@),
        decreases cs@.len() - lo,
    {
        assert(cs@.skip(lo as int).skip(1) =~= cs@.skip(lo + 1));
        lo = lo + 1;
    }
    let t = slice_chars(&cs, lo, cs.len());
    assert(t@ =~= cs@.skip(lo as int));
    assert(trim_start(t@) == t@) by {
        if t@.len() > 0 {
            assert(t@[0] == cs@[lo as int]);
        }
    }
    if t.len() == 0 {
        return cmd.to_owned();
    }
    let mut k: usize = 0;
    while k < t.len() && !crate::text::is_white(t[k])
        invariant
            k <= t@.len(),
            word_end(t@, k as int) == word_end(t@, 0),
        decreases t@.len() - k,
    {
        k = k + 1;
    }
    let w = slice_chars(&t, 0, k);
    assert(w@ =~= t@.take(k as int));
    string_of(w.as_slice())
}

fn push_problems(lines: &mut Vec<String>, checks: &Vec<(String, String)>)
    ensures
        final(lines)@.map_values(|s: String| s@) == old(lines)@.map_values(|s: String| s@) + problem_lines(
            checks@.map_values(|p: (String, String)| (p.0@, p.1@)),
        ),
{
    let ghost cv = checks@.map_values(|p: (String, String)| (p.0@, p.1@));
    let ghost base = lines@.map_values(|s: String| s@);
    let mut i: usize = 0;
    while i < checks.len()
        invariant
            i <= checks@.len(),
            cv == checks@.map_values(|p: (String, String)| (p.0@, p.1@)),
            lines@.map_values(|s: String| s@) == base + problem_lines(cv.take(i as int)),
        decreases checks@.len() - i,
    {
        let ghost prev = lines@.map_values(|s: String| s@);
        assert(cv.take(i + 1).drop_last() =~= cv.take(i as int));
        assert(cv.take(i + 1).last() == cv[i as int]);
        match syntax_error(checks[i].1.as_str()) {
            Some(e) => {
                let a = concat("[err]  ", checks[i].0.as_str());
                let b = concat(a.as_str(), ": ");
                lines.push(concat(b.as_str(), e.as_str()));
                assert(lines@.map_values(|s: String| s@) =~= prev.push("[err]  "@ + cv[i as int].0 + ": "@ + e@));
            },
            None => {
                assert(lines@.map_values(|s: String| s@) =~= prev + Seq::<Seq<char>>::empty());
            },
        }
        i = i + 1;
    }
    assert(cv.take(checks@.len() as int) =~= cv);
}

fn first_check_list(cfg: &MergedConfig) -> (r: Vec<(String, String)>)
    ensures
        r@.map_values(|p: (String, String)| (p.0@, p.1@)) == first_checks(cfg.view()),
{
    let ghost c = cfg.view();
    let hooks = configured_hooks(cfg, None);
    let ghost es = entries_view(hooks@);
    let mut out: Vec<(String, String)> = Vec::new();
    let mut i: usize = 0;
    while i < hooks.len()
        invariant
            i <= hooks@.len(),
            es == entries_view(hooks@),
            es == show_entries(hook_slots(c), None),
            out@.map_values(|p: (String, String)| (p.0@, p.1@)) == es.take(i as int).map_values(
                |e: ShowEntry| (hook_label(e), e.2),
            ),
        decreases hooks@.len() - i,
    {
        let (ty, name, tmpl, source) = hooks[i];
        let a = concat("Hook '", name);
        let b = concat(a.as_str(), "' (");
        let d = concat(b.as_str(), ty);
        let f = concat(d.as_str(), ", ");
        let g = concat(f.as_str(), source.to_string().as_str());
        let label = concat(g.as_str(), "): invalid template");
        let ghost prev = out@.map_values(|p: (String, String)| (p.0@, p.1@));
        out.push((label, tmpl.to_owned()));
        assert(es[i as int] == (ty@, name@, tmpl@, source));
        assert(out@.map_values(|p: (String, String)| (p.0@, p.1@)) =~= prev.push((hook_label(es[i as int]), es[i as int].2)));
        assert(es.take(i + 1).map_values(|e: ShowEntry| (hook_label(e), e.2)) =~= es.take(i as int).map_values(
            |e: ShowEntry| (hook_label(e), e.2),
        ).push((hook_label(es[i as int]), es[i as int].2)));
        i = i + 1;
    }
    assert(es.take(hooks@.len() as int) =~= es);
    let ghost after_hooks = out@.map_values(|p: (String, String)| (p.0@, p.1@));
    let n = map_len(&cfg.aliases);
    let ghost al = map_entries(cfg.aliases);
    let mut k: usize = 0;
    while k < n
        invariant
            k <= n,
            n == al.len(),
            al == map_entries(cfg.aliases),
            al == c.aliases,
            out@.map_values(|p: (String, String)| (p.0@, p.1@)) == after_hooks + al.take(k as int).map_values(
                |a: (Seq<char>, Seq<char>)| (alias_label(a.0), a.1),
            ),
        decreases n - k,
    {
        let ghost prev = out@.map_values(|p: (String, String)| (p.0@, p.1@));
        match map_get_index(&cfg.aliases, k) {
            Some((name, tmpl)) => {
                let a = concat("Alias '", name.as_str());
                out.push((concat(a.as_str(), "': invalid template"), tmpl.clone()));
                assert(out@.map_values(|p: (String, String)| (p.0@, p.1@)) =~= prev.push((alias_label(name@), tmpl@)));
            },
            None => {},
        }
        assert(al.take(k + 1).map_values(|a: (Seq<char>, Seq<char>)| (alias_label(a.0), a.1)) =~= al.take(
            k as int,
        ).map_values(|a: (Seq<char>, Seq<char>)| (alias_label(a.0), a.1)).push((alias_label(al[k as int].0), al[k as int].1)));
        k = k + 1;
    }
    assert(al.take(n as int) =~= al);
    let ghost before_rest = out@.map_values(|p: (String, String)| (p.0@, p.1@));
    out.push(("worktree-path template: invalid".to_owned(), cfg.worktree_path_template.clone()));
    match &cfg.list {
        Some(l) => {
            out.push(("[list].url template: invalid".to_owned(), l.url.clone()));
        },
        None => {},
    }
    assert(out@.map_values(|p: (String, String)| (p.0@, p.1@)) =~= first_checks(c));
    out
}

fn generation_check_list(cfg: &MergedConfig) -> (r: Vec<(String, String)>)
    ensures
        r@.map_values(|p: (String, String)| (p.0@, p.1@)) == generation_checks(cfg.view()),
{
    let mut out: Vec<(String, String)> = Vec::new();
    match &cfg.commit {
        Some(cc) => match &cc.generation {
            Some(g) => {
                match &g.template {
                    Some(t) => {
                        out.push(("[commit.generation].template: invalid".to_owned(), t.clone()));
                    },
                    None => {},
                }
                match &g.template_append {
                    Some(t) => {
                        out.push(("[commit.generation].template-append: invalid".to_owned(), t.clone()));
                    },
                    None => {},
                }
            },
            None => {},
        },
        None => {},
    }
    assert(out@.map_values(|p: (String, String)| (p.0@, p.1@)) =~= generation_checks(cfg.view()));
    out
}

/// The report of `config check`: `binary_found` tells whether the program
/// of the generation command (see `generation_binary`) is on the path.
pub fn config_check_report(cfg: &MergedConfig, binary_found: bool) -> (r: CheckReport)
    ensures
        r.lines@.map_values(|s: String| s@) == report_lines(cfg.view(), binary_found),
        r.errors == error_count(cfg.view()),
        r.warnings == command_warning(cfg.view(), binary_found).len(),
{
    let ghost c = cfg.view();
    let mut lines: Vec<String> = Vec::new();
    let first = first_check_list(cfg);
    assert(lines@.map_values(|s: String| s@) =~= Seq::<Seq<char>>::empty());
    push_problems(&mut lines, &first);
    let n_first = lines.len();
    assert(lines@.map_values(|s: String| s@).len() == lines@.len());
    let mut warnings: u64 = 0;
    match generation_binary(cfg) {
        Some(b) => {
            if !binary_found {
                let a = concat("[warn] [commit.generation].command: '", b.as_str());
                let ghost prev = lines@.map_values(|s: String| s@);
                lines.push(concat(a.as_str(), "' not found on PATH"));
                assert(lines@.map_values(|s: String| s@) =~= prev + command_warning(c, binary_found));
                warnings = 1;
            } else {
                assert(lines@.map_values(|s: String| s@) =~= lines@.map_values(|s: String| s@) + command_warning(
                    c,
                    binary_found,
                ));
            }
        },
        None => {
            assert(lines@.map_values(|s: String| s@) =~= lines@.map_values(|s: String| s@) + command_warning(
                c,
                binary_found,
            ));
        },
    }
    let gen = generation_check_list(cfg);
    let ghost mid = lines@.map_values(|s: String| s@);
    push_problems(&mut lines, &gen);
    let ghost pg = problem_lines(gen@.map_values(|p: (String, String)| (p.0@, p.1@)));
    assert(lines@.map_values(|s: String| s@).len() == lines@.len());
    assert(mid.len() == n_first + warnings);
    assert(lines@.len() == n_first + warnings + pg.len());
    let errors: u64 = (lines.len() as u64) - warnings;
    assert(errors == error_count(c));
    let ghost prev = lines@.map_values(|s: String| s@);
    if errors == 0 && warnings == 0 {
        lines.push("[ok]   All checks passed".to_owned());
    } else {
        let a = concat("\n", fmt_uint(errors).as_str());
        let b = concat(a.as_str(), " error(s), ");
        let d = concat(b.as_str(), fmt_uint(warnings).as_str());
        lines.push(concat(d.as_str(), " warning(s)"));
    }
    assert(lines@.map_values(|s: String| s@) =~= prev.push(summary_line(error_count(c), command_warning(c, binary_found).len())));
    CheckReport { lines, errors, warnings }
}

} // verus!
