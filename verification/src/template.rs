//! Template rendering with the hook and alias variables.
use vstd::prelude::*;
use minijinja::{Environment, ErrorKind, UndefinedBehavior};
use crate::filters::codename::codename_filter;
use crate::filters::hash::short_hash;
use crate::filters::hash_port::hash_port;
use crate::filters::path_parts::{basename, dirname};
use crate::filters::sanitize::sanitize;
use crate::filters::sanitize_db::sanitize_db;
use crate::filters::sanitize_hash::sanitize_hash;
use crate::strmap::StrMap;
use crate::types::{opt_view, ContextView, CoreError, RenderContext};

verus! {

/// A value handed to a template.
pub enum TemplateValue {
    /// A string.
    Text(String),
    /// A list of strings.
    List(Vec<String>),
    /// A table of string to string.
    Table(Vec<(String, String)>),
}

/// What a template value holds.
pub enum TemplateView {
    Text(Seq<char>),
    List(Seq<Seq<char>>),
    Table(Map<Seq<char>, Seq<char>>),
}

/// The table a list of (key, value) pairs makes, a later key replacing an
/// earlier one.
pub open spec fn pairs_table(p: Seq<(Seq<char>, Seq<char>)>) -> Map<Seq<char>, Seq<char>>
    decreases p.len(),
{
    if p.len() == 0 {
        Map::empty()
    } else {
        pairs_table(p.drop_last()).insert(p.last().0, p.last().1)
    }
}

impl TemplateValue {
    /// What this value holds.
    pub open spec fn view(&self) -> TemplateView {
        match self {
            TemplateValue::Text(s) => TemplateView::Text(s@),
            TemplateValue::List(v) => TemplateView::List(v@.map_values(|s: String| s@)),
            TemplateValue::Table(v) => TemplateView::Table(
                pairs_table(v@.map_values(|p: (String, String)| (p.0@, p.1@))),
            ),
        }
    }
}

/// The variables of a template run, in order; a later name replaces an
/// earlier one.
pub type Bindings = Seq<(Seq<char>, TemplateView)>;

/// What rendering `template` with the variables `vars` gives: the output, or
/// the engine's error message. With `strict`, the engine is the hook engine:
/// undefined variables are errors and the filters `hash_port`, `sanitize`,
/// `sanitize_db`, `sanitize_hash`, `hash`, `dirname`, `basename` and
/// `codename` of this library are registered. Otherwise it is the prompt
/// engine: undefined variables render as empty and no filter is added.
pub uninterp spec fn template_render(strict: bool, template: Seq<char>, vars: Bindings) -> Result<Seq<char>, Seq<char>>;

#[verifier::external_type_specification]
#[verifier::external_body]
pub struct ExEnvironment<'source>(Environment<'source>);

#[verifier::external_type_specification]
#[verifier::external_body]
pub struct ExEngineValue(minijinja::value::Value);

#[verifier::external_body]
fn register_filters(env: &mut Environment<'static>) {
    env.add_filter("hash_port", |v: String| -> u32 { hash_port(&v) as u32 });
    env.add_filter("sanitize", |v: String| -> String { sanitize(&v) });
    env.add_filter("sanitize_db", |v: String| -> String { sanitize_db(&v) });
    env.add_filter("sanitize_hash", |v: String| -> String { sanitize_hash(&v) });
    env.add_filter("hash", |v: String| -> String { short_hash(&v) });
    env.add_filter("dirname", |v: String| -> String { dirname(&v) });
    env.add_filter("basename", |v: String| -> String { basename(&v) });
    env.add_filter("codename", |v: String, n: Option<u32>| {
        codename_filter(&v, n).map_err(|m| minijinja::Error::new(ErrorKind::InvalidOperation, m))
    });
}

#[verifier::external_body]
fn to_engine_value(v: &TemplateValue) -> minijinja::value::Value {
    match v {
        TemplateValue::Text(s) => minijinja::value::Value::from(s.as_str()),
        TemplateValue::List(items) => minijinja::value::Value::from(items.clone()),
        TemplateValue::Table(pairs) => minijinja::value::Value::from(
            pairs.iter().cloned().collect::<std::collections::BTreeMap<String, String>>(),
        ),
    }
}

/// Renders with `minijinja` (strict undefined behavior, this library's
/// filters); the outcome is named by `template_render`.
#[verifier::external_body]
fn engine_render(template: &str, vars: &Vec<(String, TemplateValue)>) -> (r: Result<String, String>)
    ensures
        template_render(true, template@, bview(vars@)) == match r {
            Ok(s) => Ok::<Seq<char>, Seq<char>>(s@),
            Err(e) => Err(e@),
        },
{
    let mut env = Environment::new();
    env.set_undefined_behavior(UndefinedBehavior::Strict);
    register_filters(&mut env);
    let tmpl = env.template_from_str(template).map_err(|e| e.to_string())?;
    let data: std::collections::BTreeMap<String, minijinja::value::Value> =
        vars.iter().map(|(k, v)| (k.clone(), to_engine_value(v))).collect();
    tmpl.render(data).map_err(|e| e.to_string())
}

/// Renders with `minijinja` in its default environment made lenient about
/// undefined variables; the outcome is named by `template_render`.
#[verifier::external_body]
pub(crate) fn lenient_render(template: &str, vars: &Vec<(String, TemplateValue)>) -> (r: Result<String, String>)
    ensures
        template_render(false, template@, bview(vars@)) == match r {
            Ok(s) => Ok::<Seq<char>, Seq<char>>(s@),
            Err(e) => Err(e@),
        },
{
    let mut env = Environment::new();
    env.set_undefined_behavior(UndefinedBehavior::Lenient);
    let tmpl = env.template_from_str(template).map_err(|e| e.to_string())?;
    let data: std::collections::BTreeMap<String, minijinja::value::Value> =
        vars.iter().map(|(k, v)| (k.clone(), to_engine_value(v))).collect();
    tmpl.render(data).map_err(|e| e.to_string())
}

/// A binding of `name` when `v` is set, none otherwise.
pub open spec fn opt_binding(name: Seq<char>, v: Option<Seq<char>>) -> Bindings {
    match v {
        Some(t) => seq![(name, TemplateView::Text(t))],
        None => seq![],
    }
}

/// The bindings a render context gives: `branch`, then each optional
/// variable that is set, `args`, each extra variable, and `vars` when there
/// are persistent variables.
pub open spec fn context_bindings(c: ContextView) -> Bindings {
    seq![(seq!['b', 'r', 'a', 'n', 'c', 'h'], TemplateView::Text(c.branch))]
        + opt_binding(seq!['w', 'o', 'r', 'k', 't', 'r', 'e', 'e', '_', 'p', 'a', 't', 'h'], c.worktree_path)
        + opt_binding(seq!['w', 'o', 'r', 'k', 't', 'r', 'e', 'e', '_', 'n', 'a', 'm', 'e'], c.worktree_name)
        + opt_binding(seq!['r', 'e', 'p', 'o'], c.repo)
        + opt_binding(seq!['r', 'e', 'p', 'o', '_', 'p', 'a', 't', 'h'], c.repo_path)
        + opt_binding(seq!['c', 'w', 'd'], c.cwd)
        + opt_binding(seq!['h', 'o', 'o', 'k', '_', 't', 'y', 'p', 'e'], c.hook_type)
        + opt_binding(seq!['h', 'o', 'o', 'k', '_', 'n', 'a', 'm', 'e'], c.hook_name)
        + seq![(seq!['a', 'r', 'g', 's'], TemplateView::List(c.args))]
        + c.vars.map_values(|p: (Seq<char>, Seq<char>)| (p.0, TemplateView::Text(p.1)))
        + if c.vars_state.dom().len() == 0 {
            seq![]
        } else {
            seq![(seq!['v', 'a', 'r', 's'], TemplateView::Table(c.vars_state))]
        }
}

/// What `render` gives for a template and a context.
pub open spec fn render_result(template: Seq<char>, c: ContextView) -> Result<Seq<char>, Seq<char>> {
    template_render(true, template, context_bindings(c))
}

/// The bindings a list of named values stands for.
pub open spec fn bview(v: Seq<(String, TemplateValue)>) -> Bindings {
    v.map_values(|p: (String, TemplateValue)| (p.0@, p.1.view()))
}

fn push_opt(out: &mut Vec<(String, TemplateValue)>, name: &str, v: &Option<String>)
    ensures
        bview(final(out)@) == bview(old(out)@) + opt_binding(name@, opt_view(*v)),
{
    let ghost before = out@;
    match v {
        Some(s) => {
            out.push((name.to_owned(), TemplateValue::Text(s.clone())));
            assert(bview(out@) =~= bview(before) + seq![(name@, TemplateView::Text(s@))]);
        },
        None => {
            assert(bview(out@) =~= bview(before) + Seq::<(Seq<char>, TemplateView)>::empty());
        },
    }
}

/// The text of an optional string.
pub open spec fn opt_text(v: &Option<String>) -> Option<Seq<char>> {
    match v {
        Some(t) => Some(t@),
        None => None,
    }
}

/// Some entry of `table` has key `q`.
pub open spec fn has_key(table: Seq<(String, String)>, q: Seq<char>) -> bool {
    exists|b: int| 0 <= b < table.len() && #[trigger] table[b].0@ == q
}

/// Some pair of `p` has key `q`.
pub open spec fn key_in(p: Seq<(Seq<char>, Seq<char>)>, q: Seq<char>) -> bool {
    exists|b: int| 0 <= b < p.len() && #[trigger] p[b].0 == q
}

fn state_table(m: &StrMap<String>) -> (r: Vec<(String, String)>)
    ensures
        pairs_table(r@.map_values(|p: (String, String)| (p.0@, p.1@))) == m@.map_values(|s: String| s@),
{
    let keys = m.keys();
    let mut table: Vec<(String, String)> = Vec::new();
    let mut k: usize = 0;
    while k < keys.len()
        invariant
            k <= keys@.len(),
            forall|a: int| 0 <= a < table@.len() ==> #[trigger] m@.contains_key(table@[a].0@)
                && m@[table@[a].0@]@ == table@[a].1@,
            forall|a: int| 0 <= a < k ==> has_key(table@, #[trigger] keys@[a]@),
            forall|q: Seq<char>| m@.contains_key(q) <==> exists|i: int| 0 <= i < keys@.len() && #[trigger] keys@[i]@ == q,
        decreases keys@.len() - k,
    {
        match m.get(keys[k].as_str()) {
            Some(v) => {
                let ghost before = table@;
                table.push((keys[k].clone(), v.clone()));
                assert forall|a: int| 0 <= a < k + 1 implies has_key(table@, #[trigger] keys@[a]@) by {
                    if a < k {
                        assert(has_key(before, keys@[a]@));
                        let b = choose|b: int| 0 <= b < before.len() && #[trigger] before[b].0@ == keys@[a]@;
                        assert(table@[b] == before[b]);
                    } else {
                        assert(table@[table@.len() - 1].0@ == keys@[a]@);
                    }
                }
            },
            None => {
                assert(exists|i: int| 0 <= i < keys@.len() && #[trigger] keys@[i]@ == keys@[k as int]@);
            },
        }
        k = k + 1;
    }
    let ghost tv = table@.map_values(|p: (String, String)| (p.0@, p.1@));
    proof {
        lemma_pairs_table(tv);
        let want = m@.map_values(|s: String| s@);
        assert forall|q: Seq<char>| #[trigger] pairs_table(tv).contains_key(q) <==> want.contains_key(q) by {
            if want.contains_key(q) {
                let a = choose|a: int| 0 <= a < keys@.len() && #[trigger] keys@[a]@ == q;
                assert(has_key(table@, keys@[a]@));
                let b = choose|b: int| 0 <= b < table@.len() && #[trigger] table@[b].0@ == keys@[a]@;
                assert(tv[b].0 == q);
                assert(key_in(tv, q));
            }
            if pairs_table(tv).contains_key(q) {
                assert(key_in(tv, q));
                let b = choose|b: int| 0 <= b < tv.len() && #[trigger] tv[b].0 == q;
                assert(m@.contains_key(table@[b].0@));
            }
        }
        assert forall|q: Seq<char>| #[trigger] pairs_table(tv).contains_key(q) implies pairs_table(tv)[q] == want[q] by {
            let b = choose|b: int| 0 <= b < tv.len() && tv[b].0 == q && pairs_table(tv)[q] == tv[b].1;
            assert(m@[table@[b].0@]@ == table@[b].1@);
        }
        assert(pairs_table(tv) =~= want);
    }
    table
}

/// Render a template string with the variables of `ctx`.
pub fn render(template: &str, ctx: &RenderContext) -> (r: Result<String, CoreError>)
    ensures
        match r {
            Ok(s) => render_result(template@, ctx.view()) == Ok::<Seq<char>, Seq<char>>(s@),
            Err(e) => e matches CoreError::TemplateRender(m) && render_result(template@, ctx.view())
                == Err::<Seq<char>, Seq<char>>(m@),
        },
{
    proof {
        reveal_strlit("branch");
        reveal_strlit("worktree_path");
        reveal_strlit("worktree_name");
        reveal_strlit("repo");
        reveal_strlit("repo_path");
        reveal_strlit("cwd");
        reveal_strlit("hook_type");
        reveal_strlit("hook_name");
        reveal_strlit("args");
        reveal_strlit("vars");
    }
    let c = Ghost(ctx.view());
    let mut vars: Vec<(String, TemplateValue)> = Vec::new();
    vars.push(("branch".to_owned(), TemplateValue::Text(ctx.branch.clone())));
    assert("branch"@ =~= seq!['b', 'r', 'a', 'n', 'c', 'h']);
    assert(vars@[0].0@ == "branch"@);
    assert(vars@[0].1.view() == TemplateView::Text(c@.branch));
    assert(bview(vars@) =~= seq![(seq!['b', 'r', 'a', 'n', 'c', 'h'], TemplateView::Text(c@.branch))]);
    push_opt(&mut vars, "worktree_path", &ctx.worktree_path);
    push_opt(&mut vars, "worktree_name", &ctx.worktree_name);
    push_opt(&mut vars, "repo", &ctx.repo);
    push_opt(&mut vars, "repo_path", &ctx.repo_path);
    push_opt(&mut vars, "cwd", &ctx.cwd);
    push_opt(&mut vars, "hook_type", &ctx.hook_type);
    push_opt(&mut vars, "hook_name", &ctx.hook_name);
    let mut args: Vec<String> = Vec::new();
    let mut i: usize = 0;
    while i < ctx.args.len()
        invariant
            i <= ctx.args@.len(),
            args@.map_values(|a: String| a@) == ctx.args@.take(i as int).map_values(|a: String| a@),
        decreases ctx.args@.len() - i,
    {
        let ghost prev = args@;
        let a = ctx.args[i].clone();
        args.push(a);
        assert(args@.map_values(|a: String| a@) =~= prev.map_values(|a: String| a@).push(ctx.args@[i as int]@));
        assert(ctx.args@.take(i + 1).map_values(|a: String| a@) =~= ctx.args@.take(i as int).map_values(
            |a: String| a@,
        ).push(ctx.args@[i as int]@));
        i = i + 1;
    }
    assert(ctx.args@.take(ctx.args@.len() as int) =~= ctx.args@);
    let ghost before_args = bview(vars@);
    vars.push(("args".to_owned(), TemplateValue::List(args)));
    assert("args"@ =~= seq!['a', 'r', 'g', 's']);
    assert(vars@.last().1.view() == TemplateView::List(c@.args));
    assert(bview(vars@) =~= before_args + seq![(seq!['a', 'r', 'g', 's'], TemplateView::List(c@.args))]);
    let ghost mid = bview(vars@);
    let mut j: usize = 0;
    while j < ctx.vars.len()
        invariant
            j <= ctx.vars@.len(),
            bview(vars@) == mid + ctx.vars@.take(j as int).map_values(
                |p: (String, String)| (p.0@, TemplateView::Text(p.1@)),
            ),
        decreases ctx.vars@.len() - j,
    {
        let ghost prev = vars@;
        let k = ctx.vars[j].0.clone();
        let v = ctx.vars[j].1.clone();
        vars.push((k, TemplateValue::Text(v)));
        let ghost item = (ctx.vars@[j as int].0@, TemplateView::Text(ctx.vars@[j as int].1@));
        assert(bview(vars@) =~= bview(prev).push(item));
        assert(ctx.vars@.take(j + 1).map_values(|p: (String, String)| (p.0@, TemplateView::Text(p.1@)))
            =~= ctx.vars@.take(j as int).map_values(|p: (String, String)| (p.0@, TemplateView::Text(p.1@))).push(
            item,
        ));
        j = j + 1;
    }
    assert(ctx.vars@.take(ctx.vars@.len() as int) =~= ctx.vars@);
    assert(ctx.vars@.map_values(|p: (String, String)| (p.0@, TemplateView::Text(p.1@))) =~= c@.vars.map_values(
        |p: (Seq<char>, Seq<char>)| (p.0, TemplateView::Text(p.1)),
    ));
    let ghost before_state = bview(vars@);
    let want = Ghost(ctx.vars_state@.map_values(|s: String| s@));
    if !ctx.vars_state.is_empty() {
        let table = state_table(&ctx.vars_state);
        let ghost tb = table@;
        vars.push(("vars".to_owned(), TemplateValue::Table(table)));
        proof {
            assert("vars"@ =~= seq!['v', 'a', 'r', 's']);
            assert(vars@.last().1.view() == TemplateView::Table(want@));
            assert(want@.dom() =~= ctx.vars_state@.dom());
            if want@.dom().len() == 0 {
                ctx.vars_state@.dom().lemma_len0_is_empty();
                assert(ctx.vars_state@ =~= Map::<Seq<char>, String>::empty());
            }
            assert(bview(vars@) =~= before_state + seq![(seq!['v', 'a', 'r', 's'], TemplateView::Table(want@))]);
        }
    } else {
        proof {
            assert(c@.vars_state.dom() =~= Set::<Seq<char>>::empty());
            assert(bview(vars@) =~= before_state + Seq::<(Seq<char>, TemplateView)>::empty());
        }
    }
    assert("worktree_path"@ =~= seq!['w', 'o', 'r', 'k', 't', 'r', 'e', 'e', '_', 'p', 'a', 't', 'h']);
    assert("worktree_name"@ =~= seq!['w', 'o', 'r', 'k', 't', 'r', 'e', 'e', '_', 'n', 'a', 'm', 'e']);
    assert("repo"@ =~= seq!['r', 'e', 'p', 'o']);
    assert("repo_path"@ =~= seq!['r', 'e', 'p', 'o', '_', 'p', 'a', 't', 'h']);
    assert("cwd"@ =~= seq!['c', 'w', 'd']);
    assert("hook_type"@ =~= seq!['h', 'o', 'o', 'k', '_', 't', 'y', 'p', 'e']);
    assert("hook_name"@ =~= seq!['h', 'o', 'o', 'k', '_', 'n', 'a', 'm', 'e']);
    assert(bview(vars@) == context_bindings(c@));
    match engine_render(template, &vars) {
        Ok(s) => Ok(s),
        Err(e) => Err(CoreError::TemplateRender(e)),
    }
}

proof fn lemma_pairs_table(p: Seq<(Seq<char>, Seq<char>)>)
    ensures
        forall|q: Seq<char>| #[trigger] pairs_table(p).contains_key(q) <==> key_in(p, q),
        forall|q: Seq<char>| #[trigger] pairs_table(p).contains_key(q) ==> exists|b: int| 0 <= b < p.len() && p[b].0 == q && pairs_table(p)[q] == p[b].1,
    decreases p.len(),
{
    if p.len() > 0 {
        let d = p.drop_last();
        lemma_pairs_table(d);
        assert forall|q: Seq<char>| #[trigger] pairs_table(p).contains_key(q) implies exists|b: int| 0 <= b < p.len() && p[b].0 == q && pairs_table(p)[q] == p[b].1 by {
            if q == p.last().0 {
                assert(p[p.len() - 1].0 == q);
            } else {
                let b = choose|b: int| 0 <= b < d.len() && d[b].0 == q && pairs_table(d)[q] == d[b].1;
                assert(p[b] == d[b]);
            }
        }
        assert forall|q: Seq<char>| #[trigger] pairs_table(p).contains_key(q) <==> key_in(p, q) by {
            if key_in(p, q) {
                let b = choose|b: int| 0 <= b < p.len() && #[trigger] p[b].0 == q;
                if b < p.len() - 1 {
                    assert(d[b].0 == q);
                    assert(key_in(d, q));
                }
            }
            if pairs_table(p).contains_key(q) {
                if q == p.last().0 {
                    assert(p[p.len() - 1].0 == q);
                } else {
                    assert(key_in(d, q));
                    let b = choose|b: int| 0 <= b < d.len() && #[trigger] d[b].0 == q;
                    assert(p[b] == d[b]);
                }
            }
        }
    }
}

} // verus!
