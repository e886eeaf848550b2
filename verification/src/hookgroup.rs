//! Ordered string-to-string maps (`indexmap::IndexMap<String, String>`), used
//! for hook groups and aliases, and what the library relies on of them.
use vstd::prelude::*;
use indexmap::IndexMap;

verus! {

#[verifier::external_type_specification]
#[verifier::external_body]
#[verifier::reject_recursive_types(K)]
#[verifier::reject_recursive_types(V)]
#[verifier::reject_recursive_types(S)]
pub struct ExIndexMap<K, V, S>(IndexMap<K, V, S>);

/// The entries of an ordered map, in order, as (key, value) text.
pub uninterp spec fn map_entries(m: IndexMap<String, String>) -> Seq<(Seq<char>, Seq<char>)>;

/// No key occurs twice.
pub open spec fn keys_distinct(e: Seq<(Seq<char>, Seq<char>)>) -> bool {
    forall|i: int, j: int| 0 <= i < e.len() && 0 <= j < e.len() && i != j ==> e[i].0 != e[j].0
}

/// Position of key `k` in `e`, or -1.
pub open spec fn key_pos(e: Seq<(Seq<char>, Seq<char>)>, k: Seq<char>) -> int
    decreases e.len(),
{
    if e.len() == 0 {
        -1
    } else if e.last().0 == k {
        e.len() - 1
    } else {
        key_pos(e.drop_last(), k)
    }
}

/// The value of key `k` in `e`, if it has one.
pub open spec fn lookup(e: Seq<(Seq<char>, Seq<char>)>, k: Seq<char>) -> Option<Seq<char>> {
    if key_pos(e, k) >= 0 { Some(e[key_pos(e, k)].1) } else { None }
}

/// `IndexMap::insert` on entries: an existing key keeps its place and takes
/// the new value; a new key goes last.
pub open spec fn entries_insert(e: Seq<(Seq<char>, Seq<char>)>, k: Seq<char>, v: Seq<char>) -> Seq<(Seq<char>, Seq<char>)> {
    if key_pos(e, k) >= 0 {
        e.update(key_pos(e, k), (k, v))
    } else {
        e.push((k, v))
    }
}

/// Where a key lies, when it lies anywhere.
pub proof fn lemma_key_pos(e: Seq<(Seq<char>, Seq<char>)>, k: Seq<char>)
    ensures
        -1 <= key_pos(e, k) < e.len(),
        key_pos(e, k) >= 0 ==> e[key_pos(e, k)].0 == k,
        key_pos(e, k) == -1 <==> forall|i: int| 0 <= i < e.len() ==> e[i].0 != k,
        forall|i: int| key_pos(e, k) < i < e.len() ==> e[i].0 != k,
    decreases e.len(),
{
    if e.len() > 0 {
        lemma_key_pos(e.drop_last(), k);
        if e.last().0 != k {
            assert forall|i: int| key_pos(e, k) < i < e.len() implies e[i].0 != k by {
                if i < e.len() - 1 {
                    assert(e[i] == e.drop_last()[i]);
                }
            }
        }
        if e.last().0 != k {
            assert forall|i: int| 0 <= i < e.len() && key_pos(e, k) == -1 implies e[i].0 != k by {
                if i < e.len() - 1 {
                    assert(e[i] == e.drop_last()[i]);
                }
            }
        }
    }
}

/// Inserting into entries whose keys are distinct keeps them distinct.
pub proof fn law_insert_keeps_keys_distinct(e: Seq<(Seq<char>, Seq<char>)>, k: Seq<char>, v: Seq<char>)
    requires
        keys_distinct(e),
    ensures
        keys_distinct(entries_insert(e, k, v)),
{
    lemma_key_pos(e, k);
}

/// An empty map.
#[verifier::external_body]
pub(crate) fn map_new() -> (r: IndexMap<String, String>)
    ensures
        map_entries(r) == Seq::<(Seq<char>, Seq<char>)>::empty(),
{
    IndexMap::new()
}

/// Number of entries.
#[verifier::external_body]
pub(crate) fn map_len(m: &IndexMap<String, String>) -> (r: usize)
    ensures
        r == map_entries(*m).len(),
{
    m.len()
}

/// The entry at position `i` (`IndexMap::get_index`).
#[verifier::external_body]
pub(crate) fn map_get_index(m: &IndexMap<String, String>, i: usize) -> (r: Option<(&String, &String)>)
    ensures
        match r {
            Some((k, v)) => i < map_entries(*m).len() && map_entries(*m)[i as int] == (k@, v@),
            None => i >= map_entries(*m).len(),
        },
{
    m.get_index(i)
}

/// The value kept for `k` (`IndexMap::get`).
#[verifier::external_body]
pub(crate) fn map_get<'a>(m: &'a IndexMap<String, String>, k: &str) -> (r: Option<&'a String>)
    ensures
        match r {
            Some(v) => lookup(map_entries(*m), k@) == Some(v@),
            None => lookup(map_entries(*m), k@).is_none(),
        },
{
    m.get(k)
}

/// `IndexMap::insert`: an existing key keeps its place and takes the new
/// value (the old one is handed back); a new key goes last.
#[verifier::external_body]
pub(crate) fn map_insert(m: &mut IndexMap<String, String>, k: String, v: String) -> (r: Option<String>)
    ensures
        keys_distinct(map_entries(*old(m))),
        map_entries(*final(m)) == entries_insert(map_entries(*old(m)), k@, v@),
        match r {
            Some(w) => lookup(map_entries(*old(m)), k@) == Some(w@),
            None => lookup(map_entries(*old(m)), k@).is_none(),
        },
{
    m.insert(k, v)
}

/// A copy of the map (`IndexMap::clone`), with the same entries in the same
/// order.
#[verifier::external_body]
pub(crate) fn map_clone(m: &IndexMap<String, String>) -> (r: IndexMap<String, String>)
    ensures
        map_entries(r) == map_entries(*m),
{
    m.clone()
}

/// How a hook slot is written in a config file: a bare command, one table
/// of named commands, or an array of such tables.
pub enum HookRepr {
    /// `pre-start = "npm install"`.
    Scalar(String),
    /// `[pre-start]` with named commands.
    Table(IndexMap<String, String>),
    /// `[[pre-start]]` blocks, run in order.
    Pipeline(Vec<IndexMap<String, String>>),
}

/// The groups of a hook slot: none when absent; a bare command becomes one
/// group holding it under the name `default`; a table is one group, none
/// when empty; each block of an array is a group.
pub fn hook_groups_of(repr: Option<HookRepr>) -> (r: Vec<IndexMap<String, String>>)
    ensures
        match repr {
            None => r@.len() == 0,
            Some(HookRepr::Scalar(cmd)) => r@.len() == 1 && map_entries(r@[0]) == seq![("default"@, cmd@)],
            Some(HookRepr::Table(g)) => if map_entries(g).len() == 0 { r@.len() == 0 } else { r@ == seq![g] },
            Some(HookRepr::Pipeline(gs)) => r@ == gs@,
        },
{
    match repr {
        None => Vec::new(),
        Some(HookRepr::Scalar(cmd)) => {
            let ghost c = cmd@;
            let mut g = map_new();
            map_insert(&mut g, "default".to_owned(), cmd);
            proof {
                lemma_key_pos(Seq::<(Seq<char>, Seq<char>)>::empty(), "default"@);
            }
            assert(map_entries(g) =~= seq![("default"@, c)]);
            vec![g]
        },
        Some(HookRepr::Table(g)) => {
            if map_len(&g) == 0 {
                Vec::new()
            } else {
                let v = vec![g];
                v
            }
        },
        Some(HookRepr::Pipeline(gs)) => gs,
    }
}

/// `base` with every entry of `over` inserted in order.
pub open spec fn entries_overlay(base: Seq<(Seq<char>, Seq<char>)>, over: Seq<(Seq<char>, Seq<char>)>) -> Seq<(Seq<char>, Seq<char>)>
    decreases over.len(),
{
    if over.len() == 0 {
        base
    } else {
        entries_insert(entries_overlay(base, over.drop_last()), over.last().0, over.last().1)
    }
}

/// `base` with every entry of `over` inserted in order.
pub(crate) fn map_overlay(base: IndexMap<String, String>, over: &IndexMap<String, String>) -> (r: IndexMap<String, String>)
    ensures
        map_entries(r) == entries_overlay(map_entries(base), map_entries(*over)),
{
    let mut out = base;
    let n = map_len(over);
    let ghost ov = map_entries(*over);
    let mut i: usize = 0;
    while i < n
        invariant
            i <= n,
            n == ov.len(),
            ov == map_entries(*over),
            map_entries(out) == entries_overlay(map_entries(base), ov.take(i as int)),
        decreases n - i,
    {
        match map_get_index(over, i) {
            Some((k, v)) => {
                map_insert(&mut out, k.clone(), v.clone());
                assert(ov.take(i + 1).drop_last() =~= ov.take(i as int));
            },
            None => {},
        }
        i = i + 1;
    }
    assert(ov.take(n as int) =~= ov);
    out
}

/// Overlaying ordered maps: every key of `over` ends with `over`'s value;
/// every other key keeps its value in `base`; nothing else is there.
pub proof fn law_overlay_lookup(base: Seq<(Seq<char>, Seq<char>)>, over: Seq<(Seq<char>, Seq<char>)>, k: Seq<char>)
    ensures
        lookup(entries_overlay(base, over), k) == if lookup(over, k).is_some() {
            lookup(over, k)
        } else {
            lookup(base, k)
        },
    decreases over.len(),
{
    if over.len() > 0 {
        let prev = entries_overlay(base, over.drop_last());
        law_overlay_lookup(base, over.drop_last(), k);
        lemma_key_pos(prev, k);
        lemma_key_pos(prev, over.last().0);
        let e = entries_overlay(base, over);
        lemma_key_pos(e, k);
        lemma_key_pos(over, k);
        lemma_key_pos(over.drop_last(), k);
        if over.last().0 == k {
            assert(lookup(over, k) == Some(over.last().1));
            if key_pos(prev, k) >= 0 {
                assert(e[key_pos(prev, k)] == (k, over.last().1));
                lemma_key_pos_first(e, k, key_pos(prev, k));
            } else {
                assert(e.last() == (k, over.last().1));
            }
        } else {
            assert(lookup(over, k) == lookup(over.drop_last(), k));
            // the inserted key differs from k, so k's lookup is unchanged
            if key_pos(prev, over.last().0) >= 0 {
                let p = key_pos(prev, over.last().0);
                assert forall|i: int| 0 <= i < e.len() implies (e[i].0 == k <==> prev[i].0 == k) by {}
            } else {
                assert forall|i: int| 0 <= i < prev.len() implies (e[i] == prev[i]) by {}
            }
            lemma_lookup_same_keys(prev, e, k);
        }
    }
}

proof fn lemma_key_pos_first(e: Seq<(Seq<char>, Seq<char>)>, k: Seq<char>, p: int)
    requires
        0 <= p < e.len(),
        e[p].0 == k,
        forall|i: int| p < i < e.len() ==> e[i].0 != k,
    ensures
        key_pos(e, k) == p,
    decreases e.len(),
{
    if e.len() - 1 != p {
        lemma_key_pos_first(e.drop_last(), k, p);
    }
}

proof fn lemma_lookup_same_keys(a: Seq<(Seq<char>, Seq<char>)>, b: Seq<(Seq<char>, Seq<char>)>, k: Seq<char>)
    requires
        a.len() <= b.len(),
        forall|i: int| 0 <= i < a.len() ==> (b[i].0 == k <==> a[i].0 == k),
        forall|i: int| 0 <= i < a.len() && a[i].0 == k ==> b[i] == a[i],
        forall|i: int| a.len() <= i < b.len() ==> b[i].0 != k,
    ensures
        lookup(b, k) == lookup(a, k),
    decreases b.len(),
{
    if b.len() > a.len() {
        lemma_lookup_same_keys(a, b.drop_last(), k);
        lemma_key_pos(b.drop_last(), k);
        assert(b.last().0 != k);
        assert(key_pos(b, k) == key_pos(b.drop_last(), k));
        if key_pos(b, k) >= 0 {
            assert(b[key_pos(b, k)] == b.drop_last()[key_pos(b, k)]);
        }
    } else if a.len() > 0 {
        if b.last().0 == k {
            assert(a.last().0 == k);
            assert(b[b.len() - 1] == a[a.len() - 1]);
        } else {
            lemma_lookup_same_keys(a.drop_last(), b.drop_last(), k);
            lemma_key_pos(b.drop_last(), k);
            lemma_key_pos(a.drop_last(), k);
            assert(a.last().0 != k);
            if key_pos(b, k) >= 0 {
                assert(b[key_pos(b, k)] == b.drop_last()[key_pos(b, k)]);
            }
            if key_pos(a, k) >= 0 {
                assert(a[key_pos(a, k)] == a.drop_last()[key_pos(a, k)]);
            }
        }
    }
}

} // verus!
