//! A small map keyed by strings, kept as a list of distinct keys.
use vstd::prelude::*;
use crate::text::str_eq;

verus! {

/// A finite map from strings to values. Keys are unique; the order in which
/// entries are kept carries no meaning.
pub struct StrMap<V> {
    entries: Vec<(String, V)>,
}

/// Keys of `s` are pairwise distinct.
pub open spec fn distinct_keys<V>(s: Seq<(String, V)>) -> bool {
    forall|i: int, j: int| 0 <= i < s.len() && 0 <= j < s.len() && i != j ==> s[i].0@ != s[j].0@
}

/// Entry `i` of `s` holds key `k`.
pub open spec fn key_at<V>(s: Seq<(String, V)>, k: Seq<char>, i: int) -> bool {
    0 <= i < s.len() && s[i].0@ == k
}

/// The map that a list of entries stands for.
pub open spec fn entries_map<V>(s: Seq<(String, V)>) -> Map<Seq<char>, V> {
    Map::new(
        |k: Seq<char>| exists|i: int| key_at(s, k, i),
        |k: Seq<char>| s[choose|i: int| key_at(s, k, i)].1,
    )
}

proof fn lemma_lookup<V>(s: Seq<(String, V)>, k: Seq<char>, i: int)
    requires
        distinct_keys(s),
        key_at(s, k, i),
    ensures
        entries_map(s).contains_key(k),
        entries_map(s)[k] == s[i].1,
{
    let j = choose|j: int| key_at(s, k, j);
    assert(key_at(s, k, j));
}

proof fn lemma_push<V>(s: Seq<(String, V)>, k: String, v: V)
    requires
        distinct_keys(s),
        !entries_map(s).contains_key(k@),
    ensures
        distinct_keys(s.push((k, v))),
        entries_map(s.push((k, v))) =~= entries_map(s).insert(k@, v),
{
    let t = s.push((k, v));
    assert forall|i: int, j: int| 0 <= i < t.len() && 0 <= j < t.len() && i != j implies t[i].0@
        != t[j].0@ by {
        if i == s.len() as int {
            assert(!key_at(s, k@, j));
        } else if j == s.len() as int {
            assert(!key_at(s, k@, i));
        }
    }
    assert forall|q: Seq<char>| #[trigger] entries_map(t).contains_key(q)
        <==> entries_map(s).insert(k@, v).contains_key(q) by {
        if entries_map(t).contains_key(q) {
            let i = choose|i: int| key_at(t, q, i);
            if i < s.len() {
                assert(key_at(s, q, i));
            }
        }
        if entries_map(s).contains_key(q) {
            let i = choose|i: int| key_at(s, q, i);
            assert(key_at(t, q, i));
        }
        if q == k@ {
            assert(key_at(t, q, s.len() as int));
        }
    }
    assert forall|q: Seq<char>| #[trigger] entries_map(t).contains_key(q) implies entries_map(t)[q]
        == entries_map(s).insert(k@, v)[q] by {
        let i = choose|i: int| key_at(t, q, i);
        lemma_lookup(t, q, i);
        if i < s.len() {
            assert(key_at(s, q, i));
            lemma_lookup(s, q, i);
        }
    }
}

proof fn lemma_remove<V>(s: Seq<(String, V)>, i: int)
    requires
        distinct_keys(s),
        0 <= i < s.len(),
    ensures
        distinct_keys(s.remove(i)),
        entries_map(s.remove(i)) =~= entries_map(s).remove(s[i].0@),
{
    let t = s.remove(i);
    let k = s[i].0@;
    assert forall|a: int, b: int| 0 <= a < t.len() && 0 <= b < t.len() && a != b implies t[a].0@
        != t[b].0@ by {
        let a2 = if a < i { a } else { a + 1 };
        let b2 = if b < i { b } else { b + 1 };
        assert(t[a] == s[a2] && t[b] == s[b2]);
    }
    assert forall|q: Seq<char>| #[trigger] entries_map(t).contains_key(q)
        <==> entries_map(s).remove(k).contains_key(q) by {
        if entries_map(t).contains_key(q) {
            let a = choose|a: int| key_at(t, q, a);
            let a2 = if a < i { a } else { a + 1 };
            assert(t[a] == s[a2]);
            assert(key_at(s, q, a2));
        }
        if entries_map(s).contains_key(q) && q != k {
            let a = choose|a: int| key_at(s, q, a);
            let a2 = if a < i { a } else { a - 1 };
            assert(t[a2] == s[a]);
            assert(key_at(t, q, a2));
        }
    }
    assert forall|q: Seq<char>| #[trigger] entries_map(t).contains_key(q) implies entries_map(t)[q]
        == entries_map(s).remove(k)[q] by {
        let a = choose|a: int| key_at(t, q, a);
        let a2 = if a < i { a } else { a + 1 };
        assert(t[a] == s[a2]);
        lemma_lookup(t, q, a);
        lemma_lookup(s, q, a2);
    }
}

impl<V> View for StrMap<V> {
    type V = Map<Seq<char>, V>;

    closed spec fn view(&self) -> Map<Seq<char>, V> {
        entries_map(self.entries@)
    }
}

impl<V> StrMap<V> {
    #[verifier::type_invariant]
    spec fn inv(self) -> bool {
        distinct_keys(self.entries@)
    }

    /// An empty map.
    pub fn new() -> (r: Self)
        ensures
            r@ == Map::<Seq<char>, V>::empty(),
    {
        let r = StrMap { entries: Vec::new() };
        assert(r@ =~= Map::<Seq<char>, V>::empty());
        r
    }

    /// Number of entries.
    pub fn len(&self) -> (r: usize)
        ensures
            r == self@.len(),
    {
        proof {
            use_type_invariant(self);
            self.lemma_len();
        }
        self.entries.len()
    }

    proof fn lemma_len(&self)
        requires
            distinct_keys(self.entries@),
        ensures
            self@.dom().finite(),
            self@.len() == self.entries@.len(),
        decreases self.entries@.len(),
    {
        let s = self.entries@;
        let f = |e: (String, V)| e.0@;
        let keys = s.map_values(f);
        assert forall|q: Seq<char>| #[trigger] self@.dom().contains(q) <==> keys.to_set().contains(q) by {
            if self@.dom().contains(q) {
                let i = choose|i: int| key_at(s, q, i);
                assert(keys[i] == q);
            }
            if keys.to_set().contains(q) {
                let i = choose|i: int| 0 <= i < keys.len() && keys[i] == q;
                assert(key_at(s, q, i));
            }
        }
        assert(self@.dom() =~= keys.to_set());
        assert(keys.no_duplicates()) by {
            assert forall|i: int, j: int| 0 <= i < keys.len() && 0 <= j < keys.len() && i != j
                implies keys[i] != keys[j] by {}
        }
        keys.unique_seq_to_set();
    }

    /// Whether the map has no entries.
    pub fn is_empty(&self) -> (r: bool)
        ensures
            r == (self@ == Map::<Seq<char>, V>::empty()),
            self@.dom().finite(),
    {
        proof {
            use_type_invariant(self);
            self.lemma_len();
        }
        if self.entries.len() == 0 {
            assert(self@ =~= Map::<Seq<char>, V>::empty());
            true
        } else {
            assert(key_at(self.entries@, self.entries@[0].0@, 0));
            assert(self@.contains_key(self.entries@[0].0@));
            false
        }
    }

    fn find(&self, k: &str) -> (r: Option<usize>)
        ensures
            match r {
                Some(i) => key_at(self.entries@, k@, i as int),
                None => !self@.contains_key(k@),
            },
    {
        let mut i: usize = 0;
        while i < self.entries.len()
            invariant
                i <= self.entries@.len(),
                forall|j: int| 0 <= j < i ==> self.entries@[j].0@ != k@,
            decreases self.entries@.len() - i,
        {
            if str_eq(self.entries[i].0.as_str(), k) {
                return Some(i);
            }
            i = i + 1;
        }
        None
    }

    /// Whether `k` has an entry.
    pub fn contains_key(&self, k: &str) -> (r: bool)
        ensures
            r == self@.contains_key(k@),
    {
        proof {
            use_type_invariant(self);
        }
        match self.find(k) {
            Some(i) => {
                proof {
                    lemma_lookup(self.entries@, k@, i as int);
                }
                true
            },
            None => false,
        }
    }

    /// The value kept for `k`, if any.
    pub fn get(&self, k: &str) -> (r: Option<&V>)
        ensures
            match r {
                Some(v) => self@.contains_key(k@) && *v == self@[k@],
                None => !self@.contains_key(k@),
            },
    {
        proof {
            use_type_invariant(self);
        }
        match self.find(k) {
            Some(i) => {
                proof {
                    lemma_lookup(self.entries@, k@, i as int);
                }
                Some(&self.entries[i].1)
            },
            None => None,
        }
    }

    /// Remove the entry of `k`, handing back its value.
    pub fn remove(&mut self, k: &str) -> (r: Option<V>)
        ensures
            final(self)@ == old(self)@.remove(k@),
            match r {
                Some(v) => old(self)@.contains_key(k@) && v == old(self)@[k@],
                None => !old(self)@.contains_key(k@),
            },
    {
        proof {
            use_type_invariant(&*self);
        }
        match self.find(k) {
            Some(i) => {
                proof {
                    lemma_lookup(self.entries@, k@, i as int);
                    lemma_remove(self.entries@, i as int);
                }
                let mut es: Vec<(String, V)> = Vec::new();
                std::mem::swap(&mut es, &mut self.entries);
                let (_, v) = es.remove(i);
                self.entries = es;
                Some(v)
            },
            None => {
                assert(old(self)@.remove(k@) =~= old(self)@);
                None
            },
        }
    }

    /// Set the value of `k`, handing back the value it replaced.
    pub fn insert(&mut self, k: String, v: V) -> (r: Option<V>)
        ensures
            final(self)@ == old(self)@.insert(k@, v),
            match r {
                Some(w) => old(self)@.contains_key(k@) && w == old(self)@[k@],
                None => !old(self)@.contains_key(k@),
            },
    {
        let r = self.remove(k.as_str());
        proof {
            use_type_invariant(&*self);
            lemma_push(self.entries@, k, v);
        }
        let mut es: Vec<(String, V)> = Vec::new();
        std::mem::swap(&mut es, &mut self.entries);
        es.push((k, v));
        self.entries = es;
        proof {
            assert(final(self)@ =~= old(self)@.insert(k@, v));
        }
        r
    }

    /// The keys, in storage order, without repeats.
    pub fn keys(&self) -> (r: Vec<String>)
        ensures
            r@.len() == self@.len(),
            forall|q: Seq<char>| self@.contains_key(q) <==> exists|i: int| 0 <= i < r@.len() && #[trigger] r@[i]@ == q,
    {
        proof {
            use_type_invariant(self);
            self.lemma_len();
        }
        let mut out: Vec<String> = Vec::new();
        let mut i: usize = 0;
        while i < self.entries.len()
            invariant
                i <= self.entries@.len(),
                out@.len() == i,
                forall|j: int| 0 <= j < i ==> out@[j]@ == self.entries@[j].0@,
            decreases self.entries@.len() - i,
        {
            out.push(self.entries[i].0.clone());
            i = i + 1;
        }
        assert forall|q: Seq<char>| self@.contains_key(q) <==> exists|i: int| 0 <= i < out@.len() && #[trigger] out@[i]@ == q by {
            if self@.contains_key(q) {
                let j = choose|j: int| key_at(self.entries@, q, j);
                assert(out@[j]@ == q);
            }
            if exists|i: int| 0 <= i < out@.len() && #[trigger] out@[i]@ == q {
                let j = choose|j: int| 0 <= j < out@.len() && #[trigger] out@[j]@ == q;
                assert(key_at(self.entries@, q, j));
            }
        }
        out
    }
}

impl StrMap<String> {
    /// A copy of this map.
    pub fn duplicate(&self) -> (r: Self)
        ensures
            r@ == self@,
    {
        proof {
            use_type_invariant(self);
        }
        let mut out: Vec<(String, String)> = Vec::new();
        let mut i: usize = 0;
        while i < self.entries.len()
            invariant
                i <= self.entries@.len(),
                out@ == self.entries@.take(i as int),
            decreases self.entries@.len() - i,
        {
            let k = self.entries[i].0.clone();
            let v = self.entries[i].1.clone();
            out.push((k, v));
            i = i + 1;
            assert(out@ =~= self.entries@.take(i as int));
        }
        assert(out@ =~= self.entries@);
        StrMap { entries: out }
    }
}

} // verus!
