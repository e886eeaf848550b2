//! Persistent per-repository state: the previously visited workspace and
//! per-workspace variables.
use vstd::prelude::*;
use crate::strmap::StrMap;
use crate::text::concat;

verus! {

/// Per-repository state kept at `.jj/jjwt-state.toml`. Every field may be
/// missing from the file, so the empty state is the default.
pub struct JjwtState {
    /// Workspace the user was in immediately before the most recent
    /// successful switch; powers the `-` shortcut.
    pub previous_workspace: Option<String>,
    /// Per-workspace key-value variables: workspace name to (key to value).
    pub vars: StrMap<StrMap<String>>,
}

/// The text of every value of a string map.
pub open spec fn text_map(m: Map<Seq<char>, String>) -> Map<Seq<char>, Seq<char>> {
    m.map_values(|s: String| s@)
}

impl JjwtState {
    /// Workspace name to its variables, as text.
    pub open spec fn table(&self) -> Map<Seq<char>, Map<Seq<char>, Seq<char>>> {
        self.vars@.map_values(|m: StrMap<String>| text_map(m@))
    }

    /// The variables of workspace `ws` (empty when it has none).
    pub open spec fn vars_of(&self, ws: Seq<char>) -> Map<Seq<char>, Seq<char>> {
        if self.table().contains_key(ws) {
            self.table()[ws]
        } else {
            Map::empty()
        }
    }

    /// The empty state.
    pub fn default() -> (r: Self)
        ensures
            r.previous_workspace.is_none(),
            r.table() == Map::<Seq<char>, Map<Seq<char>, Seq<char>>>::empty(),
    {
        let r = JjwtState { previous_workspace: None, vars: StrMap::new() };
        assert(r.table() =~= Map::<Seq<char>, Map<Seq<char>, Seq<char>>>::empty());
        r
    }

    /// The variables of a workspace (an empty map if none are set).
    pub fn get_vars(&self, workspace: &str) -> (r: StrMap<String>)
        ensures
            text_map(r@) == self.vars_of(workspace@),
    {
        match self.vars.get(workspace) {
            Some(m) => m.duplicate(),
            None => {
                let r = StrMap::new();
                assert(text_map(r@) =~= Map::<Seq<char>, Seq<char>>::empty());
                r
            },
        }
    }

    /// Set variable `key` of `workspace` to `val`.
    pub fn set_var(&mut self, workspace: &str, key: &str, val: &str)
        ensures
            final(self).previous_workspace == old(self).previous_workspace,
            final(self).table() == old(self).table().insert(
                workspace@,
                old(self).vars_of(workspace@).insert(key@, val@),
            ),
    {
        let ghost before = old(self).table();
        let mut inner = match self.vars.remove(workspace) {
            Some(m) => m,
            None => StrMap::new(),
        };
        let ghost inner0 = inner@;
        assert(text_map(inner0) =~= old(self).vars_of(workspace@));
        inner.insert(key.to_owned(), val.to_owned());
        assert(text_map(inner@) =~= old(self).vars_of(workspace@).insert(key@, val@));
        self.vars.insert(workspace.to_owned(), inner);
        assert(final(self).table() =~= before.insert(
            workspace@,
            old(self).vars_of(workspace@).insert(key@, val@),
        ));
    }

    /// Remove variable `key` of `workspace`, handing back its value. A
    /// workspace left without variables is dropped from the table.
    pub fn remove_var(&mut self, workspace: &str, key: &str) -> (r: Option<String>)
        ensures
            final(self).previous_workspace == old(self).previous_workspace,
            match r {
                Some(v) => old(self).vars_of(workspace@).contains_key(key@)
                    && v@ == old(self).vars_of(workspace@)[key@],
                None => !old(self).vars_of(workspace@).contains_key(key@),
            },
            !old(self).table().contains_key(workspace@) ==> final(self).table() == old(self).table(),
            old(self).table().contains_key(workspace@) ==> {
                let rest = old(self).table()[workspace@].remove(key@);
                final(self).table() == if rest.is_empty() {
                    old(self).table().remove(workspace@)
                } else {
                    old(self).table().insert(workspace@, rest)
                }
            },
    {
        let ghost before = old(self).table();
        let mut inner = match self.vars.remove(workspace) {
            Some(m) => m,
            None => {
                return None;
            },
        };
        let removed = inner.remove(key);
        assert(text_map(inner@) =~= before[workspace@].remove(key@));
        if inner.is_empty() {
            assert(before[workspace@].remove(key@) =~= Map::<Seq<char>, Seq<char>>::empty());
            assert(final(self).table() =~= before.remove(workspace@));
        } else {
            assert(!before[workspace@].remove(key@).is_empty()) by {
                if before[workspace@].remove(key@).is_empty() {
                    assert(inner@ =~= Map::<Seq<char>, String>::empty()) by {
                        assert forall|q: Seq<char>| !inner@.contains_key(q) by {
                            if inner@.contains_key(q) {
                                assert(text_map(inner@).contains_key(q));
                            }
                        }
                    }
                }
            }
            self.vars.insert(workspace.to_owned(), inner);
            assert(final(self).table() =~= before.insert(workspace@, before[workspace@].remove(key@)));
        }
        removed
    }

    /// `step var delete`: remove variable `key` of `workspace`, or refuse
    /// with a message when it is not set, leaving the state as it was.
    pub fn delete_var(&mut self, workspace: &str, key: &str) -> (r: Result<(), String>)
        ensures
            final(self).previous_workspace == old(self).previous_workspace,
            r is Ok <==> old(self).vars_of(workspace@).contains_key(key@),
            r matches Err(m) ==> m@ == unset_message(workspace@, key@),
            r is Err ==> forall|w: Seq<char>| #[trigger] final(self).vars_of(w) == old(self).vars_of(w),
            r is Ok ==> {
                let rest = old(self).table()[workspace@].remove(key@);
                final(self).table() == if rest.is_empty() {
                    old(self).table().remove(workspace@)
                } else {
                    old(self).table().insert(workspace@, rest)
                }
            },
    {
        let ghost before = old(self).table();
        match self.remove_var(workspace, key) {
            Some(_) => Ok(()),
            None => {
                proof {
                    if before.contains_key(workspace@) {
                        assert(before[workspace@].remove(key@) =~= before[workspace@]);
                        assert forall|w: Seq<char>| #[trigger] self.vars_of(w) == old(self).vars_of(w) by {
                            if w == workspace@ && before[workspace@].is_empty() {
                                assert(before[workspace@] =~= Map::<Seq<char>, Seq<char>>::empty());
                            }
                        }
                    }
                }
                Err(unset_var_message(workspace, key))
            },
        }
    }
}

/// The message for a variable that is not set.
pub open spec fn unset_message(workspace: Seq<char>, key: Seq<char>) -> Seq<char> {
    "variable '"@ + key + "' not set for workspace '"@ + workspace + "'"@
}

/// The message for a variable that is not set, as `unset_message` says.
pub fn unset_var_message(workspace: &str, key: &str) -> (r: String)
    ensures
        r@ == unset_message(workspace@, key@),
{
    let a = concat("variable '", key);
    let b = concat(a.as_str(), "' not set for workspace '");
    let c = concat(b.as_str(), workspace);
    concat(c.as_str(), "'")
}

/// Reading a variable right after setting it gives the value set, and other
/// variables, of that workspace and of the others, keep their values.
pub proof fn law_set_then_get(s0: JjwtState, s1: JjwtState, ws: Seq<char>, key: Seq<char>, val: Seq<char>)
    requires
        s1.table() == s0.table().insert(ws, s0.vars_of(ws).insert(key, val)),
    ensures
        s1.vars_of(ws).contains_key(key),
        s1.vars_of(ws)[key] == val,
        forall|k: Seq<char>| k != key ==> s1.vars_of(ws).contains_key(k) == s0.vars_of(ws).contains_key(k)
            && (s0.vars_of(ws).contains_key(k) ==> s1.vars_of(ws)[k] == s0.vars_of(ws)[k]),
        forall|w: Seq<char>| w != ws ==> #[trigger] s1.vars_of(w) == s0.vars_of(w),
{
}

/// Removing a variable that was just set hands back the value set, and the
/// workspace then no longer has that variable.
pub proof fn law_set_then_remove(
    s1: JjwtState,
    s2: JjwtState,
    ws: Seq<char>,
    key: Seq<char>,
    val: Seq<char>,
    r: Option<Seq<char>>,
)
    requires
        s1.vars_of(ws).contains_key(key) && s1.vars_of(ws)[key] == val,
        r == (if s1.vars_of(ws).contains_key(key) { Some(s1.vars_of(ws)[key]) } else { None::<Seq<char>> }),
        s1.table().contains_key(ws),
        ({
            let rest = s1.table()[ws].remove(key);
            s2.table() == if rest.is_empty() {
                s1.table().remove(ws)
            } else {
                s1.table().insert(ws, rest)
            }
        }),
    ensures
        r == Some(val),
        !s2.vars_of(ws).contains_key(key),
        s2.table().contains_key(ws) ==> !s2.table()[ws].is_empty(),
{
}

} // verus!
