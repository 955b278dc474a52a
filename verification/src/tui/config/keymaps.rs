//! Key bindings of actions.

use vstd::prelude::*;
use crate::search::{first_match, lemma_first_match};
use crate::tui::actions::Action;
use crate::tui::keys::{KeyCode, KeyModifiers};

verus! {

/// A key binding: a key, and the modifiers that must be held with it.
#[derive(Debug, Clone, Copy, PartialEq, Eq, Structural)]
pub struct KeyMap {
    pub key: KeyCode,
    pub modifiers: Option<KeyModifiers>,
}

impl KeyMap {
    /// The binding of a character key.
    pub fn char(key: char, modifiers: Option<KeyModifiers>) -> (k: KeyMap)
        ensures
            k.key == KeyCode::Char(key),
            k.modifiers == modifiers,
    {
        KeyMap { key: KeyCode::Char(key), modifiers }
    }
}

impl From<(Option<KeyModifiers>, KeyCode)> for KeyMap {
    /// The binding of a key with optional modifiers.
    fn from(parts: (Option<KeyModifiers>, KeyCode)) -> (k: KeyMap) {
        KeyMap { key: parts.1, modifiers: parts.0 }
    }
}

impl vstd::std_specs::convert::FromSpecImpl<(Option<KeyModifiers>, KeyCode)> for KeyMap {
    open spec fn obeys_from_spec() -> bool {
        true
    }

    open spec fn from_spec(parts: (Option<KeyModifiers>, KeyCode)) -> KeyMap {
        KeyMap { key: parts.1, modifiers: parts.0 }
    }
}

/// The condition that picks the entry of action `a`.
pub open spec fn action_is(a: Action) -> spec_fn((Action, Vec<KeyMap>)) -> bool {
    |e: (Action, Vec<KeyMap>)| e.0 == a
}

/// The actions of a list of entries.
pub open spec fn entry_actions(s: Seq<(Action, Vec<KeyMap>)>) -> Seq<Action> {
    s.map_values(|e: (Action, Vec<KeyMap>)| e.0)
}

/// The bindings each action has in a list of entries.
pub open spec fn keymaps_map(s: Seq<(Action, Vec<KeyMap>)>) -> Map<Action, Seq<KeyMap>> {
    Map::new(
        |a: Action| entry_actions(s).contains(a),
        |a: Action| s[first_match(s, action_is(a))].1@,
    )
}

/// The bindings of each action.
pub struct Keymaps {
    entries: Vec<(Action, Vec<KeyMap>)>,
}

impl View for Keymaps {
    type V = Map<Action, Seq<KeyMap>>;

    closed spec fn view(&self) -> Map<Action, Seq<KeyMap>> {
        keymaps_map(self.entries@)
    }
}

proof fn lemma_keymaps_lookup(s: Seq<(Action, Vec<KeyMap>)>, i: int)
    requires
        entry_actions(s).no_duplicates(),
        0 <= i < s.len(),
    ensures
        keymaps_map(s).dom().contains(s[i].0),
        keymaps_map(s)[s[i].0] == s[i].1@,
{
    let a = s[i].0;
    assert(entry_actions(s)[i] == a);
    assert forall|j: int| 0 <= j < i implies !action_is(a)(#[trigger] s[j]) by {
        assert(entry_actions(s)[j] == s[j].0);
    }
    lemma_first_match(s, action_is(a), i);
}

proof fn lemma_keymaps_absent(s: Seq<(Action, Vec<KeyMap>)>, a: Action)
    requires
        forall|j: int| 0 <= j < s.len() ==> (#[trigger] s[j]).0 != a,
    ensures
        !keymaps_map(s).dom().contains(a),
{
    if entry_actions(s).contains(a) {
        let j = choose|j: int| 0 <= j < entry_actions(s).len() && entry_actions(s)[j] == a;
        assert(s[j].0 == a);
    }
}

impl Keymaps {
    #[verifier::type_invariant]
    spec fn distinct_actions(&self) -> bool {
        entry_actions(self.entries@).no_duplicates()
    }

    /// No bindings.
    pub fn new() -> (m: Keymaps)
        ensures
            m@ == Map::<Action, Seq<KeyMap>>::empty(),
    {
        let m = Keymaps { entries: Vec::new() };
        assert(m@ =~= Map::<Action, Seq<KeyMap>>::empty());
        m
    }

    /// The bindings of action `a`.
    pub fn get(&self, a: &Action) -> (r: Option<&Vec<KeyMap>>)
        ensures
            r is Some <==> self@.dom().contains(*a),
            r matches Some(v) ==> v@ == self@[*a],
    {
        proof {
            use_type_invariant(self);
        }
        let mut i: usize = 0;
        while i < self.entries.len()
            invariant
                i <= self.entries@.len(),
                entry_actions(self.entries@).no_duplicates(),
                forall|j: int| 0 <= j < i ==> (#[trigger] self.entries@[j]).0 != *a,
            decreases self.entries.len() - i,
        {
            if self.entries[i].0 == *a {
                proof {
                    lemma_keymaps_lookup(self.entries@, i as int);
                }
                return Some(&self.entries[i].1);
            }
            i = i + 1;
        }
        proof {
            lemma_keymaps_absent(self.entries@, *a);
        }
        None
    }

    /// Sets the bindings of action `a`.
    pub fn insert(&mut self, a: Action, maps: Vec<KeyMap>)
        ensures
            final(self)@ == old(self)@.insert(a, maps@),
    {
        proof {
            use_type_invariant(&*self);
        }
        let ghost s = self.entries@;
        let ghost mv = maps@;
        let mut i: usize = 0;
        while i < self.entries.len() && self.entries[i].0 != a
            invariant
                i <= self.entries@.len(),
                s == self.entries@,
                forall|j: int| 0 <= j < i ==> (#[trigger] self.entries@[j]).0 != a,
            decreases self.entries.len() - i,
        {
            i = i + 1;
        }
        let mut entries: Vec<(Action, Vec<KeyMap>)> = Vec::new();
        std::mem::swap(&mut entries, &mut self.entries);
        if i < entries.len() {
            proof {
                lemma_keymaps_lookup(s, i as int);
            }
            let _prev = entries.remove(i);
            entries.insert(i, (a, maps));
            proof {
                let n = entries@;
                assert(entry_actions(n) =~= entry_actions(s));
                assert(keymaps_map(n) =~= keymaps_map(s).insert(a, mv)) by {
                    assert forall|q: Action| #[trigger] keymaps_map(n).dom().contains(q) implies keymaps_map(n)[q] == keymaps_map(s).insert(a, mv)[q] by {
                        let j = choose|j: int| 0 <= j < entry_actions(n).len() && entry_actions(n)[j] == q;
                        assert(n[j].0 == q);
                        lemma_keymaps_lookup(n, j);
                        lemma_keymaps_lookup(s, j);
                        if j != i {
                            assert(entry_actions(s)[j] != entry_actions(s)[i as int]);
                        }
                    }
                }
            }
            self.entries = entries;
        } else {
            entries.push((a, maps));
            proof {
                let n = entries@;
                assert(entry_actions(n) =~= entry_actions(s).push(a));
                assert(entry_actions(n).no_duplicates()) by {
                    assert forall|x: int, y: int| 0 <= x < y < entry_actions(n).len() implies entry_actions(n)[x] != entry_actions(n)[y] by {
                        if y == s.len() {
                            assert(entry_actions(n)[x] == s[x].0);
                        } else {
                            assert(entry_actions(n)[x] == entry_actions(s)[x]);
                            assert(entry_actions(n)[y] == entry_actions(s)[y]);
                        }
                    }
                }
                assert(keymaps_map(n) =~= keymaps_map(s).insert(a, mv)) by {
                    assert forall|q: Action| #[trigger] keymaps_map(n).dom().contains(q) implies keymaps_map(n)[q] == keymaps_map(s).insert(a, mv)[q] by {
                        let j = choose|j: int| 0 <= j < entry_actions(n).len() && entry_actions(n)[j] == q;
                        assert(n[j].0 == q);
                        lemma_keymaps_lookup(n, j);
                        if j < s.len() {
                            assert(n[j] == s[j]);
                            lemma_keymaps_lookup(s, j);
                        }
                    }
                    assert forall|q: Action| keymaps_map(s).insert(a, mv).dom().contains(q) implies #[trigger] keymaps_map(n).dom().contains(q) by {
                        if q == a {
                            assert(entry_actions(n)[s.len() as int] == q);
                        } else {
                            let j = choose|j: int| 0 <= j < entry_actions(s).len() && entry_actions(s)[j] == q;
                            assert(entry_actions(n)[j] == q);
                        }
                    }
                }
            }
            self.entries = entries;
        }
    }
}

} // verus!
