//! Maps keyed by names (project or registry names), kept as a list of
//! entries with distinct keys.

use vstd::prelude::*;
use crate::search::{first_match, lemma_first_match};
use crate::text::same_text;

verus! {

/// The condition that picks the entry with key `k`.
pub open spec fn key_is<V>(k: Seq<char>) -> spec_fn((String, V)) -> bool {
    |e: (String, V)| e.0@ == k
}

/// The keys of a list of entries.
pub open spec fn entry_keys<V>(s: Seq<(String, V)>) -> Seq<Seq<char>> {
    s.map_values(|e: (String, V)| e.0@)
}

/// The map that a list of entries stands for: each key to the value of its
/// first entry.
pub open spec fn entries_map<V>(s: Seq<(String, V)>) -> Map<Seq<char>, V> {
    Map::new(
        |k: Seq<char>| entry_keys(s).contains(k),
        |k: Seq<char>| s[first_match(s, key_is::<V>(k))].1,
    )
}

/// A map from names to values, with a fixed order of its entries.
pub struct NameMap<V> {
    entries: Vec<(String, V)>,
}

impl<V> View for NameMap<V> {
    type V = Map<Seq<char>, V>;

    closed spec fn view(&self) -> Map<Seq<char>, V> {
        entries_map(self.entries@)
    }
}

proof fn lemma_entries_lookup<V>(s: Seq<(String, V)>, i: int)
    requires
        entry_keys(s).no_duplicates(),
        0 <= i < s.len(),
    ensures
        entries_map(s).dom().contains(s[i].0@),
        entries_map(s)[s[i].0@] == s[i].1,
{
    let k = s[i].0@;
    assert(entry_keys(s)[i] == k);
    assert forall|j: int| 0 <= j < i implies !key_is::<V>(k)(#[trigger] s[j]) by {
        assert(entry_keys(s)[j] == s[j].0@);
    }
    lemma_first_match(s, key_is::<V>(k), i);
}

proof fn lemma_entries_absent<V>(s: Seq<(String, V)>, k: Seq<char>)
    requires
        forall|j: int| 0 <= j < s.len() ==> (#[trigger] s[j]).0@ != k,
    ensures
        !entries_map(s).dom().contains(k),
{
    if entry_keys(s).contains(k) {
        let j = choose|j: int| 0 <= j < entry_keys(s).len() && entry_keys(s)[j] == k;
        assert(s[j].0@ == k);
    }
}

impl<V> NameMap<V> {
    #[verifier::type_invariant]
    spec fn distinct_keys(&self) -> bool {
        entry_keys(self.entries@).no_duplicates()
    }

    /// The entries, in their order.
    pub closed spec fn entries(&self) -> Seq<(String, V)> {
        self.entries@
    }

    /// An empty map.
    pub fn new() -> (m: NameMap<V>)
        ensures
            m@ == Map::<Seq<char>, V>::empty(),
            m.entries().len() == 0,
    {
        let m = NameMap { entries: Vec::new() };
        assert(m@ =~= Map::<Seq<char>, V>::empty());
        m
    }

    /// No key occurs in two entries.
    pub fn keys_distinct(&self) -> (b: bool)
        ensures
            b,
            forall|i: int, j: int|
                0 <= i < j < self.entries().len() ==> (#[trigger] self.entries()[i]).0@ != (#[trigger] self.entries()[j]).0@,
    {
        proof {
            use_type_invariant(self);
            assert forall|i: int, j: int| 0 <= i < j < self.entries().len() implies (#[trigger] self.entries()[i]).0@ != (#[trigger] self.entries()[j]).0@ by {
                assert(entry_keys(self.entries@)[i] == self.entries@[i].0@);
                assert(entry_keys(self.entries@)[j] == self.entries@[j].0@);
            }
        }
        true
    }

    /// Number of entries (the size of the map).
    pub fn len(&self) -> (n: usize)
        ensures
            n == self.entries().len(),
            n == self@.dom().len(),
    {
        proof {
            use_type_invariant(self);
            let s = self.entries@;
            entry_keys(s).unique_seq_to_set();
            assert(self@.dom() =~= entry_keys(s).to_set());
        }
        self.entries.len()
    }

    /// The key of entry `i`.
    pub fn key_at(&self, i: usize) -> (k: &String)
        requires
            i < self.entries().len(),
        ensures
            *k == self.entries()[i as int].0,
    {
        &self.entries[i].0
    }

    /// The value of entry `i`.
    pub fn value_at(&self, i: usize) -> (v: &V)
        requires
            i < self.entries().len(),
        ensures
            *v == self.entries()[i as int].1,
            self@.dom().contains(self.entries()[i as int].0@),
            self@[self.entries()[i as int].0@] == *v,
    {
        proof {
            use_type_invariant(self);
            lemma_entries_lookup(self.entries@, i as int);
        }
        &self.entries[i].1
    }

    /// The key of every entry is a key of the map.
    pub proof fn lemma_entry_in_dom(&self, i: int)
        requires
            0 <= i < self.entries().len(),
        ensures
            self@.dom().contains(self.entries()[i].0@),
    {
        assert(entry_keys(self.entries@)[i] == self.entries@[i].0@);
    }

    /// Every key of the map is the key of an entry.
    pub proof fn lemma_key_has_entry(&self, k: Seq<char>)
        requires
            self@.dom().contains(k),
        ensures
            exists|i: int| 0 <= i < self.entries().len() && (#[trigger] self.entries()[i]).0@ == k,
    {
        let s = self.entries@;
        let j = choose|j: int| 0 <= j < entry_keys(s).len() && entry_keys(s)[j] == k;
        assert(s[j].0@ == k);
        assert(self.entries()[j].0@ == k);
        assert(self.entries()[j].0@ == k);
    }

    /// Position of the entry with key `k`.
    pub fn index_of(&self, k: &str) -> (r: Option<usize>)
        ensures
            r is Some <==> self@.dom().contains(k@),
            r matches Some(i) ==> i < self.entries().len() && self.entries()[i as int].0@ == k@,
    {
        proof {
            use_type_invariant(self);
        }
        let mut i: usize = 0;
        while i < self.entries.len()
            invariant
                i <= self.entries@.len(),
                entry_keys(self.entries@).no_duplicates(),
                forall|j: int| 0 <= j < i ==> (#[trigger] self.entries@[j]).0@ != k@,
            decreases self.entries.len() - i,
        {
            if same_text(self.entries[i].0.as_str(), k) {
                proof {
                    lemma_entries_lookup(self.entries@, i as int);
                }
                return Some(i);
            }
            i = i + 1;
        }
        proof {
            lemma_entries_absent(self.entries@, k@);
        }
        None
    }

    /// The value for key `k`.
    pub fn get(&self, k: &str) -> (r: Option<&V>)
        ensures
            r is Some <==> self@.dom().contains(k@),
            r matches Some(v) ==> *v == self@[k@],
    {
        match self.index_of(k) {
            Some(i) => Some(self.value_at(i)),
            None => None,
        }
    }

    /// Sets the value for key `k`; an existing key keeps its place in the order,
    /// a new one is added last. Returns the value that was replaced.
    pub fn insert(&mut self, k: String, v: V) -> (old_v: Option<V>)
        ensures
            final(self)@ == old(self)@.insert(k@, v),
            old_v is Some <==> old(self)@.dom().contains(k@),
            old_v matches Some(x) ==> x == old(self)@[k@],
    {
        proof {
            use_type_invariant(&*self);
        }
        let ghost s = self.entries@;
        let ghost kv = k@;
        let found = self.index_of(k.as_str());
        let mut entries: Vec<(String, V)> = Vec::new();
        std::mem::swap(&mut entries, &mut self.entries);
        match found {
            Some(i) => {
                proof {
                    lemma_entries_lookup(s, i as int);
                }
                let (key, prev) = entries.remove(i);
                entries.insert(i, (key, v));
                proof {
                    let n = entries@;
                    assert(entry_keys(n) =~= entry_keys(s));
                    assert forall|j: int| 0 <= j < n.len() implies #[trigger] n[j].0@ == s[j].0@ && (j != i ==> n[j] == s[j]) by {}
                    assert(entries_map(n) =~= entries_map(s).insert(kv, v)) by {
                        assert forall|q: Seq<char>| #[trigger] entries_map(n).dom().contains(q) implies entries_map(n)[q] == entries_map(s).insert(kv, v)[q] by {
                            let j = choose|j: int| 0 <= j < entry_keys(n).len() && entry_keys(n)[j] == q;
                            assert(n[j].0@ == q);
                            lemma_entries_lookup(n, j);
                            lemma_entries_lookup(s, j);
                            if j != i {
                                assert(s[j].0@ != s[i as int].0@) by {
                                    assert(entry_keys(s)[j] != entry_keys(s)[i as int]);
                                }
                            }
                        }
                    }
                }
                self.entries = entries;
                Some(prev)
            },
            None => {
                entries.push((k, v));
                proof {
                    let n = entries@;
                    assert(entry_keys(n) =~= entry_keys(s).push(kv));
                    assert forall|j: int| 0 <= j < s.len() implies (#[trigger] s[j]).0@ != kv by {
                        if s[j].0@ == kv {
                            lemma_entries_lookup(s, j);
                        }
                    }
                    assert(entry_keys(n).no_duplicates()) by {
                        assert forall|a: int, b: int| 0 <= a < b < entry_keys(n).len() implies entry_keys(n)[a] != entry_keys(n)[b] by {
                            if b == s.len() {
                                assert(entry_keys(n)[a] == s[a].0@);
                            } else {
                                assert(entry_keys(n)[a] == entry_keys(s)[a]);
                                assert(entry_keys(n)[b] == entry_keys(s)[b]);
                            }
                        }
                    }
                    assert(entries_map(n) =~= entries_map(s).insert(kv, v)) by {
                        assert forall|q: Seq<char>| #[trigger] entries_map(n).dom().contains(q) implies entries_map(n)[q] == entries_map(s).insert(kv, v)[q] by {
                            let j = choose|j: int| 0 <= j < entry_keys(n).len() && entry_keys(n)[j] == q;
                            assert(n[j].0@ == q);
                            lemma_entries_lookup(n, j);
                            if j < s.len() {
                                assert(n[j] == s[j]);
                                lemma_entries_lookup(s, j);
                            }
                        }
                        assert forall|q: Seq<char>| entries_map(s).insert(kv, v).dom().contains(q) implies #[trigger] entries_map(n).dom().contains(q) by {
                            if q == kv {
                                assert(entry_keys(n)[s.len() as int] == q);
                            } else {
                                let j = choose|j: int| 0 <= j < entry_keys(s).len() && entry_keys(s)[j] == q;
                                assert(entry_keys(n)[j] == q);
                            }
                        }
                    }
                }
                self.entries = entries;
                None
            },
        }
    }
}

/// Reading a name right after setting it gives the value set, and every
/// other name reads as before: what `get` returns after an `insert`, over
/// the maps that both functions state their results in.
pub proof fn lemma_get_after_insert<V>(m: Map<Seq<char>, V>, k: Seq<char>, v: V, other: Seq<char>)
    requires
        other != k,
    ensures
        m.insert(k, v).dom().contains(k),
        m.insert(k, v)[k] == v,
        m.insert(k, v).dom().contains(other) == m.dom().contains(other),
        m.dom().contains(other) ==> m.insert(k, v)[other] == m[other],
{
}

} // verus!
