//! Ordered sets of image tags.

use vstd::prelude::*;
use crate::text::{text_lt, text_less, lemma_text_lt_irreflexive, lemma_text_lt_transitive, lemma_text_lt_total};

verus! {

/// The texts of `s` are in strictly increasing order (so none occurs twice).
pub open spec fn sorted_texts(s: Seq<Seq<char>>) -> bool {
    forall|i: int, j: int| 0 <= i < j < s.len() ==> text_lt(#[trigger] s[i], #[trigger] s[j])
}

/// A set of tags, kept in the order of `String`'s `Ord` (the order in which a
/// `BTreeSet<String>` holds them).
pub struct TagSet {
    tags: Vec<String>,
}

impl View for TagSet {
    type V = Seq<Seq<char>>;

    /// The tags, in increasing order.
    closed spec fn view(&self) -> Seq<Seq<char>> {
        self.tags@.map_values(|t: String| t@)
    }
}

/// Distinct texts are at distinct positions of a sorted sequence.
pub proof fn lemma_sorted_distinct(s: Seq<Seq<char>>, i: int, j: int)
    requires
        sorted_texts(s),
        0 <= i < s.len(),
        0 <= j < s.len(),
        i != j,
    ensures
        s[i] != s[j],
{
    if i < j {
        assert(text_lt(s[i], s[j]));
    } else {
        assert(text_lt(s[j], s[i]));
    }
    lemma_text_lt_irreflexive(s[i]);
}

/// Two sorted tag sequences with the same tags are the same sequence.
pub proof fn lemma_sorted_same_tags(x: Seq<Seq<char>>, y: Seq<Seq<char>>)
    requires
        sorted_texts(x),
        sorted_texts(y),
        forall|t: Seq<char>| #[trigger] x.contains(t) <==> y.contains(t),
    ensures
        x == y,
    decreases x.len(),
{
    if x.len() == 0 {
        if y.len() > 0 {
            assert(y.contains(y[0]));
            assert(x.contains(y[0]));
        }
        assert(x =~= y);
    } else {
        assert(x.contains(x[0]));
        assert(y.contains(x[0]));
        let j = choose|j: int| 0 <= j < y.len() && y[j] == x[0];
        assert(y.contains(y[0]));
        assert(x.contains(y[0]));
        let i = choose|i: int| 0 <= i < x.len() && x[i] == y[0];
        if j > 0 {
            assert(text_lt(y[0], y[j]));
            if i > 0 {
                assert(text_lt(x[0], x[i]));
                lemma_text_lt_transitive(x[0], y[0], x[0]);
            }
            lemma_text_lt_irreflexive(x[0]);
        }
        assert(x[0] == y[0]);
        let xs = x.drop_first();
        let ys = y.drop_first();
        assert forall|t: Seq<char>| #[trigger] xs.contains(t) <==> ys.contains(t) by {
            if xs.contains(t) {
                let a = choose|a: int| 0 <= a < xs.len() && xs[a] == t;
                assert(x[a + 1] == t);
                lemma_sorted_distinct(x, 0, a + 1);
                assert(x.contains(t));
                assert(y.contains(t));
                let b = choose|b: int| 0 <= b < y.len() && y[b] == t;
                assert(b != 0);
                assert(ys[b - 1] == t);
            }
            if ys.contains(t) {
                let a = choose|a: int| 0 <= a < ys.len() && ys[a] == t;
                assert(y[a + 1] == t);
                lemma_sorted_distinct(y, 0, a + 1);
                assert(y.contains(t));
                assert(x.contains(t));
                let b = choose|b: int| 0 <= b < x.len() && x[b] == t;
                assert(b != 0);
                assert(xs[b - 1] == t);
            }
        }
        assert(sorted_texts(xs)) by {
            assert forall|a: int, b: int| 0 <= a < b < xs.len() implies text_lt(#[trigger] xs[a], #[trigger] xs[b]) by {
                assert(xs[a] == x[a + 1] && xs[b] == x[b + 1]);
            }
        }
        assert(sorted_texts(ys)) by {
            assert forall|a: int, b: int| 0 <= a < b < ys.len() implies text_lt(#[trigger] ys[a], #[trigger] ys[b]) by {
                assert(ys[a] == y[a + 1] && ys[b] == y[b + 1]);
            }
        }
        lemma_sorted_same_tags(xs, ys);
        assert(x =~= seq![x[0]] + xs);
        assert(y =~= seq![y[0]] + ys);
    }
}

impl TagSet {
    #[verifier::type_invariant]
    spec fn sorted(&self) -> bool {
        sorted_texts(self@)
    }

    /// An empty set.
    pub fn new() -> (r: TagSet)
        ensures
            r@ == Seq::<Seq<char>>::empty(),
    {
        let r = TagSet { tags: Vec::new() };
        assert(r@ =~= Seq::<Seq<char>>::empty());
        r
    }

    /// The set holding only `tag`.
    pub fn singleton(tag: String) -> (r: TagSet)
        ensures
            r@ == seq![tag@],
    {
        let mut v: Vec<String> = Vec::new();
        v.push(tag);
        let r = TagSet { tags: v };
        assert(r@ =~= seq![tag@]);
        r
    }

    /// Number of tags.
    pub fn len(&self) -> (n: usize)
        ensures
            n == self@.len(),
    {
        self.tags.len()
    }

    /// The tag at position `i` of the increasing order.
    pub fn get(&self, i: usize) -> (t: &String)
        requires
            i < self@.len(),
        ensures
            t@ == self@[i as int],
    {
        &self.tags[i]
    }

    /// The tags are in increasing order.
    pub fn is_sorted(&self) -> (b: bool)
        ensures
            b,
            sorted_texts(self@),
    {
        proof {
            use_type_invariant(self);
        }
        true
    }

    /// Whether `tag` is in the set.
    pub fn contains(&self, tag: &str) -> (b: bool)
        ensures
            b == self@.contains(tag@),
    {
        let mut i: usize = 0;
        while i < self.tags.len()
            invariant
                i <= self.tags@.len(),
                self@.len() == self.tags@.len(),
                forall|k: int| 0 <= k < self.tags@.len() ==> #[trigger] self@[k] == self.tags@[k]@,
                forall|k: int| 0 <= k < i ==> self@[k] != tag@,
            decreases self.tags.len() - i,
        {
            if crate::text::same_text(self.tags[i].as_str(), tag) {
                assert(self@[i as int] == tag@);
                return true;
            }
            i = i + 1;
        }
        assert(!self@.contains(tag@));
        false
    }

    /// Adds `tag`, keeping the order; returns whether it was new.
    pub fn insert(&mut self, tag: String) -> (added: bool)
        ensures
            added == !old(self)@.contains(tag@),
            forall|t: Seq<char>| #[trigger] final(self)@.contains(t) <==> (old(self)@.contains(t) || t == tag@),
            sorted_texts(final(self)@),
            final(self)@.len() == old(self)@.len() + if added { 1int } else { 0int },
    {
        proof {
            use_type_invariant(&*self);
        }
        let ghost s = self@;
        let mut j: usize = 0;
        while j < self.tags.len() && text_less(self.tags[j].as_str(), tag.as_str())
            invariant
                j <= self.tags@.len(),
                s == self@,
                s.len() == self.tags@.len(),
                sorted_texts(s),
                forall|k: int| 0 <= k < self.tags@.len() ==> #[trigger] s[k] == self.tags@[k]@,
                forall|k: int| 0 <= k < j ==> text_lt(#[trigger] s[k], tag@),
            decreases self.tags.len() - j,
        {
            j = j + 1;
        }
        if j < self.tags.len() && crate::text::same_text(self.tags[j].as_str(), tag.as_str()) {
            assert(s.contains(tag@)) by {
                assert(s[j as int] == tag@);
            }
            return false;
        }
        proof {
            if j < s.len() {
                assert(!text_lt(s[j as int], tag@));
                assert(s[j as int] != tag@);
                lemma_text_lt_total(s[j as int], tag@);
            }
            assert forall|k: int| j <= k < s.len() implies text_lt(tag@, #[trigger] s[k]) by {
                if k > j {
                    assert(text_lt(s[j as int], s[k]));
                    lemma_text_lt_transitive(tag@, s[j as int], s[k]);
                }
            }
            assert forall|k: int| 0 <= k < s.len() implies #[trigger] s[k] != tag@ by {
                if k < j {
                    lemma_text_lt_irreflexive(tag@);
                } else {
                    if k > j {
                        assert(text_lt(s[j as int], s[k]));
                        lemma_text_lt_transitive(tag@, s[j as int], s[k]);
                    }
                    lemma_text_lt_irreflexive(tag@);
                }
            }
        }
        let ghost tv = tag@;
        let mut v: Vec<String> = Vec::new();
        std::mem::swap(&mut v, &mut self.tags);
        v.insert(j, tag);
        proof {
            let n = s.insert(j as int, tv);
            assert(v@.map_values(|t: String| t@) =~= n);
            assert forall|a: int, b: int| 0 <= a < b < n.len() implies text_lt(#[trigger] n[a], #[trigger] n[b]) by {
                if b < j {
                    assert(n[a] == s[a] && n[b] == s[b]);
                } else if b == j {
                    assert(n[a] == s[a]);
                } else if a < j {
                    assert(n[a] == s[a] && n[b] == s[b - 1]);
                    assert(text_lt(tv, s[b - 1]));
                    lemma_text_lt_transitive(n[a], tv, n[b]);
                } else if a == j {
                    assert(n[b] == s[b - 1]);
                } else {
                    assert(n[a] == s[a - 1] && n[b] == s[b - 1]);
                }
            }
        }
        self.tags = v;
        proof {
            let n = s.insert(j as int, tv);
            assert(self@ =~= n);
            assert forall|t: Seq<char>| #[trigger] n.contains(t) <==> (s.contains(t) || t == tv) by {
                if n.contains(t) {
                    let k = choose|k: int| 0 <= k < n.len() && n[k] == t;
                    if k < j {
                        assert(s[k] == t);
                    } else if k > j {
                        assert(s[k - 1] == t);
                    }
                }
                if s.contains(t) {
                    let k = choose|k: int| 0 <= k < s.len() && s[k] == t;
                    if k < j {
                        assert(n[k] == t);
                    } else {
                        assert(n[k + 1] == t);
                    }
                }
                if t == tv {
                    assert(n[j as int] == t);
                }
            }
        }
        true
    }

    /// Adds every tag of `other` (the union of both sets).
    pub fn merge_from(&mut self, other: &TagSet)
        ensures
            forall|t: Seq<char>| #[trigger] final(self)@.contains(t) <==> (old(self)@.contains(t) || other@.contains(t)),
            sorted_texts(final(self)@),
    {
        proof {
            use_type_invariant(&*self);
        }
        let ghost s0 = self@;
        let mut i: usize = 0;
        while i < other.tags.len()
            invariant
                i <= other.tags@.len(),
                other@.len() == other.tags@.len(),
                forall|k: int| 0 <= k < other.tags@.len() ==> #[trigger] other@[k] == other.tags@[k]@,
                forall|t: Seq<char>| #[trigger] self@.contains(t) <==> (s0.contains(t) || other@.subrange(0, i as int).contains(t)),
                sorted_texts(self@),
            decreases other.tags.len() - i,
        {
            let t = other.tags[i].clone();
            self.insert(t);
            proof {
                let big = other@.subrange(0, i + 1);
                let small = other@.subrange(0, i as int);
                assert(big =~= small.push(other@[i as int]));
                assert forall|u: Seq<char>| #[trigger] big.contains(u) <==> (small.contains(u) || u == other@[i as int]) by {
                    if big.contains(u) {
                        let k = choose|k: int| 0 <= k < big.len() && #[trigger] big[k] == u;
                        if k < i {
                            assert(small[k] == u);
                        }
                    }
                    if small.contains(u) {
                        let k = choose|k: int| 0 <= k < small.len() && #[trigger] small[k] == u;
                        assert(big[k] == u);
                    }
                    if u == other@[i as int] {
                        assert(big[i as int] == u);
                    }
                }
            }
            i = i + 1;
        }
        assert(other@.subrange(0, other@.len() as int) =~= other@);
    }

    /// The set of the given tags, ordered and without repeats.
    pub fn from_vec(tags: Vec<String>) -> (r: TagSet)
        ensures
            forall|t: Seq<char>| #[trigger] r@.contains(t) <==> exists|k: int| 0 <= k < tags@.len() && tags@[k]@ == t,
            sorted_texts(r@),
    {
        let mut r = TagSet::new();
        let mut i: usize = 0;
        while i < tags.len()
            invariant
                i <= tags@.len(),
                forall|t: Seq<char>| #[trigger] r@.contains(t) <==> exists|k: int| 0 <= k < i && tags@[k]@ == t,
                sorted_texts(r@),
            decreases tags.len() - i,
        {
            r.insert(tags[i].clone());
            proof {
                assert forall|t: Seq<char>| #[trigger] r@.contains(t) <==> exists|k: int| 0 <= k < i + 1 && tags@[k]@ == t by {
                    if t == tags@[i as int]@ {
                        assert(exists|k: int| 0 <= k < i + 1 && tags@[k]@ == t);
                    }
                    if exists|k: int| 0 <= k < i + 1 && tags@[k]@ == t {
                        let k = choose|k: int| 0 <= k < i + 1 && tags@[k]@ == t;
                        if k < i {
                            assert(exists|k: int| 0 <= k < i && tags@[k]@ == t);
                        }
                    }
                }
            }
            i = i + 1;
        }
        r
    }

    /// The tags, in increasing order.
    pub fn to_vec(&self) -> (v: Vec<String>)
        ensures
            v@.map_values(|t: String| t@) == self@,
    {
        let v = self.tags.clone();
        assert(v@.map_values(|t: String| t@) =~= self@);
        v
    }

    /// A copy of the set.
    pub fn duplicate(&self) -> (r: TagSet)
        ensures
            r@ == self@,
    {
        proof {
            use_type_invariant(self);
        }
        let v = self.tags.clone();
        assert(v@.map_values(|t: String| t@) =~= self@);
        TagSet { tags: v }
    }
}

} // verus!
