//! Types shared by local and remote images.

use vstd::prelude::*;

verus! {

/// Content hash (SHA-256) of an image in a registry.
pub type Digest = [u8; 32];

/// Identifier of a local image (SHA-256).
pub type Id = [u8; 32];

/// A field of a listed image that could not be parsed; holds the field's text.
#[derive(Debug, PartialEq, Eq)]
pub enum ParseImageError {
    /// The `Containers` field.
    Containers(String),
    /// The `Repository` field.
    Repository(String),
    /// The `ID` field.
    Id(String),
    /// The `Digest` field.
    Digest(String),
}

/// The text of a parse error: which field failed, and its text.
pub open spec fn parse_image_error_text(e: ParseImageError) -> Seq<char> {
    match e {
        ParseImageError::Containers(s) => "failed parsing \"Containers\" field: "@ + s@,
        ParseImageError::Repository(s) => "failed parsing \"Repository\" field: "@ + s@,
        ParseImageError::Id(s) => "failed parsing \"ID\" field: "@ + s@,
        ParseImageError::Digest(s) => "failed parsing \"Digest\" field: "@ + s@,
    }
}

impl ParseImageError {
    /// What the error says.
    pub fn message(&self) -> (m: String)
        ensures
            m@ == parse_image_error_text(*self),
    {
        match self {
            ParseImageError::Containers(s) => crate::text::concat_text("failed parsing \"Containers\" field: ", s.as_str()),
            ParseImageError::Repository(s) => crate::text::concat_text("failed parsing \"Repository\" field: ", s.as_str()),
            ParseImageError::Id(s) => crate::text::concat_text("failed parsing \"ID\" field: ", s.as_str()),
            ParseImageError::Digest(s) => crate::text::concat_text("failed parsing \"Digest\" field: ", s.as_str()),
        }
    }
}

/// Whether two hashes are equal.
pub fn hash_eq(a: &[u8; 32], b: &[u8; 32]) -> (r: bool)
    ensures
        r == (a@ == b@),
        r == (*a == *b),
{
    let mut i: usize = 0;
    while i < 32
        invariant
            i <= 32,
            a@.len() == 32,
            b@.len() == 32,
            forall|k: int| 0 <= k < i ==> a@[k] == b@[k],
        decreases 32 - i,
    {
        if a[i] != b[i] {
            return false;
        }
        i = i + 1;
    }
    assert(a@ =~= b@);
    assert(*a =~= *b);
    true
}

/// A copy of a hash.
pub fn hash_copy(a: &[u8; 32]) -> (r: [u8; 32])
    ensures
        r == *a,
        r@ == a@,
{
    *a
}

} // verus!

verus! {

/// Lexicographic order on byte strings: the order of `[u8; 32]`'s `Ord`.
pub open spec fn bytes_lt(a: Seq<u8>, b: Seq<u8>) -> bool
    decreases a.len(),
{
    if a.len() == 0 {
        b.len() > 0
    } else if b.len() == 0 {
        false
    } else if a[0] != b[0] {
        a[0] < b[0]
    } else {
        bytes_lt(a.drop_first(), b.drop_first())
    }
}

/// No byte string comes before itself.
pub proof fn lemma_bytes_lt_irreflexive(a: Seq<u8>)
    ensures
        !bytes_lt(a, a),
    decreases a.len(),
{
    if a.len() > 0 {
        lemma_bytes_lt_irreflexive(a.drop_first());
    }
}

/// The order is transitive.
pub proof fn lemma_bytes_lt_transitive(a: Seq<u8>, b: Seq<u8>, c: Seq<u8>)
    requires
        bytes_lt(a, b),
        bytes_lt(b, c),
    ensures
        bytes_lt(a, c),
    decreases a.len(),
{
    if a.len() > 0 && b.len() > 0 && c.len() > 0 && a[0] == b[0] && b[0] == c[0] {
        lemma_bytes_lt_transitive(a.drop_first(), b.drop_first(), c.drop_first());
    }
}

/// Of two different byte strings, one comes before the other.
pub proof fn lemma_bytes_lt_total(a: Seq<u8>, b: Seq<u8>)
    requires
        a != b,
    ensures
        bytes_lt(a, b) || bytes_lt(b, a),
    decreases a.len(),
{
    if a.len() == 0 && b.len() == 0 {
        assert(a =~= b);
    } else if a.len() > 0 && b.len() > 0 && a[0] == b[0] {
        if a.drop_first() == b.drop_first() {
            assert(a =~= seq![a[0]] + a.drop_first());
            assert(b =~= seq![b[0]] + b.drop_first());
        }
        lemma_bytes_lt_total(a.drop_first(), b.drop_first());
    }
}

proof fn lemma_bytes_lt_skip(a: Seq<u8>, b: Seq<u8>, i: int)
    requires
        0 <= i <= a.len(),
        i <= b.len(),
        a.subrange(0, i) == b.subrange(0, i),
    ensures
        bytes_lt(a, b) == bytes_lt(a.skip(i), b.skip(i)),
    decreases i,
{
    if i > 0 {
        assert(a[0] == a.subrange(0, i)[0]);
        assert(b[0] == b.subrange(0, i)[0]);
        assert(a.drop_first().subrange(0, i - 1) =~= a.subrange(0, i).drop_first());
        assert(b.drop_first().subrange(0, i - 1) =~= b.subrange(0, i).drop_first());
        lemma_bytes_lt_skip(a.drop_first(), b.drop_first(), i - 1);
        assert(a.drop_first().skip(i - 1) =~= a.skip(i));
        assert(b.drop_first().skip(i - 1) =~= b.skip(i));
    } else {
        assert(a.skip(0) =~= a);
        assert(b.skip(0) =~= b);
    }
}

/// Whether hash `a` comes before hash `b`.
pub fn hash_lt(a: &[u8; 32], b: &[u8; 32]) -> (r: bool)
    ensures
        r == bytes_lt(a@, b@),
{
    let mut i: usize = 0;
    while i < 32 && a[i] == b[i]
        invariant
            i <= 32,
            a@.len() == 32,
            b@.len() == 32,
            a@.subrange(0, i as int) == b@.subrange(0, i as int),
        decreases 32 - i,
    {
        assert(a@.subrange(0, i + 1) =~= a@.subrange(0, i as int).push(a@[i as int]));
        assert(b@.subrange(0, i + 1) =~= b@.subrange(0, i as int).push(b@[i as int]));
        i = i + 1;
    }
    proof {
        lemma_bytes_lt_skip(a@, b@, i as int);
    }
    if i == 32 {
        false
    } else {
        assert(a@.skip(i as int)[0] == a@[i as int]);
        assert(b@.skip(i as int)[0] == b@[i as int]);
        a[i] < b[i]
    }
}

} // verus!
