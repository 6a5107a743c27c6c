//! Total orders on the keys of the ordered indices.
//!
//! A key type fixes a strict total order on its view. Text is ordered
//! byte-wise on its UTF-8 encoding, pairs are ordered lexicographically.

use vstd::prelude::*;
use vstd::string::*;
use vstd::utf8::*;

verus! {

/// Outcome of a three-way comparison.
#[derive(Clone, Copy, PartialEq, Eq, Debug, Structural)]
pub enum Order {
    Less,
    Equal,
    Greater,
}

/// A type whose views are strictly and totally ordered.
pub trait Key: View + Sized {
    /// The strict order: `a` comes before `b`.
    spec fn before(a: Self::V, b: Self::V) -> bool;

    proof fn lemma_irreflexive(a: Self::V)
        ensures
            !Self::before(a, a),
    ;

    proof fn lemma_transitive(a: Self::V, b: Self::V, c: Self::V)
        requires
            Self::before(a, b),
            Self::before(b, c),
        ensures
            Self::before(a, c),
    ;

    proof fn lemma_total(a: Self::V, b: Self::V)
        ensures
            a == b || Self::before(a, b) || Self::before(b, a),
    ;

    /// Compares two keys by their views.
    fn compare(&self, other: &Self) -> (o: Order)
        ensures
            o == Order::Less <==> Self::before(self@, other@),
            o == Order::Equal <==> self@ == other@,
            o == Order::Greater <==> Self::before(other@, self@),
    ;

    /// A second key with the same view.
    fn duplicate(&self) -> (k: Self)
        ensures
            k@ == self@,
    ;
}

/// No two keys come before each other.
pub proof fn lemma_asymmetric<K: Key>(a: K::V, b: K::V)
    requires
        K::before(a, b),
    ensures
        !K::before(b, a),
        a != b,
{
    K::lemma_irreflexive(a);
    if K::before(b, a) {
        K::lemma_transitive(a, b, a);
    }
}

/// `a` and `b` agree on their first `i` bytes, `b` goes on, and `a` either
/// ends there or holds a smaller byte.
pub open spec fn bytes_part_at(a: Seq<u8>, b: Seq<u8>, i: int) -> bool {
    &&& 0 <= i <= a.len()
    &&& i < b.len()
    &&& forall|j: int| 0 <= j < i ==> a[j] == b[j]
    &&& i < a.len() ==> a[i] < b[i]
}

/// Lexicographic order on byte strings.
pub open spec fn bytes_before(a: Seq<u8>, b: Seq<u8>) -> bool {
    exists|i: int| bytes_part_at(a, b, i)
}

/// No byte string comes before itself.
pub proof fn lemma_bytes_irreflexive(a: Seq<u8>)
    ensures
        !bytes_before(a, a),
{
    assert forall|i: int| !bytes_part_at(a, a, i) by {
    }
}

/// What comes before a byte string comes before all that it comes before.
pub proof fn lemma_bytes_transitive(a: Seq<u8>, b: Seq<u8>, c: Seq<u8>)
    requires
        bytes_before(a, b),
        bytes_before(b, c),
    ensures
        bytes_before(a, c),
{
    let i = choose|i: int| bytes_part_at(a, b, i);
    let j = choose|j: int| bytes_part_at(b, c, j);
    let k = if i <= j { i } else { j };
    assert(bytes_part_at(a, c, k));
}

proof fn lemma_bytes_part_from(a: Seq<u8>, b: Seq<u8>, i: int)
    requires
        0 <= i <= a.len(),
        i <= b.len(),
        forall|j: int| 0 <= j < i ==> a[j] == b[j],
        a != b,
    ensures
        bytes_before(a, b) || bytes_before(b, a),
    decreases a.len() - i,
{
    if i == a.len() {
        if i == b.len() {
            assert(a =~= b);
        } else {
            assert(bytes_part_at(a, b, i));
        }
    } else if i == b.len() {
        assert(bytes_part_at(b, a, i));
    } else if a[i] < b[i] {
        assert(bytes_part_at(a, b, i));
    } else if b[i] < a[i] {
        assert(bytes_part_at(b, a, i));
    } else {
        lemma_bytes_part_from(a, b, i + 1);
    }
}

/// Of two different byte strings one comes before the other.
pub proof fn lemma_bytes_total(a: Seq<u8>, b: Seq<u8>)
    ensures
        a == b || bytes_before(a, b) || bytes_before(b, a),
{
    if a != b {
        lemma_bytes_part_from(a, b, 0);
    }
}

/// Three-way lexicographic comparison of two byte strings.
pub fn compare_bytes(a: &[u8], b: &[u8]) -> (o: Order)
    ensures
        o == Order::Less <==> bytes_before(a@, b@),
        o == Order::Equal <==> a@ == b@,
        o == Order::Greater <==> bytes_before(b@, a@),
{
    let mut i: usize = 0;
    while i < a.len() && i < b.len()
        invariant
            i <= a.len(),
            i <= b.len(),
            forall|j: int| 0 <= j < i ==> a@[j] == b@[j],
        decreases a.len() - i,
    {
        if a[i] < b[i] {
            proof {
                assert(bytes_part_at(a@, b@, i as int));
                lemma_bytes_irreflexive(a@);
                if bytes_before(b@, a@) {
                    lemma_bytes_transitive(a@, b@, a@);
                }
            }
            return Order::Less;
        }
        if b[i] < a[i] {
            proof {
                assert(bytes_part_at(b@, a@, i as int));
                lemma_bytes_irreflexive(a@);
                if bytes_before(a@, b@) {
                    lemma_bytes_transitive(a@, b@, a@);
                }
            }
            return Order::Greater;
        }
        i += 1;
    }
    proof {
        lemma_bytes_irreflexive(a@);
        if bytes_before(a@, b@) && bytes_before(b@, a@) {
            lemma_bytes_transitive(a@, b@, a@);
        }
    }
    if i < b.len() {
        assert(bytes_part_at(a@, b@, i as int));
        Order::Less
    } else if i < a.len() {
        assert(bytes_part_at(b@, a@, i as int));
        Order::Greater
    } else {
        assert(a@ =~= b@);
        Order::Equal
    }
}

/// Order on text: byte-wise on the UTF-8 encoding.
pub open spec fn text_before(a: Seq<char>, b: Seq<char>) -> bool {
    bytes_before(encode_utf8(a), encode_utf8(b))
}

/// The empty text comes before every other text.
pub proof fn lemma_empty_text_first(a: Seq<char>)
    ensures
        !text_before(a, Seq::<char>::empty()),
        a.len() > 0 ==> text_before(Seq::<char>::empty(), a),
{
    let e = Seq::<char>::empty();
    assert(encode_utf8(e).len() == 0);
    if a.len() > 0 {
        encode_utf8_decode_utf8(a);
        encode_utf8_decode_utf8(e);
        lemma_bytes_total(encode_utf8(e), encode_utf8(a));
    }
}

impl Key for String {
    open spec fn before(a: Seq<char>, b: Seq<char>) -> bool {
        text_before(a, b)
    }

    proof fn lemma_irreflexive(a: Seq<char>) {
        lemma_bytes_irreflexive(encode_utf8(a));
        assert(!text_before(a, a));
        assert(Self::before(a, a) == text_before(a, a));
    }

    proof fn lemma_transitive(a: Seq<char>, b: Seq<char>, c: Seq<char>) {
        lemma_bytes_transitive(encode_utf8(a), encode_utf8(b), encode_utf8(c));
        assert(text_before(a, c));
    }

    proof fn lemma_total(a: Seq<char>, b: Seq<char>) {
        encode_utf8_decode_utf8(a);
        encode_utf8_decode_utf8(b);
        lemma_bytes_total(encode_utf8(a), encode_utf8(b));
    }

    fn compare(&self, other: &Self) -> (o: Order) {
        proof {
            encode_utf8_decode_utf8(self@);
            encode_utf8_decode_utf8(other@);
        }
        compare_bytes(self.as_str().as_bytes(), other.as_str().as_bytes())
    }

    fn duplicate(&self) -> (k: Self) {
        self.clone()
    }
}

impl<A: Key, B: Key> Key for (A, B) {
    open spec fn before(a: (A::V, B::V), b: (A::V, B::V)) -> bool {
        A::before(a.0, b.0) || (a.0 == b.0 && B::before(a.1, b.1))
    }

    proof fn lemma_irreflexive(a: (A::V, B::V)) {
        A::lemma_irreflexive(a.0);
        B::lemma_irreflexive(a.1);
    }

    proof fn lemma_transitive(a: (A::V, B::V), b: (A::V, B::V), c: (A::V, B::V)) {
        if A::before(a.0, b.0) && A::before(b.0, c.0) {
            A::lemma_transitive(a.0, b.0, c.0);
        }
        if B::before(a.1, b.1) && B::before(b.1, c.1) {
            B::lemma_transitive(a.1, b.1, c.1);
        }
    }

    proof fn lemma_total(a: (A::V, B::V), b: (A::V, B::V)) {
        A::lemma_total(a.0, b.0);
        B::lemma_total(a.1, b.1);
    }

    fn compare(&self, other: &Self) -> (o: Order) {
        proof {
            A::lemma_irreflexive(self.0@);
            B::lemma_irreflexive(self.1@);
            A::lemma_total(self.0@, other.0@);
            B::lemma_total(self.1@, other.1@);
            if A::before(self.0@, other.0@) {
                lemma_asymmetric::<A>(self.0@, other.0@);
            }
            if A::before(other.0@, self.0@) {
                lemma_asymmetric::<A>(other.0@, self.0@);
            }
            if B::before(self.1@, other.1@) {
                lemma_asymmetric::<B>(self.1@, other.1@);
            }
        }
        match self.0.compare(&other.0) {
            Order::Less => Order::Less,
            Order::Greater => Order::Greater,
            Order::Equal => self.1.compare(&other.1),
        }
    }

    fn duplicate(&self) -> (k: Self) {
        (self.0.duplicate(), self.1.duplicate())
    }
}

} // verus!
