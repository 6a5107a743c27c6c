//! Facts about sequences that the scans of the indices rest on.

use vstd::prelude::*;

verus! {

/// The first `n` items of `s`, or all of them where there are fewer.
pub open spec fn capped<A>(s: Seq<A>, n: nat) -> Seq<A> {
    if n < s.len() {
        s.take(n as int)
    } else {
        s
    }
}

/// A prefix of `s` that is `n` long is what `s` is capped to at `n`.
pub proof fn lemma_capped_at_prefix<A>(p: Seq<A>, s: Seq<A>, n: nat)
    requires
        p.is_prefix_of(s),
        p.len() == n,
    ensures
        capped(s, n) == p,
{
    assert(capped(s, n) =~= p);
}

/// Capping a sequence leaves a prefix of it.
pub proof fn lemma_capped_is_prefix<A>(s: Seq<A>, n: nat)
    ensures
        capped(s, n).is_prefix_of(s),
        capped(s, n).len() <= n,
        capped(s, n).len() <= s.len(),
        n < s.len() ==> capped(s, n).len() == n,
{
}

/// A prefix of a prefix is a prefix.
pub proof fn lemma_prefix_transitive<A>(a: Seq<A>, b: Seq<A>, c: Seq<A>)
    requires
        a.is_prefix_of(b),
        b.is_prefix_of(c),
    ensures
        a.is_prefix_of(c),
{
}

/// What is selected from the first `i` items opens what is selected from
/// all of them.
pub proof fn lemma_filter_take_is_prefix<A>(s: Seq<A>, pred: spec_fn(A) -> bool, i: int)
    requires
        0 <= i <= s.len(),
    ensures
        s.take(i).filter(pred).is_prefix_of(s.filter(pred)),
{
    assert(s =~= s.take(i) + s.skip(i));
    Seq::filter_distributes_over_add(s.take(i), s.skip(i), pred);
}

/// Where nothing is selected among the first `i` items, nothing is selected
/// from them.
pub proof fn lemma_filter_take_none<A>(s: Seq<A>, pred: spec_fn(A) -> bool, i: int)
    requires
        0 <= i <= s.len(),
        forall|j: int| 0 <= j < i ==> !pred(#[trigger] s[j]),
    ensures
        s.take(i).filter(pred) == Seq::<A>::empty(),
    decreases i,
{
    reveal(Seq::filter);
    if i > 0 {
        lemma_filter_take_none(s, pred, i - 1);
        assert(s.take(i).drop_last() =~= s.take(i - 1));
    }
}

/// Where nothing is selected from place `i` on, the first `i` items give
/// the whole selection.
pub proof fn lemma_filter_rest_none<A>(s: Seq<A>, pred: spec_fn(A) -> bool, i: int)
    requires
        0 <= i <= s.len(),
        forall|j: int| i <= j < s.len() ==> !pred(#[trigger] s[j]),
    ensures
        s.filter(pred) == s.take(i).filter(pred),
{
    let rest = s.skip(i);
    assert(s =~= s.take(i) + rest);
    Seq::filter_distributes_over_add(s.take(i), rest, pred);
    assert(rest.take(rest.len() as int) =~= rest);
    lemma_filter_take_none(rest, pred, rest.len() as int);
    assert(s.take(i).filter(pred) + Seq::<A>::empty() =~= s.take(i).filter(pred));
}

/// Selecting from one more item adds that item when it is selected.
pub proof fn lemma_filter_take_next<A>(s: Seq<A>, pred: spec_fn(A) -> bool, i: int)
    requires
        0 <= i < s.len(),
    ensures
        s.take(i + 1).filter(pred) == if pred(s[i]) {
            s.take(i).filter(pred).push(s[i])
        } else {
            s.take(i).filter(pred)
        },
{
    assert(s.take(i + 1) =~= s.take(i).push(s[i]));
    s.take(i).lemma_filter_push(s[i], pred);
}

/// Where the selected items are exactly those from place `i` on, the
/// selection is the sequence without its first `i` items.
pub proof fn lemma_filter_is_skip<A>(s: Seq<A>, pred: spec_fn(A) -> bool, i: int)
    requires
        0 <= i <= s.len(),
        forall|j: int| 0 <= j < i ==> !pred(#[trigger] s[j]),
        forall|j: int| i <= j < s.len() ==> pred(#[trigger] s[j]),
    ensures
        s.filter(pred) == s.skip(i),
    decreases s.len(),
{
    if s.len() == i {
        lemma_filter_take_none(s, pred, i);
        assert(s.take(i) =~= s);
        assert(s.skip(i) =~= Seq::<A>::empty());
    } else {
        let d = s.drop_last();
        assert(s =~= d.push(s.last()));
        d.lemma_filter_push(s.last(), pred);
        assert forall|j: int| 0 <= j < i implies !pred(#[trigger] d[j]) by {
            assert(d[j] == s[j]);
        }
        assert forall|j: int| i <= j < d.len() implies pred(#[trigger] d[j]) by {
            assert(d[j] == s[j]);
        }
        lemma_filter_is_skip(d, pred, i);
        assert(s.skip(i) =~= d.skip(i).push(s.last()));
    }
}

/// An item is among the first `i + 1` items when it is among the first `i`
/// or is the next one.
pub proof fn lemma_take_next_contains<A>(s: Seq<A>, i: int, x: A)
    requires
        0 <= i < s.len(),
    ensures
        s.take(i + 1).contains(x) <==> s.take(i).contains(x) || s[i] == x,
{
    if s.take(i + 1).contains(x) {
        let k = choose|k: int| 0 <= k < s.take(i + 1).len() && #[trigger] s.take(i + 1)[k] == x;
        if k < i {
            assert(s.take(i)[k] == x);
        }
    }
    if s.take(i).contains(x) {
        let k = choose|k: int| 0 <= k < s.take(i).len() && #[trigger] s.take(i)[k] == x;
        assert(s.take(i + 1)[k] == x);
    }
    if s[i] == x {
        assert(s.take(i + 1)[i] == x);
    }
}

} // verus!
