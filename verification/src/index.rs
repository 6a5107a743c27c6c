//! Ordered indices: finite maps whose entries can be walked in ascending
//! order of their keys.

use vstd::prelude::*;
use crate::keys::{Key, lemma_asymmetric, Order};

verus! {

/// `s` lists every entry of `m` once, in ascending order of the keys.
pub open spec fn lists_ascending<K: Key, W>(m: Map<K::V, W>, s: Seq<(K::V, W)>) -> bool {
    &&& forall|i: int, j: int|
        #![trigger s[i], s[j]]
        0 <= i < j < s.len() ==> K::before(s[i].0, s[j].0)
    &&& forall|i: int| #![trigger s[i]] 0 <= i < s.len() ==> m.contains_pair(s[i].0, s[i].1)
    &&& forall|k: K::V| #[trigger]
        m.contains_key(k) ==> exists|i: int| #![trigger s[i]] 0 <= i < s.len() && s[i].0 == k
}

/// The entries of `m` in ascending order of their keys.
pub open spec fn ascending<K: Key, W>(m: Map<K::V, W>) -> Seq<(K::V, W)> {
    choose|s: Seq<(K::V, W)>| lists_ascending::<K, W>(m, s)
}

proof fn lemma_listings_agree<K: Key, W>(
    m: Map<K::V, W>,
    s: Seq<(K::V, W)>,
    t: Seq<(K::V, W)>,
    n: nat,
)
    requires
        lists_ascending::<K, W>(m, s),
        lists_ascending::<K, W>(m, t),
        n <= s.len(),
        n <= t.len(),
    ensures
        forall|i: int| 0 <= i < n ==> s[i] == t[i],
    decreases n,
{
    if n > 0 {
        lemma_listings_agree::<K, W>(m, s, t, (n - 1) as nat);
        let i = n - 1;
        assert(m.contains_pair(s[i].0, s[i].1));
        assert(m.contains_pair(t[i].0, t[i].1));
        assert(m.contains_key(s[i].0));
        assert(m.contains_key(t[i].0));
        let p = choose|p: int| #![trigger t[p]] 0 <= p < t.len() && t[p].0 == s[i].0;
        let q = choose|q: int| #![trigger s[q]] 0 <= q < s.len() && s[q].0 == t[i].0;
        K::lemma_irreflexive(s[i].0);
        K::lemma_irreflexive(t[i].0);
        if p < i {
            assert(s[p] == t[p]);
            assert(K::before(s[p].0, s[i].0));
        }
        if q < i {
            assert(s[q] == t[q]);
            assert(K::before(t[q].0, t[i].0));
        }
        if p > i {
            assert(K::before(t[i].0, t[p].0));
            if q > i {
                assert(K::before(s[i].0, s[q].0));
                lemma_asymmetric::<K>(s[i].0, t[i].0);
            }
        }
        assert(s[i].0 == t[i].0);
        assert(s[i].1 == t[i].1);
    }
}

/// A map has at most one ascending listing.
pub proof fn lemma_listing_unique<K: Key, W>(
    m: Map<K::V, W>,
    s: Seq<(K::V, W)>,
    t: Seq<(K::V, W)>,
)
    requires
        lists_ascending::<K, W>(m, s),
        lists_ascending::<K, W>(m, t),
    ensures
        s == t,
{
    let n = if s.len() <= t.len() { s.len() } else { t.len() };
    lemma_listings_agree::<K, W>(m, s, t, n);
    if s.len() < t.len() {
        let x = t[n as int];
        assert(m.contains_pair(x.0, x.1));
        assert(m.contains_key(x.0));
        let q = choose|q: int| #![trigger s[q]] 0 <= q < s.len() && s[q].0 == x.0;
        assert(s[q] == t[q]);
        assert(K::before(t[q].0, t[n as int].0));
        K::lemma_irreflexive(x.0);
    }
    if t.len() < s.len() {
        let x = s[n as int];
        assert(m.contains_pair(x.0, x.1));
        assert(m.contains_key(x.0));
        let q = choose|q: int| #![trigger t[q]] 0 <= q < t.len() && t[q].0 == x.0;
        assert(s[q] == t[q]);
        assert(K::before(s[q].0, s[n as int].0));
        K::lemma_irreflexive(x.0);
    }
    assert(s =~= t);
}

/// An index from keys to values, held in ascending order of the keys.
pub struct SortedMap<K: Key, V: View> {
    entries: Vec<(K, V)>,
    model: Ghost<Map<K::V, V::V>>,
}

impl<K: Key, V: View> View for SortedMap<K, V> {
    type V = Map<K::V, V::V>;

    closed spec fn view(&self) -> Map<K::V, V::V> {
        self.model@
    }
}

impl<K: Key, V: View> SortedMap<K, V> {
    spec fn listing(&self) -> Seq<(K::V, V::V)> {
        self.entries@.map_values(|e: (K, V)| (e.0@, e.1@))
    }

    /// The entries are held in ascending order and are those of the view.
    pub closed spec fn wf(&self) -> bool {
        lists_ascending::<K, V::V>(self.model@, self.listing())
    }

    /// What a well-formed index holds is the ascending listing of its view.
    pub proof fn lemma_ascending(&self)
        requires
            self.wf(),
        ensures
            lists_ascending::<K, V::V>(self@, ascending::<K, V::V>(self@)),
    {
    }

    proof fn lemma_listing(&self)
        requires
            self.wf(),
        ensures
            self.listing() == ascending::<K, V::V>(self@),
            lists_ascending::<K, V::V>(self@, ascending::<K, V::V>(self@)),
    {
        lemma_listing_unique::<K, V::V>(self@, self.listing(), ascending::<K, V::V>(self@));
    }

    /// An index that holds nothing.
    pub fn new() -> (m: Self)
        ensures
            m.wf(),
            m@ == Map::<K::V, V::V>::empty(),
    {
        SortedMap { entries: Vec::new(), model: Ghost(Map::empty()) }
    }

    /// The number of entries.
    pub fn len(&self) -> (n: usize)
        requires
            self.wf(),
        ensures
            n == ascending::<K, V::V>(self@).len(),
    {
        proof {
            self.lemma_listing();
        }
        self.entries.len()
    }

    /// The key at place `i` of the ascending listing.
    pub fn key_at(&self, i: usize) -> (k: &K)
        requires
            self.wf(),
            i < ascending::<K, V::V>(self@).len(),
        ensures
            k@ == ascending::<K, V::V>(self@)[i as int].0,
    {
        proof {
            self.lemma_listing();
        }
        &self.entries[i].0
    }

    /// The value at place `i` of the ascending listing.
    pub fn value_at(&self, i: usize) -> (v: &V)
        requires
            self.wf(),
            i < ascending::<K, V::V>(self@).len(),
        ensures
            v@ == ascending::<K, V::V>(self@)[i as int].1,
    {
        proof {
            self.lemma_listing();
        }
        &self.entries[i].1
    }

    /// The first place of the ascending listing whose key does not come
    /// before `k`.
    pub fn lower_bound(&self, k: &K) -> (i: usize)
        requires
            self.wf(),
        ensures
            i <= ascending::<K, V::V>(self@).len(),
            forall|j: int|
                #![trigger ascending::<K, V::V>(self@)[j]]
                0 <= j < i ==> K::before(ascending::<K, V::V>(self@)[j].0, k@),
            forall|j: int|
                #![trigger ascending::<K, V::V>(self@)[j]]
                i <= j < ascending::<K, V::V>(self@).len() ==> !K::before(
                    ascending::<K, V::V>(self@)[j].0,
                    k@,
                ),
    {
        proof {
            self.lemma_listing();
        }
        let ghost s = self.listing();
        let mut lo: usize = 0;
        let mut hi: usize = self.entries.len();
        while lo < hi
            invariant
                s == self.listing(),
                lists_ascending::<K, V::V>(self.model@, s),
                lo <= hi <= s.len(),
                s.len() == self.entries.len(),
                forall|j: int| #![trigger s[j]] 0 <= j < lo ==> K::before(s[j].0, k@),
                forall|j: int| #![trigger s[j]] hi <= j < s.len() ==> !K::before(s[j].0, k@),
            decreases hi - lo,
        {
            let mid = lo + (hi - lo) / 2;
            let o = self.entries[mid].0.compare(k);
            assert(s[mid as int].0 == self.entries[mid as int].0@);
            match o {
                Order::Less => {
                    assert forall|j: int| #![trigger s[j]] 0 <= j < mid + 1 implies K::before(
                        s[j].0,
                        k@,
                    ) by {
                        if j < mid {
                            K::lemma_transitive(s[j].0, s[mid as int].0, k@);
                        }
                    }
                    lo = mid + 1;
                },
                _ => {
                    assert forall|j: int| #![trigger s[j]] mid <= j < s.len() implies !K::before(
                        s[j].0,
                        k@,
                    ) by {
                        K::lemma_irreflexive(k@);
                        if K::before(k@, s[mid as int].0) {
                            lemma_asymmetric::<K>(k@, s[mid as int].0);
                        }
                        if mid < j && K::before(s[j].0, k@) {
                            K::lemma_transitive(s[mid as int].0, s[j].0, k@);
                        }
                    }
                    hi = mid;
                },
            }
        }
        lo
    }

    /// The value held under `k`, if there is one.
    pub fn get(&self, k: &K) -> (r: Option<&V>)
        requires
            self.wf(),
        ensures
            match r {
                Some(v) => self@.contains_key(k@) && v@ == self@[k@],
                None => !self@.contains_key(k@),
            },
    {
        let i = self.lower_bound(k);
        proof {
            self.lemma_listing();
        }
        let ghost s = self.listing();
        if i < self.entries.len() {
            if let Order::Equal = self.entries[i].0.compare(k) {
                assert(s[i as int].0 == k@);
                assert(self.model@.contains_pair(s[i as int].0, s[i as int].1));
                return Some(&self.entries[i].1);
            }
        }
        proof {
            if self.model@.contains_key(k@) {
                let j = choose|j: int| #![trigger s[j]] 0 <= j < s.len() && s[j].0 == k@;
                K::lemma_irreflexive(k@);
                if j > i {
                    assert(K::before(s[i as int].0, s[j].0));
                }
                assert(false);
            }
        }
        None
    }

    /// Whether a value is held under `k`.
    pub fn contains_key(&self, k: &K) -> (b: bool)
        requires
            self.wf(),
        ensures
            b == self@.contains_key(k@),
    {
        self.get(k).is_some()
    }

    /// Puts `v` under `k`, in place of what was held there.
    pub fn insert(&mut self, k: K, v: V)
        requires
            old(self).wf(),
        ensures
            final(self).wf(),
            final(self)@ == old(self)@.insert(k@, v@),
    {
        let i = self.lower_bound(&k);
        proof {
            self.lemma_listing();
        }
        let ghost s = self.listing();
        let ghost m = self.model@;
        let ghost kv = k@;
        let ghost vv = v@;
        let mut replace = false;
        if i < self.entries.len() {
            if let Order::Equal = self.entries[i].0.compare(&k) {
                replace = true;
            }
        }
        if replace {
            self.entries.set(i, (k, v));
            self.model = Ghost(m.insert(kv, vv));
            proof {
                let t = self.listing();
                assert(t =~= s.update(i as int, (kv, vv)));
                assert(s[i as int].0 == kv);
                assert forall|a: int, b: int| #![trigger t[a], t[b]] 0 <= a < b < t.len() implies K::before(
                    t[a].0,
                    t[b].0,
                ) by {
                    assert(K::before(s[a].0, s[b].0));
                }
                assert forall|a: int| #![trigger t[a]] 0 <= a < t.len() implies self.model@.contains_pair(
                    t[a].0,
                    t[a].1,
                ) by {
                    if a != i {
                        assert(m.contains_pair(s[a].0, s[a].1));
                        K::lemma_irreflexive(kv);
                        if a < i {
                            assert(K::before(s[a].0, s[i as int].0));
                        } else {
                            assert(K::before(s[i as int].0, s[a].0));
                        }
                    }
                }
                assert forall|x: K::V| #[trigger] self.model@.contains_key(x) implies exists|a: int|
                    #![trigger t[a]]
                    0 <= a < t.len() && t[a].0 == x by {
                    if x == kv {
                        assert(t[i as int].0 == x);
                    } else {
                        assert(m.contains_key(x));
                        let a = choose|a: int| #![trigger s[a]] 0 <= a < s.len() && s[a].0 == x;
                        assert(t[a].0 == x);
                    }
                }
            }
        } else {
            self.entries.insert(i, (k, v));
            self.model = Ghost(m.insert(kv, vv));
            proof {
                let t = self.listing();
                assert(t =~= s.insert(i as int, (kv, vv)));
                K::lemma_irreflexive(kv);
                assert forall|j: int| #![trigger s[j]] i <= j < s.len() implies K::before(
                    kv,
                    s[j].0,
                ) by {
                    K::lemma_total(kv, s[j].0);
                    if s[j].0 == kv {
                        if j > i {
                            assert(K::before(s[i as int].0, s[j].0));
                        }
                    }
                }
                assert forall|a: int, b: int| #![trigger t[a], t[b]] 0 <= a < b < t.len() implies K::before(
                    t[a].0,
                    t[b].0,
                ) by {
                    if b < i {
                        assert(K::before(s[a].0, s[b].0));
                    } else if b == i {
                        assert(K::before(s[a].0, kv));
                    } else if a < i {
                        assert(K::before(s[a].0, kv));
                        assert(K::before(kv, s[b - 1].0));
                        K::lemma_transitive(s[a].0, kv, s[b - 1].0);
                    } else if a == i {
                        assert(K::before(kv, s[b - 1].0));
                    } else {
                        assert(K::before(s[a - 1].0, s[b - 1].0));
                    }
                }
                assert forall|a: int| #![trigger t[a]] 0 <= a < t.len() implies self.model@.contains_pair(
                    t[a].0,
                    t[a].1,
                ) by {
                    if a < i {
                        assert(m.contains_pair(s[a].0, s[a].1));
                        assert(K::before(s[a].0, kv));
                    } else if a > i {
                        assert(m.contains_pair(s[a - 1].0, s[a - 1].1));
                        assert(K::before(kv, s[a - 1].0));
                    }
                }
                assert forall|x: K::V| #[trigger] self.model@.contains_key(x) implies exists|a: int|
                    #![trigger t[a]]
                    0 <= a < t.len() && t[a].0 == x by {
                    if x == kv {
                        assert(t[i as int].0 == x);
                    } else {
                        assert(m.contains_key(x));
                        let a = choose|a: int| #![trigger s[a]] 0 <= a < s.len() && s[a].0 == x;
                        if a < i {
                            assert(t[a].0 == x);
                        } else {
                            assert(t[a + 1].0 == x);
                        }
                    }
                }
            }
        }
    }

    /// Takes away what is held under `k`; says whether there was anything.
    pub fn remove(&mut self, k: &K) -> (removed: bool)
        requires
            old(self).wf(),
        ensures
            final(self).wf(),
            final(self)@ == old(self)@.remove(k@),
            removed == old(self)@.contains_key(k@),
    {
        let i = self.lower_bound(k);
        proof {
            self.lemma_listing();
        }
        let ghost s = self.listing();
        let ghost m = self.model@;
        let mut found = false;
        if i < self.entries.len() {
            if let Order::Equal = self.entries[i].0.compare(k) {
                found = true;
            }
        }
        if found {
            let _ = self.entries.remove(i);
            self.model = Ghost(m.remove(k@));
            proof {
                let t = self.listing();
                assert(t =~= s.remove(i as int));
                assert(s[i as int].0 == k@);
                assert(m.contains_pair(s[i as int].0, s[i as int].1));
                K::lemma_irreflexive(k@);
                assert forall|a: int, b: int| #![trigger t[a], t[b]] 0 <= a < b < t.len() implies K::before(
                    t[a].0,
                    t[b].0,
                ) by {
                    let a0 = if a < i { a } else { a + 1 };
                    let b0 = if b < i { b } else { b + 1 };
                    assert(K::before(s[a0].0, s[b0].0));
                }
                assert forall|a: int| #![trigger t[a]] 0 <= a < t.len() implies self.model@.contains_pair(
                    t[a].0,
                    t[a].1,
                ) by {
                    let a0 = if a < i { a } else { a + 1 };
                    assert(m.contains_pair(s[a0].0, s[a0].1));
                    if a0 < i {
                        assert(K::before(s[a0].0, s[i as int].0));
                    } else {
                        assert(K::before(s[i as int].0, s[a0].0));
                    }
                }
                assert forall|x: K::V| #[trigger] self.model@.contains_key(x) implies exists|a: int|
                    #![trigger t[a]]
                    0 <= a < t.len() && t[a].0 == x by {
                    assert(m.contains_key(x));
                    let a = choose|a: int| #![trigger s[a]] 0 <= a < s.len() && s[a].0 == x;
                    if a < i {
                        assert(t[a].0 == x);
                    } else {
                        assert(t[a - 1].0 == x);
                    }
                }
            }
            true
        } else {
            proof {
                if m.contains_key(k@) {
                    let j = choose|j: int| #![trigger s[j]] 0 <= j < s.len() && s[j].0 == k@;
                    K::lemma_irreflexive(k@);
                    if j > i {
                        assert(K::before(s[i as int].0, s[j].0));
                    }
                    assert(false);
                }
                assert(m.remove(k@) =~= m);
            }
            false
        }
    }
}

} // verus!
