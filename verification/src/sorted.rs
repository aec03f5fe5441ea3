//! Maps and sets that list their keys in ascending order.
use vstd::prelude::*;

use crate::text::chars_of;

verus! {

/// How two keys compare.
pub enum Rank {
    Before,
    Same,
    After,
}

/// A type whose views are totally ordered.
pub trait Key: View + Sized {
    spec fn before(a: Self::V, b: Self::V) -> bool;

    proof fn irreflexive(a: Self::V)
        ensures
            !Self::before(a, a),
    ;

    proof fn transitive(a: Self::V, b: Self::V, c: Self::V)
        requires
            Self::before(a, b),
            Self::before(b, c),
        ensures
            Self::before(a, c),
    ;

    fn rank(&self, other: &Self) -> (r: Rank)
        ensures
            match r {
                Rank::Before => Self::before(self@, other@),
                Rank::Same => self@ == other@,
                Rank::After => Self::before(other@, self@),
            },
    ;
}

/// Dictionary order of texts, character by character.
pub open spec fn text_before(a: Seq<char>, b: Seq<char>) -> bool
    decreases a.len(),
{
    if b.len() == 0 {
        false
    } else if a.len() == 0 {
        true
    } else if a[0] == b[0] {
        text_before(a.skip(1), b.skip(1))
    } else {
        a[0] < b[0]
    }
}

proof fn lemma_text_irreflexive(a: Seq<char>)
    ensures
        !text_before(a, a),
    decreases a.len(),
{
    if a.len() > 0 {
        lemma_text_irreflexive(a.skip(1));
    }
}

proof fn lemma_text_transitive(a: Seq<char>, b: Seq<char>, c: Seq<char>)
    requires
        text_before(a, b),
        text_before(b, c),
    ensures
        text_before(a, c),
    decreases a.len(),
{
    if a.len() > 0 && a[0] == b[0] && b[0] == c[0] {
        lemma_text_transitive(a.skip(1), b.skip(1), c.skip(1));
    }
}

impl Key for String {
    open spec fn before(a: Seq<char>, b: Seq<char>) -> bool {
        text_before(a, b)
    }

    proof fn irreflexive(a: Seq<char>) {
        lemma_text_irreflexive(a);
    }

    proof fn transitive(a: Seq<char>, b: Seq<char>, c: Seq<char>) {
        lemma_text_transitive(a, b, c);
    }

    fn rank(&self, other: &Self) -> (r: Rank) {
        let a: Vec<char> = chars_of(self);
        let b: Vec<char> = chars_of(other);
        let mut i: usize = 0;
        assert(a@.skip(0) =~= a@ && b@.skip(0) =~= b@);
        while i < a.len() && i < b.len()
            invariant
                i <= a@.len(),
                i <= b@.len(),
                a@ == self@,
                b@ == other@,
                a@.take(i as int) == b@.take(i as int),
                text_before(a@, b@) == text_before(a@.skip(i as int), b@.skip(i as int)),
                text_before(b@, a@) == text_before(b@.skip(i as int), a@.skip(i as int)),
            decreases a@.len() - i,
        {
            assert(a@.skip(i as int).skip(1) =~= a@.skip(i + 1));
            assert(b@.skip(i as int).skip(1) =~= b@.skip(i + 1));
            if a[i] < b[i] {
                return Rank::Before;
            }
            if b[i] < a[i] {
                return Rank::After;
            }
            assert(a@.take(i + 1) =~= a@.take(i as int).push(a@[i as int]));
            assert(b@.take(i + 1) =~= b@.take(i as int).push(b@[i as int]));
            i += 1;
        }
        if i < b.len() {
            Rank::Before
        } else if i < a.len() {
            Rank::After
        } else {
            assert(a@.take(i as int) =~= a@ && b@.take(i as int) =~= b@);
            Rank::Same
        }
    }
}

impl Key for u32 {
    open spec fn before(a: u32, b: u32) -> bool {
        a < b
    }

    proof fn irreflexive(a: u32) {
    }

    proof fn transitive(a: u32, b: u32, c: u32) {
    }

    fn rank(&self, other: &Self) -> (r: Rank) {
        if *self < *other {
            Rank::Before
        } else if *self == *other {
            Rank::Same
        } else {
            Rank::After
        }
    }
}

impl Key for (String, u32) {
    open spec fn before(a: (Seq<char>, u32), b: (Seq<char>, u32)) -> bool {
        text_before(a.0, b.0) || (a.0 == b.0 && a.1 < b.1)
    }

    proof fn irreflexive(a: (Seq<char>, u32)) {
        lemma_text_irreflexive(a.0);
    }

    proof fn transitive(a: (Seq<char>, u32), b: (Seq<char>, u32), c: (Seq<char>, u32)) {
        if text_before(a.0, b.0) && text_before(b.0, c.0) {
            lemma_text_transitive(a.0, b.0, c.0);
        }
    }

    fn rank(&self, other: &Self) -> (r: Rank) {
        match self.0.rank(&other.0) {
            Rank::Same => self.1.rank(&other.1),
            r => r,
        }
    }
}

/// Each key stands before all that follow it.
pub open spec fn increasing<K: Key>(q: Seq<K::V>) -> bool {
    forall|i: int, j: int| 0 <= i < j < q.len() ==> K::before(#[trigger] q[i], #[trigger] q[j])
}

/// The keys of a set in ascending order.
pub open spec fn ascending<K: Key>(s: Set<K::V>) -> Seq<K::V> {
    choose|q: Seq<K::V>| increasing::<K>(q) && (forall|k: K::V| q.contains(k) == s.contains(k))
}

proof fn lemma_same_keys<K: Key>(p: Seq<K::V>, q: Seq<K::V>)
    requires
        increasing::<K>(p),
        increasing::<K>(q),
        forall|k: K::V| p.contains(k) == q.contains(k),
    ensures
        p == q,
    decreases p.len(),
{
    if p.len() == 0 {
        if q.len() > 0 {
            assert(q.contains(q[0]));
        }
    } else {
        assert(p.contains(p[0]));
        let j = choose|j: int| 0 <= j < q.len() && q[j] == p[0];
        assert(q.contains(q[0]));
        let m = choose|m: int| 0 <= m < p.len() && p[m] == q[0];
        if j > 0 {
            assert(K::before(q[0], q[j]));
            if m > 0 {
                assert(K::before(p[0], p[m]));
                K::transitive(p[0], q[0], p[0]);
            }
            K::irreflexive(p[0]);
        }
        let (pt, qt) = (p.skip(1), q.skip(1));
        assert forall|k: K::V| pt.contains(k) == qt.contains(k) by {
            if pt.contains(k) {
                let i = choose|i: int| 0 <= i < pt.len() && pt[i] == k;
                assert(p[i + 1] == k && p.contains(k));
                K::irreflexive(k);
                let i2 = choose|i2: int| 0 <= i2 < q.len() && q[i2] == k;
                assert(K::before(p[0], p[i + 1]));
                assert(qt[i2 - 1] == k);
            }
            if qt.contains(k) {
                let i = choose|i: int| 0 <= i < qt.len() && qt[i] == k;
                assert(q[i + 1] == k && q.contains(k));
                K::irreflexive(k);
                let i2 = choose|i2: int| 0 <= i2 < p.len() && p[i2] == k;
                assert(K::before(q[0], q[i + 1]));
                assert(pt[i2 - 1] == k);
            }
        }
        lemma_same_keys::<K>(pt, qt);
        assert(p =~= seq![p[0]] + pt);
        assert(q =~= seq![q[0]] + qt);
    }
}

/// An increasing sequence is the ascending listing of its own elements.
pub proof fn lemma_ascending<K: Key>(q: Seq<K::V>, s: Set<K::V>)
    requires
        increasing::<K>(q),
        forall|k: K::V| q.contains(k) == s.contains(k),
    ensures
        ascending::<K>(s) == q,
{
    let r = ascending::<K>(s);
    assert(increasing::<K>(q) && (forall|k: K::V| q.contains(k) == s.contains(k)));
    lemma_same_keys::<K>(r, q);
}

/// A map in ascending key order.
pub struct SortedMap<K: Key, T> {
    entries: Vec<(K, T)>,
}

impl<K: Key, T> SortedMap<K, T> {
    /// The keys, in order.
    pub closed spec fn keys(self) -> Seq<K::V> {
        Seq::new(self.entries@.len(), |i: int| self.entries@[i].0@)
    }

    /// The values, in the order of their keys.
    pub closed spec fn values(self) -> Seq<T> {
        Seq::new(self.entries@.len(), |i: int| self.entries@[i].1)
    }

    /// The keys stand in strictly ascending order.
    pub open spec fn wf(self) -> bool {
        &&& self.values().len() == self.keys().len()
        &&& increasing::<K>(self.keys())
    }

    /// The set of keys.
    pub open spec fn dom(self) -> Set<K::V> {
        Set::new(|k: K::V| self.keys().contains(k))
    }

    /// The entries as a mathematical map.
    pub open spec fn map(self) -> Map<K::V, T> {
        Map::new(
            |k: K::V| self.keys().contains(k),
            |k: K::V| self.values()[choose|i: int| 0 <= i < self.keys().len() && self.keys()[i] == k],
        )
    }

    /// An empty map.
    pub fn new() -> (r: Self)
        ensures
            r.wf(),
            r.dom() == Set::<K::V>::empty(),
            r.map() == Map::<K::V, T>::empty(),
    {
        let r = SortedMap { entries: Vec::new() };
        assert(r.dom() =~= Set::<K::V>::empty());
        assert(r.map() =~= Map::<K::V, T>::empty());
        r
    }

    /// How many keys there are.
    pub fn len(&self) -> (r: usize)
        ensures
            r == self.keys().len(),
    {
        self.entries.len()
    }

    /// The key at a position.
    pub fn key(&self, i: usize) -> (r: &K)
        requires
            i < self.keys().len(),
        ensures
            r@ == self.keys()[i as int],
    {
        &self.entries[i].0
    }

    /// The value at a position.
    pub fn value(&self, i: usize) -> (r: &T)
        requires
            i < self.keys().len(),
        ensures
            *r == self.values()[i as int],
    {
        &self.entries[i].1
    }

    /// Where `k` is or belongs, and whether it is there.
    fn find(&self, k: &K) -> (r: (usize, bool))
        requires
            self.wf(),
        ensures
            r.0 <= self.keys().len(),
            forall|j: int| 0 <= j < r.0 ==> K::before(#[trigger] self.keys()[j], k@),
            r.1 ==> r.0 < self.keys().len() && self.keys()[r.0 as int] == k@,
            !r.1 ==> !self.keys().contains(k@) && (forall|j: int|
                r.0 <= j < self.keys().len() ==> K::before(k@, #[trigger] self.keys()[j])),
    {
        let n: usize = self.entries.len();
        let ghost ks: Seq<K::V> = self.keys();
        let mut i: usize = 0;
        while i < n
            invariant
                i <= n,
                n == self.entries@.len(),
                ks == self.keys(),
                self.wf(),
                forall|j: int| 0 <= j < i ==> K::before(#[trigger] ks[j], k@),
            decreases n - i,
        {
            match self.entries[i].0.rank(k) {
                Rank::Before => {},
                Rank::Same => {
                    return (i, true);
                },
                Rank::After => {
                    proof {
                        assert forall|j: int| i <= j < ks.len() implies K::before(
                            k@,
                            #[trigger] ks[j],
                        ) by {
                            if i < j {
                                K::transitive(k@, ks[i as int], ks[j]);
                            }
                        }
                        assert(!ks.contains(k@)) by {
                            K::irreflexive(k@);
                        }
                    }
                    return (i, false);
                },
            }
            i += 1;
        }
        proof {
            K::irreflexive(k@);
        }
        (n, false)
    }

    /// Tests for a key.
    pub fn contains(&self, k: &K) -> (r: bool)
        requires
            self.wf(),
        ensures
            r == self.dom().contains(k@),
    {
        let (i, found) = self.find(k);
        proof {
            if found {
                assert(self.keys()[i as int] == k@);
            }
        }
        found
    }

    /// Adds an entry, in place of one with the same key.
    pub fn insert(&mut self, k: K, v: T)
        requires
            old(self).wf(),
        ensures
            final(self).wf(),
            final(self).dom() == old(self).dom().insert(k@),
            final(self).map() == old(self).map().insert(k@, v),
    {
        let ghost ks: Seq<K::V> = self.keys();
        let ghost vs: Seq<T> = self.values();
        let ghost kv: K::V = k@;
        let ghost old_map: Map<K::V, T> = self.map();
        let ghost old_dom: Set<K::V> = self.dom();
        let (i, found) = self.find(&k);
        if found {
            let _ = self.entries.remove(i);
        }
        self.entries.insert(i, (k, v));
        proof {
            let ks2 = self.keys();
            let vs2 = self.values();
            if found {
                assert(ks2 =~= ks);
                assert(vs2 =~= vs.update(i as int, v));
                assert(self.dom() =~= old_dom.insert(kv));
            } else {
                assert(ks2 =~= ks.insert(i as int, kv));
                assert(vs2 =~= vs.insert(i as int, v));
                assert forall|a: int, b: int| 0 <= a < b < ks2.len() implies K::before(
                    #[trigger] ks2[a],
                    #[trigger] ks2[b],
                ) by {
                    let a0 = if a < i { a } else { a - 1 };
                    let b0 = if b < i { b } else { b - 1 };
                    if a != i && b != i {
                        assert(K::before(ks[a0], ks[b0]));
                    } else if a == i {
                        assert(K::before(kv, ks[b0]));
                    } else {
                        assert(K::before(ks[a0], kv));
                    }
                }
                assert forall|x: K::V| ks2.contains(x) == (ks.contains(x) || x == kv) by {
                    if ks2.contains(x) {
                        let a = choose|a: int| 0 <= a < ks2.len() && ks2[a] == x;
                        if a < i {
                            assert(ks[a] == x);
                        } else if a > i {
                            assert(ks[a - 1] == x);
                        }
                    }
                    if ks.contains(x) {
                        let a = choose|a: int| 0 <= a < ks.len() && ks[a] == x;
                        if a < i {
                            assert(ks2[a] == x);
                        } else {
                            assert(ks2[a + 1] == x);
                        }
                    }
                    assert(ks2[i as int] == kv);
                }
                assert(self.dom() =~= old_dom.insert(kv));
            }
            assert forall|x: K::V| self.map().dom().contains(x) implies self.map()[x]
                == old_map.insert(kv, v)[x] by {
                let a = choose|a: int| 0 <= a < ks2.len() && ks2[a] == x;
                if x == kv {
                    lemma_distinct::<K>(ks2, a, i as int);
                } else {
                    assert(a != i);
                    let a0 = if found || a < i { a } else { a - 1 };
                    assert(ks[a0] == x);
                    let b = choose|b: int| 0 <= b < ks.len() && ks[b] == x;
                    lemma_distinct::<K>(ks, a0, b);
                }
            }
            assert(self.map() =~= old_map.insert(kv, v));
        }
    }

    /// Removes the entry of `k`, if there is one.
    pub fn remove(&mut self, k: &K)
        requires
            old(self).wf(),
        ensures
            final(self).wf(),
            final(self).dom() == old(self).dom().remove(k@),
    {
        let ghost ks: Seq<K::V> = self.keys();
        let (i, found) = self.find(k);
        if found {
            let _ = self.entries.remove(i);
            proof {
                let ks2 = self.keys();
                assert(ks2 =~= ks.remove(i as int));
                assert forall|x: K::V| ks2.contains(x) == (ks.contains(x) && x != k@) by {
                    if ks2.contains(x) {
                        let a = choose|a: int| 0 <= a < ks2.len() && ks2[a] == x;
                        let a0 = if a < i { a } else { a + 1 };
                        assert(ks[a0] == x);
                        if x == k@ {
                            lemma_distinct::<K>(ks, a0, i as int);
                        }
                    }
                    if ks.contains(x) && x != k@ {
                        let a = choose|a: int| 0 <= a < ks.len() && ks[a] == x;
                        let a2 = if a < i { a } else { a - 1 };
                        assert(ks2[a2] == x);
                    }
                }
            }
        }
        assert(self.dom() =~= old(self).dom().remove(k@));
    }

    /// The entries are listed in ascending key order.
    pub proof fn lemma_listing(self)
        requires
            self.wf(),
        ensures
            self.keys() == ascending::<K>(self.dom()),
            self.map().dom() == self.dom(),
            forall|i: int|
                0 <= i < self.keys().len() ==> self.values()[i] == self.map()[#[trigger] self.keys()[i]],
    {
        lemma_ascending::<K>(self.keys(), self.dom());
        assert(self.map().dom() =~= self.dom());
        assert forall|i: int| 0 <= i < self.keys().len() implies self.values()[i]
            == self.map()[#[trigger] self.keys()[i]] by {
            let k = self.keys()[i];
            let j = choose|j: int| 0 <= j < self.keys().len() && self.keys()[j] == k;
            lemma_distinct::<K>(self.keys(), i, j);
        }
    }
}

proof fn lemma_distinct<K: Key>(q: Seq<K::V>, i: int, j: int)
    requires
        increasing::<K>(q),
        0 <= i < q.len(),
        0 <= j < q.len(),
        q[i] == q[j],
    ensures
        i == j,
{
    K::irreflexive(q[i]);
    if i < j {
        assert(K::before(q[i], q[j]));
    } else if j < i {
        assert(K::before(q[j], q[i]));
    }
}

} // verus!
