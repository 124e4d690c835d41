//! A map with text keys, kept in the dictionary order of its keys.

use vstd::prelude::*;

use crate::text::order::Rank;
use crate::text::order::rank_text;
use crate::text::order;

verus! {

broadcast use vstd::seq::group_seq_axioms;

/// The keys of `p` stand in strictly ascending dictionary order.
pub open spec fn ascending<W>(p: Seq<(Seq<char>, W)>) -> bool {
    forall|i: int, j: int|
        0 <= i < j < p.len() ==> order::text_before((#[trigger] p[i]).0, (#[trigger] p[j]).0)
}

/// `k` is the key of some pair of `p`.
pub open spec fn has_key<W>(p: Seq<(Seq<char>, W)>, k: Seq<char>) -> bool {
    exists|i: int| 0 <= i < p.len() && (#[trigger] p[i]).0 == k
}

/// The value that `p` pairs with `k`.
pub open spec fn value_of<W>(p: Seq<(Seq<char>, W)>, k: Seq<char>) -> W {
    p[choose|i: int| 0 <= i < p.len() && (#[trigger] p[i]).0 == k].1
}

/// The map that the pairs make up.
pub open spec fn map_of<W>(p: Seq<(Seq<char>, W)>) -> Map<Seq<char>, W> {
    Map::new(|k: Seq<char>| has_key(p, k), |k: Seq<char>| value_of(p, k))
}

/// Text keys with their values, sorted by key.
#[derive(Debug)]
pub struct StringMap<V> {
    entries: Vec<(String, V)>,
}

spec fn keys_ascending<V>(es: Seq<(String, V)>) -> bool {
    forall|i: int, j: int|
        0 <= i < j < es.len() ==> order::text_before((#[trigger] es[i]).0@, (#[trigger] es[j]).0@)
}

impl<V> StringMap<V> {
    #[verifier::type_invariant]
    spec fn sorted(self) -> bool {
        keys_ascending(self.entries@)
    }

    /// The pairs of the map in the order of their keys.
    pub closed spec fn pairs(self) -> Seq<(Seq<char>, V)> {
        Seq::new(self.entries@.len(), |i: int| (self.entries@[i].0@, self.entries@[i].1))
    }

    /// The map without keys.
    pub fn new() -> (r: Self)
        ensures
            r.pairs().len() == 0,
            r@ == Map::<Seq<char>, V>::empty(),
    {
        let r = StringMap { entries: Vec::new() };
        assert(r@ =~= Map::<Seq<char>, V>::empty());
        r
    }

    /// The number of keys. The pairs are in order and make up the map.
    pub fn len(&self) -> (r: usize)
        ensures
            r == self.pairs().len(),
            ascending(self.pairs()),
            self@ == map_of(self.pairs()),
            self@.dom().finite(),
            r == self@.dom().len(),
    {
        proof {
            use_type_invariant(self);
            lemma_key_count(self.pairs());
        }
        self.entries.len()
    }

    /// The pair at position `i` of the order.
    pub fn entry(&self, i: usize) -> (r: (&str, &V))
        requires
            i < self.pairs().len(),
        ensures
            r.0@ == self.pairs()[i as int].0,
            *r.1 == self.pairs()[i as int].1,
            self@.dom().contains(r.0@),
            self@[r.0@] == *r.1,
    {
        proof {
            use_type_invariant(self);
            lemma_value(self.pairs(), i as int);
        }
        (self.entries[i].0.as_str(), &self.entries[i].1)
    }

    /// The position of the first key that does not stand before `k`, and
    /// whether it is `k`.
    fn seek(&self, k: &str) -> (r: (usize, bool))
        ensures
            r.0 <= self.entries@.len(),
            r.1 ==> r.0 < self.entries@.len() && self.entries@[r.0 as int].0@ == k@,
            forall|i: int| 0 <= i < r.0 ==> order::text_before((#[trigger] self.entries@[i]).0@, k@),
            !r.1 ==> forall|i: int|
                r.0 <= i < self.entries@.len() ==> order::text_before(k@, (#[trigger] self.entries@[i]).0@),
    {
        proof {
            use_type_invariant(self);
        }
        let mut i: usize = 0;
        while i < self.entries.len()
            invariant
                i <= self.entries@.len(),
                keys_ascending(self.entries@),
                forall|j: int| 0 <= j < i ==> order::text_before((#[trigger] self.entries@[j]).0@, k@),
            decreases self.entries@.len() - i,
        {
            match rank_text(self.entries[i].0.as_str(), k) {
                Rank::Before => {},
                Rank::Same => {
                    return (i, true);
                },
                Rank::After => {
                    proof {
                        assert forall|j: int| i <= j < self.entries@.len() implies order::text_before(
                            k@,
                            (#[trigger] self.entries@[j]).0@,
                        ) by {
                            if j > i {
                                order::lemma_before_transitive(
                                    k@,
                                    self.entries@[i as int].0@,
                                    self.entries@[j].0@,
                                );
                            }
                        }
                    }
                    return (i, false);
                },
            }
            i = i + 1;
        }
        (i, false)
    }

    /// The value of `k`.
    pub fn get(&self, k: &str) -> (r: Option<&V>)
        ensures
            match r {
                Some(v) => self@.dom().contains(k@) && self@[k@] == *v,
                None => !self@.dom().contains(k@),
            },
    {
        let (i, found) = self.seek(k);
        let ghost p = self.pairs();
        proof {
            use_type_invariant(self);
            if found {
                lemma_value(p, i as int);
            } else {
                lemma_absent(p, k@, i as int);
            }
        }
        if found {
            Some(&self.entries[i].1)
        } else {
            None
        }
    }

    /// Makes `v` the value of `k`.
    pub fn insert(&mut self, k: String, v: V)
        ensures
            final(self)@ == old(self)@.insert(k@, v),
    {
        let (i, found) = self.seek(k.as_str());
        let ghost p = self.pairs();
        let ghost key = k@;
        let mut es: Vec<(String, V)> = Vec::new();
        proof {
            use_type_invariant(&*self);
        }
        std::mem::swap(&mut es, &mut self.entries);
        let ghost before = es@;
        if found {
            es.set(i, (k, v));
        } else {
            es.insert(i, (k, v));
        }
        proof {
            assert forall|a: int, b: int| 0 <= a < b < es@.len() implies order::text_before(
                (#[trigger] es@[a]).0@,
                (#[trigger] es@[b]).0@,
            ) by {
                if found {
                    assert(es@[a].0@ == before[a].0@);
                    assert(es@[b].0@ == before[b].0@);
                } else {
                    if a < i {
                        assert(es@[a] == before[a]);
                    } else if a > i {
                        assert(es@[a] == before[a - 1]);
                    }
                    if b < i {
                        assert(es@[b] == before[b]);
                    } else if b > i {
                        assert(es@[b] == before[b - 1]);
                    }
                }
            }
        }
        self.entries = es;
        proof {
            let q = self.pairs();
            if found {
                assert(q =~= p.update(i as int, (key, v)));
            } else {
                assert(q =~= p.insert(i as int, (key, v)));
                lemma_absent(p, key, i as int);
            }
            lemma_map_insert(p, q, i as int, key, v, found);
        }
    }

    /// Takes the key at position `i` of the order out of the map.
    pub fn remove_at(&mut self, i: usize) -> (r: V)
        requires
            i < old(self).pairs().len(),
        ensures
            r == old(self).pairs()[i as int].1,
            final(self).pairs() == old(self).pairs().remove(i as int),
            final(self)@ == old(self)@.remove(old(self).pairs()[i as int].0),
            old(self)@.dom().contains(old(self).pairs()[i as int].0),
            old(self)@[old(self).pairs()[i as int].0] == r,
    {
        let ghost p = self.pairs();
        proof {
            use_type_invariant(&*self);
            lemma_value(p, i as int);
        }
        let mut es: Vec<(String, V)> = Vec::new();
        std::mem::swap(&mut es, &mut self.entries);
        let ghost before = es@;
        let (_k, v) = es.remove(i);
        proof {
            assert forall|a: int, b: int| 0 <= a < b < es@.len() implies order::text_before(
                (#[trigger] es@[a]).0@,
                (#[trigger] es@[b]).0@,
            ) by {
                let a0 = if a < i {
                    a
                } else {
                    a + 1
                };
                let b0 = if b < i {
                    b
                } else {
                    b + 1
                };
                assert(es@[a] == before[a0]);
                assert(es@[b] == before[b0]);
            }
        }
        self.entries = es;
        proof {
            let q = self.pairs();
            assert(q =~= p.remove(i as int));
            lemma_map_remove(p, q, i as int);
        }
        v
    }

    /// Takes `k` out of the map.
    pub fn remove(&mut self, k: &str) -> (r: Option<V>)
        ensures
            final(self)@ == old(self)@.remove(k@),
            match r {
                Some(v) => old(self)@.dom().contains(k@) && old(self)@[k@] == v,
                None => !old(self)@.dom().contains(k@),
            },
    {
        let (i, found) = self.seek(k);
        if found {
            let v = self.remove_at(i);
            Some(v)
        } else {
            proof {
                use_type_invariant(&*self);
                lemma_absent(self.pairs(), k@, i as int);
                assert(self@ =~= self@.remove(k@));
            }
            None
        }
    }
}

impl<V> View for StringMap<V> {
    type V = Map<Seq<char>, V>;

    closed spec fn view(&self) -> Map<Seq<char>, V> {
        map_of(self.pairs())
    }
}

impl<V: Clone> Clone for StringMap<V> {
    fn clone(&self) -> (r: Self)
        ensures
            r.pairs().len() == self.pairs().len(),
            forall|i: int|
                0 <= i < r.pairs().len() ==> {
                    &&& (#[trigger] r.pairs()[i]).0 == self.pairs()[i].0
                    &&& cloned(self.pairs()[i].1, r.pairs()[i].1)
                },
    {
        proof {
            use_type_invariant(self);
        }
        let mut es: Vec<(String, V)> = Vec::new();
        let mut i: usize = 0;
        while i < self.entries.len()
            invariant
                i <= self.entries@.len(),
                keys_ascending(self.entries@),
                es@.len() == i,
                forall|j: int|
                    0 <= j < i ==> {
                        &&& (#[trigger] es@[j]).0@ == self.entries@[j].0@
                        &&& cloned(self.entries@[j].1, es@[j].1)
                    },
            decreases self.entries@.len() - i,
        {
            let (k, v) = &self.entries[i];
            es.push((k.clone(), v.clone()));
            i = i + 1;
        }
        assert forall|a: int, b: int| 0 <= a < b < es@.len() implies order::text_before(
            (#[trigger] es@[a]).0@,
            (#[trigger] es@[b]).0@,
        ) by {
            assert(es@[a].0@ == self.entries@[a].0@);
            assert(es@[b].0@ == self.entries@[b].0@);
        }
        StringMap { entries: es }
    }
}

impl<V> Default for StringMap<V> {
    fn default() -> (r: Self)
        ensures
            r.pairs().len() == 0,
            r@ == Map::<Seq<char>, V>::empty(),
    {
        StringMap::new()
    }
}

/// A key of ascending pairs has the value it is paired with.
pub proof fn lemma_value<W>(p: Seq<(Seq<char>, W)>, i: int)
    requires
        ascending(p),
        0 <= i < p.len(),
    ensures
        has_key(p, p[i].0),
        value_of(p, p[i].0) == p[i].1,
        map_of(p).dom().contains(p[i].0),
        map_of(p)[p[i].0] == p[i].1,
{
    let k = p[i].0;
    assert(has_key(p, k));
    let j = choose|j: int| 0 <= j < p.len() && (#[trigger] p[j]).0 == k;
    order::lemma_before_irreflexive(k);
    if j < i {
        assert(order::text_before(p[j].0, p[i].0));
    } else if i < j {
        assert(order::text_before(p[i].0, p[j].0));
    }
}

proof fn lemma_absent<W>(p: Seq<(Seq<char>, W)>, k: Seq<char>, i: int)
    requires
        0 <= i <= p.len(),
        forall|j: int| 0 <= j < i ==> order::text_before((#[trigger] p[j]).0, k),
        forall|j: int| i <= j < p.len() ==> order::text_before(k, (#[trigger] p[j]).0),
    ensures
        !has_key(p, k),
        !map_of(p).dom().contains(k),
{
    order::lemma_before_irreflexive(k);
}

proof fn lemma_map_insert<W>(
    p: Seq<(Seq<char>, W)>,
    q: Seq<(Seq<char>, W)>,
    i: int,
    k: Seq<char>,
    v: W,
    found: bool,
)
    requires
        ascending(p),
        ascending(q),
        0 <= i <= p.len(),
        found ==> i < p.len() && p[i].0 == k && q == p.update(i, (k, v)),
        !found ==> q == p.insert(i, (k, v)) && !has_key(p, k),
    ensures
        map_of(q) == map_of(p).insert(k, v),
{
    let m = map_of(p).insert(k, v);
    lemma_value(q, i);
    assert forall|x: Seq<char>| map_of(q).dom().contains(x) == m.dom().contains(x) by {
        if has_key(q, x) && x != k {
            let j = choose|j: int| 0 <= j < q.len() && (#[trigger] q[j]).0 == x;
            if found {
                assert(p[j].0 == x);
            } else if j < i {
                assert(p[j] == q[j]);
            } else {
                assert(p[j - 1] == q[j]);
            }
        }
        if has_key(p, x) && x != k {
            let j = choose|j: int| 0 <= j < p.len() && (#[trigger] p[j]).0 == x;
            if found {
                assert(q[j].0 == x);
            } else if j < i {
                assert(p[j] == q[j]);
            } else {
                assert(p[j] == q[j + 1]);
            }
        }
    }
    assert forall|x: Seq<char>| map_of(q).dom().contains(x) implies map_of(q)[x] == m[x] by {
        if x != k {
            let j = choose|j: int| 0 <= j < q.len() && (#[trigger] q[j]).0 == x;
            lemma_value(q, j);
            if found {
                assert(p[j] == q[j]);
                lemma_value(p, j);
            } else if j < i {
                assert(p[j] == q[j]);
                lemma_value(p, j);
            } else {
                assert(p[j - 1] == q[j]);
                lemma_value(p, j - 1);
            }
        }
    }
    assert(map_of(q) =~= m);
}

proof fn lemma_map_remove<W>(p: Seq<(Seq<char>, W)>, q: Seq<(Seq<char>, W)>, i: int)
    requires
        ascending(p),
        ascending(q),
        0 <= i < p.len(),
        q == p.remove(i),
    ensures
        map_of(q) == map_of(p).remove(p[i].0),
{
    let k = p[i].0;
    let m = map_of(p).remove(k);
    order::lemma_before_irreflexive(k);
    assert forall|x: Seq<char>| map_of(q).dom().contains(x) == m.dom().contains(x) by {
        if has_key(q, x) {
            let j = choose|j: int| 0 <= j < q.len() && (#[trigger] q[j]).0 == x;
            if j < i {
                assert(p[j] == q[j]);
                assert(order::text_before(p[j].0, p[i].0));
            } else {
                assert(p[j + 1] == q[j]);
                assert(order::text_before(p[i].0, p[j + 1].0));
            }
        }
        if has_key(p, x) && x != k {
            let j = choose|j: int| 0 <= j < p.len() && (#[trigger] p[j]).0 == x;
            if j < i {
                assert(p[j] == q[j]);
            } else {
                assert(p[j] == q[j - 1]);
            }
        }
    }
    assert forall|x: Seq<char>| map_of(q).dom().contains(x) implies map_of(q)[x] == m[x] by {
        let j = choose|j: int| 0 <= j < q.len() && (#[trigger] q[j]).0 == x;
        lemma_value(q, j);
        if j < i {
            assert(p[j] == q[j]);
            lemma_value(p, j);
        } else {
            assert(p[j + 1] == q[j]);
            lemma_value(p, j + 1);
        }
    }
    assert(map_of(q) =~= m);
}

/// Ascending pairs have as many keys as pairs.
pub proof fn lemma_key_count<W>(p: Seq<(Seq<char>, W)>)
    requires
        ascending(p),
    ensures
        map_of(p).dom().finite(),
        map_of(p).dom().len() == p.len(),
    decreases p.len(),
{
    let m = map_of(p);
    if p.len() == 0 {
        assert(m.dom() =~= Set::<Seq<char>>::empty());
    } else {
        let q = p.drop_last();
        let k = p.last().0;
        lemma_key_count(q);
        assert(q =~= p.remove(p.len() - 1));
        lemma_map_remove(p, q, p.len() - 1);
        lemma_value(p, p.len() - 1);
        assert(m.dom() =~= map_of(q).dom().insert(k));
    }
}

} // verus!
