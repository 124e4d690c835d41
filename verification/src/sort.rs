//! Stable sorting.

use vstd::prelude::*;

verus! {

broadcast use vstd::seq::group_seq_axioms;

/// Values with a total preorder.
pub trait Ranked: Sized {
    /// `self` stands no later than `other`.
    spec fn at_most(&self, other: &Self) -> bool;

    proof fn at_most_total(a: &Self, b: &Self)
        ensures
            a.at_most(b) || b.at_most(a),
    ;

    proof fn at_most_transitive(a: &Self, b: &Self, c: &Self)
        requires
            a.at_most(b),
            b.at_most(c),
        ensures
            a.at_most(c),
    ;

}

/// Values whose order can be decided.
pub trait Sortable: Ranked {
    /// Whether `self` stands no later than `other`.
    fn is_at_most(&self, other: &Self) -> (r: bool)
        ensures
            r == self.at_most(other),
    ;
}

/// In a stable sort of `s`, the item at position `a` comes before the item at
/// position `b`.
pub open spec fn precedes<T: Ranked>(s: Seq<T>, a: int, b: int) -> bool {
    s[a].at_most(&s[b]) && (a < b || !s[b].at_most(&s[a]))
}

/// `p` lists the positions of `s` in the order of a stable sort.
pub open spec fn is_stable_order<T: Ranked>(s: Seq<T>, p: Seq<usize>) -> bool {
    orders_range(s, p, 0, s.len() as int)
}

/// `p` lists the positions of `s` from `lo` up to `hi` in the order of a stable
/// sort.
pub open spec fn orders_range<T: Ranked>(s: Seq<T>, p: Seq<usize>, lo: int, hi: int) -> bool {
    &&& p.len() == hi - lo
    &&& forall|i: int| 0 <= i < p.len() ==> lo <= #[trigger] p[i] < hi
    &&& forall|k: usize| lo <= k < hi ==> #[trigger] p.contains(k)
    &&& forall|i: int, j: int|
        0 <= i < j < p.len() ==> precedes(s, #[trigger] p[i] as int, #[trigger] p[j] as int)
}

/// The order of a stable sort.
pub open spec fn stable_order_of<T: Ranked>(s: Seq<T>) -> Seq<usize> {
    choose|p: Seq<usize>| is_stable_order(s, p)
}

/// The items of `s` in the order of a stable sort.
pub open spec fn stable_sorted<T: Ranked>(s: Seq<T>) -> Seq<T> {
    Seq::new(s.len(), |i: int| s[stable_order_of(s)[i] as int])
}

proof fn lemma_precedes_transitive<T: Ranked>(s: Seq<T>, a: int, b: int, c: int)
    requires
        precedes(s, a, b),
        precedes(s, b, c),
    ensures
        precedes(s, a, c),
{
    T::at_most_transitive(&s[a], &s[b], &s[c]);
    if s[c].at_most(&s[a]) {
        T::at_most_transitive(&s[c], &s[a], &s[b]);
        T::at_most_transitive(&s[b], &s[c], &s[a]);
    }
}

/// A sequence has only one stable order.
pub proof fn lemma_stable_order_unique<T: Ranked>(s: Seq<T>, p: Seq<usize>, q: Seq<usize>)
    requires
        is_stable_order(s, p),
        is_stable_order(s, q),
    ensures
        p == q,
{
    assert forall|n: int| 0 <= n <= p.len() implies p.take(n) == q.take(n) by {
        lemma_stable_order_prefix(s, p, q, n);
    }
    assert(p.take(p.len() as int) == p);
    assert(q.take(q.len() as int) == q);
}

proof fn lemma_stable_order_prefix<T: Ranked>(s: Seq<T>, p: Seq<usize>, q: Seq<usize>, n: int)
    requires
        is_stable_order(s, p),
        is_stable_order(s, q),
        0 <= n <= p.len(),
    ensures
        p.take(n) == q.take(n),
    decreases n,
{
    if n > 0 {
        lemma_stable_order_prefix(s, p, q, n - 1);
        let m = n - 1;
        let a = p[m];
        let b = q[m];
        assert forall|i: int| 0 <= i < m implies p[i] == q[i] by {
            assert(p.take(m)[i] == q.take(m)[i]);
        }
        if a != b {
            assert(q.contains(a));
            assert(p.contains(b));
            let j = choose|j: int| 0 <= j < q.len() && q[j] == a;
            let i = choose|i: int| 0 <= i < p.len() && p[i] == b;
            if j < m {
                assert(p[j] == a);
                assert(precedes(s, p[j] as int, p[m] as int));
            }
            if i < m {
                assert(q[i] == b);
                assert(precedes(s, q[i] as int, q[m] as int));
            }
            assert(j > m && i > m);
            assert(precedes(s, q[m] as int, q[j] as int));
            assert(precedes(s, p[m] as int, p[i] as int));
            T::at_most_total(&s[a as int], &s[b as int]);
        }
        assert(p.take(n) == p.take(m).push(a));
        assert(q.take(n) == q.take(m).push(b));
    }
}

/// The place in `p`, from `i` on, where the item at position `n` belongs.
proof fn lemma_gap<T: Ranked>(s: Seq<T>, p: Seq<usize>, n: int, i: int) -> (k: int)
    requires
        0 <= i <= p.len(),
        forall|j: int| 0 <= j < i ==> s[#[trigger] p[j] as int].at_most(&s[n]),
    ensures
        i <= k <= p.len(),
        forall|j: int| 0 <= j < k ==> s[#[trigger] p[j] as int].at_most(&s[n]),
        k < p.len() ==> !s[p[k] as int].at_most(&s[n]),
    decreases p.len() - i,
{
    if i < p.len() && s[p[i] as int].at_most(&s[n]) {
        lemma_gap(s, p, n, i + 1)
    } else {
        i
    }
}

proof fn lemma_prefix_order_exists<T: Ranked>(s: Seq<T>, n: int) -> (p: Seq<usize>)
    requires
        0 <= n <= s.len(),
        s.len() <= usize::MAX,
    ensures
        orders_range(s, p, 0, n),
    decreases n,
{
    if n == 0 {
        seq![]
    } else {
        let m = n - 1;
        let q = lemma_prefix_order_exists(s, m);
        let k = lemma_gap(s, q, m, 0);
        let p = q.insert(k, m as usize);
        if k < q.len() {
            T::at_most_total(&s[q[k] as int], &s[m]);
            assert(precedes(s, m, q[k] as int));
        }
        assert forall|i: int, j: int| 0 <= i < j < p.len() implies precedes(
            s,
            #[trigger] p[i] as int,
            #[trigger] p[j] as int,
        ) by {
            let i0 = if i < k {
                i
            } else {
                i - 1
            };
            let j0 = if j < k {
                j
            } else {
                j - 1
            };
            if i != k && j != k {
                assert(p[i] == q[i0] && p[j] == q[j0]);
            } else if j == k {
                assert(p[i] == q[i]);
                assert(q[i] < m);
            } else {
                assert(p[j] == q[j0]);
                if j0 > k {
                    assert(precedes(s, q[k] as int, q[j0] as int));
                    lemma_precedes_transitive(s, m, q[k] as int, q[j0] as int);
                }
            }
        }
        assert forall|v: usize| 0 <= v < n implies #[trigger] p.contains(v) by {
            if v == m {
                assert(p[k] == v);
            } else {
                assert(q.contains(v));
                let x = choose|x: int| 0 <= x < q.len() && q[x] == v;
                if x < k {
                    assert(p[x] == v);
                } else {
                    assert(p[x + 1] == v);
                }
            }
        }
        p
    }
}

/// Every sequence has a stable order.
pub proof fn lemma_stable_order_exists<T: Ranked>(s: Seq<T>)
    requires
        s.len() <= usize::MAX,
    ensures
        is_stable_order(s, stable_order_of(s)),
{
    let p = lemma_prefix_order_exists(s, s.len() as int);
    assert(is_stable_order(s, p));
}

/// Merges two neighbouring ordered ranges.
fn merge<T: Sortable>(
    items: &Vec<T>,
    a: &Vec<usize>,
    b: &Vec<usize>,
    Ghost(lo): Ghost<int>,
    Ghost(mid): Ghost<int>,
    Ghost(hi): Ghost<int>,
) -> (r: Vec<usize>)
    requires
        0 <= lo <= mid <= hi <= items@.len(),
        orders_range(items@, a@, lo, mid),
        orders_range(items@, b@, mid, hi),
    ensures
        orders_range(items@, r@, lo, hi),
{
    let mut out: Vec<usize> = Vec::new();
    let mut i: usize = 0;
    let mut j: usize = 0;
    while i < a.len() || j < b.len()
        invariant
            0 <= lo <= mid <= hi <= items@.len(),
            orders_range(items@, a@, lo, mid),
            orders_range(items@, b@, mid, hi),
            i <= a@.len(),
            j <= b@.len(),
            out@.len() == i + j,
            forall|x: int| 0 <= x < out@.len() ==> lo <= #[trigger] out@[x] < hi,
            forall|x: int| 0 <= x < i ==> out@.contains(#[trigger] a@[x]),
            forall|x: int| 0 <= x < j ==> out@.contains(#[trigger] b@[x]),
            forall|x: int, y: int|
                0 <= x < y < out@.len() ==> precedes(
                    items@,
                    #[trigger] out@[x] as int,
                    #[trigger] out@[y] as int,
                ),
            i < a@.len() ==> forall|x: int|
                0 <= x < out@.len() ==> precedes(
                    items@,
                    #[trigger] out@[x] as int,
                    a@[i as int] as int,
                ),
            j < b@.len() ==> forall|x: int|
                0 <= x < out@.len() ==> precedes(
                    items@,
                    #[trigger] out@[x] as int,
                    b@[j as int] as int,
                ),
        decreases a@.len() - i + b@.len() - j,
    {
        let from_a = if i >= a.len() {
            false
        } else if j >= b.len() {
            true
        } else {
            let x: usize = a[i];
            let y: usize = b[j];
            items[x].is_at_most(&items[y])
        };
        let ghost before = out@;
        if from_a {
            let c: usize = a[i];
            proof {
                if i + 1 < a@.len() {
                    assert(precedes(items@, a@[i as int] as int, a@[i + 1] as int));
                    assert forall|x: int| 0 <= x < before.len() implies precedes(
                        items@,
                        #[trigger] before[x] as int,
                        a@[i + 1] as int,
                    ) by {
                        lemma_precedes_transitive(
                            items@,
                            before[x] as int,
                            a@[i as int] as int,
                            a@[i + 1] as int,
                        );
                    }
                }
                assert forall|v: usize| before.contains(v) implies before.push(c).contains(v) by {
                    let k = choose|k: int| 0 <= k < before.len() && before[k] == v;
                    assert(before.push(c)[k] == v);
                }
                assert(before.push(c)[before.len() as int] == c);
            }
            out.push(c);
            i = i + 1;
        } else {
            let c: usize = b[j];
            proof {
                if i < a@.len() {
                    T::at_most_total(&items@[a@[i as int] as int], &items@[c as int]);
                }
                if j + 1 < b@.len() {
                    assert(precedes(items@, b@[j as int] as int, b@[j + 1] as int));
                    assert forall|x: int| 0 <= x < before.len() implies precedes(
                        items@,
                        #[trigger] before[x] as int,
                        b@[j + 1] as int,
                    ) by {
                        lemma_precedes_transitive(
                            items@,
                            before[x] as int,
                            b@[j as int] as int,
                            b@[j + 1] as int,
                        );
                    }
                }
                assert forall|v: usize| before.contains(v) implies before.push(c).contains(v) by {
                    let k = choose|k: int| 0 <= k < before.len() && before[k] == v;
                    assert(before.push(c)[k] == v);
                }
                assert(before.push(c)[before.len() as int] == c);
            }
            out.push(c);
            j = j + 1;
        }
    }
    proof {
        assert forall|k: usize| lo <= k < hi implies #[trigger] out@.contains(k) by {
            if k < mid {
                assert(a@.contains(k));
                let x = choose|x: int| 0 <= x < a@.len() && a@[x] == k;
                assert(out@.contains(a@[x]));
            } else {
                assert(b@.contains(k));
                let x = choose|x: int| 0 <= x < b@.len() && b@[x] == k;
                assert(out@.contains(b@[x]));
            }
        }
    }
    out
}

fn order_range<T: Sortable>(items: &Vec<T>, lo: usize, hi: usize) -> (r: Vec<usize>)
    requires
        lo <= hi <= items@.len(),
    ensures
        orders_range(items@, r@, lo as int, hi as int),
    decreases hi - lo,
{
    let mut out: Vec<usize> = Vec::new();
    if hi - lo == 0 {
        return out;
    }
    if hi - lo == 1 {
        out.push(lo);
        assert(out@[0] == lo);
        return out;
    }
    let mid: usize = lo + (hi - lo) / 2;
    let a = order_range(items, lo, mid);
    let b = order_range(items, mid, hi);
    merge(items, &a, &b, Ghost(lo as int), Ghost(mid as int), Ghost(hi as int))
}

/// Lists the positions of `items` in the order of a stable sort.
pub fn stable_order<T: Sortable>(items: &Vec<T>) -> (r: Vec<usize>)
    ensures
        is_stable_order(items@, r@),
        r@ == stable_order_of(items@),
{
    let r = order_range(items, 0, items.len());
    proof {
        assert(is_stable_order(items@, r@));
        lemma_stable_order_unique(items@, r@, stable_order_of(items@));
    }
    r
}

} // verus!
