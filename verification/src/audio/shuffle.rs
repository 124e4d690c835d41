//! Random choices and the shuffling of queues.

use rand::Rng;
use vstd::prelude::*;

verus! {

broadcast use {vstd::seq::group_seq_axioms, vstd::slice::group_slice_axioms};

/// One choice for each position of a list of `n` items: the position itself or
/// one before it.
pub open spec fn is_deck(picks: Seq<usize>, n: nat) -> bool {
    &&& picks.len() >= n
    &&& forall|i: int| 0 <= i < picks.len() ==> #[trigger] picks[i] <= i
}

/// `s` with the items at `i` and `j` exchanged.
pub open spec fn swapped<T>(s: Seq<T>, i: int, j: int) -> Seq<T> {
    s.update(i, s[j]).update(j, s[i])
}

/// `s` with each position from `i` down to 1 exchanged with its choice.
pub open spec fn shuffled_from<T>(s: Seq<T>, picks: Seq<usize>, i: int) -> Seq<T>
    decreases i,
{
    if i <= 0 {
        s
    } else {
        shuffled_from(swapped(s, i, picks[i] as int), picks, i - 1)
    }
}

/// `s` shuffled by the choices of `picks`.
pub open spec fn shuffled<T>(s: Seq<T>, picks: Seq<usize>) -> Seq<T> {
    shuffled_from(s, picks, s.len() - 1)
}

proof fn lemma_swapped<T>(s: Seq<T>, i: int, j: int)
    requires
        0 <= i < s.len(),
        0 <= j < s.len(),
    ensures
        swapped(s, i, j).to_multiset() == s.to_multiset(),
{
    broadcast use vstd::seq_lib::group_to_multiset_ensures;

    vstd::seq_lib::lemma_update_is_remove_insert(s, i, s[j]);
    let t = s.update(i, s[j]);
    vstd::seq_lib::lemma_update_is_remove_insert(t, j, s[i]);
    vstd::seq_lib::to_multiset_remove(s, i);
    vstd::seq_lib::to_multiset_insert(s.remove(i), i, s[j]);
    vstd::seq_lib::to_multiset_remove(t, j);
    vstd::seq_lib::to_multiset_insert(t.remove(j), j, s[i]);
    assert(s.contains(s[i]));
    assert(t.contains(t[j]));
    assert(swapped(s, i, j).to_multiset() =~= s.to_multiset());
}

proof fn lemma_shuffled_from<T>(s: Seq<T>, picks: Seq<usize>, i: int)
    requires
        i < s.len(),
        is_deck(picks, s.len()),
    ensures
        shuffled_from(s, picks, i).len() == s.len(),
        shuffled_from(s, picks, i).to_multiset() == s.to_multiset(),
    decreases i,
{
    if i > 0 {
        assert(picks[i] <= i);
        lemma_swapped(s, i, picks[i] as int);
        lemma_shuffled_from(swapped(s, i, picks[i] as int), picks, i - 1);
    }
}

/// A shuffle keeps every item, each as often as it was there.
pub proof fn law_shuffle_is_permutation<T>(s: Seq<T>, picks: Seq<usize>)
    requires
        is_deck(picks, s.len()),
    ensures
        shuffled(s, picks).len() == s.len(),
        shuffled(s, picks).to_multiset() == s.to_multiset(),
        forall|x: T| #[trigger] shuffled(s, picks).contains(x) <==> s.contains(x),
{
    broadcast use vstd::seq_lib::group_to_multiset_ensures;

    lemma_shuffled_from(s, picks, s.len() - 1);
    assert forall|x: T| #[trigger] shuffled(s, picks).contains(x) <==> s.contains(x) by {
        assert(shuffled(s, picks).to_multiset().count(x) == s.to_multiset().count(x));
    }
}

proof fn lemma_later_places_stay<T>(s: Seq<T>, picks: Seq<usize>, i: int, k: int)
    requires
        i < k < s.len(),
        is_deck(picks, s.len()),
    ensures
        shuffled_from(s, picks, i).len() == s.len(),
        shuffled_from(s, picks, i)[k] == s[k],
    decreases i,
{
    if i > 0 {
        assert(picks[i] <= i);
        let t = swapped(s, i, picks[i] as int);
        assert(t[k] == s[k]);
        lemma_later_places_stay(t, picks, i - 1, k);
    }
}

/// The last place of a shuffle gets the item that its choice names.
pub proof fn law_last_place_gets_its_choice<T>(s: Seq<T>, picks: Seq<usize>)
    requires
        s.len() > 0,
        is_deck(picks, s.len()),
    ensures
        shuffled(s, picks).len() == s.len(),
        shuffled(s, picks).last() == s[picks[s.len() - 1] as int],
{
    let n = s.len() - 1;
    assert(picks[n] <= n);
    if n > 0 {
        let t = swapped(s, n, picks[n] as int);
        assert(t[n] == s[picks[n] as int]);
        lemma_later_places_stay(t, picks, n - 1, n);
    }
}

proof fn lemma_shuffle_of_start<T>(s: Seq<T>, picks: Seq<usize>, i: int)
    requires
        i < s.len() - 1,
        is_deck(picks, s.len()),
    ensures
        shuffled_from(s, picks, i).drop_last() == shuffled_from(s.drop_last(), picks, i),
    decreases i,
{
    if i > 0 {
        assert(picks[i] <= i);
        let t = swapped(s, i, picks[i] as int);
        assert(t.drop_last() =~= swapped(s.drop_last(), i, picks[i] as int));
        lemma_shuffle_of_start(t, picks, i - 1);
    }
}

/// The other places of a shuffle are a shuffle of the other items, those that
/// the choice for the last place left.
pub proof fn law_other_places_are_shuffled<T>(s: Seq<T>, picks: Seq<usize>)
    requires
        s.len() > 0,
        is_deck(picks, s.len()),
    ensures
        ({
            let j = picks[s.len() - 1] as int;
            shuffled(s, picks).drop_last() == shuffled(s.update(j, s.last()).drop_last(), picks)
        }),
{
    let n = s.len() - 1;
    let j = picks[n] as int;
    assert(picks[n] <= n);
    if n > 0 {
        let t = swapped(s, n, j);
        assert(t.drop_last() =~= s.update(j, s.last()).drop_last());
        lemma_shuffle_of_start(t, picks, n - 1);
    } else {
        assert(shuffled(s, picks).drop_last() =~= shuffled(
            s.update(j, s.last()).drop_last(),
            picks,
        ));
    }
}

/// Every order of the items can come of a shuffle.
pub proof fn law_every_order_can_come<T>(s: Seq<T>, t: Seq<T>) -> (picks: Seq<usize>)
    requires
        s.to_multiset() == t.to_multiset(),
        s.len() <= usize::MAX,
    ensures
        picks.len() == s.len(),
        is_deck(picks, s.len()),
        shuffled(s, picks) == t,
    decreases s.len(),
{
    broadcast use vstd::seq_lib::group_to_multiset_ensures;

    assert(s.len() == s.to_multiset().len());
    assert(t.len() == t.to_multiset().len());
    if s.len() == 0 {
        assert(s =~= t);
        seq![]
    } else {
        let n = s.len() - 1;
        let x = t.last();
        assert(t[n] == x);
        assert(t.contains(x));
        assert(t.to_multiset().count(x) > 0);
        assert(s.contains(x));
        let j = choose|j: int| 0 <= j < s.len() && s[j] == x;
        let u = swapped(s, n, j);
        lemma_swapped(s, n, j);
        assert(u[n] == x);
        vstd::seq_lib::to_multiset_remove(u, n);
        vstd::seq_lib::to_multiset_remove(t, n);
        assert(u.remove(n) =~= u.drop_last());
        assert(t.remove(n) =~= t.drop_last());
        let rest = law_every_order_can_come(u.drop_last(), t.drop_last());
        let picks = rest.push(j as usize);
        lemma_more_choices(u.drop_last(), rest, picks, n - 1);
        if n > 0 {
            lemma_shuffle_of_start(u, picks, n - 1);
            lemma_later_places_stay(u, picks, n - 1, n);
            assert(shuffled(s, picks) == shuffled_from(u, picks, n - 1));
        } else {
            assert(u =~= s);
        }
        assert(shuffled(s, picks).last() == x);
        assert(shuffled(s, picks).drop_last() == t.drop_last());
        assert(shuffled(s, picks).len() == t.len());
        assert(shuffled(s, picks) =~= shuffled(s, picks).drop_last().push(x));
        assert(t =~= t.drop_last().push(x));
        picks
    }
}

proof fn lemma_more_choices<T>(s: Seq<T>, a: Seq<usize>, b: Seq<usize>, i: int)
    requires
        i < a.len(),
        a.is_prefix_of(b),
    ensures
        shuffled_from(s, a, i) == shuffled_from(s, b, i),
    decreases i,
{
    if i > 0 {
        assert(a[i] == b[i]);
        lemma_more_choices(swapped(s, i, a[i] as int), a, b, i - 1);
    }
}

/// Calls `rand::Rng::random_range` with `0..=bound` on the generator of
/// `rand::rng()`: the result lies in that range, and any of its values may come.
#[verifier::external_body]
fn random_index(bound: usize) -> (r: usize)
    ensures
        r <= bound,
{
    rand::rng().random_range(0..=bound)
}

/// Calls `rand::Rng::random` for 24 bytes on the generator of `rand::rng()`: any
/// bytes may come.
#[verifier::external_body]
pub(crate) fn random_bytes() -> (r: [u8; 24]) {
    rand::rng().random()
}

/// Draws a choice for each of `n` positions.
pub fn draw_picks(n: usize) -> (r: Vec<usize>)
    ensures
        r@.len() == n,
        is_deck(r@, n as nat),
{
    let mut picks: Vec<usize> = Vec::new();
    let mut i: usize = 0;
    while i < n
        invariant
            i <= n,
            picks@.len() == i,
            forall|k: int| 0 <= k < picks@.len() ==> #[trigger] picks@[k] <= k,
        decreases n - i,
    {
        picks.push(random_index(i));
        i = i + 1;
    }
    picks
}

/// Shuffles `v` by the given choices.
pub fn shuffle_with<T>(v: &mut [T], picks: &[usize])
    requires
        is_deck(picks@, old(v)@.len()),
    ensures
        final(v)@ == shuffled(old(v)@, picks@),
{
    let n: usize = v.len();
    if n == 0 {
        return ;
    }
    let ghost all = v@;
    let mut i: usize = n - 1;
    while i > 0
        invariant
            n == all.len(),
            v@.len() == n,
            i < n,
            is_deck(picks@, n as nat),
            shuffled_from(v@, picks@, i as int) == shuffled(all, picks@),
        decreases i,
    {
        let j: usize = picks[i];
        assert(j <= i);
        swap(v, i, j);
        i = i - 1;
    }
}

fn swap<T>(v: &mut [T], i: usize, j: usize)
    requires
        j <= i < old(v)@.len(),
    ensures
        final(v)@ == swapped(old(v)@, i as int, j as int),
{
    let ghost all = v@;
    if i != j {
        let (low, high) = v.split_at_mut(i);
        std::mem::swap(&mut low[j], &mut high[0]);
    }
    assert(v@ =~= swapped(all, i as int, j as int));
}

/// Shuffles `v` by choices drawn at random.
pub fn shuffle_in_place<T>(v: &mut [T])
    ensures
        exists|picks: Seq<usize>|
            is_deck(picks, old(v)@.len()) && final(v)@ == #[trigger] shuffled(old(v)@, picks),
        final(v)@.to_multiset() == old(v)@.to_multiset(),
{
    let n: usize = v.len();
    let picks = draw_picks(n);
    proof {
        law_shuffle_is_permutation(v@, picks@);
    }
    shuffle_with(v, picks.as_slice());
}

} // verus!
