//! The dictionary order of texts.

use vstd::prelude::*;

verus! {

broadcast use {vstd::seq::group_seq_axioms, vstd::slice::group_slice_axioms};

/// How two values stand to each other.
#[derive(Clone, Copy, PartialEq, Eq, Structural)]
pub enum Rank {
    Before,
    Same,
    After,
}

/// `a` stands before `b` in dictionary order.
pub open spec fn text_before(a: Seq<char>, b: Seq<char>) -> bool
    decreases a.len(),
{
    if b.len() == 0 {
        false
    } else if a.len() == 0 {
        true
    } else if a[0] == b[0] {
        text_before(a.skip(1), b.skip(1))
    } else {
        a[0] < b[0]
    }
}

/// No text stands before itself.
pub proof fn lemma_before_irreflexive(a: Seq<char>)
    ensures
        !text_before(a, a),
    decreases a.len(),
{
    if a.len() > 0 {
        lemma_before_irreflexive(a.skip(1));
    }
}

/// The order is transitive.
pub proof fn lemma_before_transitive(a: Seq<char>, b: Seq<char>, c: Seq<char>)
    requires
        text_before(a, b),
        text_before(b, c),
    ensures
        text_before(a, c),
    decreases a.len(),
{
    if a.len() > 0 && a[0] == b[0] && b[0] == c[0] {
        lemma_before_transitive(a.skip(1), b.skip(1), c.skip(1));
    }
}

/// Of two texts that differ, one stands before the other.
pub proof fn lemma_before_total(a: Seq<char>, b: Seq<char>)
    ensures
        a == b || text_before(a, b) || text_before(b, a),
    decreases a.len(),
{
    if a.len() > 0 && b.len() > 0 && a[0] == b[0] {
        lemma_before_total(a.skip(1), b.skip(1));
        if a.skip(1) == b.skip(1) {
            assert(a == seq![a[0]] + a.skip(1));
            assert(b == seq![b[0]] + b.skip(1));
        }
    } else if a.len() == 0 && b.len() == 0 {
        assert(a == b);
    }
}

/// The order is antisymmetric.
pub proof fn lemma_before_antisymmetric(a: Seq<char>, b: Seq<char>)
    requires
        text_before(a, b),
    ensures
        !text_before(b, a),
        a != b,
{
    lemma_before_irreflexive(a);
    if text_before(b, a) {
        lemma_before_transitive(a, b, a);
    }
}

/// Ranks two texts by dictionary order.
pub fn rank_chars(a: &[char], b: &[char]) -> (r: Rank)
    ensures
        (r == Rank::Before) == text_before(a@, b@),
        (r == Rank::Same) == (a@ == b@),
        (r == Rank::After) == text_before(b@, a@),
{
    let mut i: usize = 0;
    assert(a@.skip(0) == a@);
    assert(b@.skip(0) == b@);
    proof {
        lemma_before_total(a@, b@);
        lemma_before_irreflexive(a@);
        if text_before(a@, b@) {
            lemma_before_antisymmetric(a@, b@);
        }
        if text_before(b@, a@) {
            lemma_before_antisymmetric(b@, a@);
        }
    }
    while i < a.len() && i < b.len() && a[i] == b[i]
        invariant
            i <= a@.len(),
            i <= b@.len(),
            a@.take(i as int) == b@.take(i as int),
            text_before(a@.skip(i as int), b@.skip(i as int)) == text_before(a@, b@),
            text_before(b@.skip(i as int), a@.skip(i as int)) == text_before(b@, a@),
        decreases a@.len() - i,
    {
        assert(a@.skip(i as int).skip(1) == a@.skip(i + 1));
        assert(b@.skip(i as int).skip(1) == b@.skip(i + 1));
        assert(a@.take(i + 1) == a@.take(i as int).push(a@[i as int]));
        assert(b@.take(i + 1) == b@.take(i as int).push(b@[i as int]));
        i = i + 1;
    }
    if i < a.len() {
        if i < b.len() {
            if a[i] < b[i] {
                Rank::Before
            } else {
                Rank::After
            }
        } else {
            Rank::After
        }
    } else if i < b.len() {
        Rank::Before
    } else {
        assert(a@.take(i as int) == a@);
        assert(b@.take(i as int) == b@);
        Rank::Same
    }
}

/// Ranks two strings by dictionary order.
pub fn rank_text(a: &str, b: &str) -> (r: Rank)
    ensures
        (r == Rank::Before) == text_before(a@, b@),
        (r == Rank::Same) == (a@ == b@),
        (r == Rank::After) == text_before(b@, a@),
{
    rank_chars(
        crate::text::chars::to_chars(a).as_slice(),
        crate::text::chars::to_chars(b).as_slice(),
    )
}

} // verus!
