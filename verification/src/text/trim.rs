//! Cutting characters off the ends of a text.

use vstd::prelude::*;

use crate::text::chars::CharClass;

verus! {

broadcast use {vstd::seq::group_seq_axioms, vstd::slice::group_slice_axioms};

/// `s` without its leading characters of class `k`.
pub open spec fn trimmed_start(s: Seq<char>, k: CharClass) -> Seq<char>
    decreases s.len(),
{
    if s.len() > 0 && k.has(s[0]) {
        trimmed_start(s.skip(1), k)
    } else {
        s
    }
}

/// `s` without its trailing characters of class `k`.
pub open spec fn trimmed_end(s: Seq<char>, k: CharClass) -> Seq<char>
    decreases s.len(),
{
    if s.len() > 0 && k.has(s.last()) {
        trimmed_end(s.drop_last(), k)
    } else {
        s
    }
}

/// `s` without the characters of class `k` at either end.
pub open spec fn trimmed_of(s: Seq<char>, k: CharClass) -> Seq<char> {
    trimmed_end(trimmed_start(s, k), k)
}

/// `s` without white space at either end.
pub open spec fn trimmed(s: Seq<char>) -> Seq<char> {
    trimmed_of(s, CharClass::White)
}

/// Nothing but white space.
pub open spec fn blank(s: Seq<char>) -> bool {
    forall|i: int| 0 <= i < s.len() ==> CharClass::White.has(#[trigger] s[i])
}

/// Drops the leading characters of class `k`.
pub fn trim_start_of<'a>(s: &'a [char], k: CharClass) -> (r: &'a [char])
    ensures
        r@ == trimmed_start(s@, k),
{
    let mut i: usize = 0;
    assert(s@.skip(0) == s@);
    while i < s.len() && k.holds(s[i])
        invariant
            i <= s@.len(),
            trimmed_start(s@.skip(i as int), k) == trimmed_start(s@, k),
        decreases s@.len() - i,
    {
        assert(s@.skip(i as int).skip(1) == s@.skip(i + 1));
        i = i + 1;
    }
    let r = vstd::slice::slice_subrange(s, i, s.len());
    assert(r@ == s@.skip(i as int));
    r
}

/// Drops the trailing characters of class `k`.
pub fn trim_end_of<'a>(s: &'a [char], k: CharClass) -> (r: &'a [char])
    ensures
        r@ == trimmed_end(s@, k),
{
    let mut i: usize = s.len();
    assert(s@.take(i as int) == s@);
    while i > 0 && k.holds(s[i - 1])
        invariant
            i <= s@.len(),
            trimmed_end(s@.take(i as int), k) == trimmed_end(s@, k),
        decreases i,
    {
        assert(s@.take(i as int).drop_last() == s@.take(i - 1));
        i = i - 1;
    }
    let r = vstd::slice::slice_subrange(s, 0, i);
    assert(r@ == s@.take(i as int));
    r
}

/// Drops the characters of class `k` at either end.
pub fn trim_of<'a>(s: &'a [char], k: CharClass) -> (r: &'a [char])
    ensures
        r@ == trimmed_of(s@, k),
{
    trim_end_of(trim_start_of(s, k), k)
}

/// Drops the white space at either end.
pub fn trim<'a>(s: &'a [char]) -> (r: &'a [char])
    ensures
        r@ == trimmed(s@),
{
    trim_of(s, CharClass::White)
}

/// Whether `s` holds nothing but white space.
pub fn is_blank(s: &[char]) -> (r: bool)
    ensures
        r == blank(s@),
{
    let mut i: usize = 0;
    while i < s.len()
        invariant
            i <= s@.len(),
            forall|j: int| 0 <= j < i ==> CharClass::White.has(#[trigger] s@[j]),
        decreases s@.len() - i,
    {
        if !CharClass::White.holds(s[i]) {
            assert(!CharClass::White.has(s@[i as int]));
            return false;
        }
        i = i + 1;
    }
    true
}

/// Trimming at the start keeps a tail of the text.
pub proof fn lemma_trimmed_start(s: Seq<char>, k: CharClass)
    ensures
        trimmed_start(s, k).len() <= s.len(),
        trimmed_start(s, k) == s.skip(s.len() - trimmed_start(s, k).len()),
        trimmed_start(s, k).len() > 0 ==> !k.has(trimmed_start(s, k)[0]),
        forall|i: int| 0 <= i < s.len() - trimmed_start(s, k).len() ==> k.has(#[trigger] s[i]),
    decreases s.len(),
{
    if s.len() > 0 && k.has(s[0]) {
        let t = s.skip(1);
        lemma_trimmed_start(t, k);
        let n = trimmed_start(s, k).len();
        assert(t.skip(t.len() - n) == s.skip(s.len() - n));
        assert forall|i: int| 0 <= i < s.len() - n implies k.has(#[trigger] s[i]) by {
            if i > 0 {
                assert(t[i - 1] == s[i]);
            }
        }
    } else {
        assert(s.skip(0) == s);
    }
}

/// Trimming at the end keeps a head of the text.
pub proof fn lemma_trimmed_end(s: Seq<char>, k: CharClass)
    ensures
        trimmed_end(s, k).len() <= s.len(),
        trimmed_end(s, k) == s.take(trimmed_end(s, k).len() as int),
        trimmed_end(s, k).len() > 0 ==> !k.has(trimmed_end(s, k).last()),
        forall|i: int| trimmed_end(s, k).len() <= i < s.len() ==> k.has(#[trigger] s[i]),
    decreases s.len(),
{
    if s.len() > 0 && k.has(s.last()) {
        let t = s.drop_last();
        lemma_trimmed_end(t, k);
        let n = trimmed_end(s, k).len() as int;
        assert(t.take(n) == s.take(n));
        assert forall|i: int| n <= i < s.len() implies k.has(#[trigger] s[i]) by {
            if i < t.len() {
                assert(t[i] == s[i]);
            }
        }
    } else {
        assert(s.take(s.len() as int) == s);
    }
}

/// A text is blank exactly when trimming leaves nothing of it.
pub proof fn law_blank_trims_to_nothing(s: Seq<char>)
    ensures
        blank(s) == (trimmed(s).len() == 0),
{
    let k = CharClass::White;
    let t = trimmed_start(s, k);
    lemma_trimmed_start(s, k);
    lemma_trimmed_end(t, k);
    if blank(s) {
        if t.len() > 0 {
            assert(t[0] == s[s.len() - t.len()]);
        }
    }
    if trimmed(s).len() == 0 {
        if t.len() > 0 {
            assert(k.has(t[0]));
        }
    }
}

proof fn lemma_trim_blank_start(a: Seq<char>, s: Seq<char>)
    requires
        blank(a),
    ensures
        trimmed_start(a + s, CharClass::White) == trimmed_start(s, CharClass::White),
    decreases a.len(),
{
    if a.len() == 0 {
        assert(a + s == s);
    } else {
        assert((a + s)[0] == a[0]);
        assert((a + s).skip(1) == a.skip(1) + s);
        assert(blank(a.skip(1))) by {
            assert forall|i: int| 0 <= i < a.skip(1).len() implies CharClass::White.has(
                #[trigger] a.skip(1)[i],
            ) by {
                assert(a.skip(1)[i] == a[i + 1]);
            }
        }
        lemma_trim_blank_start(a.skip(1), s);
    }
}

proof fn lemma_trim_blank_end(s: Seq<char>, b: Seq<char>)
    requires
        blank(b),
    ensures
        trimmed_end(s + b, CharClass::White) == trimmed_end(s, CharClass::White),
    decreases b.len(),
{
    if b.len() == 0 {
        assert(s + b == s);
    } else {
        assert((s + b).last() == b.last());
        assert(b.last() == b[b.len() - 1]);
        assert((s + b).drop_last() == s + b.drop_last());
        assert(blank(b.drop_last())) by {
            assert forall|i: int| 0 <= i < b.drop_last().len() implies CharClass::White.has(
                #[trigger] b.drop_last()[i],
            ) by {
                assert(b.drop_last()[i] == b[i]);
            }
        }
        lemma_trim_blank_end(s, b.drop_last());
    }
}

/// Blanks around a text make no difference to what trimming leaves of it.
pub proof fn law_blanks_around_are_trimmed(a: Seq<char>, s: Seq<char>, b: Seq<char>)
    requires
        blank(a),
        blank(b),
    ensures
        trimmed(a + s + b) == trimmed(s),
{
    let k = CharClass::White;
    let t = trimmed_start(s, k);
    assert(a + s + b == a + (s + b));
    lemma_trim_blank_start(a, s + b);
    lemma_trimmed_start(s, k);
    let h = s.take(s.len() - t.len());
    assert(blank(h)) by {
        assert forall|i: int| 0 <= i < h.len() implies k.has(#[trigger] h[i]) by {
            assert(h[i] == s[i]);
        }
    }
    assert(s + b == h + (t + b));
    lemma_trim_blank_start(h, t + b);
    if t.len() > 0 {
        assert((t + b)[0] == t[0]);
        assert(trimmed_start(t + b, k) == t + b);
        lemma_trim_blank_end(t, b);
    } else {
        assert(t + b == b);
        lemma_trim_blank_start(b, t);
        assert(b + t == b);
    }
}

} // verus!
