//! Searching a text for characters and for shorter texts, and measuring it.

use vstd::prelude::*;

verus! {

broadcast use {vstd::seq::group_seq_axioms, vstd::slice::group_slice_axioms};

/// `p` stands in `s` at position `i`.
pub open spec fn occurs_at(p: Seq<char>, s: Seq<char>, i: int) -> bool {
    &&& 0 <= i
    &&& i + p.len() <= s.len()
    &&& s.subrange(i, i + p.len()) == p
}

/// `p` stands somewhere in `s`.
pub open spec fn occurs(p: Seq<char>, s: Seq<char>) -> bool {
    exists|i: int| occurs_at(p, s, i)
}

/// `i` is the position of the first `c` in `s` at or after `from`.
pub open spec fn first_at(s: Seq<char>, from: int, c: char, i: int) -> bool {
    &&& from <= i < s.len()
    &&& s[i] == c
    &&& forall|j: int| from <= j < i ==> s[j] != c
}

/// The position of the first `c` in `s` at or after `from`, if there is one.
pub open spec fn first_of(s: Seq<char>, from: int, c: char) -> Option<int>
    decreases s.len() - from,
{
    if from < 0 || from >= s.len() {
        None
    } else if s[from] == c {
        Some(from)
    } else {
        first_of(s, from + 1, c)
    }
}

/// The position of the last occurrence of `p` in `s` that starts at or before
/// `upto`, if there is one.
pub open spec fn last_of(s: Seq<char>, p: Seq<char>, upto: int) -> Option<int>
    decreases upto + 1,
{
    if upto < 0 {
        None
    } else if occurs_at(p, s, upto) {
        Some(upto)
    } else {
        last_of(s, p, upto - 1)
    }
}

/// How often `c` occurs in `s`.
pub open spec fn count_of(s: Seq<char>, c: char) -> nat
    decreases s.len(),
{
    if s.len() == 0 {
        0
    } else {
        count_of(s.drop_last(), c) + if s.last() == c {
            1nat
        } else {
            0nat
        }
    }
}

/// The number of bytes of a character in UTF-8.
pub open spec fn char_bytes(c: char) -> nat {
    let n = c as u32;
    if n < 0x80 {
        1
    } else if n < 0x800 {
        2
    } else if n < 0x10000 {
        3
    } else {
        4
    }
}

/// The number of bytes of a text in UTF-8.
pub open spec fn byte_len(s: Seq<char>) -> nat
    decreases s.len(),
{
    if s.len() == 0 {
        0
    } else {
        byte_len(s.drop_last()) + char_bytes(s.last())
    }
}

/// What `first_of` finds is the first place.
pub proof fn lemma_first_of(s: Seq<char>, from: int, c: char)
    requires
        0 <= from,
    ensures
        match first_of(s, from, c) {
            Some(i) => first_at(s, from, c, i),
            None => forall|j: int| from <= j < s.len() ==> s[j] != c,
        },
    decreases s.len() - from,
{
    if from < s.len() && s[from] != c {
        lemma_first_of(s, from + 1, c);
    }
}

/// What `last_of` finds is an occurrence, and no later one starts by `upto`.
pub proof fn lemma_last_of(s: Seq<char>, p: Seq<char>, upto: int)
    ensures
        match last_of(s, p, upto) {
            Some(i) => 0 <= i <= upto && occurs_at(p, s, i) && forall|j: int|
                i < j <= upto ==> !occurs_at(p, s, j),
            None => forall|j: int| j <= upto ==> !occurs_at(p, s, j),
        },
    decreases upto + 1,
{
    if upto >= 0 && !occurs_at(p, s, upto) {
        lemma_last_of(s, p, upto - 1);
    }
}

/// Whether `p` stands in `s` at position `i`.
pub fn found_at(p: &[char], s: &[char], i: usize) -> (r: bool)
    ensures
        r == occurs_at(p@, s@, i as int),
{
    if i > s.len() || p.len() > s.len() - i {
        return false;
    }
    let mut j: usize = 0;
    while j < p.len()
        invariant
            j <= p@.len(),
            i + p@.len() <= s.len(),
            forall|k: int| 0 <= k < j ==> s@[i + k] == #[trigger] p@[k],
        decreases p@.len() - j,
    {
        if s[i + j] != p[j] {
            assert(s@.subrange(i as int, i + p@.len())[j as int] != p@[j as int]);
            return false;
        }
        j = j + 1;
    }
    assert(s@.subrange(i as int, i + p@.len()) =~= p@);
    true
}

/// Whether `s` begins with `p`.
pub fn starts_with(s: &[char], p: &[char]) -> (r: bool)
    ensures
        r == p@.is_prefix_of(s@),
{
    found_at(p, s, 0)
}

/// Whether `s` ends with `p`.
pub fn ends_with(s: &[char], p: &[char]) -> (r: bool)
    ensures
        r == p@.is_suffix_of(s@),
{
    if p.len() > s.len() {
        return false;
    }
    found_at(p, s, s.len() - p.len())
}

/// Whether `p` stands somewhere in `s`.
pub fn contains(s: &[char], p: &[char]) -> (r: bool)
    ensures
        r == occurs(p@, s@),
{
    if p.len() > s.len() {
        return false;
    }
    let mut i: usize = 0;
    while i <= s.len() - p.len()
        invariant
            p@.len() <= s@.len(),
            i <= s@.len() - p@.len() + 1,
            forall|j: int| 0 <= j < i ==> !occurs_at(p@, s@, j),
        decreases s@.len() + 1 - i,
    {
        if found_at(p, s, i) {
            return true;
        }
        if i == s.len() {
            return false;
        }
        i = i + 1;
    }
    false
}

/// The position of the first `c` at or after `from`.
pub fn find_from(s: &[char], from: usize, c: char) -> (r: Option<usize>)
    ensures
        match r {
            Some(i) => i < s@.len() && first_of(s@, from as int, c) == Some(i as int),
            None => first_of(s@, from as int, c) is None,
        },
{
    let mut i: usize = from;
    while i < s.len()
        invariant
            from <= i,
            first_of(s@, from as int, c) == first_of(s@, i as int, c),
        decreases s@.len() - i,
    {
        if s[i] == c {
            return Some(i);
        }
        i = i + 1;
    }
    None
}

/// Whether `c` occurs in `s`.
pub fn has_char(s: &[char], c: char) -> (r: bool)
    ensures
        r == s@.contains(c),
{
    proof {
        lemma_first_of(s@, 0, c);
    }
    match find_from(s, 0, c) {
        Some(i) => {
            assert(s@[i as int] == c);
            true
        },
        None => false,
    }
}

/// The position of the last occurrence of `p` in `s`.
pub fn find_last(s: &[char], p: &[char]) -> (r: Option<usize>)
    ensures
        match r {
            Some(i) => i + p@.len() <= s@.len() && last_of(s@, p@, s@.len() as int) == Some(i as int),
            None => last_of(s@, p@, s@.len() as int) is None,
        },
{
    let mut i: usize = s.len();
    loop
        invariant
            i <= s@.len(),
            last_of(s@, p@, s@.len() as int) == last_of(s@, p@, i as int),
        decreases i,
    {
        if found_at(p, s, i) {
            return Some(i);
        }
        if i == 0 {
            assert(last_of(s@, p@, -1) is None);
            return None;
        }
        i = i - 1;
    }
}

/// How often `c` occurs in `s`.
pub fn count(s: &[char], c: char) -> (r: usize)
    ensures
        r == count_of(s@, c),
        r <= s@.len(),
{
    let mut n: usize = 0;
    let mut i: usize = 0;
    while i < s.len()
        invariant
            n <= i <= s@.len(),
            n == count_of(s@.take(i as int), c),
        decreases s@.len() - i,
    {
        assert(s@.take(i + 1).drop_last() == s@.take(i as int));
        if s[i] == c {
            n = n + 1;
        }
        i = i + 1;
    }
    assert(s@.take(i as int) == s@);
    n
}

/// The number of bytes of `s` in UTF-8.
pub fn bytes_of(s: &[char]) -> (r: u128)
    ensures
        r == byte_len(s@),
{
    let mut n: u128 = 0;
    let mut i: usize = 0;
    while i < s.len()
        invariant
            i <= s@.len(),
            n <= 4 * i,
            n == byte_len(s@.take(i as int)),
        decreases s@.len() - i,
    {
        assert(s@.take(i + 1).drop_last() == s@.take(i as int));
        let c: u32 = s[i] as u32;
        let w: u128 = if c < 0x80 {
            1
        } else if c < 0x800 {
            2
        } else if c < 0x10000 {
            3
        } else {
            4
        };
        n = n + w;
        i = i + 1;
    }
    assert(s@.take(i as int) == s@);
    n
}

} // verus!
