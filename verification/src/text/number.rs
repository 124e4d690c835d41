//! Numbers in decimal notation.

use vstd::prelude::*;

use crate::text::chars::digit;
use crate::text::chars;

verus! {

broadcast use {vstd::seq::group_seq_axioms, vstd::slice::group_slice_axioms};

/// The value of an ASCII digit.
pub open spec fn digit_value(c: char) -> int {
    c as u32 - '0' as u32
}

/// Nothing but ASCII digits.
pub open spec fn all_digits(s: Seq<char>) -> bool {
    forall|i: int| 0 <= i < s.len() ==> chars::is_digit(#[trigger] s[i])
}

/// The number that a text of digits writes.
pub open spec fn decimal_value(s: Seq<char>) -> int
    decreases s.len(),
{
    if s.len() == 0 {
        0
    } else {
        decimal_value(s.drop_last()) * 10 + digit_value(s.last())
    }
}

/// The number that `s` writes: a sign or none, then one or more digits, within
/// the given bounds.
pub open spec fn parsed(s: Seq<char>, minus: bool, min: int, max: int) -> Option<int> {
    let signed = s.len() > 0 && (s[0] == '+' || (minus && s[0] == '-'));
    let body = if signed {
        s.skip(1)
    } else {
        s
    };
    let v = if signed && s[0] == '-' {
        -decimal_value(body)
    } else {
        decimal_value(body)
    };
    if body.len() > 0 && all_digits(body) && min <= v <= max {
        Some(v)
    } else {
        None
    }
}

/// The `i64` that `s` writes.
pub open spec fn parsed_i64(s: Seq<char>) -> Option<int> {
    parsed(s, true, i64::MIN as int, i64::MAX as int)
}

/// The `u64` that `s` writes.
pub open spec fn parsed_u64(s: Seq<char>) -> Option<int> {
    parsed(s, false, 0, u64::MAX as int)
}

/// The `u32` that `s` writes.
pub open spec fn parsed_u32(s: Seq<char>) -> Option<int> {
    parsed(s, false, 0, u32::MAX as int)
}

/// The digit of a number below ten.
pub open spec fn digit_char(n: nat) -> char {
    ('0' as u32 + n) as char
}

/// The decimal notation of `n`.
pub open spec fn decimal(n: nat) -> Seq<char>
    decreases n,
{
    if n < 10 {
        seq![digit_char(n)]
    } else {
        decimal(n / 10).push(digit_char(n % 10))
    }
}

/// More digits never make the number smaller.
pub proof fn lemma_decimal_value_grows(s: Seq<char>, n: int)
    requires
        all_digits(s),
        0 <= n <= s.len(),
    ensures
        0 <= decimal_value(s.take(n)) <= decimal_value(s),
    decreases s.len(),
{
    if n == s.len() {
        assert(s.take(n) == s);
        if s.len() > 0 {
            let t = s.drop_last();
            assert(all_digits(t)) by {
                assert forall|i: int| 0 <= i < t.len() implies chars::is_digit(#[trigger] t[i]) by {
                    assert(t[i] == s[i]);
                }
            }
            lemma_decimal_value_grows(t, t.len() as int);
            assert(t.take(t.len() as int) == t);
            assert(chars::is_digit(s[s.len() - 1]));
        }
    } else {
        let t = s.drop_last();
        assert(all_digits(t)) by {
            assert forall|i: int| 0 <= i < t.len() implies chars::is_digit(#[trigger] t[i]) by {
                assert(t[i] == s[i]);
            }
        }
        lemma_decimal_value_grows(t, n);
        assert(t.take(n) == s.take(n));
        assert(chars::is_digit(s[s.len() - 1]));
    }
}

/// Reading the decimal notation of a number gives the number.
pub proof fn lemma_decimal_roundtrip(n: nat)
    ensures
        decimal(n).len() > 0,
        all_digits(decimal(n)),
        decimal_value(decimal(n)) == n,
    decreases n,
{
    if n < 10 {
        let d = decimal(n);
        assert(d.drop_last() == Seq::<char>::empty());
        assert(decimal_value(d.drop_last()) == 0);
        assert(d.last() == digit_char(n));
    } else {
        lemma_decimal_roundtrip(n / 10);
        let h = decimal(n / 10);
        let d = decimal(n);
        assert(d.drop_last() == h);
        assert(d.last() == digit_char(n % 10));
        assert forall|i: int| 0 <= i < d.len() implies chars::is_digit(#[trigger] d[i]) by {
            if i < h.len() {
                assert(d[i] == h[i]);
            }
        }
    }
}

/// The unsigned number that `s` writes, up to `max`.
fn parse_digits(s: &[char], max: u64) -> (r: Option<u64>)
    ensures
        match r {
            Some(v) => s@.len() > 0 && all_digits(s@) && decimal_value(s@) == v && v <= max,
            None => !(s@.len() > 0 && all_digits(s@) && decimal_value(s@) <= max),
        },
{
    if s.len() == 0 {
        return None;
    }
    let mut v: u64 = 0;
    let mut i: usize = 0;
    while i < s.len()
        invariant
            i <= s@.len(),
            v <= max,
            forall|j: int| 0 <= j < i ==> chars::is_digit(#[trigger] s@[j]),
            v == decimal_value(s@.take(i as int)),
        decreases s@.len() - i,
    {
        let c = s[i];
        if !digit(c) {
            assert(!chars::is_digit(s@[i as int]));
            return None;
        }
        let d: u64 = (c as u32 - '0' as u32) as u64;
        assert(s@.take(i + 1).drop_last() == s@.take(i as int));
        let wide: u128 = v as u128 * 10 + d as u128;
        if wide > max as u128 {
            proof {
                if all_digits(s@) {
                    lemma_decimal_value_grows(s@, i + 1);
                }
            }
            return None;
        }
        v = wide as u64;
        i = i + 1;
    }
    assert(s@.take(i as int) == s@);
    Some(v)
}

/// Reads an `i64`.
pub fn parse_i64(s: &[char]) -> (r: Option<i64>)
    ensures
        match r {
            Some(v) => parsed_i64(s@) == Some(v as int),
            None => parsed_i64(s@) is None,
        },
{
    if s.len() > 0 && (s[0] == '+' || s[0] == '-') {
        let body = vstd::slice::slice_subrange(s, 1, s.len());
        assert(body@ == s@.skip(1));
        proof {
            if all_digits(body@) {
                lemma_decimal_value_grows(body@, 0);
            }
        }
        if s[0] == '-' {
            match parse_digits(body, 0x8000_0000_0000_0000) {
                Some(v) => Some((0 - v as i128) as i64),
                None => None,
            }
        } else {
            match parse_digits(body, 0x7fff_ffff_ffff_ffff) {
                Some(v) => Some(v as i64),
                None => None,
            }
        }
    } else {
        proof {
            if all_digits(s@) {
                lemma_decimal_value_grows(s@, 0);
            }
        }
        match parse_digits(s, 0x7fff_ffff_ffff_ffff) {
            Some(v) => Some(v as i64),
            None => None,
        }
    }
}

fn parse_unsigned(s: &[char], max: u64) -> (r: Option<u64>)
    ensures
        match r {
            Some(v) => parsed(s@, false, 0, max as int) == Some(v as int) && v <= max,
            None => parsed(s@, false, 0, max as int) is None,
        },
{
    if s.len() > 0 && s[0] == '+' {
        let body = vstd::slice::slice_subrange(s, 1, s.len());
        assert(body@ == s@.skip(1));
        proof {
            if all_digits(body@) {
                lemma_decimal_value_grows(body@, 0);
            }
        }
        parse_digits(body, max)
    } else {
        proof {
            if all_digits(s@) {
                lemma_decimal_value_grows(s@, 0);
            }
        }
        parse_digits(s, max)
    }
}

/// Reads a `u64`.
pub fn parse_u64(s: &[char]) -> (r: Option<u64>)
    ensures
        match r {
            Some(v) => parsed_u64(s@) == Some(v as int),
            None => parsed_u64(s@) is None,
        },
{
    parse_unsigned(s, u64::MAX)
}

/// Reads a `u32`.
pub fn parse_u32(s: &[char]) -> (r: Option<u32>)
    ensures
        match r {
            Some(v) => parsed_u32(s@) == Some(v as int),
            None => parsed_u32(s@) is None,
        },
{
    match parse_unsigned(s, u32::MAX as u64) {
        Some(v) => Some(v as u32),
        None => None,
    }
}

/// Writes `n` in decimal notation.
pub fn write_decimal(n: u64) -> (r: String)
    ensures
        r@ == decimal(n as nat),
    decreases n,
{
    let d: u8 = (n % 10) as u8;
    let c: char = (48u8 + d) as char;
    assert(c == digit_char(n as nat % 10));
    let mut out = if n < 10 {
        String::new()
    } else {
        write_decimal(n / 10)
    };
    out.push(c);
    assert(n < 10 ==> out@ =~= decimal(n as nat));
    out
}

} // verus!
