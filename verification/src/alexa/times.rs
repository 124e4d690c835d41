//! What holds of the times that can be said.

use vstd::prelude::*;

use crate::alexa::intent;
use crate::text::chars::CharClass;
use crate::text::chars;
use crate::text::find;
use crate::text::number;
use crate::text::split;
use crate::text::trim;

verus! {

broadcast use {vstd::seq::group_seq_axioms, vstd::slice::group_slice_axioms};

/// A number within the bounds is read back from its digits.
proof fn lemma_decimal_parsed(n: int)
    requires
        0 <= n <= i64::MAX,
    ensures
        number::parsed_i64(number::decimal(n as nat)) == Some(n),
        number::all_digits(number::decimal(n as nat)),
        number::decimal(n as nat).len() > 0,
{
    number::lemma_decimal_roundtrip(n as nat);
    assert(chars::is_digit(number::decimal(n as nat)[0]));
}

/// A text without white space at its ends is left alone by trimming.
proof fn lemma_trim_keeps(s: Seq<char>)
    requires
        s.len() > 0,
        !CharClass::White.has(s[0]),
        !CharClass::White.has(s.last()),
    ensures
        trim::trimmed(s) == s,
{
}

proof fn lemma_no_prefix(s: Seq<char>)
    requires
        s.len() > 0,
        chars::is_digit(s[0]),
    ensures
        !"PT"@.is_prefix_of(s),
{
    reveal_strlit("PT");
    if "PT"@.is_prefix_of(s) {
        assert("PT"@[0] == s.subrange(0, "PT"@.len() as int)[0]);
    }
}

/// Digits up to the first separator are the first part.
proof fn lemma_split_first(d: Seq<char>, rest: Seq<char>)
    requires
        number::all_digits(d),
    ensures
        split::split_parts(d + seq![':'] + rest, ':') == seq![d] + split::split_parts(rest, ':'),
{
    let s = d + seq![':'] + rest;
    find::lemma_first_of(s, 0, ':');
    assert(s[d.len() as int] == ':');
    assert forall|j: int| 0 <= j < d.len() implies s[j] != ':' by {
        assert(chars::is_digit(d[j]));
    }
    assert(find::first_of(s, 0, ':') == Some(d.len() as int));
    assert(s.take(d.len() as int) =~= d);
    assert(s.skip(d.len() as int + 1) =~= rest);
}

/// Digits alone are one part.
proof fn lemma_split_last(d: Seq<char>)
    requires
        number::all_digits(d),
    ensures
        split::split_parts(d, ':') == seq![d],
{
    find::lemma_first_of(d, 0, ':');
}

proof fn lemma_readable_one(a: Seq<char>, x: int)
    requires
        number::parsed_i64(a) == Some(x),
    ensures
        intent::readable(seq![a]) == seq![x],
{
    let none = Seq::<Seq<char>>::empty();
    assert(seq![a].drop_last() =~= none);
    assert(intent::readable(none) =~= seq![]);
    assert(intent::readable(seq![a]) =~= seq![x]);
}

/// "MM:SS" is minutes and seconds.
pub proof fn law_minutes_and_seconds(m: int, s: int)
    requires
        0 <= m <= i64::MAX,
        0 <= s <= i64::MAX,
    ensures
        intent::time_millis(number::decimal(m as nat) + seq![':'] + number::decimal(s as nat)) == Some(
            m * 60_000 + s * 1000,
        ),
{
    let (a, b) = (number::decimal(m as nat), number::decimal(s as nat));
    let v = a + seq![':'] + b;
    lemma_decimal_parsed(m);
    lemma_decimal_parsed(s);
    assert(v[0] == a[0] && chars::is_digit(a[0]));
    assert(v.last() == b.last() && chars::is_digit(b[b.len() - 1]));
    lemma_trim_keeps(v);
    lemma_no_prefix(v);
    assert(v[a.len() as int] == ':');
    lemma_split_first(a, b);
    lemma_split_last(b);
    let parts = split::split_parts(v, ':');
    assert(parts =~= seq![a, b]);
    lemma_readable_one(a, m);
    assert(parts.drop_last() =~= seq![a]);
    assert(intent::readable(parts) =~= seq![m, s]);
}

/// "H:MM:SS" is hours, minutes and seconds.
pub proof fn law_hours_minutes_and_seconds(h: int, m: int, s: int)
    requires
        0 <= h <= i64::MAX,
        0 <= m <= i64::MAX,
        0 <= s <= i64::MAX,
    ensures
        intent::time_millis(
            number::decimal(h as nat) + seq![':'] + (number::decimal(m as nat) + seq![':'] + number::decimal(s as nat)),
        ) == Some(h * 3_600_000 + m * 60_000 + s * 1000),
{
    let (a, b, c) = (number::decimal(h as nat), number::decimal(m as nat), number::decimal(s as nat));
    let rest = b + seq![':'] + c;
    let v = a + seq![':'] + rest;
    lemma_decimal_parsed(h);
    lemma_decimal_parsed(m);
    lemma_decimal_parsed(s);
    assert(v[0] == a[0] && chars::is_digit(a[0]));
    assert(v.last() == c.last() && chars::is_digit(c[c.len() - 1]));
    lemma_trim_keeps(v);
    lemma_no_prefix(v);
    assert(v[a.len() as int] == ':');
    lemma_split_first(a, rest);
    lemma_split_first(b, c);
    lemma_split_last(c);
    let parts = split::split_parts(v, ':');
    assert(parts =~= seq![a, b, c]);
    lemma_readable_one(a, h);
    let two = parts.drop_last();
    assert(two =~= seq![a, b]);
    assert(two.drop_last() =~= seq![a]);
    assert(intent::readable(two) =~= seq![h, m]);
    assert(intent::readable(parts) =~= seq![h, m, s]);
}

/// A bare number is minutes.
pub proof fn law_bare_minutes(m: int)
    requires
        0 <= m <= i64::MAX,
    ensures
        intent::time_millis(number::decimal(m as nat)) == Some(m * 60_000),
{
    let v = number::decimal(m as nat);
    lemma_decimal_parsed(m);
    assert(chars::is_digit(v[0]));
    assert(chars::is_digit(v[v.len() - 1]));
    lemma_trim_keeps(v);
    lemma_no_prefix(v);
    assert forall|i: int| 0 <= i < v.len() implies v[i] != ':' by {
        assert(chars::is_digit(v[i]));
    }
}

proof fn lemma_iso_digits(d: Seq<char>, t: Seq<char>, num: Seq<char>, secs: int)
    requires
        number::all_digits(d),
    ensures
        intent::iso_seconds(d + t, num, secs) == intent::iso_seconds(t, num + d, secs),
    decreases d.len(),
{
    if d.len() == 0 {
        assert(d + t =~= t);
        assert(num + d =~= num);
    } else {
        let e = d.skip(1);
        assert((d + t)[0] == d[0] && chars::is_digit(d[0]));
        assert((d + t).skip(1) =~= e + t);
        assert forall|i: int| 0 <= i < e.len() implies chars::is_digit(#[trigger] e[i]) by {
            assert(e[i] == d[i + 1]);
        }
        lemma_iso_digits(e, t, num.push(d[0]), secs);
        assert(num.push(d[0]) + e =~= num + d);
    }
}

/// One part of an ISO-8601 time adds its seconds.
proof fn lemma_iso_part(n: int, unit: char, t: Seq<char>, secs: int)
    requires
        0 <= n <= i64::MAX,
        unit == 'H' || unit == 'M' || unit == 'S',
    ensures
        intent::iso_seconds(number::decimal(n as nat) + (seq![unit] + t), seq![], secs)
            == intent::iso_seconds(t, seq![], secs + n * intent::unit_seconds(unit)->0),
{
    let d = number::decimal(n as nat);
    lemma_decimal_parsed(n);
    lemma_iso_digits(d, seq![unit] + t, seq![], secs);
    assert(Seq::<char>::empty() + d =~= d);
    assert((seq![unit] + t)[0] == unit);
    assert((seq![unit] + t).skip(1) =~= t);
}

/// "PTnHnMnS" is hours, minutes and seconds, unless all are nothing.
pub proof fn law_iso_time(h: int, m: int, s: int)
    requires
        0 <= h <= i64::MAX,
        0 <= m <= i64::MAX,
        0 <= s <= i64::MAX,
        h + m + s > 0,
    ensures
        intent::time_millis(
            "PT"@ + (number::decimal(h as nat) + (seq!['H'] + (number::decimal(m as nat) + (seq!['M'] + (
            number::decimal(s as nat) + (seq!['S'] + seq![])))))),
        ) == Some((h * 3600 + m * 60 + s) * 1000),
{
    reveal_strlit("PT");
    let none = Seq::<char>::empty();
    let last = number::decimal(s as nat) + (seq!['S'] + none);
    let mid = number::decimal(m as nat) + (seq!['M'] + last);
    let all = number::decimal(h as nat) + (seq!['H'] + mid);
    let v = "PT"@ + all;
    assert(v[0] == 'P');
    assert(v.last() == 'S');
    lemma_trim_keeps(v);
    assert("PT"@ =~= v.subrange(0, 2));
    assert(v.skip(2) =~= all);
    lemma_iso_part(h, 'H', mid, 0);
    lemma_iso_part(m, 'M', last, h * 3600);
    lemma_iso_part(s, 'S', none, h * 3600 + m * 60);
    assert(intent::iso_seconds(none, seq![], h * 3600 + m * 60 + s) == Some(h * 3600 + m * 60 + s));
}

proof fn lemma_iso_digits_fit(d: Seq<char>, t: Seq<char>, num: Seq<char>, secs: int)
    requires
        number::all_digits(d),
    ensures
        intent::iso_fits(d + t, num, secs) == intent::iso_fits(t, num + d, secs),
    decreases d.len(),
{
    if d.len() == 0 {
        assert(d + t =~= t);
        assert(num + d =~= num);
    } else {
        let e = d.skip(1);
        assert((d + t)[0] == d[0] && chars::is_digit(d[0]));
        assert((d + t).skip(1) =~= e + t);
        assert forall|i: int| 0 <= i < e.len() implies chars::is_digit(#[trigger] e[i]) by {
            assert(e[i] == d[i + 1]);
        }
        lemma_iso_digits_fit(e, t, num.push(d[0]), secs);
        assert(num.push(d[0]) + e =~= num + d);
    }
}

/// One part of an ISO-8601 time fits where its seconds do.
proof fn lemma_iso_part_fits(n: int, unit: char, t: Seq<char>, secs: int)
    requires
        0 <= n <= i64::MAX,
        unit == 'H' || unit == 'M' || unit == 'S',
        secs + n * intent::unit_seconds(unit)->0 <= i64::MAX,
    ensures
        intent::iso_fits(number::decimal(n as nat) + (seq![unit] + t), seq![], secs)
            == intent::iso_fits(t, seq![], secs + n * intent::unit_seconds(unit)->0),
{
    let d = number::decimal(n as nat);
    lemma_decimal_parsed(n);
    lemma_iso_digits_fit(d, seq![unit] + t, seq![], secs);
    assert(Seq::<char>::empty() + d =~= d);
    assert((seq![unit] + t)[0] == unit);
    assert((seq![unit] + t).skip(1) =~= t);
}

/// A part of an ISO-8601 time and what follows it; the part may be left out.
pub open spec fn iso_part(shown: bool, n: int, unit: char, t: Seq<char>) -> Seq<char> {
    if shown {
        number::decimal(n as nat) + (seq![unit] + t)
    } else {
        t
    }
}

/// The parts of an ISO-8601 time of hours, minutes and seconds, of which some
/// may be left out.
pub open spec fn iso_parts(h: int, m: int, s: int, hs: bool, ms: bool, ss: bool) -> Seq<char> {
    iso_part(hs, h, 'H', iso_part(ms, m, 'M', iso_part(ss, s, 'S', seq![])))
}

proof fn lemma_iso_part_shown(shown: bool, n: int, unit: char, t: Seq<char>, secs: int)
    requires
        0 <= n <= i64::MAX,
        unit == 'H' || unit == 'M' || unit == 'S',
        secs + n * intent::unit_seconds(unit)->0 <= i64::MAX,
        shown || n == 0,
    ensures
        intent::iso_seconds(iso_part(shown, n, unit, t), seq![], secs) == intent::iso_seconds(
            t,
            seq![],
            secs + n * intent::unit_seconds(unit)->0,
        ),
        intent::iso_fits(iso_part(shown, n, unit, t), seq![], secs) == intent::iso_fits(
            t,
            seq![],
            secs + n * intent::unit_seconds(unit)->0,
        ),
{
    if shown {
        lemma_iso_part(n, unit, t, secs);
        lemma_iso_part_fits(n, unit, t, secs);
    } else {
        assert(n * intent::unit_seconds(unit)->0 == 0);
    }
}

proof fn lemma_iso_part_end(shown: bool, n: int, unit: char, t: Seq<char>)
    requires
        unit == 'H' || unit == 'M' || unit == 'S',
        t.len() > 0 ==> !CharClass::White.has(t.last()),
    ensures
        iso_part(shown, n, unit, t).len() > 0 ==> !CharClass::White.has(
            iso_part(shown, n, unit, t).last(),
        ),
{
    if shown {
        let p = iso_part(shown, n, unit, t);
        if t.len() > 0 {
            assert(p.last() == t.last());
        } else {
            assert(p.last() == unit);
        }
    }
}

/// The parts of an ISO-8601 time behind "PT" are its seconds, whichever parts
/// that count for nothing are left out, and the time fits where its milliseconds
/// do.
pub proof fn law_iso_time_without_zero_parts(
    h: int,
    m: int,
    s: int,
    hs: bool,
    ms: bool,
    ss: bool,
)
    requires
        0 <= h,
        0 <= m,
        0 <= s,
        0 < h * 3600 + m * 60 + s,
        (h * 3600 + m * 60 + s) * 1000 <= i64::MAX,
        hs || h == 0,
        ms || m == 0,
        ss || s == 0,
    ensures
        intent::time_millis("PT"@ + iso_parts(h, m, s, hs, ms, ss)) == Some(
            (h * 3600 + m * 60 + s) * 1000,
        ),
        intent::time_fits("PT"@ + iso_parts(h, m, s, hs, ms, ss)),
{
    reveal_strlit("PT");
    let none = Seq::<char>::empty();
    let last = iso_part(ss, s, 'S', none);
    let mid = iso_part(ms, m, 'M', last);
    let all = iso_part(hs, h, 'H', mid);
    let v = "PT"@ + all;
    lemma_iso_part_end(ss, s, 'S', none);
    lemma_iso_part_end(ms, m, 'M', last);
    lemma_iso_part_end(hs, h, 'H', mid);
    assert(v[0] == 'P');
    if all.len() > 0 {
        assert(v.last() == all.last());
    } else {
        assert(v.last() == 'T');
    }
    lemma_trim_keeps(v);
    assert("PT"@ =~= v.subrange(0, 2));
    assert(v.skip(2) =~= all);
    lemma_iso_part_shown(hs, h, 'H', mid, 0);
    lemma_iso_part_shown(ms, m, 'M', last, h * 3600);
    lemma_iso_part_shown(ss, s, 'S', none, h * 3600 + m * 60);
    let secs = h * 3600 + m * 60 + s;
    assert(intent::iso_seconds(none, seq![], secs) == Some(secs));
    assert(intent::iso_fits(none, seq![], secs));
}

/// "MM:SS" fits where its milliseconds do.
pub proof fn law_minutes_and_seconds_fit(m: int, s: int)
    requires
        0 <= m,
        0 <= s,
        (m * 60 + s) * 1000 <= i64::MAX,
    ensures
        intent::time_fits(number::decimal(m as nat) + seq![':'] + number::decimal(s as nat)),
{
    let (a, b) = (number::decimal(m as nat), number::decimal(s as nat));
    let v = a + seq![':'] + b;
    lemma_decimal_parsed(m);
    lemma_decimal_parsed(s);
    assert(v[0] == a[0] && chars::is_digit(a[0]));
    assert(v.last() == b.last() && chars::is_digit(b[b.len() - 1]));
    lemma_trim_keeps(v);
    lemma_no_prefix(v);
    assert(v[a.len() as int] == ':');
    lemma_split_first(a, b);
    lemma_split_last(b);
    let parts = split::split_parts(v, ':');
    assert(parts =~= seq![a, b]);
    lemma_readable_one(a, m);
    assert(parts.drop_last() =~= seq![a]);
    assert(intent::readable(parts) =~= seq![m, s]);
}

/// "H:MM:SS" fits where its milliseconds do.
pub proof fn law_hours_minutes_and_seconds_fit(h: int, m: int, s: int)
    requires
        0 <= h,
        0 <= m,
        0 <= s,
        (h * 3600 + m * 60 + s) * 1000 <= i64::MAX,
    ensures
        intent::time_fits(
            number::decimal(h as nat) + seq![':'] + (number::decimal(m as nat) + seq![':']
                + number::decimal(s as nat)),
        ),
{
    let (a, b, c) = (
        number::decimal(h as nat),
        number::decimal(m as nat),
        number::decimal(s as nat),
    );
    let rest = b + seq![':'] + c;
    let v = a + seq![':'] + rest;
    lemma_decimal_parsed(h);
    lemma_decimal_parsed(m);
    lemma_decimal_parsed(s);
    assert(v[0] == a[0] && chars::is_digit(a[0]));
    assert(v.last() == c.last() && chars::is_digit(c[c.len() - 1]));
    lemma_trim_keeps(v);
    lemma_no_prefix(v);
    assert(v[a.len() as int] == ':');
    lemma_split_first(a, rest);
    lemma_split_first(b, c);
    lemma_split_last(c);
    let parts = split::split_parts(v, ':');
    assert(parts =~= seq![a, b, c]);
    lemma_readable_one(a, h);
    let two = parts.drop_last();
    assert(two =~= seq![a, b]);
    assert(two.drop_last() =~= seq![a]);
    assert(intent::readable(two) =~= seq![h, m]);
    assert(intent::readable(parts) =~= seq![h, m, s]);
}

/// Blanks around a time change nothing.
pub proof fn law_blanks_around_a_time(a: Seq<char>, v: Seq<char>, b: Seq<char>)
    requires
        trim::blank(a),
        trim::blank(b),
    ensures
        intent::time_millis(a + v + b) == intent::time_millis(v),
        intent::time_fits(a + v + b) == intent::time_fits(v),
{
    trim::law_blanks_around_are_trimmed(a, v, b);
}

/// The ways of saying a time agree: the ISO-8601 form, with or without the parts
/// that count for nothing, "H:MM:SS", and "MM:SS" where there are no hours, each
/// with blanks around it, all fit and give the same milliseconds.
pub proof fn law_ways_of_saying_a_time_agree(
    h: int,
    m: int,
    s: int,
    hs: bool,
    ms: bool,
    ss: bool,
    a: Seq<char>,
    b: Seq<char>,
)
    requires
        0 <= h,
        0 <= m,
        0 <= s,
        0 < h * 3600 + m * 60 + s,
        (h * 3600 + m * 60 + s) * 1000 <= i64::MAX,
        hs || h == 0,
        ms || m == 0,
        ss || s == 0,
        trim::blank(a),
        trim::blank(b),
    ensures
        ({
            let millis = Some((h * 3600 + m * 60 + s) * 1000);
            let iso = "PT"@ + iso_parts(h, m, s, hs, ms, ss);
            let short = number::decimal(m as nat) + seq![':'] + number::decimal(s as nat);
            let long = number::decimal(h as nat) + seq![':'] + short;
            &&& intent::time_fits(a + iso + b) && intent::time_millis(a + iso + b) == millis
            &&& intent::time_fits(a + long + b) && intent::time_millis(a + long + b) == millis
            &&& h == 0 ==> intent::time_fits(a + short + b) && intent::time_millis(a + short + b)
                == millis
        }),
{
    let iso = "PT"@ + iso_parts(h, m, s, hs, ms, ss);
    let short = number::decimal(m as nat) + seq![':'] + number::decimal(s as nat);
    let long = number::decimal(h as nat) + seq![':'] + short;
    law_iso_time_without_zero_parts(h, m, s, hs, ms, ss);
    law_blanks_around_a_time(a, iso, b);
    law_hours_minutes_and_seconds(h, m, s);
    law_hours_minutes_and_seconds_fit(h, m, s);
    law_blanks_around_a_time(a, long, b);
    law_minutes_and_seconds(m, s);
    law_minutes_and_seconds_fit(m, s);
    law_blanks_around_a_time(a, short, b);
}

/// A time of nothing is no time to jump to.
pub proof fn law_iso_time_of_nothing()
    ensures
        intent::time_millis(
            "PT"@ + (number::decimal(0) + (seq!['H'] + (number::decimal(0) + (seq!['M'] + (
            number::decimal(0) + (seq!['S'] + seq![])))))),
        ) is None,
{
    reveal_strlit("PT");
    let none = Seq::<char>::empty();
    let last = number::decimal(0) + (seq!['S'] + none);
    let mid = number::decimal(0) + (seq!['M'] + last);
    let all = number::decimal(0) + (seq!['H'] + mid);
    let v = "PT"@ + all;
    assert(v[0] == 'P');
    assert(v.last() == 'S');
    lemma_trim_keeps(v);
    assert("PT"@ =~= v.subrange(0, 2));
    assert(v.skip(2) =~= all);
    lemma_iso_part(0, 'H', mid, 0);
    lemma_iso_part(0, 'M', last, 0);
    lemma_iso_part(0, 'S', none, 0);
    assert(intent::iso_seconds(none, seq![], 0) == Some(0int));
}

/// A negative number of minutes is no time to jump to.
pub proof fn law_negative_minutes(m: int)
    requires
        0 < m <= i64::MAX,
    ensures
        intent::time_millis(seq!['-'] + number::decimal(m as nat)) is None,
{
    let d = number::decimal(m as nat);
    let v = seq!['-'] + d;
    lemma_decimal_parsed(m);
    number::lemma_decimal_roundtrip(m as nat);
    assert(v[0] == '-');
    assert(v.last() == d.last() && chars::is_digit(d[d.len() - 1]));
    lemma_trim_keeps(v);
    reveal_strlit("PT");
    if "PT"@.is_prefix_of(v) {
        assert("PT"@[0] == v.subrange(0, "PT"@.len() as int)[0]);
    }
    assert forall|i: int| 0 <= i < v.len() implies v[i] != ':' by {
        if i > 0 {
            assert(v[i] == d[i - 1]);
            assert(chars::is_digit(d[i - 1]));
        }
    }
    assert(v.skip(1) =~= d);
}

/// Of a clock time the parts that are no numbers count for nothing: a number
/// beside an empty part is minutes, on either side of the colon, and a colon alone
/// is no time.
pub proof fn law_half_a_clock_time(m: int)
    requires
        0 <= m <= i64::MAX,
    ensures
        intent::time_millis(number::decimal(m as nat) + seq![':']) == Some(m * 60_000),
        intent::time_millis(seq![':'] + number::decimal(m as nat)) == Some(m * 60_000),
        intent::time_millis(seq![':']) is None,
{
    let a = number::decimal(m as nat);
    let none = Seq::<char>::empty();
    lemma_decimal_parsed(m);
    assert(chars::is_digit(a[0]) && chars::is_digit(a[a.len() - 1]));
    assert(number::parsed_i64(none) is None);
    assert(number::all_digits(none));
    let v = a + seq![':'];
    assert(v[0] == a[0] && v.last() == ':');
    lemma_trim_keeps(v);
    lemma_no_prefix(v);
    lemma_split_first(a, none);
    lemma_split_last(none);
    assert(a + seq![':'] + none =~= v);
    let p = split::split_parts(v, ':');
    assert(p =~= seq![a, none]);
    assert(p.drop_last() =~= seq![a]);
    lemma_readable_one(a, m);
    assert(v[a.len() as int] == ':');
    assert(intent::readable(p) =~= seq![m]);
    let w = seq![':'] + a;
    assert(w[0] == ':' && w.last() == a.last());
    lemma_trim_keeps(w);
    lemma_colon_is_no_prefix(w);
    lemma_split_first(none, a);
    lemma_split_last(a);
    assert(none + seq![':'] + a =~= w);
    let q = split::split_parts(w, ':');
    assert(q =~= seq![none, a]);
    lemma_readable_none(seq![none]);
    assert(q.drop_last() =~= seq![none]);
    assert(intent::readable(q) =~= seq![m]);
    let u = seq![':'];
    assert(u[0] == ':' && u.last() == ':');
    lemma_trim_keeps(u);
    lemma_colon_is_no_prefix(u);
    lemma_split_first(none, none);
    assert(none + seq![':'] + none =~= u);
    let r = split::split_parts(u, ':');
    assert(r =~= seq![none, none]);
    assert(r.drop_last() =~= seq![none]);
    assert(intent::readable(r) =~= seq![]);
}

proof fn lemma_colon_is_no_prefix(s: Seq<char>)
    requires
        s.len() > 0,
        s[0] == ':',
    ensures
        !"PT"@.is_prefix_of(s),
{
    reveal_strlit("PT");
    if "PT"@.is_prefix_of(s) {
        assert("PT"@[0] == s.subrange(0, "PT"@.len() as int)[0]);
    }
}

proof fn lemma_readable_none(parts: Seq<Seq<char>>)
    requires
        parts == seq![Seq::<char>::empty()],
    ensures
        intent::readable(parts) == Seq::<int>::empty(),
{
    assert(parts.drop_last() =~= Seq::<Seq<char>>::empty());
    assert(intent::readable(Seq::<Seq<char>>::empty()) =~= seq![]);
    assert(number::parsed_i64(Seq::<char>::empty()) is None);
}

/// More than hours, minutes and seconds is no time.
pub proof fn law_clock_of_four_is_no_time(a: int, b: int, c: int, d: int)
    requires
        0 <= a <= i64::MAX,
        0 <= b <= i64::MAX,
        0 <= c <= i64::MAX,
        0 <= d <= i64::MAX,
    ensures
        intent::time_millis(
            number::decimal(a as nat) + seq![':'] + (number::decimal(b as nat) + seq![':'] + (
            number::decimal(c as nat) + seq![':'] + number::decimal(d as nat))),
        ) is None,
{
    let (w, x, y, z) = (
        number::decimal(a as nat),
        number::decimal(b as nat),
        number::decimal(c as nat),
        number::decimal(d as nat),
    );
    let two = y + seq![':'] + z;
    let three = x + seq![':'] + two;
    let v = w + seq![':'] + three;
    lemma_decimal_parsed(a);
    lemma_decimal_parsed(b);
    lemma_decimal_parsed(c);
    lemma_decimal_parsed(d);
    assert(v[0] == w[0] && chars::is_digit(w[0]));
    assert(v.last() == z.last() && chars::is_digit(z[z.len() - 1]));
    lemma_trim_keeps(v);
    lemma_no_prefix(v);
    assert(v[w.len() as int] == ':');
    lemma_split_first(w, three);
    lemma_split_first(x, two);
    lemma_split_first(y, z);
    lemma_split_last(z);
    let parts = split::split_parts(v, ':');
    assert(parts =~= seq![w, x, y, z]);
    lemma_readable_one(w, a);
    let p3 = parts.drop_last();
    let p2 = p3.drop_last();
    assert(p3 =~= seq![w, x, y]);
    assert(p2 =~= seq![w, x]);
    assert(p2.drop_last() =~= seq![w]);
    assert(intent::readable(p2) =~= seq![a, b]);
    assert(intent::readable(p3) =~= seq![a, b, c]);
    assert(intent::readable(parts) =~= seq![a, b, c, d]);
}

} // verus!
