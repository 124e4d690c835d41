//! What holds of searching, cutting, joining and comparing texts.

use vstd::prelude::*;

use crate::text::chars::CharClass;
use crate::text::chars;
use crate::text::find;
use crate::text::number;
use crate::text::order;
use crate::text::split;
use crate::text::trim;

verus! {

broadcast use {vstd::seq::group_seq_axioms, vstd::slice::group_slice_axioms};

// ── Characters ─────────────────────────────────────────────────────────────

/// Making small changes the ASCII capitals to their small letters and nothing
/// else.
pub proof fn law_lowered(s: Seq<char>)
    ensures
        chars::lowered(s).len() == s.len(),
        forall|i: int|
            0 <= i < s.len() ==> {
                if 'A' <= s[i] <= 'Z' {
                    (#[trigger] chars::lowered(s)[i]) as u32 == s[i] as u32 + 32
                } else {
                    chars::lowered(s)[i] == s[i]
                }
            },
{
}

/// Replacing a character changes each of its places and no other.
pub proof fn law_replaced(s: Seq<char>, from: char, to: char)
    ensures
        split::replaced(s, from, to).len() == s.len(),
        forall|i: int|
            0 <= i < s.len() ==> {
                if s[i] == from {
                    #[trigger] split::replaced(s, from, to)[i] == to
                } else {
                    split::replaced(s, from, to)[i] == s[i]
                }
            },
{
}

// ── Searching ──────────────────────────────────────────────────────────────

/// A text occurs in another exactly where the other has it between a start and
/// an end.
pub proof fn law_occurs(p: Seq<char>, s: Seq<char>)
    ensures
        find::occurs(p, s) <==> exists|a: Seq<char>, b: Seq<char>| s == #[trigger] ((a + p) + b),
{
    if find::occurs(p, s) {
        let i = choose|i: int| find::occurs_at(p, s, i);
        let a = s.take(i);
        let b = s.skip(i + p.len());
        assert(s =~= (a + p) + b) by {
            assert(s.subrange(i, i + p.len()) =~= p);
            assert forall|k: int| 0 <= k < s.len() implies s[k] == ((a + p) + b)[k] by {
                if i <= k < i + p.len() {
                    assert(s.subrange(i, i + p.len())[k - i] == s[k]);
                }
            }
        }
    }
    if exists|a: Seq<char>, b: Seq<char>| s == #[trigger] ((a + p) + b) {
        let (a, b) = choose|a: Seq<char>, b: Seq<char>| s == #[trigger] ((a + p) + b);
        assert(s.subrange(a.len() as int, a.len() as int + p.len()) =~= p);
        assert(find::occurs_at(p, s, a.len() as int));
    }
}

/// A character that a text does not hold occurs no times in it.
pub proof fn law_count_of_absent(s: Seq<char>, c: char)
    requires
        !s.contains(c),
    ensures
        find::count_of(s, c) == 0,
    decreases s.len(),
{
    if s.len() > 0 {
        let t = s.drop_last();
        assert(s[s.len() - 1] == s.last());
        if t.contains(c) {
            let i = choose|i: int| 0 <= i < t.len() && t[i] == c;
            assert(s[i] == c);
        }
        law_count_of_absent(t, c);
    }
}

/// A character occurs in two texts together as often as in each.
pub proof fn law_count_of_concatenation(a: Seq<char>, b: Seq<char>, c: char)
    ensures
        find::count_of(a + b, c) == find::count_of(a, c) + find::count_of(b, c),
    decreases b.len(),
{
    if b.len() == 0 {
        assert(a + b =~= a);
    } else {
        assert((a + b).drop_last() =~= a + b.drop_last());
        law_count_of_concatenation(a, b.drop_last(), c);
    }
}

/// A character by itself occurs once in itself.
pub proof fn law_count_of_character(c: char, d: char)
    ensures
        find::count_of(seq![c], c) == 1,
        c != d ==> find::count_of(seq![c], d) == 0,
{
    assert(seq![c].drop_last() =~= seq![]);
    assert(find::count_of(Seq::<char>::empty(), c) == 0);
    assert(find::count_of(Seq::<char>::empty(), d) == 0);
}

/// The length of a text in bytes is that of its UTF-8 encoding.
pub proof fn law_byte_len(s: Seq<char>)
    ensures
        find::byte_len(s) == vstd::utf8::encode_utf8(s).len(),
    decreases s.len(),
{
    if s.len() > 0 {
        law_byte_len(s.drop_first());
        lemma_byte_len_first(s);
        lemma_char_bytes(s[0]);
    }
}

proof fn lemma_char_bytes(c: char)
    ensures
        find::char_bytes(c) == vstd::utf8::encode_scalar(c as u32).len(),
{
    assert(vstd::utf8::is_scalar(c as u32));
}

proof fn lemma_byte_len_first(s: Seq<char>)
    requires
        s.len() > 0,
    ensures
        find::byte_len(s) == find::char_bytes(s[0]) + find::byte_len(s.drop_first()),
    decreases s.len(),
{
    if s.len() == 1 {
        assert(s.drop_last() =~= seq![]);
        assert(s.drop_first() =~= seq![]);
    } else {
        lemma_byte_len_first(s.drop_last());
        assert(s.drop_last().drop_first() =~= s.drop_first().drop_last());
    }
}

// ── Trimming ───────────────────────────────────────────────────────────────

/// Blanks at the start come off.
pub proof fn law_blank_start_is_trimmed(a: Seq<char>, x: Seq<char>)
    requires
        trim::blank(a),
    ensures
        trim::trimmed_start(a + x, CharClass::White) == trim::trimmed_start(x, CharClass::White),
    decreases a.len(),
{
    if a.len() == 0 {
        assert(a + x =~= x);
    } else {
        assert(CharClass::White.has(a[0]));
        assert((a + x)[0] == a[0]);
        assert((a + x).skip(1) =~= a.skip(1) + x);
        assert forall|i: int| 0 <= i < a.skip(1).len() implies CharClass::White.has(
            #[trigger] a.skip(1)[i],
        ) by {
            assert(a.skip(1)[i] == a[i + 1]);
        }
        law_blank_start_is_trimmed(a.skip(1), x);
    }
}

/// What trimming leaves has no white space at its ends.
pub proof fn law_trimmed_ends(s: Seq<char>)
    ensures
        trim::trimmed(s).len() > 0 ==> !chars::is_white(trim::trimmed(s)[0]) && !chars::is_white(
            trim::trimmed(s).last(),
        ) && trim::trimmed(s).last() != ' ',
{
    let k = CharClass::White;
    let t = trim::trimmed_start(s, k);
    trim::lemma_trimmed_start(s, k);
    trim::lemma_trimmed_end(t, k);
    let u = trim::trimmed(s);
    if u.len() > 0 {
        assert(u == t.take(u.len() as int));
        assert(u[0] == t[0]);
        assert(!k.has(t[0]));
        assert(!k.has(u.last()));
    }
}

/// Trimming takes white space off the ends and nothing else: the text is what is
/// left with blanks around it, and what is left has none at its ends.
pub proof fn law_trimmed_is_the_middle(s: Seq<char>)
    ensures
        exists|a: Seq<char>, b: Seq<char>|
            {
                &&& s == #[trigger] ((a + trim::trimmed(s)) + b)
                &&& forall|i: int| 0 <= i < a.len() ==> chars::is_white(#[trigger] a[i])
                &&& forall|i: int| 0 <= i < b.len() ==> chars::is_white(#[trigger] b[i])
            },
        trim::trimmed(s).len() > 0 ==> !chars::is_white(trim::trimmed(s)[0]) && !chars::is_white(
            trim::trimmed(s).last(),
        ),
{
    let k = CharClass::White;
    let t = trim::trimmed_start(s, k);
    let u = trim::trimmed(s);
    trim::lemma_trimmed_start(s, k);
    trim::lemma_trimmed_end(t, k);
    law_trimmed_ends(s);
    let a = s.take(s.len() - t.len());
    let b = t.skip(u.len() as int);
    assert((a + u) + b =~= s);
    assert forall|i: int| 0 <= i < a.len() implies chars::is_white(#[trigger] a[i]) by {
        assert(k.has(s[i]));
    }
    assert forall|i: int| 0 <= i < b.len() implies chars::is_white(#[trigger] b[i]) by {
        assert(b[i] == t[u.len() + i]);
        assert(k.has(t[u.len() + i]));
    }
}

/// A text of a class is trimmed away at the end, up to the last character of
/// another kind.
pub proof fn law_trimmed_end_of_class(s: Seq<char>, k: CharClass)
    ensures
        exists|b: Seq<char>|
            {
                &&& s == #[trigger] (trim::trimmed_end(s, k) + b)
                &&& forall|i: int| 0 <= i < b.len() ==> k.has(#[trigger] b[i])
            },
        trim::trimmed_end(s, k).len() > 0 ==> !k.has(trim::trimmed_end(s, k).last()),
{
    trim::lemma_trimmed_end(s, k);
    let t = trim::trimmed_end(s, k);
    let b = s.skip(t.len() as int);
    assert(t + b =~= s);
    assert forall|i: int| 0 <= i < b.len() implies k.has(#[trigger] b[i]) by {
        assert(b[i] == s[t.len() + i]);
    }
}

// ── Cutting and joining ────────────────────────────────────────────────────

/// A joined text starts as its first part and ends as its last.
pub proof fn law_joined_ends(parts: Seq<Seq<char>>, sep: Seq<char>)
    requires
        parts.len() > 0,
    ensures
        parts[0].is_prefix_of(split::joined(parts, sep)),
        parts.last().is_suffix_of(split::joined(parts, sep)),
        parts[0].len() > 0 ==> split::joined(parts, sep).len() > 0 && split::joined(parts, sep)[0]
            == parts[0][0],
        parts.last().len() > 0 ==> split::joined(parts, sep).len() > 0 && split::joined(
            parts,
            sep,
        ).last() == parts.last().last(),
    decreases parts.len(),
{
    let all = split::joined(parts, sep);
    if parts.len() > 1 {
        let init = parts.drop_last();
        law_joined_ends(init, sep);
        assert(init[0] == parts[0]);
        let head = split::joined(init, sep);
        assert(parts[0] == head.subrange(0, parts[0].len() as int));
        assert(all.subrange(0, parts[0].len() as int) =~= head.subrange(
            0,
            parts[0].len() as int,
        ));
        if parts[0].len() > 0 {
            assert(all[0] == head[0]);
        }
    } else {
        assert(parts[0] =~= all.subrange(0, parts[0].len() as int));
    }
    let last = parts.last();
    assert(last =~= all.subrange(all.len() - last.len(), all.len() as int));
}

/// One more part is joined behind the separator.
pub proof fn law_joined_grows(parts: Seq<Seq<char>>, p: Seq<char>, sep: Seq<char>)
    ensures
        split::joined(seq![p], sep) == p,
        parts.len() > 0 ==> split::joined(parts.push(p), sep) == split::joined(parts, sep) + sep + p,
{
    assert(parts.push(p).drop_last() =~= parts);
}

proof fn lemma_joined_first(parts: Seq<Seq<char>>, sep: Seq<char>)
    requires
        parts.len() > 1,
    ensures
        split::joined(parts, sep) == parts[0] + sep + split::joined(parts.skip(1), sep),
    decreases parts.len(),
{
    let rest = parts.skip(1);
    if parts.len() == 2 {
        assert(parts.drop_last() =~= seq![parts[0]]);
        assert(rest =~= seq![parts[1]]);
        assert(split::joined(seq![parts[0]], sep) == parts[0]);
        assert(split::joined(seq![parts[1]], sep) == parts[1]);
    } else {
        lemma_joined_first(parts.drop_last(), sep);
        assert(parts.drop_last().skip(1) =~= rest.drop_last());
        assert(rest.last() == parts.last());
        assert(split::joined(parts, sep) =~= parts[0] + sep + split::joined(rest, sep));
    }
}

/// Cutting undoes joining: parts that do not hold the separator come back.
pub proof fn law_split_undoes_join(parts: Seq<Seq<char>>, c: char)
    requires
        parts.len() > 0,
        forall|i: int| 0 <= i < parts.len() ==> !(#[trigger] parts[i]).contains(c),
    ensures
        split::split_parts(split::joined(parts, seq![c]), c) == parts,
    decreases parts.len(),
{
    let s = split::joined(parts, seq![c]);
    find::lemma_first_of(s, 0, c);
    let p = parts[0];
    if parts.len() == 1 {
        if find::first_of(s, 0, c) is Some {
            assert(p.contains(s[find::first_of(s, 0, c)->0]));
        }
        assert(seq![s] =~= parts);
    } else {
        let rest = parts.skip(1);
        lemma_joined_first(parts, seq![c]);
        let n = p.len() as int;
        assert(s[n] == c);
        assert forall|j: int| 0 <= j < n implies s[j] != c by {
            assert(s[j] == p[j]);
        }
        assert(find::first_of(s, 0, c) == Some(n));
        assert(s.take(n) =~= p);
        assert(s.skip(n + 1) =~= split::joined(rest, seq![c]));
        assert forall|i: int| 0 <= i < rest.len() implies !(#[trigger] rest[i]).contains(c) by {
            assert(rest[i] == parts[i + 1]);
        }
        law_split_undoes_join(rest, c);
        assert(seq![p] + rest =~= parts);
    }
}

/// Joining undoes cutting, and no part holds the separator.
pub proof fn law_join_undoes_split(s: Seq<char>, c: char)
    ensures
        split::joined(split::split_parts(s, c), seq![c]) == s,
        split::split_parts(s, c).len() > 0,
        forall|i: int|
            0 <= i < split::split_parts(s, c).len() ==> !(#[trigger] split::split_parts(
                s,
                c,
            )[i]).contains(c),
    decreases s.len(),
{
    find::lemma_first_of(s, 0, c);
    let parts = split::split_parts(s, c);
    match find::first_of(s, 0, c) {
        Some(i) => {
            let rest = split::split_parts(s.skip(i + 1), c);
            law_join_undoes_split(s.skip(i + 1), c);
            assert(parts == seq![s.take(i)] + rest);
            assert(parts.skip(1) =~= rest);
            lemma_joined_first(parts, seq![c]);
            assert(s.take(i) + seq![c] + s.skip(i + 1) =~= s);
            assert forall|k: int| 0 <= k < parts.len() implies !(#[trigger] parts[k]).contains(
                c,
            ) by {
                if k > 0 {
                    assert(parts[k] == rest[k - 1]);
                } else {
                    assert(parts[0] == s.take(i));
                }
            }
        },
        None => {
            assert(parts =~= seq![s]);
        },
    }
}

/// A text cut into lines and written down again, each line with a line feed
/// behind it, with or without a carriage return, is cut into the same lines.
pub proof fn law_lines_of_written_lines(l: Seq<char>, cr: bool, rest: Seq<char>)
    requires
        !l.contains('\n'),
        l.len() > 0 ==> l.last() != '\r',
    ensures
        ({
            let end = if cr {
                seq!['\r', '\n']
            } else {
                seq!['\n']
            };
            split::text_lines(l + end + rest) == seq![l] + split::text_lines(rest)
        }),
        l.len() > 0 ==> split::text_lines(l) == seq![l],
        split::text_lines(seq![]) == Seq::<Seq<char>>::empty(),
{
    let end = if cr {
        seq!['\r', '\n']
    } else {
        seq!['\n']
    };
    let s = l + end + rest;
    let n = l.len() + end.len() - 1;
    find::lemma_first_of(s, 0, '\n');
    find::lemma_first_of(l, 0, '\n');
    assert(s[n] == '\n');
    assert forall|j: int| 0 <= j < n implies s[j] != '\n' by {
        if j < l.len() {
            assert(s[j] == l[j]);
        }
    }
    assert(find::first_of(s, 0, '\n') == Some(n));
    assert(s.skip(n + 1) =~= rest);
    if cr {
        assert(s.take(n) =~= l.push('\r'));
        assert(l.push('\r').drop_last() =~= l);
    } else {
        assert(s.take(n) =~= l);
    }
    assert(split::without_return(s.take(n)) == l);
}

/// Cutting into words drops the white space and nothing else.
pub proof fn law_words_hold_the_text(s: Seq<char>)
    ensures
        split::joined(split::words(s), seq![]) == s.filter(|c: char| !chars::is_white(c)),
    decreases s.len(),
{
    let f = |c: char| !chars::is_white(c);
    let none = Seq::<char>::empty();
    if s.len() == 0 {
        reveal(Seq::filter);
        assert(split::joined(split::words(s), none) =~= s.filter(f));
    } else if CharClass::White.has(s[0]) {
        law_words_hold_the_text(s.skip(1));
        lemma_filter_concat(seq![s[0]], s.skip(1), f);
        assert(seq![s[0]] + s.skip(1) =~= s);
        lemma_filter_none(seq![s[0]], f);
        assert(none + s.skip(1).filter(f) =~= s.skip(1).filter(f));
    } else {
        split::lemma_word_end(s);
        let n = split::word_end(s);
        let w = s.take(n);
        let ws = split::words(s.skip(n));
        law_words_hold_the_text(s.skip(n));
        lemma_filter_concat(w, s.skip(n), f);
        assert(w + s.skip(n) =~= s);
        assert forall|i: int| 0 <= i < w.len() implies f(#[trigger] w[i]) by {
            assert(!CharClass::White.has(s[i]));
        }
        lemma_filter_all(w, f);
        let all = seq![w] + ws;
        if ws.len() == 0 {
            assert(all =~= seq![w]);
            assert(split::joined(ws, none) =~= none);
            assert(w + none =~= w);
        } else {
            assert(all.skip(1) =~= ws);
            lemma_joined_first(all, none);
            assert(w + none + split::joined(ws, none) =~= w + split::joined(ws, none));
        }
    }
}

proof fn lemma_filter_concat(a: Seq<char>, b: Seq<char>, f: spec_fn(char) -> bool)
    ensures
        (a + b).filter(f) == a.filter(f) + b.filter(f),
    decreases b.len(),
{
    reveal(Seq::filter);
    if b.len() == 0 {
        assert(a + b =~= a);
        assert(a.filter(f) + b.filter(f) =~= a.filter(f));
    } else {
        assert((a + b).drop_last() =~= a + b.drop_last());
        lemma_filter_concat(a, b.drop_last(), f);
        assert((a + b).filter(f) =~= a.filter(f) + b.filter(f));
    }
}

proof fn lemma_filter_none(a: Seq<char>, f: spec_fn(char) -> bool)
    requires
        forall|i: int| 0 <= i < a.len() ==> !f(#[trigger] a[i]),
    ensures
        a.filter(f) == Seq::<char>::empty(),
    decreases a.len(),
{
    reveal(Seq::filter);
    if a.len() > 0 {
        assert(!f(a[a.len() - 1]));
        lemma_filter_none(a.drop_last(), f);
    }
    assert(a.filter(f) =~= Seq::<char>::empty());
}

proof fn lemma_filter_all(a: Seq<char>, f: spec_fn(char) -> bool)
    requires
        forall|i: int| 0 <= i < a.len() ==> f(#[trigger] a[i]),
    ensures
        a.filter(f) == a,
    decreases a.len(),
{
    reveal(Seq::filter);
    if a.len() > 0 {
        assert(f(a[a.len() - 1]));
        lemma_filter_all(a.drop_last(), f);
    }
    assert(a.filter(f) =~= a);
}

// ── Order ──────────────────────────────────────────────────────────────────

/// The first place where two texts differ decides their order, and a start of a
/// text stands before it.
pub proof fn law_order_by_first_difference(a: Seq<char>, b: Seq<char>, k: int)
    requires
        0 <= k <= a.len(),
        k <= b.len(),
        forall|i: int| 0 <= i < k ==> #[trigger] a[i] == b[i],
    ensures
        k < a.len() && k < b.len() && a[k] < b[k] ==> order::text_before(a, b)
            && !order::text_before(b, a),
        k == a.len() && k < b.len() ==> order::text_before(a, b) && !order::text_before(b, a),
        k == a.len() && k == b.len() ==> !order::text_before(a, b),
    decreases k,
{
    if k > 0 {
        assert(a[0] == b[0]);
        assert forall|i: int| 0 <= i < k - 1 implies #[trigger] a.skip(1)[i] == b.skip(1)[i] by {
            assert(a[i + 1] == b[i + 1]);
        }
        law_order_by_first_difference(a.skip(1), b.skip(1), k - 1);
    }
}

// ── Numbers ────────────────────────────────────────────────────────────────

/// Digits are read in base ten: one more digit is ten times the number and the
/// digit.
pub proof fn law_decimal_value_of_digits(s: Seq<char>, c: char)
    requires
        '0' <= c <= '9',
    ensures
        number::decimal_value(s.push(c)) == 10 * number::decimal_value(s) + (c as u32 - 48),
        number::decimal_value(seq![]) == 0,
{
    assert(s.push(c).drop_last() =~= s);
}

/// A number is read with a sign or without one, from one digit or more, within
/// its bounds, and from nothing else.
pub proof fn law_numbers_read(d: Seq<char>)
    requires
        d.len() > 0,
        forall|i: int| 0 <= i < d.len() ==> '0' <= #[trigger] d[i] <= '9',
    ensures
        ({
            let n = number::decimal_value(d);
            &&& number::parsed_i64(d) == if n <= i64::MAX {
                Some(n)
            } else {
                None
            }
            &&& number::parsed_i64(seq!['+'] + d) == number::parsed_i64(d)
            &&& number::parsed_i64(seq!['-'] + d) == if -n >= i64::MIN {
                Some(-n)
            } else {
                None
            }
            &&& number::parsed_u64(d) == if n <= u64::MAX {
                Some(n)
            } else {
                None
            }
            &&& number::parsed_u64(seq!['-'] + d) is None
            &&& number::parsed_u32(d) == if n <= u32::MAX {
                Some(n)
            } else {
                None
            }
        }),
{
    assert forall|i: int| 0 <= i < d.len() implies chars::is_digit(#[trigger] d[i]) by {}
    assert(number::all_digits(d));
    assert(number::decimal_value(d) >= 0) by {
        number::lemma_decimal_value_grows(d, d.len() as int);
        assert(d.take(d.len() as int) =~= d);
    }
    assert(d[0] != '+' && d[0] != '-');
    assert((seq!['+'] + d).skip(1) =~= d);
    assert((seq!['-'] + d).skip(1) =~= d);
    let m = seq!['-'] + d;
    assert(m[0] == '-');
    assert(!chars::is_digit(m[0]));
}

/// What holds another character than digits behind its first is no number.
pub proof fn law_other_texts_are_no_numbers(s: Seq<char>, i: int)
    requires
        0 < i < s.len(),
        !('0' <= s[i] <= '9'),
    ensures
        number::parsed_i64(s) is None,
        number::parsed_u64(s) is None,
        number::parsed_u32(s) is None,
        number::parsed_i64(seq![]) is None,
        number::parsed_u64(seq![]) is None,
        number::parsed_u32(seq![]) is None,
{
    assert(s.skip(1)[i - 1] == s[i]);
    assert(!chars::is_digit(s[i]));
}

// ── Characters ─────────────────────────────────────────────────────────────

/// The classes of characters: white space is what Unicode counts as such, and the
/// other classes are made of ASCII characters.
pub proof fn law_classes(c: char)
    ensures
        ({
            let n = c as int;
            &&& CharClass::White.has(c) <==> n == 9 || n == 10 || n == 11 || n == 12 || n == 13 || n
                == 32 || n == 0x85 || n == 0xa0 || n == 0x1680 || (0x2000 <= n <= 0x200a) || n
                == 0x2028 || n == 0x2029 || n == 0x202f || n == 0x205f || n == 0x3000
            &&& CharClass::Digit.has(c) <==> 48 <= n <= 57
            &&& CharClass::Hash.has(c) <==> n == 35
            &&& CharClass::Bullet.has(c) <==> n == 42 || n == 43 || n == 45
            &&& CharClass::Numbering.has(c) <==> n == 41 || n == 46
            &&& CharClass::Pipe.has(c) <==> n == 124
            &&& CharClass::Slash.has(c) <==> n == 47
            &&& chars::is_ascii_alnum(c) <==> 48 <= n <= 57 || 65 <= n <= 90 || 97 <= n <= 122
            &&& chars::is_hex_digit(c) <==> 48 <= n <= 57 || 65 <= n <= 70 || 97 <= n <= 102
        }),
{
}

/// A number is written without a zero at its start.
pub proof fn law_decimal_has_no_leading_zero(n: nat)
    ensures
        n > 0 ==> number::decimal(n)[0] != '0',
        number::decimal(n).len() > 0,
        number::decimal_value(number::decimal(n)) == n,
        number::decimal(0) == seq!['0'],
    decreases n,
{
    number::lemma_decimal_roundtrip(n);
    if n >= 10 {
        law_decimal_has_no_leading_zero(n / 10);
        assert(number::decimal(n)[0] == number::decimal(n / 10)[0]);
    }
}

/// No word holds white space of any kind, and no word is empty.
pub proof fn law_words_hold_no_white_space(s: Seq<char>, i: int, k: int)
    requires
        0 <= i < split::words(s).len(),
    ensures
        split::words(s)[i].len() > 0,
        0 <= k < split::words(s)[i].len() ==> !chars::is_white(split::words(s)[i][k]),
{
    split::lemma_words_are_words(s);
    let w = split::words(s)[i];
    assert(split::is_word(w));
    if 0 <= k < w.len() {
        assert(!CharClass::White.has(w[k]));
    }
}

} // verus!
