//! Cutting a text into parts and joining parts to a text.

use vstd::prelude::*;

use crate::text::chars::CharClass;
use crate::text::find::find_from;
use crate::text::find;
use crate::text::trim::trim_start_of;

verus! {

broadcast use {vstd::seq::group_seq_axioms, vstd::slice::group_slice_axioms};

/// The texts that a sequence of slices shows.
pub open spec fn texts(v: Seq<&[char]>) -> Seq<Seq<char>> {
    Seq::new(v.len(), |i: int| v[i]@)
}

/// The parts of `s` between the separators `c`, in order.
pub open spec fn split_parts(s: Seq<char>, c: char) -> Seq<Seq<char>>
    decreases s.len(),
{
    match find::first_of(s, 0, c) {
        Some(i) => if 0 <= i < s.len() {
            seq![s.take(i)] + split_parts(s.skip(i + 1), c)
        } else {
            seq![s]
        },
        None => seq![s],
    }
}

/// The position of the first white space in `s`, or its length.
pub open spec fn word_end(s: Seq<char>) -> int
    decreases s.len(),
{
    if s.len() == 0 || CharClass::White.has(s[0]) {
        0
    } else {
        1 + word_end(s.skip(1))
    }
}

/// The stretches of `s` without white space, in order.
pub open spec fn words(s: Seq<char>) -> Seq<Seq<char>>
    decreases s.len(),
{
    if s.len() == 0 {
        seq![]
    } else if CharClass::White.has(s[0]) {
        words(s.skip(1))
    } else {
        let n = word_end(s);
        if 0 < n <= s.len() {
            seq![s.take(n)] + words(s.skip(n))
        } else {
            seq![]
        }
    }
}

/// A line without the carriage return that may end it.
pub open spec fn without_return(s: Seq<char>) -> Seq<char> {
    if s.len() > 0 && s.last() == '\r' {
        s.drop_last()
    } else {
        s
    }
}

/// The lines of `s`: each ends at a line feed, with or without a carriage
/// return before it; a text after the last line feed is a line too.
pub open spec fn text_lines(s: Seq<char>) -> Seq<Seq<char>>
    decreases s.len(),
{
    if s.len() == 0 {
        seq![]
    } else {
        match find::first_of(s, 0, '\n') {
            Some(i) => if 0 <= i < s.len() {
                seq![without_return(s.take(i))] + text_lines(s.skip(i + 1))
            } else {
                seq![s]
            },
            None => seq![s],
        }
    }
}

/// The parts one after the other with `sep` between each two.
pub open spec fn joined(parts: Seq<Seq<char>>, sep: Seq<char>) -> Seq<char>
    decreases parts.len(),
{
    if parts.len() == 0 {
        seq![]
    } else if parts.len() == 1 {
        parts[0]
    } else {
        joined(parts.drop_last(), sep) + sep + parts.last()
    }
}

/// A text with each occurrence of the text `from`, left to right, replaced by
/// `to`.
pub open spec fn replaced_text(s: Seq<char>, from: Seq<char>, to: Seq<char>) -> Seq<char>
    decreases s.len(),
{
    if s.len() == 0 || from.len() == 0 {
        s
    } else if from.is_prefix_of(s) {
        to + replaced_text(s.skip(from.len() as int), from, to)
    } else {
        seq![s[0]] + replaced_text(s.skip(1), from, to)
    }
}

/// A text with each `from` replaced by `to`.
pub open spec fn replaced(s: Seq<char>, from: char, to: char) -> Seq<char> {
    Seq::new(
        s.len(),
        |i: int|
            if s[i] == from {
                to
            } else {
                s[i]
            },
    )
}

/// A word ends after its start and within the text.
pub proof fn lemma_word_end(s: Seq<char>)
    ensures
        0 <= word_end(s) <= s.len(),
        s.len() > 0 && !CharClass::White.has(s[0]) ==> word_end(s) > 0,
        word_end(s) < s.len() ==> CharClass::White.has(s[word_end(s)]),
        forall|i: int| 0 <= i < word_end(s) ==> !CharClass::White.has(#[trigger] s[i]),
    decreases s.len(),
{
    if s.len() > 0 && !CharClass::White.has(s[0]) {
        let t = s.skip(1);
        lemma_word_end(t);
        assert forall|i: int| 0 <= i < word_end(s) implies !CharClass::White.has(#[trigger] s[i]) by {
            if i > 0 {
                assert(t[i - 1] == s[i]);
            }
        }
        if word_end(s) < s.len() {
            assert(t[word_end(t)] == s[word_end(s)]);
        }
    }
}

/// The words of a text and of the text without leading white space agree.
pub proof fn lemma_words_trimmed_start(s: Seq<char>)
    ensures
        words(crate::text::trim::trimmed_start(s, CharClass::White)) == words(s),
    decreases s.len(),
{
    if s.len() > 0 && CharClass::White.has(s[0]) {
        lemma_words_trimmed_start(s.skip(1));
    }
}

/// A word: nothing but characters that are no white space, at least one.
pub open spec fn is_word(w: Seq<char>) -> bool {
    &&& w.len() > 0
    &&& forall|i: int| 0 <= i < w.len() ==> !CharClass::White.has(#[trigger] w[i])
}

/// What a text is cut into are words, made of characters of the text.
pub proof fn lemma_words_are_words(s: Seq<char>)
    ensures
        forall|i: int| 0 <= i < words(s).len() ==> is_word(#[trigger] words(s)[i]),
        forall|i: int, k: int|
            0 <= i < words(s).len() && 0 <= k < words(s)[i].len() ==> s.contains(
                #[trigger] words(s)[i][k],
            ),
    decreases s.len(),
{
    if s.len() > 0 {
        if CharClass::White.has(s[0]) {
            let t = s.skip(1);
            lemma_words_are_words(t);
            assert(words(s) == words(t));
            assert forall|i: int| 0 <= i < words(s).len() implies is_word(
                #[trigger] words(s)[i],
            ) by {
                assert(is_word(words(t)[i]));
            }
            assert forall|i: int, k: int|
                0 <= i < words(s).len() && 0 <= k < words(s)[i].len() implies s.contains(
                #[trigger] words(s)[i][k],
            ) by {
                let c = words(t)[i][k];
                assert(t.contains(c));
                let j = choose|j: int| 0 <= j < t.len() && t[j] == c;
                assert(s[j + 1] == c);
            }
        } else {
            lemma_word_end(s);
            let n = word_end(s);
            let t = s.skip(n);
            lemma_words_are_words(t);
            assert forall|i: int| 0 <= i < words(s).len() implies is_word(
                #[trigger] words(s)[i],
            ) by {
                if i > 0 {
                    assert(words(s)[i] == words(t)[i - 1]);
                }
            }
            assert forall|i: int, k: int|
                0 <= i < words(s).len() && 0 <= k < words(s)[i].len() implies s.contains(
                #[trigger] words(s)[i][k],
            ) by {
                if i > 0 {
                    assert(words(s)[i] == words(t)[i - 1]);
                    let c = words(t)[i - 1][k];
                    assert(t.contains(c));
                    let j = choose|j: int| 0 <= j < t.len() && t[j] == c;
                    assert(s[j + n] == c);
                } else {
                    assert(s[k] == words(s)[i][k]);
                }
            }
        }
    }
}

/// A word by itself is cut into itself.
pub proof fn lemma_single_word(w: Seq<char>)
    requires
        is_word(w),
    ensures
        words(w) == seq![w],
{
    lemma_word_end(w);
    assert(word_end(w) == w.len());
    assert(w.take(w.len() as int) == w);
    assert(words(w.skip(w.len() as int)) == Seq::<Seq<char>>::empty());
    assert(words(w) =~= seq![w]);
}

/// A word behind a space adds itself to the words before it.
pub proof fn lemma_words_append(a: Seq<char>, w: Seq<char>)
    requires
        is_word(w),
    ensures
        words(a + seq![' '] + w) == words(a).push(w),
    decreases a.len(),
{
    let t = a + seq![' '] + w;
    if a.len() == 0 {
        assert(t[0] == ' ');
        assert(t.skip(1) == w);
        lemma_single_word(w);
        assert(words(a).push(w) =~= seq![w]);
    } else if CharClass::White.has(a[0]) {
        assert(t[0] == a[0]);
        assert(t.skip(1) == a.skip(1) + seq![' '] + w);
        lemma_words_append(a.skip(1), w);
    } else {
        lemma_word_end(a);
        lemma_word_end(t);
        let n = word_end(a);
        let m = word_end(t);
        assert(t[0] == a[0]);
        if n < a.len() {
            assert(t[n] == a[n]);
        } else {
            assert(t[n] == ' ');
        }
        assert(m <= n);
        if m < n {
            assert(t[m] == a[m]);
        }
        assert(m == n);
        assert(t.take(n) == a.take(n));
        assert(t.skip(n) == a.skip(n) + seq![' '] + w);
        lemma_words_append(a.skip(n), w);
        assert(words(t) == seq![a.take(n)] + words(a.skip(n)).push(w));
        assert(words(t) =~= words(a).push(w));
    }
}

/// Words joined by spaces are cut into the same words.
pub proof fn lemma_words_joined(ws: Seq<Seq<char>>)
    requires
        forall|i: int| 0 <= i < ws.len() ==> is_word(#[trigger] ws[i]),
    ensures
        words(joined(ws, seq![' '])) == ws,
    decreases ws.len(),
{
    if ws.len() == 1 {
        lemma_single_word(ws[0]);
        assert(ws == seq![ws[0]]);
    } else if ws.len() > 1 {
        let init = ws.drop_last();
        assert forall|i: int| 0 <= i < init.len() implies is_word(#[trigger] init[i]) by {
            assert(init[i] == ws[i]);
        }
        lemma_words_joined(init);
        lemma_words_append(joined(init, seq![' ']), ws.last());
        assert(init.push(ws.last()) == ws);
    } else {
        assert(words(joined(ws, seq![' '])) =~= ws);
    }
}

/// What is joined holds no characters but those of its parts and the separator.
pub proof fn lemma_joined_chars(parts: Seq<Seq<char>>, sep: Seq<char>)
    ensures
        forall|k: int|
            0 <= k < joined(parts, sep).len() ==> sep.contains(#[trigger] joined(parts, sep)[k])
                || exists|i: int|
                0 <= i < parts.len() && (#[trigger] parts[i]).contains(joined(parts, sep)[k]),
    decreases parts.len(),
{
    let all = joined(parts, sep);
    if parts.len() == 1 {
        assert forall|k: int| 0 <= k < all.len() implies exists|i: int|
            0 <= i < parts.len() && (#[trigger] parts[i]).contains(#[trigger] all[k]) by {
            assert(parts[0].contains(all[k]));
        }
    } else if parts.len() > 1 {
        let init = parts.drop_last();
        let head = joined(init, sep);
        lemma_joined_chars(init, sep);
        assert forall|k: int| 0 <= k < all.len() implies sep.contains(#[trigger] all[k]) || exists|
            i: int,
        |
            0 <= i < parts.len() && (#[trigger] parts[i]).contains(all[k]) by {
            if k < head.len() {
                assert(all[k] == head[k]);
                if !sep.contains(head[k]) {
                    let i = choose|i: int|
                        0 <= i < init.len() && (#[trigger] init[i]).contains(head[k]);
                    assert(parts[i] == init[i]);
                    assert(parts[i].contains(all[k]));
                }
            } else if k < head.len() + sep.len() {
                assert(all[k] == sep[k - head.len()]);
            } else {
                let last = parts.last();
                assert(all[k] == last[k - head.len() - sep.len()]);
                assert(parts[parts.len() - 1].contains(all[k]));
            }
        }
    }
}

/// Cuts `s` at each `c`.
pub fn split<'a>(s: &'a [char], c: char) -> (r: Vec<&'a [char]>)
    ensures
        texts(r@) == split_parts(s@, c),
        r@.len() > 0,
{
    let mut out: Vec<&'a [char]> = Vec::new();
    let mut rest: &'a [char] = s;
    assert(texts(out@) + split_parts(rest@, c) == split_parts(s@, c));
    loop
        invariant
            texts(out@) + split_parts(rest@, c) == split_parts(s@, c),
        decreases rest@.len(),
    {
        match find_from(rest, 0, c) {
            Some(i) => {
                let n: usize = rest.len();
                let head = vstd::slice::slice_subrange(rest, 0, i);
                let tail = vstd::slice::slice_subrange(rest, i + 1, n);
                proof {
                    assert(head@ == rest@.take(i as int));
                    assert(tail@ == rest@.skip(i + 1));
                    let before = texts(out@);
                    assert(texts(out@.push(head)) == before.push(head@));
                    assert(before.push(head@) + split_parts(tail@, c) == before + (seq![head@]
                        + split_parts(tail@, c)));
                }
                out.push(head);
                rest = tail;
            },
            None => {
                assert(texts(out@.push(rest)) == texts(out@) + seq![rest@]);
                out.push(rest);
                return out;
            },
        }
    }
}

/// Cuts `s` at its stretches of white space.
pub fn split_words<'a>(s: &'a [char]) -> (r: Vec<&'a [char]>)
    ensures
        texts(r@) == words(s@),
        forall|i: int| 0 <= i < r@.len() ==> (#[trigger] r@[i])@.len() > 0,
        2 * r@.len() <= s@.len() + 1,
{
    let mut out: Vec<&'a [char]> = Vec::new();
    let mut rest: &'a [char] = trim_start_of(s, CharClass::White);
    proof {
        lemma_words_trimmed_start(s@);
        crate::text::trim::lemma_trimmed_start(s@, CharClass::White);
        assert(texts(out@) + words(rest@) == words(s@));
    }
    while rest.len() > 0
        invariant
            texts(out@) + words(rest@) == words(s@),
            rest@.len() > 0 ==> !CharClass::White.has(rest@[0]),
            forall|i: int| 0 <= i < out@.len() ==> (#[trigger] out@[i])@.len() > 0,
            2 * out@.len() + rest@.len() <= s@.len() + if rest@.len() > 0 {
                0nat
            } else {
                1
            },
        decreases rest@.len(),
    {
        let mut n: usize = 0;
        assert(rest@.skip(0) == rest@);
        while n < rest.len() && !CharClass::White.holds(rest[n])
            invariant
                n <= rest@.len(),
                word_end(rest@) == n + word_end(rest@.skip(n as int)),
            decreases rest@.len() - n,
        {
            assert(rest@.skip(n as int).skip(1) == rest@.skip(n + 1));
            n = n + 1;
        }
        let head = vstd::slice::slice_subrange(rest, 0, n);
        let tail = vstd::slice::slice_subrange(rest, n, rest.len());
        let next = trim_start_of(tail, CharClass::White);
        proof {
            lemma_word_end(rest@);
            assert(word_end(rest@) == n);
            assert(head@ == rest@.take(n as int));
            assert(tail@ == rest@.skip(n as int));
            lemma_words_trimmed_start(tail@);
            crate::text::trim::lemma_trimmed_start(tail@, CharClass::White);
            let before = texts(out@);
            assert(texts(out@.push(head)) == before.push(head@));
            assert(before.push(head@) + words(tail@) == before + (seq![head@] + words(tail@)));
        }
        out.push(head);
        rest = next;
    }
    assert(words(rest@) == Seq::<Seq<char>>::empty());
    assert(texts(out@) + words(rest@) == texts(out@));
    out
}

/// Cuts `s` into its lines.
pub fn lines<'a>(s: &'a [char]) -> (r: Vec<&'a [char]>)
    ensures
        texts(r@) == text_lines(s@),
{
    let mut out: Vec<&'a [char]> = Vec::new();
    let mut rest: &'a [char] = s;
    assert(texts(out@) + text_lines(rest@) == text_lines(s@));
    while rest.len() > 0
        invariant
            texts(out@) + text_lines(rest@) == text_lines(s@),
        decreases rest@.len(),
    {
        match find_from(rest, 0, '\n') {
            Some(i) => {
                let whole = vstd::slice::slice_subrange(rest, 0, i);
                assert(whole@ == rest@.take(i as int));
                let head = if i > 0 && whole[i - 1] == '\r' {
                    vstd::slice::slice_subrange(whole, 0, i - 1)
                } else {
                    whole
                };
                let tail = vstd::slice::slice_subrange(rest, i + 1, rest.len());
                proof {
                    assert(head@ == without_return(whole@));
                    assert(tail@ == rest@.skip(i + 1));
                    let before = texts(out@);
                    assert(texts(out@.push(head)) == before.push(head@));
                    assert(before.push(head@) + text_lines(tail@) == before + (seq![head@]
                        + text_lines(tail@)));
                }
                out.push(head);
                rest = tail;
            },
            None => {
                assert(texts(out@.push(rest)) == texts(out@) + seq![rest@]);
                out.push(rest);
                return out;
            },
        }
    }
    assert(texts(out@) + text_lines(rest@) == texts(out@));
    out
}

/// The parts one after the other with `sep` between each two.
pub fn join(parts: &Vec<&[char]>, sep: &[char]) -> (r: Vec<char>)
    ensures
        r@ == joined(texts(parts@), sep@),
{
    let mut out: Vec<char> = Vec::new();
    let mut i: usize = 0;
    let ghost all = texts(parts@);
    while i < parts.len()
        invariant
            i <= parts@.len(),
            all == texts(parts@),
            out@ == joined(all.take(i as int), sep@),
        decreases parts@.len() - i,
    {
        let ghost head = all.take(i + 1);
        assert(head.drop_last() == all.take(i as int));
        assert(head.last() == parts@[i as int]@);
        if i > 0 {
            crate::text::chars::push_chars(&mut out, sep);
        }
        crate::text::chars::push_chars(&mut out, parts[i]);
        assert(out@ == joined(head, sep@));
        i = i + 1;
    }
    assert(all.take(i as int) == all);
    out
}

/// `s` with each `from` replaced by `to`.
pub fn replace(s: &[char], from: char, to: char) -> (r: Vec<char>)
    ensures
        r@ == replaced(s@, from, to),
{
    let mut out: Vec<char> = Vec::new();
    let mut i: usize = 0;
    while i < s.len()
        invariant
            i <= s@.len(),
            out@ == replaced(s@, from, to).take(i as int),
        decreases s@.len() - i,
    {
        let c = s[i];
        if c == from {
            out.push(to);
        } else {
            out.push(c);
        }
        i = i + 1;
    }
    assert(replaced(s@, from, to).take(i as int) == replaced(s@, from, to));
    out
}

} // verus!
