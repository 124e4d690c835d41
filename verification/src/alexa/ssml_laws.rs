//! What is left of Markdown when it is spoken.

use vstd::prelude::*;

use crate::alexa::ssml;
use crate::text::chars::CharClass;
use crate::text::chars;
use crate::text::find;
use crate::text::split;
use crate::text::text_laws;
use crate::text::trim;

verus! {

broadcast use {vstd::seq::group_seq_axioms, vstd::slice::group_slice_axioms};

// ── Lines ──────────────────────────────────────────────────────────────────

/// `out` as a further sentence finds it: with a space at its end, unless it is
/// empty or has one.
pub open spec fn ready(out: Seq<char>) -> Seq<char> {
    if out.len() == 0 || out[out.len() - 1] == ' ' {
        out
    } else {
        out + seq![' ']
    }
}

proof fn lemma_prefix_trans(a: Seq<char>, b: Seq<char>, c: Seq<char>)
    requires
        a.is_prefix_of(b),
        b.is_prefix_of(c),
    ensures
        a.is_prefix_of(c),
{
    assert(a =~= c.subrange(0, a.len() as int)) by {
        assert(b == c.subrange(0, b.len() as int));
        assert(a == b.subrange(0, a.len() as int));
    }
}

proof fn lemma_sentence(out: Seq<char>, line: Seq<char>)
    ensures
        ssml::sentence_added(out, line) == ready(out) + trim::trimmed(line),
        out.is_prefix_of(ssml::sentence_added(out, line)),
{
    trim::law_blank_trims_to_nothing(line);
    assert(ssml::sentence_added(out, line) =~= ready(out) + trim::trimmed(line));
    assert(out =~= ssml::sentence_added(out, line).subrange(0, out.len() as int));
}

proof fn lemma_line_only_adds(out: Seq<char>, line: Seq<char>)
    ensures
        out.is_prefix_of(ssml::line_added(out, line)),
{
    let body = ssml::line_body(line);
    lemma_sentence(out, body);
    lemma_sentence(out, split::joined(ssml::row_cells(body), ", "@));
    assert(out =~= out.subrange(0, out.len() as int));
}

/// Lines add to what was said and never take from it.
pub proof fn law_lines_only_add(out: Seq<char>, fenced: bool, ls: Seq<Seq<char>>)
    ensures
        out.is_prefix_of(ssml::lines_added(out, fenced, ls)),
    decreases ls.len(),
{
    if ls.len() == 0 {
        assert(out =~= out.subrange(0, out.len() as int));
    } else if ssml::is_fence(ls[0]) {
        law_lines_only_add(out, !fenced, ls.skip(1));
    } else if fenced {
        law_lines_only_add(out, fenced, ls.skip(1));
    } else {
        let next = ssml::line_added(out, ls[0]);
        lemma_line_only_adds(out, ls[0]);
        law_lines_only_add(next, fenced, ls.skip(1));
        lemma_prefix_trans(out, next, ssml::lines_added(next, fenced, ls.skip(1)));
    }
}

/// A character that starts a sentence: neither white space nor the mark of a
/// heading, a list, a number or a code block.
pub open spec fn starts_sentence(c: char) -> bool {
    &&& !chars::is_white(c)
    &&& c != '#' && c != '-' && c != '*' && c != '+' && c != '.' && c != ')' && c != '`' && c != '~'
    &&& !('0' <= c <= '9')
}

/// A line of plain text, or a blank one.
pub open spec fn is_plain_line(l: Seq<char>) -> bool {
    &&& !l.contains('|')
    &&& forall|i: int|
        0 <= i < l.len() && !chars::is_white(#[trigger] l[i]) && (forall|j: int|
            0 <= j < i ==> chars::is_white(#[trigger] l[j])) ==> starts_sentence(l[i])
}

proof fn lemma_trim_white_start(s: Seq<char>)
    ensures
        ({
            let t = trim::trimmed_start(s, CharClass::White);
            &&& trim::trimmed_start(t, CharClass::White) == t
            &&& t.len() > 0 ==> !chars::is_white(t[0])
        }),
{
    trim::lemma_trimmed_start(s, CharClass::White);
}

proof fn lemma_plain_line_start(l: Seq<char>)
    requires
        is_plain_line(l),
    ensures
        ({
            let t = trim::trimmed_start(l, CharClass::White);
            t.len() > 0 ==> starts_sentence(t[0])
        }),
{
    let t = trim::trimmed_start(l, CharClass::White);
    trim::lemma_trimmed_start(l, CharClass::White);
    if t.len() > 0 {
        let k = l.len() - t.len();
        assert(l[k] == t[0]);
        assert forall|j: int| 0 <= j < k implies chars::is_white(#[trigger] l[j]) by {
            assert(CharClass::White.has(l[j]));
        }
        assert(!CharClass::White.has(t[0]));
    }
}

/// A text that starts a sentence is no fence, and has no marks to lose.
proof fn lemma_sentence_start(t: Seq<char>)
    requires
        t.len() > 0 ==> starts_sentence(t[0]),
    ensures
        trim::trimmed_start(t, CharClass::White) == t,
        ssml::line_body(t) == t,
        !ssml::is_fence(t),
{
    reveal_strlit("```");
    reveal_strlit("~~~");
    if t.len() > 0 {
        if "```"@.is_prefix_of(t) {
            assert("```"@[0] == t.subrange(0, 3)[0]);
        }
        if "~~~"@.is_prefix_of(t) {
            assert("~~~"@[0] == t.subrange(0, 3)[0]);
        }
    }
}

proof fn lemma_plain_line(out: Seq<char>, l: Seq<char>)
    requires
        is_plain_line(l),
    ensures
        !ssml::is_fence(l),
        ssml::line_added(out, l) == ready(out) + trim::trimmed(l),
{
    let t = trim::trimmed_start(l, CharClass::White);
    lemma_plain_line_start(l);
    lemma_trim_white_start(l);
    lemma_sentence_start(t);
    trim::lemma_trimmed_start(l, CharClass::White);
    assert(ssml::line_body(l) == ssml::line_body(t));
    assert(!t.contains('|')) by {
        if t.contains('|') {
            let i = choose|i: int| 0 <= i < t.len() && t[i] == '|';
            assert(l[l.len() - t.len() + i] == '|');
        }
    }
    text_laws::law_count_of_absent(t, '|');
    lemma_sentence(out, t);
    assert(trim::trimmed(t) == trim::trimmed(l));
}

proof fn lemma_lines_push(out: Seq<char>, ls: Seq<Seq<char>>)
    requires
        ls.len() > 0,
        forall|i: int| 0 <= i < ls.len() ==> !ssml::is_fence(#[trigger] ls[i]),
    ensures
        ssml::lines_added(out, false, ls) == ssml::line_added(
            ssml::lines_added(out, false, ls.drop_last()),
            ls.last(),
        ),
    decreases ls.len(),
{
    assert(!ssml::is_fence(ls[0]));
    let next = ssml::line_added(out, ls[0]);
    if ls.len() == 1 {
        assert(ls.skip(1).len() == 0);
        assert(ls.drop_last().len() == 0);
        assert(ssml::lines_added(next, false, ls.skip(1)) == next);
        assert(ssml::lines_added(out, false, ls.drop_last()) == out);
    } else {
        let rest = ls.skip(1);
        assert forall|i: int| 0 <= i < rest.len() implies !ssml::is_fence(#[trigger] rest[i]) by {
            assert(rest[i] == ls[i + 1]);
        }
        lemma_lines_push(next, rest);
        assert(ls.drop_last()[0] == ls[0]);
        assert(ls.drop_last().skip(1) == rest.drop_last());
        assert(rest.last() == ls.last());
    }
}

/// The lines that hold something, without the white space around them.
pub open spec fn said_lines(ls: Seq<Seq<char>>) -> Seq<Seq<char>> {
    ls.filter(|l: Seq<char>| exists|i: int| 0 <= i < l.len() && !chars::is_white(#[trigger] l[i])).map_values(
        |l: Seq<char>| trim::trimmed(l),
    )
}

proof fn lemma_said_push(ls: Seq<Seq<char>>)
    requires
        ls.len() > 0,
    ensures
        said_lines(ls) == if trim::blank(ls.last()) {
            said_lines(ls.drop_last())
        } else {
            said_lines(ls.drop_last()).push(trim::trimmed(ls.last()))
        },
{
    reveal(Seq::filter);
    let f = |l: Seq<char>| exists|i: int| 0 <= i < l.len() && !chars::is_white(#[trigger] l[i]);
    let l = ls.last();
    if trim::blank(l) {
        assert forall|i: int| 0 <= i < l.len() implies chars::is_white(#[trigger] l[i]) by {
            assert(CharClass::White.has(l[i]));
        }
        assert(!f(l));
    } else {
        let i = choose|i: int| 0 <= i < l.len() && !CharClass::White.has(#[trigger] l[i]);
        assert(!chars::is_white(l[i]));
        assert(f(l));
    }
    assert(said_lines(ls) =~= if trim::blank(l) {
        said_lines(ls.drop_last())
    } else {
        said_lines(ls.drop_last()).push(trim::trimmed(l))
    });
}

/// Plain lines are said one after the other, with one space between each two;
/// blank ones add nothing but a space behind what was said.
pub proof fn law_plain_lines_are_joined(ls: Seq<Seq<char>>)
    requires
        forall|i: int| 0 <= i < ls.len() ==> is_plain_line(#[trigger] ls[i]),
    ensures
        ({
            let said = split::joined(said_lines(ls), seq![' ']);
            let r = ssml::lines_added(seq![], false, ls);
            &&& r == said || (said.len() > 0 && r == said + seq![' '])
            &&& ls.len() > 0 && !trim::blank(ls.last()) ==> r == said
            &&& said_lines(ls).len() > 0 ==> said.len() > 0 && said[said.len() - 1] != ' '
        }),
    decreases ls.len(),
{
    let none = Seq::<char>::empty();
    if ls.len() == 0 {
        reveal(Seq::filter);
        assert(said_lines(ls) =~= seq![]);
        assert(split::joined(said_lines(ls), seq![' ']) =~= none);
        assert(ssml::lines_added(none, false, ls) == none);
    } else {
        let init = ls.drop_last();
        let l = ls.last();
        assert(l == ls[ls.len() - 1]);
        assert forall|i: int| 0 <= i < init.len() implies is_plain_line(#[trigger] init[i]) by {
            assert(init[i] == ls[i]);
        }
        assert forall|i: int| 0 <= i < ls.len() implies !ssml::is_fence(#[trigger] ls[i]) by {
            lemma_plain_line(none, ls[i]);
        }
        law_plain_lines_are_joined(init);
        lemma_lines_push(none, ls);
        lemma_said_push(ls);
        let before = ssml::lines_added(none, false, init);
        let told = split::joined(said_lines(init), seq![' ']);
        lemma_plain_line(before, l);
        trim::law_blank_trims_to_nothing(l);
        let t = trim::trimmed(l);
        if trim::blank(l) {
            assert(t.len() == 0);
            assert(ready(before) + t =~= ready(before));
            assert(said_lines(ls) == said_lines(init));
            if told.len() > 0 && before == told {
                assert(said_lines(init).len() > 0);
            }
        } else {
            text_laws::law_trimmed_ends(l);
            let all = said_lines(init).push(t);
            assert(all.drop_last() =~= said_lines(init));
            if said_lines(init).len() == 0 {
                assert(told == none);
                assert(before == none);
                assert(all =~= seq![t]);
                assert(ready(before) + t =~= t);
            } else {
                assert(ready(before) =~= told + seq![' ']);
                assert(split::joined(all, seq![' ']) == told + seq![' '] + t);
            }
            assert(split::joined(all, seq![' ']).last() == t.last());
        }
    }
}

proof fn lemma_said_chars(ls: Seq<Seq<char>>)
    requires
        forall|i: int, k: int|
            0 <= i < ls.len() && 0 <= k < ls[i].len() ==> ssml::is_plain(#[trigger] ls[i][k]),
    ensures
        forall|i: int, k: int|
            0 <= i < said_lines(ls).len() && 0 <= k < said_lines(ls)[i].len() ==> ssml::is_plain(
                #[trigger] said_lines(ls)[i][k],
            ),
    decreases ls.len(),
{
    let said = said_lines(ls);
    if ls.len() == 0 {
        reveal(Seq::filter);
        assert(said =~= seq![]);
    } else {
        let init = ls.drop_last();
        let l = ls.last();
        assert forall|i: int, k: int|
            0 <= i < init.len() && 0 <= k < init[i].len() implies ssml::is_plain(
            #[trigger] init[i][k],
        ) by {
            assert(init[i] == ls[i]);
            assert(ssml::is_plain(ls[i][k]));
        }
        lemma_said_chars(init);
        lemma_said_push(ls);
        text_laws::law_trimmed_is_the_middle(l);
        let t = trim::trimmed(l);
        let (a, b) = choose|a: Seq<char>, b: Seq<char>|
            {
                &&& l == #[trigger] ((a + t) + b)
                &&& forall|i: int| 0 <= i < a.len() ==> chars::is_white(#[trigger] a[i])
                &&& forall|i: int| 0 <= i < b.len() ==> chars::is_white(#[trigger] b[i])
            };
        assert forall|i: int, k: int|
            0 <= i < said.len() && 0 <= k < said[i].len() implies ssml::is_plain(
            #[trigger] said[i][k],
        ) by {
            if i < said_lines(init).len() {
                assert(said[i] == said_lines(init)[i]);
                assert(ssml::is_plain(said_lines(init)[i][k]));
            } else {
                assert(said[i] == t);
                assert(t[k] == l[a.len() + k]);
                assert(ls[ls.len() - 1] == l);
                assert(ssml::is_plain(ls[ls.len() - 1][a.len() + k]));
            }
        }
    }
}

/// Plain text is spoken line by line: what is left of it is its lines that hold
/// something, in order, with one space between each two.
pub proof fn law_plain_text_is_kept(s: Seq<char>)
    requires
        forall|i: int| 0 <= i < split::text_lines(s).len() ==> is_plain_line(
            #[trigger] split::text_lines(s)[i],
        ),
        forall|i: int, k: int|
            0 <= i < split::text_lines(s).len() && 0 <= k < split::text_lines(s)[i].len()
                ==> ssml::is_plain(#[trigger] split::text_lines(s)[i][k]),
    ensures
        ({
            let ls = split::text_lines(s);
            let said = split::joined(said_lines(ls), seq![' ']);
            &&& ssml::stripped(s) == said || ssml::stripped(s) == said + seq![' ']
            &&& ls.len() > 0 && !trim::blank(ls.last()) ==> ssml::stripped(s) == said
        }),
{
    let ls = split::text_lines(s);
    let said = said_lines(ls);
    let j = split::joined(said, seq![' ']);
    law_plain_lines_are_joined(ls);
    lemma_said_chars(ls);
    split::lemma_joined_chars(said, seq![' ']);
    assert forall|k: int| 0 <= k < j.len() implies ssml::is_plain(#[trigger] j[k]) by {
        if !seq![' '].contains(j[k]) {
            let i = choose|i: int| 0 <= i < said.len() && (#[trigger] said[i]).contains(j[k]);
            let m = choose|m: int| 0 <= m < said[i].len() && said[i][m] == j[k];
            assert(ssml::is_plain(said[i][m]));
        }
    }
    let r = ssml::lines_added(seq![], false, ls);
    assert forall|k: int| 0 <= k < r.len() implies ssml::is_plain(#[trigger] r[k]) by {
        if k < j.len() {
            assert(r[k] == j[k]);
        }
    }
    ssml::law_plain_inline_unchanged(r, 0);
    assert(r.skip(0) =~= r);
}

// ── Code blocks ────────────────────────────────────────────────────────────

/// A line opens or closes a code block exactly where three ticks or three tildes
/// start it, white space aside.
pub proof fn law_fences(a: Seq<char>, rest: Seq<char>)
    requires
        trim::blank(a),
    ensures
        ssml::is_fence(a + seq!['`', '`', '`'] + rest),
        ssml::is_fence(a + seq!['~', '~', '~'] + rest),
        rest.len() > 0 && rest[0] != '`' && rest[0] != '~' && !chars::is_white(rest[0])
            ==> !ssml::is_fence(a + rest),
        rest.len() > 0 && rest[0] != '`' ==> !ssml::is_fence(a + seq!['`'] + rest)
            && !ssml::is_fence(a + seq!['`', '`'] + rest),
{
    reveal_strlit("```");
    reveal_strlit("~~~");
    let tick = seq!['`', '`', '`'];
    let tilde = seq!['~', '~', '~'];
    text_laws::law_blank_start_is_trimmed(a, tick + rest);
    text_laws::law_blank_start_is_trimmed(a, tilde + rest);
    text_laws::law_blank_start_is_trimmed(a, rest);
    text_laws::law_blank_start_is_trimmed(a, seq!['`'] + rest);
    text_laws::law_blank_start_is_trimmed(a, seq!['`', '`'] + rest);
    assert(a + tick + rest =~= a + (tick + rest));
    assert(a + tilde + rest =~= a + (tilde + rest));
    assert(a + seq!['`'] + rest =~= a + (seq!['`'] + rest));
    assert(a + seq!['`', '`'] + rest =~= a + (seq!['`', '`'] + rest));
    assert("```"@ =~= (tick + rest).subrange(0, 3));
    assert("~~~"@ =~= (tilde + rest).subrange(0, 3));
    if rest.len() > 0 {
        lemma_not_started(rest, "```"@, 0);
        lemma_not_started(rest, "~~~"@, 0);
        lemma_not_started(seq!['`'] + rest, "```"@, 1);
        lemma_not_started(seq!['`'] + rest, "~~~"@, 0);
        lemma_not_started(seq!['`', '`'] + rest, "```"@, 2);
        lemma_not_started(seq!['`', '`'] + rest, "~~~"@, 0);
    }
}

proof fn lemma_not_started(s: Seq<char>, p: Seq<char>, i: int)
    ensures
        0 <= i < p.len() && i < s.len() && s[i] != p[i] ==> !p.is_prefix_of(s),
{
    if 0 <= i < p.len() && i < s.len() && s[i] != p[i] && p.is_prefix_of(s) {
        assert(p[i] == s.subrange(0, p.len() as int)[i]);
    }
}

proof fn lemma_fenced_lines(out: Seq<char>, code: Seq<Seq<char>>, rest: Seq<Seq<char>>)
    requires
        forall|i: int| 0 <= i < code.len() ==> !ssml::is_fence(#[trigger] code[i]),
    ensures
        ssml::lines_added(out, true, code + rest) == ssml::lines_added(out, true, rest),
    decreases code.len(),
{
    if code.len() == 0 {
        assert(code + rest =~= rest);
    } else {
        let all = code + rest;
        assert(all[0] == code[0]);
        assert(!ssml::is_fence(code[0]));
        assert(all.skip(1) =~= code.skip(1) + rest);
        assert forall|i: int| 0 <= i < code.skip(1).len() implies !ssml::is_fence(
            #[trigger] code.skip(1)[i],
        ) by {
            assert(code.skip(1)[i] == code[i + 1]);
        }
        lemma_fenced_lines(out, code.skip(1), rest);
    }
}

/// A code block is not spoken: what comes before it and what comes after it are
/// said as if it were not there.
pub proof fn law_code_block_is_silent(
    out: Seq<char>,
    open: Seq<char>,
    code: Seq<Seq<char>>,
    close: Seq<char>,
    rest: Seq<Seq<char>>,
)
    requires
        ssml::is_fence(open),
        ssml::is_fence(close),
        forall|i: int| 0 <= i < code.len() ==> !ssml::is_fence(#[trigger] code[i]),
    ensures
        ssml::lines_added(out, false, seq![open] + (code + (seq![close] + rest)))
            == ssml::lines_added(out, false, rest),
        ssml::lines_added(out, false, seq![open] + code) == out,
{
    let tail = seq![close] + rest;
    let all = seq![open] + (code + tail);
    assert(all[0] == open);
    assert(all.skip(1) =~= code + tail);
    lemma_fenced_lines(out, code, tail);
    assert(tail[0] == close);
    assert(tail.skip(1) =~= rest);
    let none = Seq::<Seq<char>>::empty();
    let part = seq![open] + code;
    assert(part[0] == open);
    assert(part.skip(1) =~= code + none);
    lemma_fenced_lines(out, code, none);
    assert(ssml::lines_added(out, true, none) == out);
}

// ── Headings, lists, numbers ───────────────────────────────────────────────

proof fn lemma_trim_class(p: Seq<char>, x: Seq<char>, k: CharClass)
    requires
        forall|i: int| 0 <= i < p.len() ==> k.has(#[trigger] p[i]),
    ensures
        trim::trimmed_start(p + x, k) == trim::trimmed_start(x, k),
    decreases p.len(),
{
    if p.len() == 0 {
        assert(p + x =~= x);
    } else {
        assert((p + x)[0] == p[0]);
        assert((p + x).skip(1) =~= p.skip(1) + x);
        assert forall|i: int| 0 <= i < p.skip(1).len() implies k.has(#[trigger] p.skip(1)[i]) by {
            assert(p.skip(1)[i] == p[i + 1]);
        }
        lemma_trim_class(p.skip(1), x, k);
    }
}

/// Marks, and the white space around them, come off.
proof fn lemma_marks_off(p: Seq<char>, x: Seq<char>, k: CharClass)
    requires
        forall|i: int| 0 <= i < p.len() ==> k.has(#[trigger] p[i]) && !chars::is_white(p[i]),
        forall|c: char| #[trigger] k.has(c) ==> !chars::is_white(c),
        ({
            let t = trim::trimmed_start(x, CharClass::White);
            t.len() > 0 ==> !k.has(t[0])
        }),
    ensures
        trim::trimmed_start(
            trim::trimmed_start(trim::trimmed_start(p + x, CharClass::White), k),
            CharClass::White,
        ) == trim::trimmed_start(x, CharClass::White),
{
    lemma_trim_white_start(x);
    if p.len() == 0 {
        assert(p + x =~= x);
    } else {
        assert((p + x)[0] == p[0]);
        assert(!chars::is_white(p[0]));
        assert(trim::trimmed_start(p + x, CharClass::White) == p + x);
        lemma_trim_class(p, x, k);
        if x.len() > 0 && !CharClass::White.has(x[0]) {
            assert(trim::trimmed_start(x, CharClass::White) == x);
        }
        assert(trim::trimmed_start(x, k) == x);
    }
}

/// The marks of headings, lists and numbered items come off a line, with the
/// white space around them, and the text behind them stays.
pub proof fn law_line_marks_come_off(
    a: Seq<char>,
    hashes: Seq<char>,
    b: Seq<char>,
    bullets: Seq<char>,
    c: Seq<char>,
    digits: Seq<char>,
    dots: Seq<char>,
    d: Seq<char>,
    body: Seq<char>,
)
    requires
        trim::blank(a),
        trim::blank(b),
        trim::blank(c),
        trim::blank(d),
        forall|i: int| 0 <= i < hashes.len() ==> #[trigger] hashes[i] == '#',
        forall|i: int|
            0 <= i < bullets.len() ==> #[trigger] bullets[i] == '-' || bullets[i] == '*'
                || bullets[i] == '+',
        forall|i: int| 0 <= i < digits.len() ==> '0' <= #[trigger] digits[i] <= '9',
        forall|i: int| 0 <= i < dots.len() ==> #[trigger] dots[i] == '.' || dots[i] == ')',
        body.len() > 0,
        starts_sentence(body[0]) || body[0] == '`' || body[0] == '~',
    ensures
        ssml::line_body(a + (hashes + (b + (bullets + (c + (digits + (dots + (d + body))))))))
            == body,
{
    let w = CharClass::White;
    let x4 = d + body;
    let x3 = dots + x4;
    let x2 = c + (digits + x3);
    let x1 = b + (bullets + x2);
    let x0 = hashes + x1;
    text_laws::law_blank_start_is_trimmed(a, x0);
    text_laws::law_blank_start_is_trimmed(b, bullets + x2);
    text_laws::law_blank_start_is_trimmed(c, digits + x3);
    text_laws::law_blank_start_is_trimmed(d, body);
    assert(!chars::is_white(body[0]));
    assert(trim::trimmed_start(body, w) == body);
    assert(trim::trimmed_start(x4, w) == body);
    // What the text behind the bullets starts with.
    let t3 = trim::trimmed_start(digits + x3, w);
    if digits.len() > 0 {
        assert((digits + x3)[0] == digits[0]);
        assert(t3 == digits + x3);
    } else {
        assert(digits + x3 =~= x3);
        if dots.len() > 0 {
            assert(x3[0] == dots[0]);
            assert(t3 == x3);
        } else {
            assert(x3 =~= x4);
            assert(t3 == body);
        }
    }
    assert(t3.len() > 0 && t3[0] != '#' && t3[0] != '-' && t3[0] != '*' && t3[0] != '+');
    let t2 = trim::trimmed_start(bullets + x2, w);
    if bullets.len() > 0 {
        assert((bullets + x2)[0] == bullets[0]);
        assert(t2 == bullets + x2);
    } else {
        assert(bullets + x2 =~= x2);
        assert(t2 == t3);
    }
    assert(t2.len() > 0 && t2[0] != '#');
    lemma_marks_off(hashes, x1, CharClass::Hash);
    lemma_trim_white_start(bullets + x2);
    lemma_marks_off(bullets, x2, CharClass::Bullet);
    // The numbering.
    let s2 = trim::trimmed_start(t2, w);
    assert(trim::trimmed_start(t3, w) == t3) by {
        lemma_trim_white_start(digits + x3);
    }
    let after_digits = trim::trimmed_start(t3, CharClass::Digit);
    if digits.len() > 0 {
        lemma_trim_class(digits, x3, CharClass::Digit);
        lemma_no_digit_start(x3, dots, x4, d, body);
        assert(after_digits == x3);
    } else if dots.len() > 0 {
        assert(after_digits == x3);
    } else {
        assert(after_digits == body);
    }
    if digits.len() > 0 || dots.len() > 0 {
        lemma_trim_class(dots, x4, CharClass::Numbering);
        assert(trim::trimmed_start(x4, CharClass::Numbering) == x4) by {
            if d.len() > 0 {
                assert(x4[0] == d[0]);
                assert(CharClass::White.has(d[0]));
            } else {
                assert(x4 =~= body);
            }
        }
    } else {
        assert(trim::trimmed_start(body, CharClass::Numbering) == body);
    }
}

proof fn lemma_no_digit_start(
    x3: Seq<char>,
    dots: Seq<char>,
    x4: Seq<char>,
    d: Seq<char>,
    body: Seq<char>,
)
    requires
        x3 == dots + x4,
        x4 == d + body,
        trim::blank(d),
        forall|i: int| 0 <= i < dots.len() ==> #[trigger] dots[i] == '.' || dots[i] == ')',
        body.len() > 0,
        !('0' <= body[0] <= '9'),
    ensures
        trim::trimmed_start(x3, CharClass::Digit) == x3,
{
    if dots.len() > 0 {
        assert(x3[0] == dots[0]);
    } else if d.len() > 0 {
        assert(x3[0] == d[0]);
        assert(CharClass::White.has(d[0]));
    } else {
        assert(x3[0] == body[0]);
    }
}

// ── Tables ─────────────────────────────────────────────────────────────────

proof fn lemma_row_cells(cells: Seq<Seq<char>>)
    requires
        cells.len() > 1,
        forall|i: int| 0 <= i < cells.len() ==> !(#[trigger] cells[i]).contains('|'),
        cells[0].len() > 0,
        cells.last().len() > 0,
    ensures
        ({
            let line = seq!['|'] + split::joined(cells, seq!['|']) + seq!['|'];
            &&& ssml::line_body(line) == line
            &&& ssml::is_row(line)
            &&& ssml::row_cells(line) == Seq::new(
                cells.len(),
                |i: int| trim::trimmed(cells[i]),
            )
        }),
{
    let inner = split::joined(cells, seq!['|']);
    let line = seq!['|'] + inner + seq!['|'];
    text_laws::law_split_undoes_join(cells, '|');
    text_laws::law_joined_ends(cells, seq!['|']);
    assert(line[0] == '|');
    assert(inner[0] == cells[0][0]);
    assert(cells[0].contains(inner[0]));
    assert(cells.last() == cells[cells.len() - 1]);
    assert(inner.last() == cells.last()[cells.last().len() - 1]);
    assert(cells.last().contains(inner.last()));
    assert(line =~= seq!['|'] + (inner + seq!['|']));
    lemma_trim_class(seq!['|'], inner + seq!['|'], CharClass::Pipe);
    assert((inner + seq!['|'])[0] == inner[0]);
    assert(trim::trimmed_start(line, CharClass::Pipe) == inner + seq!['|']);
    assert((inner + seq!['|']).drop_last() =~= inner);
    assert(trim::trimmed_end(inner + seq!['|'], CharClass::Pipe) == trim::trimmed_end(
        inner,
        CharClass::Pipe,
    ));
    assert(trim::trimmed_of(line, CharClass::Pipe) == inner);
    assert(ssml::row_cells(line) =~= Seq::new(cells.len(), |i: int| trim::trimmed(cells[i])));
    text_laws::law_count_of_concatenation(seq!['|'] + inner, seq!['|'], '|');
    text_laws::law_count_of_concatenation(seq!['|'], inner, '|');
    text_laws::law_count_of_character('|', '|');
}

/// A table row is said as its cells, trimmed, with a comma and a space between
/// each two; the line that rules off the head is not said.
pub proof fn law_table_rows(out: Seq<char>, cells: Seq<Seq<char>>)
    requires
        cells.len() > 1,
        forall|i: int| 0 <= i < cells.len() ==> !(#[trigger] cells[i]).contains('|'),
        cells[0].len() > 0,
        cells.last().len() > 0,
    ensures
        ({
            let line = seq!['|'] + split::joined(cells, seq!['|']) + seq!['|'];
            let told = Seq::new(cells.len(), |i: int| trim::trimmed(cells[i]));
            let ruled = forall|i: int, k: int|
                0 <= i < told.len() && 0 <= k < told[i].len() ==> #[trigger] told[i][k] == '-'
                    || told[i][k] == ':';
            &&& ruled ==> ssml::line_added(out, line) == out
            &&& !ruled ==> ssml::line_added(out, line) == ready(out) + trim::trimmed(
                split::joined(told, seq![',', ' ']),
            )
        }),
{
    let line = seq!['|'] + split::joined(cells, seq!['|']) + seq!['|'];
    let told = Seq::new(cells.len(), |i: int| trim::trimmed(cells[i]));
    lemma_row_cells(cells);
    reveal_strlit(", ");
    assert(", "@ =~= seq![',', ' ']);
    lemma_sentence(out, split::joined(told, ", "@));
    let ruled = forall|i: int, k: int|
        0 <= i < told.len() && 0 <= k < told[i].len() ==> #[trigger] told[i][k] == '-'
            || told[i][k] == ':';
    if ruled {
        assert forall|i: int| 0 <= i < told.len() implies ssml::is_rule_cell(#[trigger] told[i]) by {
            assert forall|k: int| 0 <= k < told[i].len() implies #[trigger] told[i][k] == '-'
                || told[i][k] == ':' by {}
        }
        assert(ssml::is_rule(told));
    } else {
        let (i, k) = choose|i: int, k: int|
            0 <= i < told.len() && 0 <= k < told[i].len() && !(#[trigger] told[i][k] == '-'
                || told[i][k] == ':');
        assert(!ssml::is_rule_cell(told[i]));
    }
}

// ── Inline marks ───────────────────────────────────────────────────────────

/// An emphasis mark or a stray pipe goes alone.
pub proof fn law_emphasis_marks_go(c: char, rest: Seq<char>)
    requires
        c == '*' || c == '_' || c == '|',
    ensures
        ssml::inlined(seq![c] + rest, 0) == ssml::inlined(rest, 0),
{
    let s = seq![c] + rest;
    ssml::lemma_inlined_skip(s, 1, 0);
    assert(s.skip(1) =~= rest);
}

/// Nothing is left of nothing.
pub proof fn law_inline_of_nothing()
    ensures
        ssml::inlined(seq![], 0) == Seq::<char>::empty(),
{
}

/// A bracket that opens no link is kept.
pub proof fn law_bracket_without_link_is_kept(rest: Seq<char>)
    requires
        forall|c: int, o: int, e: int|
            0 <= c < o < e < rest.len() ==> !(#[trigger] rest[c] == ']' && #[trigger] rest[o] == '('
                && #[trigger] rest[e] == ')'),
    ensures
        ssml::inlined(seq!['['] + rest, 0) == seq!['['] + ssml::inlined(rest, 0),
{
    let s = seq!['['] + rest;
    find::lemma_first_of(s, 1, ']');
    match find::first_of(s, 1, ']') {
        Some(c) => {
            find::lemma_first_of(s, c + 1, '(');
            match find::first_of(s, c + 1, '(') {
                Some(o) => {
                    find::lemma_first_of(s, o, ')');
                    match find::first_of(s, o, ')') {
                        Some(e) => {
                            assert(s[o] != ')');
                            assert(rest[c - 1] == ']' && rest[o - 1] == '(' && rest[e - 1] == ')');
                        },
                        None => {},
                    }
                },
                None => {},
            }
        },
        None => {},
    }
    ssml::lemma_inlined_skip(s, 1, 0);
    assert(s.skip(1) =~= rest);
}

/// A link leaves its text also where its address does not follow at once.
pub proof fn law_link_with_gap_leaves_its_text(
    t: Seq<char>,
    gap: Seq<char>,
    u: Seq<char>,
    rest: Seq<char>,
)
    requires
        !t.contains(']'),
        !gap.contains('('),
        !u.contains(')'),
    ensures
        ssml::inlined(
            seq!['['] + t + seq![']'] + gap + seq!['('] + u + seq![')'] + rest,
            0,
        ) == t + ssml::inlined(rest, 0),
{
    let s = seq!['['] + t + seq![']'] + gap + seq!['('] + u + seq![')'] + rest;
    let close = t.len() as int + 1;
    let open = close + 1 + gap.len();
    let end = open + 1 + u.len();
    assert(s[close] == ']');
    assert(s[open] == '(');
    assert(s[end] == ')');
    find::lemma_first_of(s, 1, ']');
    find::lemma_first_of(s, close + 1, '(');
    find::lemma_first_of(s, open, ')');
    assert forall|i: int| 1 <= i < close implies s[i] != ']' by {
        assert(s[i] == t[i - 1]);
    }
    assert forall|i: int| close < i < open implies s[i] != '(' by {
        assert(s[i] == gap[i - close - 1]);
    }
    assert forall|i: int| open <= i < end implies s[i] != ')' by {
        if i > open {
            assert(s[i] == u[i - open - 1]);
        }
    }
    assert(find::first_of(s, 1, ']') == Some(close));
    assert(find::first_of(s, close + 1, '(') == Some(open));
    assert(find::first_of(s, open, ')') == Some(end));
    assert(s.subrange(1, close) =~= t);
    ssml::lemma_inlined_skip(s, end + 1, 0);
    assert(s.skip(end + 1) =~= rest);
}

// ── Shortening and speaking ────────────────────────────────────────────────

/// The mark stands in the text more than `half` bytes from its start.
pub open spec fn mark_beyond(s: Seq<char>, mark: Seq<char>, half: int, p: int) -> bool {
    &&& 0 <= p
    &&& p + mark.len() <= s.len()
    &&& s.subrange(p, p + mark.len()) == mark
    &&& find::byte_len(s.take(p)) > half
}

/// The marks that a sentence may be cut at, the preferred ones first.
pub open spec fn sentence_marks() -> Seq<Seq<char>> {
    seq![
        seq!['\n'],
        seq!['.', ' '],
        seq!['!', ' '],
        seq!['?', ' '],
        seq![';', ' '],
        seq![',', ' '],
    ]
}

proof fn lemma_marks()
    ensures
        ssml::cut_marks() == sentence_marks(),
{
    reveal_strlit("\n");
    reveal_strlit(". ");
    reveal_strlit("! ");
    reveal_strlit("? ");
    reveal_strlit("; ");
    reveal_strlit(", ");
    assert("\n"@ =~= seq!['\n']);
    assert(". "@ =~= seq!['.', ' ']);
    assert("! "@ =~= seq!['!', ' ']);
    assert("? "@ =~= seq!['?', ' ']);
    assert("; "@ =~= seq![';', ' ']);
    assert(", "@ =~= seq![',', ' ']);
    assert(ssml::cut_marks() =~= sentence_marks());
}

/// Places further on are more bytes from the start.
proof fn lemma_bytes_grow(s: Seq<char>, p: int, q: int)
    requires
        0 <= p <= q <= s.len(),
    ensures
        find::byte_len(s.take(p)) <= find::byte_len(s.take(q)),
    decreases q - p,
{
    if p < q {
        assert(s.take(q).drop_last() =~= s.take(q - 1));
        lemma_bytes_grow(s, p, q - 1);
    }
}

proof fn lemma_cut_place(s: Seq<char>, marks: Seq<Seq<char>>, half: int)
    requires
        forall|i: int| 0 <= i < marks.len() ==> (#[trigger] marks[i]).len() > 0,
    ensures
        match ssml::cut_place(s, marks, half) {
            Some(p) => exists|k: int|
                {
                    &&& 0 <= k < marks.len()
                    &&& mark_beyond(s, #[trigger] marks[k], half, p)
                    &&& forall|q: int| q > p ==> !mark_beyond(s, marks[k], half, q)
                    &&& forall|j: int, q: int|
                        0 <= j < k ==> !#[trigger] mark_beyond(s, marks[j], half, q)
                },
            None => forall|j: int, q: int|
                0 <= j < marks.len() ==> !#[trigger] mark_beyond(s, marks[j], half, q),
        },
    decreases marks.len(),
{
    if marks.len() > 0 {
        let rest = marks.skip(1);
        let m = marks[0];
        assert forall|i: int| 0 <= i < rest.len() implies (#[trigger] rest[i]).len() > 0 by {
            assert(rest[i] == marks[i + 1]);
        }
        lemma_cut_place(s, rest, half);
        find::lemma_last_of(s, m, s.len() as int);
        let last = find::last_of(s, m, s.len() as int);
        assert forall|q: int| mark_beyond(s, m, half, q) implies last is Some && q <= last->0
            && find::byte_len(s.take(last->0)) > half by {
            assert(find::occurs_at(m, s, q));
            lemma_bytes_grow(s, q, last->0);
        }
        if last is Some && find::byte_len(s.take(last->0)) > half {
            assert(mark_beyond(s, marks[0], half, last->0));
        } else {
            match ssml::cut_place(s, rest, half) {
                Some(p) => {
                    let k = choose|k: int|
                        {
                            &&& 0 <= k < rest.len()
                            &&& mark_beyond(s, #[trigger] rest[k], half, p)
                            &&& forall|q: int| q > p ==> !mark_beyond(s, rest[k], half, q)
                            &&& forall|j: int, q: int|
                                0 <= j < k ==> !#[trigger] mark_beyond(s, rest[j], half, q)
                        };
                    assert(marks[k + 1] == rest[k]);
                    assert forall|j: int, q: int| 0 <= j < k + 1 implies !#[trigger] mark_beyond(
                        s,
                        marks[j],
                        half,
                        q,
                    ) by {
                        if j > 0 {
                            assert(marks[j] == rest[j - 1]);
                        }
                    }
                },
                None => {
                    assert forall|j: int, q: int| 0 <= j < marks.len() implies
                        !#[trigger] mark_beyond(s, marks[j], half, q) by {
                        if j > 0 {
                            assert(marks[j] == rest[j - 1]);
                        }
                    }
                },
            }
        }
    }
}

/// A text that is short enough is kept. Of a longer one its start is kept, up to
/// the last place of the most preferred mark that stands in the second half, and
/// without such a mark all that there is room for; white space at its end goes.
pub proof fn law_where_a_text_is_cut(s: Seq<char>, max: int)
    requires
        0 <= max,
    ensures
        s.len() <= max ==> ssml::shortened(s, max) == s,
        s.len() > max ==> {
            let room = s.take(max);
            let half = max / 2;
            ||| {
                &&& ssml::shortened(s, max) == trim::trimmed_end(room, CharClass::White)
                &&& forall|j: int, q: int|
                    0 <= j < 6 ==> !#[trigger] mark_beyond(room, sentence_marks()[j], half, q)
            }
            ||| exists|k: int, p: int|
                {
                    &&& 0 <= k < 6
                    &&& #[trigger] mark_beyond(room, sentence_marks()[k], half, p)
                    &&& forall|q: int| q > p ==> !mark_beyond(room, sentence_marks()[k], half, q)
                    &&& forall|j: int, q: int|
                        0 <= j < k ==> !#[trigger] mark_beyond(
                            room,
                            sentence_marks()[j],
                            half,
                            q,
                        )
                    &&& ssml::shortened(s, max) == trim::trimmed_end(
                        room.take(p),
                        CharClass::White,
                    )
                }
        },
{
    if s.len() > max {
        lemma_marks();
        let room = s.take(max);
        let half = max / 2;
        lemma_cut_place(room, sentence_marks(), half);
        match ssml::cut_place(room, ssml::cut_marks(), half) {
            Some(p) => {
                let k = choose|k: int|
                    {
                        &&& 0 <= k < sentence_marks().len()
                        &&& mark_beyond(room, #[trigger] sentence_marks()[k], half, p)
                        &&& forall|q: int|
                            q > p ==> !mark_beyond(room, sentence_marks()[k], half, q)
                        &&& forall|j: int, q: int|
                            0 <= j < k ==> !#[trigger] mark_beyond(
                                room,
                                sentence_marks()[j],
                                half,
                                q,
                            )
                    };
                assert(mark_beyond(room, sentence_marks()[k], half, p));
            },
            None => {},
        }
    }
}

/// What is spoken is the stripped text, cut to 1200 characters, escaped, between
/// the tags. A stripped text that fits is spoken whole.
pub proof fn law_spoken_text(s: Seq<char>)
    ensures
        ssml::spoken(s) == "<speak>"@ + trim::trimmed(
            ssml::escaped(ssml::shortened(ssml::stripped(s), 1200)),
        ) + "</speak>"@,
        ssml::stripped(s).len() <= 1200 ==> ssml::spoken(s) == "<speak>"@ + trim::trimmed(
            ssml::escaped(ssml::stripped(s)),
        ) + "</speak>"@,
{
}

/// Each character is escaped by itself: the three that SSML uses by their
/// entities, any other one as it stands.
pub proof fn law_escaped_character(c: char)
    ensures
        ssml::escaped(seq![c]) == if c == '&' {
            seq!['&', 'a', 'm', 'p', ';']
        } else if c == '<' {
            seq!['&', 'l', 't', ';']
        } else if c == '>' {
            seq!['&', 'g', 't', ';']
        } else {
            seq![c]
        },
{
    reveal_strlit("&amp;");
    reveal_strlit("&lt;");
    reveal_strlit("&gt;");
    assert("&amp;"@ =~= seq!['&', 'a', 'm', 'p', ';']);
    assert("&lt;"@ =~= seq!['&', 'l', 't', ';']);
    assert("&gt;"@ =~= seq!['&', 'g', 't', ';']);
    assert(seq![c].drop_last() =~= seq![]);
    assert(ssml::escaped(Seq::<char>::empty()) == Seq::<char>::empty());
    assert(ssml::escaped(seq![c]) =~= ssml::escaped_char(c));
}

/// A line with fewer than two bars is no table row: it is said as it is, behind
/// what was said before.
pub proof fn law_single_bar_is_no_row(out: Seq<char>, line: Seq<char>)
    requires
        find::count_of(ssml::line_body(line), '|') < 2,
        !trim::blank(ssml::line_body(line)),
    ensures
        out.len() == 0 || out.last() == ' ' ==> ssml::line_added(out, line) == out + trim::trimmed(
            ssml::line_body(line),
        ),
        out.len() > 0 && out.last() != ' ' ==> ssml::line_added(out, line) == out + seq![' ']
            + trim::trimmed(ssml::line_body(line)),
{
    if out.len() > 0 && out.last() != ' ' {
        assert(out.push(' ') =~= out + seq![' ']);
    }
}

} // verus!
