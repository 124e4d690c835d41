//! Convert plain/Markdown LLM text into something Amazon TTS can say.

use vstd::prelude::*;

use crate::text::chars::CharClass;
use crate::text::chars::push_chars;
use crate::text::chars::to_chars;
use crate::text::chars::to_text;
use crate::text::find::bytes_of;
use crate::text::find::count;
use crate::text::find::find_from;
use crate::text::find::find_last;
use crate::text::find::starts_with;
use crate::text::find;
use crate::text::split::join;
use crate::text::split::lines;
use crate::text::split::split;
use crate::text::split;
use crate::text::trim::is_blank;
use crate::text::trim::trim;
use crate::text::trim::trim_end_of;
use crate::text::trim::trim_of;
use crate::text::trim::trim_start_of;
use crate::text::trim;

verus! {

broadcast use {vstd::seq::group_seq_axioms, vstd::slice::group_slice_axioms};

/// The longest text that one answer speaks, in characters.
pub const SPEECH_CHARS: usize = 1200;

// ── What the functions compute ─────────────────────────────────────────────

/// A line that opens or closes a code block.
pub open spec fn is_fence(line: Seq<char>) -> bool {
    let t = trim::trimmed_start(line, CharClass::White);
    "```"@.is_prefix_of(t) || "~~~"@.is_prefix_of(t)
}

/// A line without its heading, bullet and numbering marks.
pub open spec fn line_body(line: Seq<char>) -> Seq<char> {
    let t = trim::trimmed_start(line, CharClass::White);
    let t = trim::trimmed_start(trim::trimmed_start(t, CharClass::Hash), CharClass::White);
    let t = trim::trimmed_start(trim::trimmed_start(t, CharClass::Bullet), CharClass::White);
    let t = trim::trimmed_start(trim::trimmed_start(t, CharClass::Digit), CharClass::Numbering);
    trim::trimmed_start(t, CharClass::White)
}

/// A line that is the row of a table.
pub open spec fn is_row(body: Seq<char>) -> bool {
    find::count_of(body, '|') >= 2
}

/// The cells of a table row.
pub open spec fn row_cells(body: Seq<char>) -> Seq<Seq<char>> {
    let parts = split::split_parts(trim::trimmed_of(body, CharClass::Pipe), '|');
    Seq::new(parts.len(), |i: int| trim::trimmed(parts[i]))
}

/// A cell of the line that separates a table's head from its body.
pub open spec fn is_rule_cell(cell: Seq<char>) -> bool {
    forall|i: int| 0 <= i < cell.len() ==> #[trigger] cell[i] == '-' || cell[i] == ':'
}

/// The line that separates a table's head from its body.
pub open spec fn is_rule(cells: Seq<Seq<char>>) -> bool {
    forall|i: int| 0 <= i < cells.len() ==> is_rule_cell(#[trigger] cells[i])
}

/// `out` with a space at its end, unless it is empty or has one.
pub open spec fn spaced(out: Seq<char>) -> Seq<char> {
    if out.len() > 0 && out.last() != ' ' {
        out.push(' ')
    } else {
        out
    }
}

/// `out` followed by one more line.
pub open spec fn sentence_added(out: Seq<char>, line: Seq<char>) -> Seq<char> {
    if trim::blank(line) {
        spaced(out)
    } else {
        spaced(out) + trim::trimmed(line)
    }
}

/// `out` followed by what a line outside code blocks says.
pub open spec fn line_added(out: Seq<char>, line: Seq<char>) -> Seq<char> {
    let body = line_body(line);
    if !is_row(body) {
        sentence_added(out, body)
    } else if is_rule(row_cells(body)) {
        out
    } else {
        sentence_added(out, split::joined(row_cells(body), ", "@))
    }
}

/// `out` followed by what the lines say; `fenced` tells whether they start
/// inside a code block.
pub open spec fn lines_added(out: Seq<char>, fenced: bool, ls: Seq<Seq<char>>) -> Seq<char>
    decreases ls.len(),
{
    if ls.len() == 0 {
        out
    } else if is_fence(ls[0]) {
        lines_added(out, !fenced, ls.skip(1))
    } else if fenced {
        lines_added(out, fenced, ls.skip(1))
    } else {
        lines_added(line_added(out, ls[0]), fenced, ls.skip(1))
    }
}

/// Where the link that opens at `k` closes its text and its address.
pub open spec fn link_at(s: Seq<char>, k: int) -> Option<(int, int)> {
    match find::first_of(s, k + 1, ']') {
        Some(close) => match find::first_of(s, close + 1, '(') {
            Some(open) => match find::first_of(s, open, ')') {
                Some(end) => Some((close, end)),
                None => None,
            },
            None => None,
        },
        None => None,
    }
}

/// `s` from position `k` on without inline marks: a code span keeps its content
/// and loses its ticks, stray ticks, pipes and emphasis marks go, a link leaves
/// its text.
pub open spec fn inlined(s: Seq<char>, k: int) -> Seq<char>
    decreases s.len() - k,
{
    if k < 0 || k >= s.len() {
        seq![]
    } else if s[k] == '`' {
        match find::first_of(s, k + 1, '`') {
            Some(e) => if k < e < s.len() {
                s.subrange(k + 1, e) + inlined(s, e + 1)
            } else {
                seq![]
            },
            None => inlined(s, k + 1),
        }
    } else if s[k] == '|' || s[k] == '*' || s[k] == '_' {
        inlined(s, k + 1)
    } else if s[k] == '[' {
        match link_at(s, k) {
            Some((close, end)) => if k < close < end < s.len() {
                s.subrange(k + 1, close) + inlined(s, end + 1)
            } else {
                seq![]
            },
            None => seq!['['] + inlined(s, k + 1),
        }
    } else {
        seq![s[k]] + inlined(s, k + 1)
    }
}

/// A text without its Markdown.
pub open spec fn stripped(s: Seq<char>) -> Seq<char> {
    inlined(lines_added(seq![], false, split::text_lines(s)), 0)
}

/// A character as SSML writes it.
pub open spec fn escaped_char(c: char) -> Seq<char> {
    if c == '&' {
        "&amp;"@
    } else if c == '<' {
        "&lt;"@
    } else if c == '>' {
        "&gt;"@
    } else {
        seq![c]
    }
}

/// A text as SSML writes it.
pub open spec fn escaped(s: Seq<char>) -> Seq<char>
    decreases s.len(),
{
    if s.len() == 0 {
        seq![]
    } else {
        escaped(s.drop_last()) + escaped_char(s.last())
    }
}

/// The marks that a long text may be cut at, the preferred ones first.
pub open spec fn cut_marks() -> Seq<Seq<char>> {
    seq!["\n"@, ". "@, "! "@, "? "@, "; "@, ", "@]
}

/// The last place of the first mark that has one more than `half` bytes into
/// the text.
pub open spec fn cut_place(s: Seq<char>, marks: Seq<Seq<char>>, half: int) -> Option<int>
    decreases marks.len(),
{
    if marks.len() == 0 {
        None
    } else {
        match find::last_of(s, marks[0], s.len() as int) {
            Some(p) => if find::byte_len(s.take(p)) > half {
                Some(p)
            } else {
                cut_place(s, marks.skip(1), half)
            },
            None => cut_place(s, marks.skip(1), half),
        }
    }
}

/// A text cut to `max` characters, at a sentence boundary where there is one in
/// its second half.
pub open spec fn shortened(s: Seq<char>, max: int) -> Seq<char> {
    if s.len() <= max {
        s
    } else {
        let limited = s.take(max);
        match cut_place(limited, cut_marks(), max / 2) {
            Some(p) => trim::trimmed_end(limited.take(p), CharClass::White),
            None => trim::trimmed_end(limited, CharClass::White),
        }
    }
}

/// A text between the tags of a spoken answer.
pub open spec fn wrapped(s: Seq<char>) -> Seq<char> {
    "<speak>"@ + trim::trimmed(s) + "</speak>"@
}

/// The SSML that speaks a text.
pub open spec fn spoken(s: Seq<char>) -> Seq<char> {
    wrapped(escaped(shortened(stripped(s), SPEECH_CHARS as int)))
}

// ── The functions ──────────────────────────────────────────────────────────

/// Wrap arbitrary (already cleaned) content in `<speak>`.
pub fn wrap(inner: &str) -> (r: String)
    ensures
        r@ == wrapped(inner@),
{
    let cs = to_chars(inner);
    let t = to_text(trim(cs.as_slice()));
    crate::text::chars::concat3("<speak>", t.as_str(), "</speak>")
}

/// Full pipeline: strip markdown, truncate, escape, wrap.
pub fn speak(text: &str) -> (r: String)
    ensures
        r@ == spoken(text@),
{
    let plain = strip_markdown(text);
    let cleaned = truncate_sentence(plain.as_str(), SPEECH_CHARS);
    let safe = escape_ssml(cleaned.as_str());
    wrap(safe.as_str())
}

/// Remove Markdown constructs that would be read awkwardly or unsupported.
pub fn strip_markdown(input: &str) -> (r: String)
    ensures
        r@ == stripped(input@),
{
    let cs = to_chars(input);
    let ls = lines(cs.as_slice());
    let ghost all = split::text_lines(input@);
    let mut out: Vec<char> = Vec::new();
    let mut fenced = false;
    let mut i: usize = 0;
    assert(all.skip(0) == all);
    while i < ls.len()
        invariant
            i <= ls@.len(),
            all == split::texts(ls@),
            lines_added(out@, fenced, all.skip(i as int)) == lines_added(seq![], false, all),
        decreases ls@.len() - i,
    {
        let line = ls[i];
        let ghost rest = all.skip(i as int);
        proof {
            assert(rest[0] == line@);
            assert(rest.skip(1) == all.skip(i + 1));
        }
        if fence(line) {
            fenced = !fenced;
        } else if !fenced {
            add_line(&mut out, line);
        }
        i = i + 1;
    }
    assert(all.skip(i as int).len() == 0);
    to_text(inline(out.as_slice()).as_slice())
}

fn fence(line: &[char]) -> (r: bool)
    ensures
        r == is_fence(line@),
{
    let t = trim_start_of(line, CharClass::White);
    starts_with(t, to_chars("```").as_slice()) || starts_with(t, to_chars("~~~").as_slice())
}

fn body_of<'a>(line: &'a [char]) -> (r: &'a [char])
    ensures
        r@ == line_body(line@),
{
    let t = trim_start_of(line, CharClass::White);
    let t = trim_start_of(trim_start_of(t, CharClass::Hash), CharClass::White);
    let t = trim_start_of(trim_start_of(t, CharClass::Bullet), CharClass::White);
    let t = trim_start_of(trim_start_of(t, CharClass::Digit), CharClass::Numbering);
    trim_start_of(t, CharClass::White)
}

fn cells_of<'a>(body: &'a [char]) -> (r: Vec<&'a [char]>)
    ensures
        split::texts(r@) == row_cells(body@),
{
    let parts = split(trim_of(body, CharClass::Pipe), '|');
    let mut out: Vec<&'a [char]> = Vec::new();
    let mut i: usize = 0;
    while i < parts.len()
        invariant
            i <= parts@.len(),
            out@.len() == i,
            forall|j: int| 0 <= j < i ==> (#[trigger] out@[j])@ == trim::trimmed(split::texts(parts@)[j]),
        decreases parts@.len() - i,
    {
        out.push(trim(parts[i]));
        i = i + 1;
    }
    assert(split::texts(out@) =~= row_cells(body@));
    out
}

fn rule_line(cells: &Vec<&[char]>) -> (r: bool)
    ensures
        r == is_rule(split::texts(cells@)),
{
    let mut i: usize = 0;
    while i < cells.len()
        invariant
            i <= cells@.len(),
            forall|j: int| 0 <= j < i ==> is_rule_cell(#[trigger] split::texts(cells@)[j]),
        decreases cells@.len() - i,
    {
        let cell = cells[i];
        let mut k: usize = 0;
        while k < cell.len()
            invariant
                k <= cell@.len(),
                i < cells@.len(),
                cell@ == split::texts(cells@)[i as int],
                forall|j: int| 0 <= j < k ==> #[trigger] cell@[j] == '-' || cell@[j] == ':',
            decreases cell@.len() - k,
        {
            if cell[k] != '-' && cell[k] != ':' {
                assert(!is_rule_cell(split::texts(cells@)[i as int]));
                return false;
            }
            k = k + 1;
        }
        i = i + 1;
    }
    true
}

fn add_line(out: &mut Vec<char>, line: &[char])
    ensures
        final(out)@ == line_added(old(out)@, line@),
{
    let body = body_of(line);
    if count(body, '|') >= 2 {
        let cells = cells_of(body);
        if !rule_line(&cells) {
            let row = join(&cells, to_chars(", ").as_slice());
            push_sentence(out, row.as_slice());
        }
    } else {
        push_sentence(out, body);
    }
}

/// Appends a line with one space before it; of a blank line only the space.
pub fn push_sentence(out: &mut Vec<char>, line: &[char])
    ensures
        final(out)@ == sentence_added(old(out)@, line@),
{
    if out.len() > 0 && out[out.len() - 1] != ' ' {
        out.push(' ');
    }
    if !is_blank(line) {
        push_chars(out, trim(line));
    }
}

/// Inline markdown: code spans, bold/italic, links.
pub fn inline(s: &[char]) -> (r: Vec<char>)
    ensures
        r@ == inlined(s@, 0),
{
    let mut out: Vec<char> = Vec::new();
    let mut k: usize = 0;
    assert(out@ + inlined(s@, 0) == inlined(s@, 0));
    while k < s.len()
        invariant
            k <= s@.len(),
            out@ + inlined(s@, k as int) == inlined(s@, 0),
        decreases s@.len() - k,
    {
        let c = s[k];
        let n: usize = s.len();
        let ghost before = out@;
        if c == '`' {
            proof {
                crate::text::find::lemma_first_of(s@, k + 1, '`');
            }
            match find_from(s, k + 1, '`') {
                Some(e) => {
                    // Keep the content, drop the ticks.
                    let code = vstd::slice::slice_subrange(s, k + 1, e);
                    push_chars(&mut out, code);
                    k = e + 1;
                    assert(before + (code@ + inlined(s@, k as int)) == before + code@ + inlined(
                        s@,
                        k as int,
                    ));
                },
                None => {
                    k = k + 1;
                },
            }
        } else if c == '|' || c == '*' || c == '_' {
            k = k + 1;
        } else if c == '[' {
            match link(s, k) {
                Some((close, end)) => {
                    let text = vstd::slice::slice_subrange(s, k + 1, close);
                    push_chars(&mut out, text);
                    // Go on behind the link.
                    k = end + 1;
                    assert(before + (text@ + inlined(s@, k as int)) == before + text@ + inlined(
                        s@,
                        k as int,
                    ));
                },
                None => {
                    out.push(c);
                    assert(before + (seq!['['] + inlined(s@, k + 1)) == before.push(c) + inlined(
                        s@,
                        k + 1,
                    ));
                    k = k + 1;
                },
            }
        } else {
            out.push(c);
            assert(before + (seq![c] + inlined(s@, k + 1)) == before.push(c) + inlined(s@, k + 1));
            k = k + 1;
        }
    }
    assert(inlined(s@, k as int) == Seq::<char>::empty());
    assert(out@ + inlined(s@, k as int) == out@);
    out
}

fn link(s: &[char], k: usize) -> (r: Option<(usize, usize)>)
    requires
        k < s@.len(),
    ensures
        match r {
            Some((close, end)) => {
                &&& k < close < end < s@.len()
                &&& link_at(s@, k as int) == Some((close as int, end as int))
            },
            None => link_at(s@, k as int) is None,
        },
{
    let n: usize = s.len();
    proof {
        crate::text::find::lemma_first_of(s@, k + 1, ']');
    }
    match find_from(s, k + 1, ']') {
        Some(close) => {
            proof {
                crate::text::find::lemma_first_of(s@, close + 1, '(');
            }
            match find_from(s, close + 1, '(') {
                Some(open) => {
                    proof {
                        crate::text::find::lemma_first_of(s@, open as int, ')');
                    }
                    match find_from(s, open, ')') {
                        Some(end) => Some((close, end)),
                        None => None,
                    }
                },
                None => None,
            }
        },
        None => None,
    }
}

/// Escape SSML special characters.
pub fn escape_ssml(s: &str) -> (r: String)
    ensures
        r@ == escaped(s@),
{
    let cs = to_chars(s);
    let mut out = String::new();
    let mut i: usize = 0;
    while i < cs.len()
        invariant
            i <= cs@.len(),
            cs@ == s@,
            out@ == escaped(s@.take(i as int)),
        decreases cs@.len() - i,
    {
        let c = cs[i];
        assert(s@.take(i + 1).drop_last() == s@.take(i as int));
        if c == '&' {
            out.append("&amp;");
        } else if c == '<' {
            out.append("&lt;");
        } else if c == '>' {
            out.append("&gt;");
        } else {
            out.push(c);
            assert(out@ == escaped(s@.take(i as int)) + seq![c]);
        }
        i = i + 1;
    }
    assert(s@.take(i as int) == s@);
    out
}

/// Truncate to `max` chars at a sentence boundary so TTS stays sane.
pub fn truncate_sentence(s: &str, max: usize) -> (r: String)
    ensures
        r@ == shortened(s@, max as int),
{
    let cs = to_chars(s);
    if cs.len() <= max {
        return crate::text::chars::owned(s);
    }
    let limited = vstd::slice::slice_subrange(cs.as_slice(), 0, max);
    assert(limited@ == s@.take(max as int));
    let mut marks: Vec<Vec<char>> = Vec::new();
    marks.push(to_chars("\n"));
    marks.push(to_chars(". "));
    marks.push(to_chars("! "));
    marks.push(to_chars("? "));
    marks.push(to_chars("; "));
    marks.push(to_chars(", "));
    let ghost all = cut_marks();
    let mut i: usize = 0;
    assert(all.skip(0) == all);
    while i < marks.len()
        invariant
            i <= marks@.len(),
            marks@.len() == all.len(),
            forall|j: int| 0 <= j < all.len() ==> (#[trigger] marks@[j])@ == all[j],
            limited@ == s@.take(max as int),
            s@.len() > max,
            all == cut_marks(),
            cut_place(limited@, all.skip(i as int), max as int / 2) == cut_place(
                limited@,
                all,
                max as int / 2,
            ),
        decreases marks@.len() - i,
    {
        proof {
            assert(all.skip(i as int)[0] == all[i as int]);
            assert(all.skip(i as int).skip(1) == all.skip(i + 1));
        }
        match find_last(limited, marks[i].as_slice()) {
            Some(p) => {
                let head = vstd::slice::slice_subrange(limited, 0, p);
                assert(head@ == limited@.take(p as int));
                if bytes_of(head) > (max / 2) as u128 {
                    return to_text(trim_end_of(head, CharClass::White));
                }
            },
            None => {},
        }
        i = i + 1;
    }
    assert(all.skip(i as int).len() == 0);
    to_text(trim_end_of(limited, CharClass::White))
}

// ── Laws ───────────────────────────────────────────────────────────────────

/// What SSML reads back: each entity is the character it stands for.
pub open spec fn unescaped(t: Seq<char>) -> Seq<char>
    decreases t.len(),
{
    if t.len() == 0 {
        seq![]
    } else if "&amp;"@.is_prefix_of(t) && "&amp;"@.len() > 0 {
        seq!['&'] + unescaped(t.skip("&amp;"@.len() as int))
    } else if "&lt;"@.is_prefix_of(t) && "&lt;"@.len() > 0 {
        seq!['<'] + unescaped(t.skip("&lt;"@.len() as int))
    } else if "&gt;"@.is_prefix_of(t) && "&gt;"@.len() > 0 {
        seq!['>'] + unescaped(t.skip("&gt;"@.len() as int))
    } else {
        seq![t[0]] + unescaped(t.skip(1))
    }
}

/// An escaped text holds neither of the characters that open and close tags.
pub proof fn law_escaped_has_no_tags(s: Seq<char>)
    ensures
        forall|i: int|
            0 <= i < escaped(s).len() ==> #[trigger] escaped(s)[i] != '<' && escaped(s)[i] != '>',
    decreases s.len(),
{
    reveal_strlit("&amp;");
    reveal_strlit("&lt;");
    reveal_strlit("&gt;");
    if s.len() > 0 {
        law_escaped_has_no_tags(s.drop_last());
        let h = escaped(s.drop_last());
        let t = escaped_char(s.last());
        assert forall|i: int| 0 <= i < escaped(s).len() implies #[trigger] escaped(s)[i] != '<'
            && escaped(s)[i] != '>' by {
            if i < h.len() {
                assert(escaped(s)[i] == h[i]);
            } else {
                assert(escaped(s)[i] == t[i - h.len()]);
            }
        }
    }
}

/// Escaping grows a text to at most five times its length.
pub proof fn law_escaped_length(s: Seq<char>)
    ensures
        s.len() <= escaped(s).len() <= 5 * s.len(),
    decreases s.len(),
{
    reveal_strlit("&amp;");
    reveal_strlit("&lt;");
    reveal_strlit("&gt;");
    if s.len() > 0 {
        law_escaped_length(s.drop_last());
    }
}

/// A shortened text has at most `max` characters and is a head of the text.
pub proof fn law_shortened(s: Seq<char>, max: int)
    requires
        0 <= max,
    ensures
        shortened(s, max).len() <= max,
        shortened(s, max).is_prefix_of(s),
{
    if s.len() > max {
        let limited = s.take(max);
        lemma_cut_place(limited, cut_marks(), max / 2);
        match cut_place(limited, cut_marks(), max / 2) {
            Some(p) => {
                let head = limited.take(p);
                trim::lemma_trimmed_end(head, CharClass::White);
                let n = trim::trimmed_end(head, CharClass::White).len() as int;
                assert(head.take(n) == s.take(n));
            },
            None => {
                trim::lemma_trimmed_end(limited, CharClass::White);
                let n = trim::trimmed_end(limited, CharClass::White).len() as int;
                assert(limited.take(n) == s.take(n));
            },
        }
    } else {
        assert(s.take(s.len() as int) == s);
    }
}

proof fn lemma_cut_place(s: Seq<char>, marks: Seq<Seq<char>>, half: int)
    ensures
        cut_place(s, marks, half) matches Some(p) ==> 0 <= p <= s.len(),
    decreases marks.len(),
{
    if marks.len() > 0 {
        find::lemma_last_of(s, marks[0], s.len() as int);
        lemma_cut_place(s, marks.skip(1), half);
    }
}

/// What is spoken stands between the tags, holds no tag of its own and is at
/// most five times the speech limit long.
pub proof fn law_spoken_shape(s: Seq<char>)
    ensures
        exists|inner: Seq<char>|
            {
                &&& spoken(s) == #[trigger] ("<speak>"@ + inner) + "</speak>"@
                &&& inner.len() <= 5 * SPEECH_CHARS
                &&& forall|i: int| 0 <= i < inner.len() ==> #[trigger] inner[i] != '<' && inner[i] != '>'
            },
{
    let short = shortened(stripped(s), SPEECH_CHARS as int);
    let esc = escaped(short);
    let inner = trim::trimmed(esc);
    let a = trim::trimmed_start(esc, CharClass::White);
    law_shortened(stripped(s), SPEECH_CHARS as int);
    law_escaped_length(short);
    law_escaped_has_no_tags(short);
    trim::lemma_trimmed_start(esc, CharClass::White);
    trim::lemma_trimmed_end(a, CharClass::White);
    assert forall|i: int| 0 <= i < inner.len() implies #[trigger] inner[i] != '<' && inner[i] != '>' by {
        assert(inner[i] == a[i]);
        assert(a[i] == esc[esc.len() - a.len() + i]);
    }
    assert(spoken(s) == ("<speak>"@ + inner) + "</speak>"@);
}

/// Reading back an escaped text gives the text.
pub proof fn law_escape_roundtrip(s: Seq<char>)
    ensures
        unescaped(escaped(s)) == s,
    decreases s.len(),
{
    reveal_strlit("&amp;");
    reveal_strlit("&lt;");
    reveal_strlit("&gt;");
    if s.len() > 0 {
        let c = s[0];
        let rest = escaped(s.skip(1));
        let t = escaped(s);
        lemma_escaped_first(s);
        law_escape_roundtrip(s.skip(1));
        if c == '&' {
            assert(t.take(5) == "&amp;"@);
            assert(t.skip("&amp;"@.len() as int) == rest);
        } else if c == '<' {
            assert(t.take(4) == "&lt;"@);
            assert(t.skip("&lt;"@.len() as int) == rest);
            assert(t[1] == 'l');
            assert("&amp;"@[1] == 'a');
        } else if c == '>' {
            assert(t.take(4) == "&gt;"@);
            assert(t.skip("&gt;"@.len() as int) == rest);
            assert(t[1] == 'g');
            assert("&amp;"@[1] == 'a');
            assert("&lt;"@[1] == 'l');
        } else {
            assert(t[0] == c);
            assert(t.skip(1) == rest);
            assert("&amp;"@[0] == '&');
            assert("&lt;"@[0] == '&');
            assert("&gt;"@[0] == '&');
        }
        assert(s == seq![c] + s.skip(1));
    } else {
        assert(unescaped(escaped(s)) == s);
    }
}

/// Escaping a text piece by piece is escaping the text.
pub proof fn law_escape_of_concatenation(a: Seq<char>, b: Seq<char>)
    ensures
        escaped(a + b) == escaped(a) + escaped(b),
    decreases b.len(),
{
    if b.len() == 0 {
        assert(a + b == a);
        assert(escaped(a) + escaped(b) == escaped(a));
    } else {
        assert((a + b).drop_last() == a + b.drop_last());
        law_escape_of_concatenation(a, b.drop_last());
        assert(escaped(a) + escaped(b.drop_last()) + escaped_char(b.last()) == escaped(a)
            + escaped(b));
    }
}

/// A character as SSML writes it, for some of the three characters only.
spec fn partly_char(c: char, lt: bool, gt: bool) -> Seq<char> {
    if (c == '<' && !lt) || (c == '>' && !gt) {
        seq![c]
    } else {
        escaped_char(c)
    }
}

/// A text as SSML writes it, for some of the three characters only.
spec fn partly_escaped(s: Seq<char>, lt: bool, gt: bool) -> Seq<char>
    decreases s.len(),
{
    if s.len() == 0 {
        seq![]
    } else {
        partly_char(s[0], lt, gt) + partly_escaped(s.skip(1), lt, gt)
    }
}

proof fn lemma_partly_escaped(s: Seq<char>)
    ensures
        partly_escaped(s, true, true) == escaped(s),
    decreases s.len(),
{
    if s.len() > 0 {
        lemma_escaped_first(s);
        lemma_partly_escaped(s.skip(1));
    } else {
        assert(partly_escaped(s, true, true) == escaped(s));
    }
}

/// Characters that start no occurrence are passed over.
proof fn lemma_replace_passes(h: Seq<char>, t: Seq<char>, from: Seq<char>, to: Seq<char>)
    requires
        from.len() > 0,
        forall|i: int| 0 <= i < h.len() ==> !from.is_prefix_of(#[trigger] (h + t).skip(i)),
    ensures
        split::replaced_text(h + t, from, to) == h + split::replaced_text(t, from, to),
    decreases h.len(),
{
    let s = h + t;
    if h.len() == 0 {
        assert(s == t);
        assert(h + split::replaced_text(t, from, to) == split::replaced_text(t, from, to));
    } else {
        let g = h.skip(1);
        assert(s.skip(0) == s);
        assert(s.skip(1) == g + t);
        assert forall|i: int| 0 <= i < g.len() implies !from.is_prefix_of(
            #[trigger] (g + t).skip(i),
        ) by {
            assert((g + t).skip(i) == s.skip(i + 1));
        }
        lemma_replace_passes(g, t, from, to);
        assert(seq![s[0]] + (g + split::replaced_text(t, from, to)) == h + split::replaced_text(
            t,
            from,
            to,
        ));
    }
}

proof fn lemma_replace_hits(from: Seq<char>, t: Seq<char>, to: Seq<char>)
    requires
        from.len() > 0,
    ensures
        split::replaced_text(from + t, from, to) == to + split::replaced_text(t, from, to),
{
    let s = from + t;
    assert(s.subrange(0, from.len() as int) == from);
    assert(s.skip(from.len() as int) == t);
}

/// No text that starts otherwise than an entity starts with the entity.
proof fn lemma_not_entity(s: Seq<char>, from: Seq<char>, i: int)
    requires
        0 <= i < from.len(),
        i < s.len(),
        s[i] != from[i],
    ensures
        !from.is_prefix_of(s),
{
    if from.is_prefix_of(s) {
        assert(from == s.subrange(0, from.len() as int));
        assert(from[i] == s.subrange(0, from.len() as int)[i]);
    }
}

/// An entity is passed over where another one is replaced; so is a character.
proof fn lemma_replace_other(h: Seq<char>, t: Seq<char>, from: Seq<char>, to: Seq<char>)
    requires
        from.len() > 1,
        from[0] == '&',
        h.len() > 0,
        h[0] != '&' || (h.len() > 1 && h[1] != from[1]),
        forall|i: int| 1 <= i < h.len() ==> #[trigger] h[i] != '&',
    ensures
        split::replaced_text(h + t, from, to) == h + split::replaced_text(t, from, to),
{
    let s = h + t;
    assert forall|i: int| 0 <= i < h.len() implies !from.is_prefix_of(#[trigger] s.skip(i)) by {
        let u = s.skip(i);
        assert(u[0] == h[i]);
        if i == 0 && h[0] == '&' {
            assert(u[1] == h[1]);
            lemma_not_entity(u, from, 1);
        } else {
            lemma_not_entity(u, from, 0);
        }
    }
    lemma_replace_passes(h, t, from, to);
}

proof fn lemma_undo_lt(s: Seq<char>)
    ensures
        split::replaced_text(partly_escaped(s, true, true), "&lt;"@, seq!['<']) == partly_escaped(
            s,
            false,
            true,
        ),
    decreases s.len(),
{
    reveal_strlit("&amp;");
    reveal_strlit("&lt;");
    reveal_strlit("&gt;");
    if s.len() > 0 {
        lemma_undo_lt(s.skip(1));
        let t = partly_escaped(s.skip(1), true, true);
        if s[0] == '<' {
            lemma_replace_hits("&lt;"@, t, seq!['<']);
        } else {
            lemma_replace_other(partly_char(s[0], true, true), t, "&lt;"@, seq!['<']);
        }
    } else {
        assert(split::replaced_text(partly_escaped(s, true, true), "&lt;"@, seq!['<']) == Seq::<
            char,
        >::empty());
    }
}

proof fn lemma_undo_gt(s: Seq<char>)
    ensures
        split::replaced_text(partly_escaped(s, false, true), "&gt;"@, seq!['>']) == partly_escaped(
            s,
            false,
            false,
        ),
    decreases s.len(),
{
    reveal_strlit("&amp;");
    reveal_strlit("&lt;");
    reveal_strlit("&gt;");
    if s.len() > 0 {
        lemma_undo_gt(s.skip(1));
        let t = partly_escaped(s.skip(1), false, true);
        if s[0] == '>' {
            lemma_replace_hits("&gt;"@, t, seq!['>']);
        } else {
            lemma_replace_other(partly_char(s[0], false, true), t, "&gt;"@, seq!['>']);
        }
    } else {
        assert(split::replaced_text(partly_escaped(s, false, true), "&gt;"@, seq!['>']) == Seq::<
            char,
        >::empty());
    }
}

proof fn lemma_undo_amp(s: Seq<char>)
    ensures
        split::replaced_text(partly_escaped(s, false, false), "&amp;"@, seq!['&']) == s,
    decreases s.len(),
{
    reveal_strlit("&amp;");
    if s.len() > 0 {
        lemma_undo_amp(s.skip(1));
        let t = partly_escaped(s.skip(1), false, false);
        if s[0] == '&' {
            lemma_replace_hits("&amp;"@, t, seq!['&']);
        } else {
            lemma_replace_other(partly_char(s[0], false, false), t, "&amp;"@, seq!['&']);
        }
        assert(seq![s[0]] + s.skip(1) == s);
    } else {
        assert(split::replaced_text(partly_escaped(s, false, false), "&amp;"@, seq!['&']) == s);
    }
}

/// Replacing the entities one after the other, that of the ampersand last, gives
/// the text back.
pub proof fn law_entities_replaced_give_text(s: Seq<char>)
    ensures
        split::replaced_text(
            split::replaced_text(
                split::replaced_text(escaped(s), "&lt;"@, seq!['<']),
                "&gt;"@,
                seq!['>'],
            ),
            "&amp;"@,
            seq!['&'],
        ) == s,
{
    lemma_partly_escaped(s);
    lemma_undo_lt(s);
    lemma_undo_gt(s);
    lemma_undo_amp(s);
}

proof fn lemma_escaped_first(s: Seq<char>)
    requires
        s.len() > 0,
    ensures
        escaped(s) == escaped_char(s[0]) + escaped(s.skip(1)),
    decreases s.len(),
{
    if s.len() == 1 {
        assert(s.drop_last() == Seq::<char>::empty());
        assert(s.skip(1) == Seq::<char>::empty());
        assert(escaped(s) == escaped_char(s[0]) + escaped(s.skip(1)));
    } else {
        lemma_escaped_first(s.drop_last());
        assert(s.drop_last().skip(1) == s.skip(1).drop_last());
        assert(escaped(s) == escaped_char(s[0]) + escaped(s.skip(1)));
    }
}

/// Looking in the rest of a text finds the same places.
proof fn lemma_first_of_skip(s: Seq<char>, k: int, i: int, c: char)
    requires
        0 <= k <= s.len(),
        0 <= i,
    ensures
        match find::first_of(s.skip(k), i, c) {
            Some(j) => find::first_of(s, k + i, c) == Some(k + j),
            None => find::first_of(s, k + i, c) is None,
        },
    decreases s.len() - k - i,
{
    if k + i < s.len() {
        assert(s.skip(k)[i] == s[k + i]);
        if s[k + i] != c {
            lemma_first_of_skip(s, k, i + 1, c);
        }
    }
}

proof fn lemma_link_skip(s: Seq<char>, k: int, i: int)
    requires
        0 <= k <= s.len(),
        0 <= i,
    ensures
        match link_at(s.skip(k), i) {
            Some((close, end)) => link_at(s, k + i) == Some((k + close, k + end)),
            None => link_at(s, k + i) is None,
        },
{
    let t = s.skip(k);
    lemma_first_of_skip(s, k, i + 1, ']');
    find::lemma_first_of(t, i + 1, ']');
    match find::first_of(t, i + 1, ']') {
        Some(close) => {
            lemma_first_of_skip(s, k, close + 1, '(');
            find::lemma_first_of(t, close + 1, '(');
            match find::first_of(t, close + 1, '(') {
                Some(open) => {
                    lemma_first_of_skip(s, k, open, ')');
                },
                None => {},
            }
        },
        None => {},
    }
}

/// What stands before a place does not matter to what is read from it on.
pub proof fn lemma_inlined_skip(s: Seq<char>, k: int, i: int)
    requires
        0 <= k <= s.len(),
        0 <= i,
    ensures
        inlined(s, k + i) == inlined(s.skip(k), i),
    decreases s.len() - k - i,
{
    let t = s.skip(k);
    if k + i < s.len() {
        assert(t[i] == s[k + i]);
        if t[i] == '`' {
            lemma_first_of_skip(s, k, i + 1, '`');
            find::lemma_first_of(t, i + 1, '`');
            match find::first_of(t, i + 1, '`') {
                Some(e) => {
                    lemma_inlined_skip(s, k, e + 1);
                    assert(t.subrange(i + 1, e) == s.subrange(k + i + 1, k + e));
                },
                None => {
                    lemma_inlined_skip(s, k, i + 1);
                },
            }
        } else if t[i] == '[' {
            lemma_link_skip(s, k, i);
            lemma_link_at(t, i);
            match link_at(t, i) {
                Some((close, end)) => {
                    lemma_inlined_skip(s, k, end + 1);
                    assert(t.subrange(i + 1, close) == s.subrange(k + i + 1, k + close));
                },
                None => {
                    lemma_inlined_skip(s, k, i + 1);
                },
            }
        } else {
            lemma_inlined_skip(s, k, i + 1);
        }
    }
}

/// A link closes its text behind its opening, and its address behind its text.
proof fn lemma_link_at(s: Seq<char>, k: int)
    requires
        0 <= k,
    ensures
        link_at(s, k) matches Some((close, end)) ==> k < close < end < s.len(),
{
    find::lemma_first_of(s, k + 1, ']');
    match find::first_of(s, k + 1, ']') {
        Some(close) => {
            find::lemma_first_of(s, close + 1, '(');
            match find::first_of(s, close + 1, '(') {
                Some(open) => {
                    find::lemma_first_of(s, open, ')');
                },
                None => {},
            }
        },
        None => {},
    }
}

/// A link leaves its text, and what follows it is kept.
pub proof fn law_link_leaves_its_text(t: Seq<char>, u: Seq<char>, rest: Seq<char>)
    requires
        !t.contains(']'),
        !u.contains(')'),
    ensures
        inlined(seq!['['] + t + seq![']', '('] + u + seq![')'] + rest, 0) == t + inlined(rest, 0),
{
    let s = seq!['['] + t + seq![']', '('] + u + seq![')'] + rest;
    let close = t.len() as int + 1;
    let open = close + 1;
    let end = open + 1 + u.len();
    assert forall|i: int| 1 <= i < close implies s[i] == #[trigger] t[i - 1] by {}
    assert forall|i: int| open < i < end implies s[i] == #[trigger] u[i - open - 1] by {}
    assert(s[close] == ']');
    assert(s[open] == '(');
    assert(s[end] == ')');
    find::lemma_first_of(s, 1, ']');
    find::lemma_first_of(s, close + 1, '(');
    find::lemma_first_of(s, open, ')');
    let c = first_place(s, 1, ']');
    if c < close {
        assert(t[c - 1] == s[c]);
    }
    let e = first_place(s, open, ')');
    if e < end {
        assert(s[open] != ')');
        assert(u[e - open - 1] == s[e]);
    }
    assert(link_at(s, 0) == Some((close, end)));
    assert(s.subrange(1, close) == t);
    lemma_inlined_skip(s, end + 1, 0);
    assert(s.skip(end + 1) == rest);
}

/// A code span keeps its content and loses its ticks, and what follows it is
/// kept.
pub proof fn law_code_span_keeps_content(t: Seq<char>, rest: Seq<char>)
    requires
        !t.contains('`'),
    ensures
        inlined(seq!['`'] + t + seq!['`'] + rest, 0) == t + inlined(rest, 0),
{
    let s = seq!['`'] + t + seq!['`'] + rest;
    let end = t.len() as int + 1;
    assert forall|i: int| 1 <= i < end implies s[i] == #[trigger] t[i - 1] by {}
    assert(s[end] == '`');
    find::lemma_first_of(s, 1, '`');
    let e = first_place(s, 1, '`');
    if e < end {
        assert(t[e - 1] == s[e]);
    }
    assert(s.subrange(1, end) == t);
    lemma_inlined_skip(s, end + 1, 0);
    assert(s.skip(end + 1) == rest);
}

/// A tick that nothing closes goes, and what follows it is kept.
pub proof fn law_stray_tick_goes_alone(rest: Seq<char>)
    requires
        !rest.contains('`'),
    ensures
        inlined(seq!['`'] + rest, 0) == inlined(rest, 0),
{
    let s = seq!['`'] + rest;
    assert forall|i: int| 1 <= i < s.len() implies s[i] != '`' by {
        assert(s[i] == rest[i - 1]);
    }
    find::lemma_first_of(s, 1, '`');
    lemma_inlined_skip(s, 1, 0);
    assert(s.skip(1) == rest);
}

spec fn first_place(s: Seq<char>, from: int, c: char) -> int {
    match find::first_of(s, from, c) {
        Some(i) => i,
        None => s.len() as int,
    }
}

/// A character that inline Markdown does not use.
pub open spec fn is_plain(c: char) -> bool {
    c != '`' && c != '|' && c != '[' && c != '*' && c != '_'
}

/// A start without marks is kept, and what follows is read as if it stood alone.
pub proof fn law_plain_start_is_kept(p: Seq<char>, rest: Seq<char>)
    requires
        forall|i: int| 0 <= i < p.len() ==> is_plain(#[trigger] p[i]),
    ensures
        inlined(p + rest, 0) == p + inlined(rest, 0),
    decreases p.len(),
{
    let s = p + rest;
    if p.len() == 0 {
        assert(s == rest);
        assert(p + inlined(rest, 0) == inlined(rest, 0));
    } else {
        let q = p.skip(1);
        assert(s[0] == p[0]);
        assert(is_plain(p[0]));
        assert forall|i: int| 0 <= i < q.len() implies is_plain(#[trigger] q[i]) by {
            assert(q[i] == p[i + 1]);
        }
        lemma_inlined_skip(s, 1, 0);
        assert(s.skip(1) == q + rest);
        law_plain_start_is_kept(q, rest);
        assert(seq![p[0]] + (q + inlined(rest, 0)) == p + inlined(rest, 0));
    }
}

/// A text without marks that inline Markdown uses is left as it is.
pub proof fn law_plain_inline_unchanged(s: Seq<char>, k: int)
    requires
        0 <= k <= s.len(),
        forall|i: int|
            0 <= i < s.len() ==> #[trigger] s[i] != '`' && s[i] != '|' && s[i] != '[' && s[i] != '*'
                && s[i] != '_',
    ensures
        inlined(s, k) == s.skip(k),
    decreases s.len() - k,
{
    if k < s.len() {
        law_plain_inline_unchanged(s, k + 1);
        assert(s.skip(k) == seq![s[k]] + s.skip(k + 1));
    } else {
        assert(s.skip(k) == Seq::<char>::empty());
    }
}

/// A single line of plain text is spoken as it stands, without the white space
/// around it.
pub proof fn law_plain_line_unchanged(s: Seq<char>)
    requires
        s.len() > 0,
        !CharClass::White.has(s[0]),
        !is_fence(s),
        s[0] != '#' && s[0] != '-' && s[0] != '+' && s[0] != '.' && s[0] != ')',
        !CharClass::Digit.has(s[0]),
        forall|i: int|
            0 <= i < s.len() ==> #[trigger] s[i] != '\n' && s[i] != '`' && s[i] != '|' && s[i] != '['
                && s[i] != '*' && s[i] != '_',
    ensures
        stripped(s) == trim::trimmed(s),
{
    find::lemma_first_of(s, 0, '\n');
    let ls = split::text_lines(s);
    assert(ls == seq![s]);
    assert(line_body(s) == s);
    lemma_no_char_no_count(s, '|');
    assert(!trim::blank(s)) by {
        assert(!CharClass::White.has(s[0]));
    }
    let t = trim::trimmed(s);
    let empty = Seq::<char>::empty();
    assert(line_added(empty, s) == t) by {
        assert(spaced(empty) + t == t);
    }
    assert(ls.skip(1).len() == 0);
    assert(lines_added(t, false, ls.skip(1)) == t);
    assert(lines_added(empty, false, ls) == t);
    trim::lemma_trimmed_end(s, CharClass::White);
    assert forall|i: int|
        0 <= i < t.len() implies #[trigger] t[i] != '`' && t[i] != '|' && t[i] != '[' && t[i] != '*'
        && t[i] != '_' by {
        assert(t[i] == s[i]);
    }
    law_plain_inline_unchanged(t, 0);
    assert(t.skip(0) == t);
}

proof fn lemma_no_char_no_count(s: Seq<char>, c: char)
    requires
        forall|i: int| 0 <= i < s.len() ==> #[trigger] s[i] != c,
    ensures
        find::count_of(s, c) == 0,
    decreases s.len(),
{
    if s.len() > 0 {
        let t = s.drop_last();
        assert forall|i: int| 0 <= i < t.len() implies #[trigger] t[i] != c by {
            assert(t[i] == s[i]);
        }
        lemma_no_char_no_count(t, c);
        assert(s.last() == s[s.len() - 1]);
    }
}

} // verus!
