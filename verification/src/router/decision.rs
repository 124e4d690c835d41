//! Voice answers to approval prompts, and the prompts.

use vstd::prelude::*;

use crate::text::chars::CharClass;
use crate::text::chars::concat3;
use crate::text::chars::concat4;
use crate::text::chars::owned;
use crate::text::chars::same_chars;
use crate::text::chars::to_chars;
use crate::text::chars::to_lower;
use crate::text::chars::to_text;
use crate::text::chars;
use crate::text::find::contains;
use crate::text::find::find_last;
use crate::text::find;
use crate::text::split::split_words;
use crate::text::split;
use crate::text::trim::is_blank;
use crate::text::trim;
use crate::zeroclaw::client::ApprovalInfo;
use crate::zeroclaw::client::Decision;
use crate::zeroclaw::client::InfoModel;

verus! {

broadcast use {vstd::seq::group_seq_axioms, vstd::slice::group_slice_axioms};

/// How long the summary of an approval may be.
pub const SUMMARY_CHARS: usize = 160;

/// A word that allows.
pub open spec fn is_positive(w: Seq<char>) -> bool {
    ||| w == "yes"@
    ||| w == "yep"@
    ||| w == "yeah"@
    ||| w == "yup"@
    ||| w == "sure"@
    ||| w == "ok"@
    ||| w == "okay"@
    ||| w == "allow"@
    ||| w == "approve"@
    ||| w == "go"@
    ||| w == "ja"@
    ||| w == "bitte"@
    ||| w == "please"@
}

/// A word that denies.
pub open spec fn is_negative(w: Seq<char>) -> bool {
    ||| w == "no"@
    ||| w == "nope"@
    ||| w == "nah"@
    ||| w == "deny"@
    ||| w == "denied"@
    ||| w == "negative"@
    ||| w == "nein"@
    ||| w == "stop"@
}

/// The answer that an utterance in small letters gives. "Always" counts
/// anywhere; other words count at the end, or at the start of up to three
/// words; allowing goes before denying.
pub open spec fn lower_decision(u: Seq<char>) -> Option<Decision> {
    let w = split::words(u);
    let short = w.len() <= 3;
    if find::occurs("always"@, u) {
        Some(Decision::Always)
    } else if w.len() == 0 {
        None
    } else if is_positive(w.last()) || (is_positive(w[0]) && short) {
        Some(Decision::Approve)
    } else if is_negative(w.last()) || (is_negative(w[0]) && short) {
        Some(Decision::Deny)
    } else {
        None
    }
}

/// The answer that an utterance gives.
pub open spec fn decision_of(utterance: Seq<char>) -> Option<Decision> {
    lower_decision(chars::lowered(trim::trimmed(utterance)))
}

fn is(w: &[char], t: &str) -> (r: bool)
    ensures
        r == (w@ == t@),
{
    same_chars(w, to_chars(t).as_slice())
}

fn positive(w: &[char]) -> (r: bool)
    ensures
        r == is_positive(w@),
{
    is(w, "yes") || is(w, "yep") || is(w, "yeah") || is(w, "yup") || is(w, "sure") || is(w, "ok")
        || is(w, "okay") || is(w, "allow") || is(w, "approve") || is(w, "go") || is(w, "ja") || is(
        w,
        "bitte",
    ) || is(w, "please")
}

fn negative(w: &[char]) -> (r: bool)
    ensures
        r == is_negative(w@),
{
    is(w, "no") || is(w, "nope") || is(w, "nah") || is(w, "deny") || is(w, "denied") || is(
        w,
        "negative",
    ) || is(w, "nein") || is(w, "stop")
}

/// Classify a yes/no/always answer to an approval prompt.
pub fn parse_decision(utterance: &str) -> (r: Option<Decision>)
    ensures
        r == decision_of(utterance@),
{
    let all = to_chars(utterance);
    let u = to_lower(trim::trim(all.as_slice()));
    if contains(u.as_slice(), to_chars("always").as_slice()) {
        return Some(Decision::Always);
    }
    let words = split_words(u.as_slice());
    let n: usize = words.len();
    if n == 0 {
        assert(split::texts(words@).len() == 0);
        return None;
    }
    let ghost ws = split::texts(words@);
    let first = words[0];
    let last = words[n - 1];
    assert(ws[0] == first@ && ws.last() == last@);
    if positive(last) || (positive(first) && n <= 3) {
        return Some(Decision::Approve);
    }
    if negative(last) || (negative(first) && n <= 3) {
        return Some(Decision::Deny);
    }
    None
}

/// `s` cut after at most `max` characters, at a space where there is one.
pub open spec fn cut_at_word(s: Seq<char>, max: nat) -> Seq<char> {
    if s.len() <= max {
        s
    } else {
        let c = s.take(max as int);
        match find::last_of(c, seq![' '], c.len() as int) {
            Some(i) => c.take(i),
            None => c,
        }
    }
}

/// Cut `s` after at most `max` characters, at a space where there is one.
pub fn truncate_at_word(s: &str, max: usize) -> (r: String)
    ensures
        r@ == cut_at_word(s@, max as nat),
{
    let c = to_chars(s);
    if c.len() <= max {
        return owned(s);
    }
    let cut = vstd::slice::slice_subrange(c.as_slice(), 0, max);
    assert(cut@ =~= s@.take(max as int));
    let mut space: Vec<char> = Vec::new();
    space.push(' ');
    assert(space@ =~= seq![' ']);
    match find_last(cut, space.as_slice()) {
        Some(i) => {
            let head = vstd::slice::slice_subrange(cut, 0, i);
            assert(head@ =~= cut@.take(i as int));
            to_text(head)
        },
        None => to_text(cut),
    }
}

/// What an approval is for, in words.
pub open spec fn summary_of(info: InfoModel) -> Seq<char> {
    cut_at_word(
        if trim::blank(info.summary) {
            "the "@ + info.tool + " tool wants to run"@
        } else {
            "the "@ + info.tool + " tool: "@ + info.summary
        },
        SUMMARY_CHARS as nat,
    )
}

/// What an approval is for, in words.
pub fn approval_summary(info: &ApprovalInfo) -> (r: String)
    ensures
        r@ == summary_of(info@),
{
    let base = if is_blank(to_chars(info.summary.as_str()).as_slice()) {
        concat3("the ", info.tool.as_str(), " tool wants to run")
    } else {
        concat4("the ", info.tool.as_str(), " tool: ", info.summary.as_str())
    };
    truncate_at_word(base.as_str(), SUMMARY_CHARS)
}

// ── Laws ───────────────────────────────────────────────────────────────────

proof fn lemma_lowered_start(s: Seq<char>)
    ensures
        trim::trimmed_start(chars::lowered(s), CharClass::White) == chars::lowered(
            trim::trimmed_start(s, CharClass::White),
        ),
    decreases s.len(),
{
    if s.len() > 0 {
        assert(CharClass::White.has(chars::lower_char(s[0])) == CharClass::White.has(s[0]));
        if CharClass::White.has(s[0]) {
            assert(chars::lowered(s).skip(1) =~= chars::lowered(s.skip(1)));
            lemma_lowered_start(s.skip(1));
        }
    }
}

proof fn lemma_lowered_end(s: Seq<char>)
    ensures
        trim::trimmed_end(chars::lowered(s), CharClass::White) == chars::lowered(
            trim::trimmed_end(s, CharClass::White),
        ),
    decreases s.len(),
{
    if s.len() > 0 {
        assert(CharClass::White.has(chars::lower_char(s.last())) == CharClass::White.has(
            s.last(),
        ));
        if CharClass::White.has(s.last()) {
            assert(chars::lowered(s).drop_last() =~= chars::lowered(s.drop_last()));
            lemma_lowered_end(s.drop_last());
        }
    }
}

/// Capitals make no difference to an answer.
pub proof fn law_decision_ignores_case(utterance: Seq<char>)
    ensures
        decision_of(chars::lowered(utterance)) == decision_of(utterance),
{
    lemma_lowered_start(utterance);
    lemma_lowered_end(trim::trimmed_start(utterance, CharClass::White));
    let u = chars::lowered(trim::trimmed(utterance));
    assert(trim::trimmed(chars::lowered(utterance)) == u);
    assert(chars::lowered(u) =~= u);
}

/// A cut text is a start of the text, no longer than asked for.
pub proof fn law_cut_is_prefix(s: Seq<char>, max: nat)
    ensures
        cut_at_word(s, max).len() <= max,
        cut_at_word(s, max).is_prefix_of(s),
{
    if s.len() > max {
        let c = s.take(max as int);
        find::lemma_last_of(c, seq![' '], c.len() as int);
        assert(cut_at_word(s, max) =~= s.subrange(0, cut_at_word(s, max).len() as int));
    } else {
        assert(s =~= s.subrange(0, s.len() as int));
    }
}

} // verus!
