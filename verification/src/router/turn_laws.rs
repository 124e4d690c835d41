//! What is said of agent turns, approvals and stations.

use vstd::prelude::*;

use crate::config::RadioConfig;
use crate::router::action::ActionModel;
use crate::router::action;
use crate::router::decision;
use crate::router::radio;
use crate::router::turn;
use crate::state::AppModel;
use crate::state::PendingModel;
use crate::text::chars;
use crate::text::find;
use crate::text::split;
use crate::text::trim;
use crate::zeroclaw::client::Decision;
use crate::zeroclaw::client::ErrorModel;
use crate::zeroclaw::client::InfoModel;
use crate::zeroclaw::client::OutcomeModel;

verus! {

broadcast use {vstd::seq::group_seq_axioms, vstd::slice::group_slice_axioms};

// ── Outcomes ───────────────────────────────────────────────────────────────

/// A turn that ended with a full reply and no approval request says exactly that
/// reply, behind a late reply where there is one, whatever was streamed before
/// and whatever else the outcome says; the state stays.
pub proof fn law_full_reply_is_spoken(
    m: AppModel,
    device: Seq<char>,
    late: Seq<char>,
    o: OutcomeModel,
    f: Seq<char>,
    now: u128,
)
    requires
        o.full == Some(f),
        o.awaiting_approval is None,
    ensures
        turn::turn_finished(m, device, None, Ok(o), now) == (m, f),
        trim::blank(late) ==> turn::turn_finished(m, device, Some(late), Ok(o), now) == (m, f),
        !trim::blank(late) ==> turn::turn_finished(m, device, Some(late), Ok(o), now) == (
            m,
            late + " "@ + f,
        ),
{
}

/// A turn without a full reply and without an approval request says what was
/// streamed; where that is blank it asks for patience. The state stays.
pub proof fn law_partial_reply_is_spoken(
    m: AppModel,
    device: Seq<char>,
    o: OutcomeModel,
    now: u128,
)
    requires
        o.full is None,
        o.awaiting_approval is None,
    ensures
        !trim::blank(o.partial) ==> turn::turn_finished(m, device, None, Ok(o), now) == (
            m,
            o.partial,
        ),
        trim::blank(o.partial) ==> turn::turn_finished(m, device, None, Ok(o), now) == (
            m,
            "That's taking longer than I can say in one go. Try again in a moment."@,
        ),
{
}

/// A turn that paused on an approval names the tool and what it wants to do, and
/// the request waits for its answer from then on; nothing else changes.
pub proof fn law_approval_is_asked_for(
    m: AppModel,
    device: Seq<char>,
    o: OutcomeModel,
    info: InfoModel,
    now: u128,
)
    requires
        o.awaiting_approval == Some(info),
    ensures
        ({
            let (n, text) = turn::turn_finished(m, device, None, Ok(o), now);
            &&& text == "ZeroClaw needs your approval: "@ + decision::summary_of(info)
                + ". Say yes to allow it, or no to deny it."@
            &&& n.approvals == m.approvals.insert(device, PendingModel { info, asked_at: now })
            &&& n.players == m.players
            &&& n.registry == m.registry
            &&& n.cached_reply == m.cached_reply
            &&& n.library == m.library
        }),
{
}

/// What an approval is for: the tool, and the summary where there is one, cut at
/// a word to 160 characters.
pub proof fn law_summary(info: InfoModel)
    ensures
        decision::summary_of(info).len() <= 160,
        ({
            let whole = if trim::blank(info.summary) {
                "the "@ + info.tool + " tool wants to run"@
            } else {
                "the "@ + info.tool + " tool: "@ + info.summary
            };
            &&& whole.len() <= 160 ==> decision::summary_of(info) == whole
            &&& decision::summary_of(info).is_prefix_of(whole)
        }),
{
    let whole = if trim::blank(info.summary) {
        "the "@ + info.tool + " tool wants to run"@
    } else {
        "the "@ + info.tool + " tool: "@ + info.summary
    };
    decision::law_cut_is_prefix(whole, 160);
}

/// A text that is too long is cut right before the last space that there is room
/// for, and where there is none, where the room ends.
pub proof fn law_cut_is_at_last_space(s: Seq<char>, max: nat)
    requires
        s.len() > max,
    ensures
        ({
            let n = decision::cut_at_word(s, max).len() as int;
            &&& decision::cut_at_word(s, max) == s.take(n)
            &&& n < max ==> s[n] == ' ' && forall|i: int| n < i < max ==> s[i] != ' '
            &&& n == max ==> forall|i: int| 0 <= i < max ==> s[i] != ' '
            &&& n <= max
        }),
        s.take(max as int).contains(' ') ==> decision::cut_at_word(s, max).len() < max,
{
    let c = s.take(max as int);
    find::lemma_last_of(c, seq![' '], c.len() as int);
    match find::last_of(c, seq![' '], c.len() as int) {
        Some(i) => {
            assert(c.subrange(i, i + 1)[0] == c[i]);
            assert(c[i] == ' ');
            assert(c.take(i) =~= s.take(i));
            assert forall|k: int| i < k < max implies s[k] != ' ' by {
                if s[k] == ' ' {
                    assert(c.subrange(k, k + 1) =~= seq![' ']);
                    assert(find::occurs_at(seq![' '], c, k));
                }
            }
        },
        None => {
            assert forall|k: int| 0 <= k < max implies s[k] != ' ' by {
                if s[k] == ' ' {
                    assert(c.subrange(k, k + 1) =~= seq![' ']);
                    assert(find::occurs_at(seq![' '], c, k));
                }
            }
            if c.contains(' ') {
                let k = choose|k: int| 0 <= k < c.len() && c[k] == ' ';
                assert(s[k] == ' ');
            }
        },
    }
}

/// What is said of each error; the state stays.
pub proof fn law_errors_are_spoken(m: AppModel, device: Seq<char>, e: ErrorModel, now: u128)
    ensures
        turn::turn_finished(m, device, None, Err(e), now) == (
            m,
            match e {
                ErrorModel::Busy =>
                    "I'm still working on the previous request. Give me a moment, then try again."@,
                ErrorModel::Connect(_) =>
                    "I can't reach the ZeroClaw agent right now. Check that it is running."@,
                ErrorModel::Disconnected(_) => "The agent hit an error. Try again in a moment."@,
                ErrorModel::Config(_) => "The agent hit an error. Try again in a moment."@,
            },
        ),
{
}

/// An utterance goes to the agent as it is, where nothing waits for an answer;
/// it leaves players, tokens and other devices alone.
pub proof fn law_utterance_goes_to_agent(
    m: AppModel,
    device: Seq<char>,
    utterance: Seq<char>,
    now: u128,
)
    requires
        !m.approvals.dom().contains(device) || now - m.approvals[device].asked_at >= 1_000_000_000
            * m.approvals[device].info.timeout_secs && now - m.approvals[device].asked_at
            >= 1_000_000_000,
    ensures
        ({
            let (n, a) = turn::agent_turn(m, device, utterance, now);
            &&& a matches ActionModel::Ask { utterance: u, cached } && u == utterance && cached == (
            if m.cached_reply.dom().contains(device) {
                Some(m.cached_reply[device])
            } else {
                None
            })
            &&& n.players == m.players
            &&& n.registry == m.registry
            &&& n.library == m.library
            &&& !n.cached_reply.dom().contains(device)
            &&& !n.approvals.dom().contains(device)
        }),
{
}

/// While a request waits for its answer, a yes, a no or an always goes to that
/// request, and anything else is met with a reminder of it.
pub proof fn law_answer_goes_to_waiting_request(
    m: AppModel,
    device: Seq<char>,
    utterance: Seq<char>,
    now: u128,
)
    requires
        m.approvals.dom().contains(device),
        now - m.approvals[device].asked_at < 1_000_000_000 * (if m.approvals[device].info.timeout_secs
            > 0 {
            m.approvals[device].info.timeout_secs as int
        } else {
            1
        }),
        !m.cached_reply.dom().contains(device),
    ensures
        ({
            let info = m.approvals[device].info;
            let (n, a) = turn::agent_turn(m, device, utterance, now);
            &&& n.approvals == m.approvals
            &&& n.players == m.players
            &&& match decision::decision_of(utterance) {
                Some(d) => a matches ActionModel::Forward { request_id, decision: e, cached }
                    && request_id == info.request_id && e == d && cached is None,
                None => a == action::spoken_reply(
                    "ZeroClaw is waiting for your approval: "@ + decision::summary_of(info)
                        + ". Say yes to allow it, or no to deny it."@,
                ),
            }
        }),
{
}

/// What is said of a decision: a denial is a denial whether or not it reached the
/// agent, a consent is one only where it did.
pub proof fn law_decisions_are_spoken(forwarded: bool)
    ensures
        turn::decision_text(Decision::Deny, forwarded) == "Denied."@,
        turn::decision_text(Decision::Approve, true) == "Approved. I'll tell you when it's done."@,
        turn::decision_text(Decision::Always, true) == "Approved. I'll tell you when it's done."@,
        turn::decision_text(Decision::Approve, false)
            == "I couldn't forward that approval. The agent will decide on its own timeout."@,
        turn::decision_text(Decision::Always, false)
            == "I couldn't forward that approval. The agent will decide on its own timeout."@,
{
}

// ── Answers ────────────────────────────────────────────────────────────────

/// The words that allow.
pub open spec fn yes_words() -> Seq<Seq<char>> {
    seq![
        "yes"@,
        "yep"@,
        "yeah"@,
        "yup"@,
        "sure"@,
        "ok"@,
        "okay"@,
        "allow"@,
        "approve"@,
        "go"@,
        "ja"@,
        "bitte"@,
        "please"@,
    ]
}

/// The words that deny.
pub open spec fn no_words() -> Seq<Seq<char>> {
    seq!["no"@, "nope"@, "nah"@, "deny"@, "denied"@, "negative"@, "nein"@, "stop"@]
}

proof fn lemma_yes(w: Seq<char>)
    ensures
        decision::is_positive(w) <==> yes_words().contains(w),
{
    let y = yes_words();
    assert(y[0] == "yes"@ && y[1] == "yep"@ && y[2] == "yeah"@ && y[3] == "yup"@ && y[4] == "sure"@
        && y[5] == "ok"@ && y[6] == "okay"@ && y[7] == "allow"@ && y[8] == "approve"@ && y[9]
        == "go"@ && y[10] == "ja"@ && y[11] == "bitte"@ && y[12] == "please"@);
    if y.contains(w) {
        let i = choose|i: int| 0 <= i < y.len() && y[i] == w;
        assert(y.len() == 13);
    }
}

proof fn lemma_no(w: Seq<char>)
    ensures
        decision::is_negative(w) <==> no_words().contains(w),
{
    let y = no_words();
    assert(y[0] == "no"@ && y[1] == "nope"@ && y[2] == "nah"@ && y[3] == "deny"@ && y[4]
        == "denied"@ && y[5] == "negative"@ && y[6] == "nein"@ && y[7] == "stop"@);
    if y.contains(w) {
        let i = choose|i: int| 0 <= i < y.len() && y[i] == w;
        assert(y.len() == 8);
    }
}

/// How an answer is taken, capitals and white space around it aside: "always"
/// anywhere in it is a lasting consent; otherwise a word of consent at its end, or
/// at the start of at most three words, allows; otherwise such a word of denial
/// denies; and anything else is no answer.
pub proof fn law_answers(utterance: Seq<char>)
    ensures
        ({
            let u = chars::lowered(trim::trimmed(utterance));
            let w = split::words(u);
            let said = |words: Seq<Seq<char>>|
                w.len() > 0 && (words.contains(w[w.len() - 1]) || (words.contains(w[0]) && w.len()
                    <= 3));
            decision::decision_of(utterance) == if find::occurs("always"@, u) {
                Some(Decision::Always)
            } else if said(yes_words()) {
                Some(Decision::Approve)
            } else if said(no_words()) {
                Some(Decision::Deny)
            } else {
                None
            }
        }),
{
    let u = chars::lowered(trim::trimmed(utterance));
    let w = split::words(u);
    if w.len() > 0 {
        lemma_yes(w.last());
        lemma_yes(w[0]);
        lemma_no(w.last());
        lemma_no(w[0]);
    }
}

// ── Stations ───────────────────────────────────────────────────────────────

/// The query and the name are the same up to where the shorter one ends, capitals
/// of the name aside.
pub open spec fn agree(q: Seq<char>, name: Seq<char>) -> bool {
    forall|i: int|
        0 <= i < q.len() && i < name.len() ==> #[trigger] q[i] == chars::lowered(name)[i]
}

proof fn lemma_agree(q: Seq<char>, name: Seq<char>)
    ensures
        radio::names_station(q, name) <==> agree(q, name),
{
    let n = chars::lowered(name);
    if radio::names_station(q, name) {
        assert forall|i: int| 0 <= i < q.len() && i < name.len() implies #[trigger] q[i] == n[i] by {
            if q.is_prefix_of(n) {
                assert(q[i] == n.subrange(0, q.len() as int)[i]);
            } else {
                assert(n[i] == q.subrange(0, n.len() as int)[i]);
            }
        }
    }
    if agree(q, name) {
        if q.len() <= n.len() {
            assert(q =~= n.subrange(0, q.len() as int));
        } else {
            assert(n =~= q.subrange(0, n.len() as int)) by {
                assert forall|i: int| 0 <= i < n.len() implies n[i] == q[i] by {
                    assert(q[i] == n[i]);
                }
            }
        }
    }
}

proof fn lemma_station_from(stations: Seq<(Seq<char>, String)>, q: Seq<char>, i: int)
    requires
        0 <= i,
    ensures
        match radio::station_from(stations, q, i) {
            Some((name, url)) => exists|k: int|
                {
                    &&& i <= k < stations.len()
                    &&& (#[trigger] stations[k]).0 == name
                    &&& stations[k].1@ == url
                    &&& agree(q, name)
                    &&& forall|j: int| i <= j < k ==> !agree(q, (#[trigger] stations[j]).0)
                },
            None => forall|j: int|
                i <= j < stations.len() ==> !agree(q, (#[trigger] stations[j]).0),
        },
    decreases stations.len() - i,
{
    if i < stations.len() {
        lemma_agree(q, stations[i].0);
        if !radio::names_station(q, stations[i].0) {
            lemma_station_from(stations, q, i + 1);
            match radio::station_from(stations, q, i + 1) {
                Some((name, url)) => {
                    let k = choose|k: int|
                        {
                            &&& i + 1 <= k < stations.len()
                            &&& (#[trigger] stations[k]).0 == name
                            &&& stations[k].1@ == url
                            &&& agree(q, name)
                            &&& forall|j: int|
                                i + 1 <= j < k ==> !agree(q, (#[trigger] stations[j]).0)
                        };
                    assert(stations[k].0 == name);
                    assert forall|j: int| i <= j < k implies !agree(
                        q,
                        (#[trigger] stations[j]).0,
                    ) by {
                        if j == i {
                            assert(!agree(q, stations[i].0));
                        }
                    }
                },
                None => {
                    assert forall|j: int| i <= j < stations.len() implies !agree(
                        q,
                        (#[trigger] stations[j]).0,
                    ) by {
                        if j == i {
                            assert(!agree(q, stations[i].0));
                        }
                    }
                },
            }
        } else {
            assert(stations[i].0 == stations[i].0);
        }
    }
}

/// Which station a query means, white space around it aside: none where it has
/// fewer than three bytes; the one of that very name; else the first, in the order
/// of names, that agrees with it as far as both go; else none.
pub proof fn law_stations(r: RadioConfig, query: Seq<char>)
    ensures
        ({
            let q = trim::trimmed(query);
            let st = r.stations.pairs();
            match radio::station_of(r, query) {
                Some((name, url)) => {
                    &&& vstd::utf8::encode_utf8(q).len() >= 3
                    &&& r.stations@.dom().contains(q) ==> name == q && url == r.stations@[q]@
                    &&& !r.stations@.dom().contains(q) ==> exists|k: int|
                        {
                            &&& 0 <= k < st.len()
                            &&& (#[trigger] r.stations.pairs()[k]).0 == name
                            &&& st[k].1@ == url
                            &&& agree(q, name)
                            &&& forall|j: int|
                                0 <= j < k ==> !agree(q, (#[trigger] r.stations.pairs()[j]).0)
                        }
                },
                None => vstd::utf8::encode_utf8(q).len() < 3 || (!r.stations@.dom().contains(q)
                    && forall|j: int|
                    0 <= j < st.len() ==> !agree(q, (#[trigger] r.stations.pairs()[j]).0)),
            }
        }),
{
    let q = trim::trimmed(query);
    crate::text::text_laws::law_byte_len(q);
    lemma_station_from(r.stations.pairs(), q, 0);
}

} // verus!
