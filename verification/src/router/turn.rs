//! Agent turns: pending approvals, late replies, and what is said of an
//! outcome.

use vstd::prelude::*;

use crate::alexa::response::Response;
use crate::alexa::response;
use crate::router::action::Action;
use crate::router::action::ActionModel;
use crate::router::action::say;
use crate::router::action;
use crate::router::decision::approval_summary;
use crate::router::decision::parse_decision;
use crate::router::decision;
use crate::state::AppModel;
use crate::state::AppState;
use crate::state::PendingApproval;
use crate::state::PendingModel;
use crate::text::chars::borrow_opt;
use crate::text::chars::concat3;
use crate::text::chars::owned;
use crate::text::chars::to_chars;
use crate::text::chars;
use crate::text::trim::is_blank;
use crate::text::trim;
use crate::zeroclaw::client::AgentError;
use crate::zeroclaw::client::Decision;
use crate::zeroclaw::client::ErrorModel;
use crate::zeroclaw::client::InfoModel;
use crate::zeroclaw::client::OutcomeModel;
use crate::zeroclaw::client::TurnOutcome;

verus! {

broadcast use {vstd::seq::group_seq_axioms, vstd::slice::group_slice_axioms};

/// What is said while an approval waits for an answer.
pub open spec fn reminder(info: InfoModel) -> Seq<char> {
    "ZeroClaw is waiting for your approval: "@ + decision::summary_of(info)
        + ". Say yes to allow it, or no to deny it."@
}

/// What is said when an approval is asked for.
pub open spec fn prompt(info: InfoModel) -> Seq<char> {
    "ZeroClaw needs your approval: "@ + decision::summary_of(info)
        + ". Say yes to allow it, or no to deny it."@
}

/// A late reply goes before what is said.
pub open spec fn with_late_reply(cached: Option<Seq<char>>, text: Seq<char>) -> Seq<char> {
    match cached {
        Some(c) => if trim::blank(c) {
            text
        } else {
            c + " "@ + text
        },
        None => text,
    }
}

/// An utterance for the agent. While an approval waits for an answer, a
/// decision is forwarded and anything else is met with a reminder; otherwise
/// the agent is asked. In each case a late reply is taken, to go before what is
/// said.
pub open spec fn agent_turn(
    m: AppModel,
    device: Seq<char>,
    utterance: Seq<char>,
    now: u128,
) -> (AppModel, ActionModel) {
    let n = m.without_reply(device).without_stale(device, now);
    let cached = m.late_reply(device);
    match m.pending(device, now) {
        Some(p) => (
            n,
            match decision::decision_of(utterance) {
                Some(d) => ActionModel::Forward {
                    request_id: p.info.request_id,
                    decision: d,
                    cached,
                },
                None => action::spoken_reply(with_late_reply(cached, reminder(p.info))),
            },
        ),
        None => (n, ActionModel::Ask { utterance, cached }),
    }
}

/// Puts a late reply before what is said.
fn after_late_reply(cached: Option<&str>, text: &str) -> (r: String)
    ensures
        r@ == with_late_reply(chars::opt_str(cached), text@),
{
    match cached {
        Some(c) => if is_blank(to_chars(c).as_slice()) {
            owned(text)
        } else {
            concat3(c, " ", text)
        },
        None => owned(text),
    }
}

/// An utterance for the agent.
pub fn handle_agent_turn(st: &mut AppState, device: &str, utterance: &str, now: u128) -> (r: Action)
    ensures
        (final(st)@, r@) == agent_turn(old(st)@, device@, utterance@, now),
{
    // A late reply from the previous turn is spoken first.
    let cached = st.take_cached_reply(device);
    // Pending tool approval? Yes/no handles it; anything else reminds.
    match st.pending_approval(device, now) {
        Some(p) => match parse_decision(utterance) {
            Some(d) => Action::Forward { request_id: p.info.request_id, decision: d, cached },
            None => {
                let text = concat3(
                    "ZeroClaw is waiting for your approval: ",
                    approval_summary(&p.info).as_str(),
                    ". Say yes to allow it, or no to deny it.",
                );
                say(after_late_reply(borrow_opt(&cached), text.as_str()).as_str())
            },
        },
        None => Action::Ask { utterance: owned(utterance), cached },
    }
}

/// What is said once a decision was forwarded, or could not be.
pub open spec fn decision_text(d: Decision, forwarded: bool) -> Seq<char> {
    match d {
        Decision::Deny => "Denied."@,
        _ => if forwarded {
            "Approved. I'll tell you when it's done."@
        } else {
            "I couldn't forward that approval. The agent will decide on its own timeout."@
        },
    }
}

/// A decision went to the agent, or could not be forwarded: either way nothing
/// is pending any more. The late reply goes before what is said.
pub fn finish_approval(
    st: &mut AppState,
    device: &str,
    d: Decision,
    forwarded: bool,
    cached: Option<&str>,
) -> (r: Response)
    ensures
        final(st)@ == old(st)@.with_pending(device@, None),
        r@ == response::said(
            with_late_reply(chars::opt_str(cached), decision_text(d, forwarded)),
        ),
{
    st.set_pending_approval(device, None);
    let text = match d {
        Decision::Deny => "Denied.",
        _ => if forwarded {
            "Approved. I'll tell you when it's done."
        } else {
            "I couldn't forward that approval. The agent will decide on its own timeout."
        },
    };
    Response::saying(after_late_reply(cached, text).as_str())
}

/// What is said of a turn: the full reply, else what streamed of it, else that
/// it takes longer.
pub open spec fn outcome_text(o: OutcomeModel) -> Seq<char> {
    match o.full {
        Some(f) => f,
        None => if trim::blank(o.partial) {
            "That's taking longer than I can say in one go. Try again in a moment."@
        } else {
            o.partial
        },
    }
}

/// What is said of an error.
pub open spec fn error_text(e: ErrorModel) -> Seq<char> {
    match e {
        ErrorModel::Busy =>
            "I'm still working on the previous request. Give me a moment, then try again."@,
        ErrorModel::Connect(_) =>
            "I can't reach the ZeroClaw agent right now. Check that it is running."@,
        _ => "The agent hit an error. Try again in a moment."@,
    }
}

/// The state after a turn, and what is said of it, behind a late reply where
/// there is one. A turn that paused on an approval makes it pending from now on.
pub open spec fn turn_finished(
    m: AppModel,
    device: Seq<char>,
    cached: Option<Seq<char>>,
    result: Result<OutcomeModel, ErrorModel>,
    now: u128,
) -> (AppModel, Seq<char>) {
    match result {
        Ok(o) => match o.awaiting_approval {
            Some(info) => (
                m.with_pending(device, Some(PendingModel { info, asked_at: now })),
                with_late_reply(cached, prompt(info)),
            ),
            None => (m, with_late_reply(cached, outcome_text(o))),
        },
        Err(e) => (m, with_late_reply(cached, error_text(e))),
    }
}

/// What a turn's result says.
pub open spec fn result_model(r: Result<TurnOutcome, AgentError>) -> Result<
    OutcomeModel,
    ErrorModel,
> {
    match r {
        Ok(o) => Ok(o@),
        Err(e) => Err(e@),
    }
}

/// The agent's turn is over.
pub fn finish_turn(
    st: &mut AppState,
    device: &str,
    cached: Option<&str>,
    result: Result<TurnOutcome, AgentError>,
    now: u128,
) -> (r: Response)
    ensures
        ({
            let (m, text) = turn_finished(
                old(st)@,
                device@,
                chars::opt_str(cached),
                result_model(result),
                now,
            );
            final(st)@ == m && r@ == response::said(text)
        }),
{
    let text = match result {
        Ok(outcome) => match outcome.awaiting_approval {
            Some(info) => {
                // The event collector may already have registered this; keep
                // the newest.
                let text = concat3(
                    "ZeroClaw needs your approval: ",
                    approval_summary(&info).as_str(),
                    ". Say yes to allow it, or no to deny it.",
                );
                st.set_pending_approval(device, Some(PendingApproval { info, asked_at: now }));
                text
            },
            None => match outcome.full {
                Some(f) => f,
                None => if is_blank(to_chars(outcome.partial.as_str()).as_slice()) {
                    owned("That's taking longer than I can say in one go. Try again in a moment.")
                } else {
                    // Timeout with partial text: speak what we have.
                    outcome.partial
                },
            },
        },
        Err(AgentError::Busy) => owned(
            "I'm still working on the previous request. Give me a moment, then try again.",
        ),
        Err(AgentError::Connect(_)) => owned(
            "I can't reach the ZeroClaw agent right now. Check that it is running.",
        ),
        Err(_) => owned("The agent hit an error. Try again in a moment."),
    };
    Response::saying(after_late_reply(cached, text.as_str()).as_str())
}

// ── Laws ───────────────────────────────────────────────────────────────────

/// What is said of a turn by itself.
pub open spec fn result_text(result: Result<OutcomeModel, ErrorModel>) -> Seq<char> {
    match result {
        Ok(o) => match o.awaiting_approval {
            Some(info) => prompt(info),
            None => outcome_text(o),
        },
        Err(e) => error_text(e),
    }
}

/// A late reply is spoken first on the next turn, and only then, whatever comes
/// of the turn: the turn takes it, hands it on to be spoken before the answer,
/// the prompt or the error, and leaves none behind.
pub proof fn law_late_reply_is_spoken_next(
    m: AppModel,
    device: Seq<char>,
    text: Seq<char>,
    utterance: Seq<char>,
    result: Result<OutcomeModel, ErrorModel>,
    now: u128,
    later: u128,
)
    requires
        !trim::blank(text),
        m.pending(device, now) is None,
    ensures
        ({
            let (n, a) = agent_turn(m.with_reply(device, text), device, utterance, now);
            let (k, said) = turn_finished(n, device, Some(text), result, later);
            &&& a == (ActionModel::Ask { utterance, cached: Some(text) })
            &&& said == text + " "@ + result_text(result)
            &&& text.is_prefix_of(said)
            &&& n.late_reply(device) is None
            &&& k.late_reply(device) is None
        }),
{
    let said = text + " "@ + result_text(result);
    assert(text =~= said.subrange(0, text.len() as int));
}

/// A late reply is spoken first also where an approval waits for an answer:
/// before the reminder, and before what is said of a forwarded decision.
pub proof fn law_late_reply_is_spoken_before_approval(
    m: AppModel,
    device: Seq<char>,
    text: Seq<char>,
    utterance: Seq<char>,
    p: PendingModel,
    now: u128,
)
    requires
        !trim::blank(text),
        m.pending(device, now) == Some(p),
    ensures
        ({
            let (n, a) = agent_turn(m.with_reply(device, text), device, utterance, now);
            &&& n.late_reply(device) is None
            &&& match decision::decision_of(utterance) {
                Some(d) => a == (ActionModel::Forward {
                    request_id: p.info.request_id,
                    decision: d,
                    cached: Some(text),
                }),
                None => a == action::spoken_reply(text + " "@ + reminder(p.info)),
            }
        }),
        forall|d: Decision, forwarded: bool|
            with_late_reply(Some(text), #[trigger] decision_text(d, forwarded)) == text + " "@
                + decision_text(d, forwarded),
{
}

/// While an approval waits for an answer the agent is not asked: a decision goes
/// to the request that waits, anything else brings the reminder.
pub proof fn law_approval_comes_first(
    m: AppModel,
    device: Seq<char>,
    p: PendingModel,
    utterance: Seq<char>,
    now: u128,
)
    requires
        m.pending(device, now) == Some(p),
    ensures
        match decision::decision_of(utterance) {
            Some(d) => agent_turn(m, device, utterance, now).1 == (ActionModel::Forward {
                request_id: p.info.request_id,
                decision: d,
                cached: m.late_reply(device),
            }),
            None => agent_turn(m, device, utterance, now).1 == action::spoken_reply(
                with_late_reply(m.late_reply(device), reminder(p.info)),
            ),
        },
        agent_turn(m, device, utterance, now).0.pending(device, now) == Some(p),
{
}

/// A turn that pauses on an approval is answered by the prompt, and the next
/// decision goes to that request.
pub proof fn law_approval_round_trip(
    m: AppModel,
    device: Seq<char>,
    o: OutcomeModel,
    info: InfoModel,
    answer: Seq<char>,
    d: Decision,
    asked: u128,
    now: u128,
)
    requires
        o.awaiting_approval == Some(info),
        decision::decision_of(answer) == Some(d),
        !(PendingModel { info, asked_at: asked }).stale(now),
    ensures
        ({
            let (n, text) = turn_finished(m, device, None, Ok(o), asked);
            &&& text == prompt(info)
            &&& agent_turn(n, device, answer, now).1 == (ActionModel::Forward {
                request_id: info.request_id,
                decision: d,
                cached: n.late_reply(device),
            })
            &&& n.with_pending(device, None).pending(device, now) is None
        }),
{
}

/// A turn always answers with something to say where the agent said something:
/// with streamed text the text, and with none a word of patience.
pub proof fn law_timeout_still_answers(o: OutcomeModel)
    requires
        o.full is None,
    ensures
        !trim::blank(outcome_text(o)),
        !trim::blank(o.partial) ==> outcome_text(o) == o.partial,
{
    reveal_strlit("That's taking longer than I can say in one go. Try again in a moment.");
    let t = "That's taking longer than I can say in one go. Try again in a moment."@;
    assert(t[0] == 'T');
    assert(!chars::CharClass::White.has(t[0]));
}

} // verus!
