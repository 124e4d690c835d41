//! What sessions, turns and frames come to, step by step.

use vstd::prelude::*;

use crate::text::chars;
use crate::text::trim;
use crate::zeroclaw::client::ActionModel;
use crate::zeroclaw::client::AskEvent;
use crate::zeroclaw::client::ClientModel;
use crate::zeroclaw::client::Decision;
use crate::zeroclaw::client::EffectModel;
use crate::zeroclaw::client::ErrorModel;
use crate::zeroclaw::client::EventModel;
use crate::zeroclaw::client::GatewayModel;
use crate::zeroclaw::client::InfoModel;
use crate::zeroclaw::client::OutcomeModel;
use crate::zeroclaw::client::SessionModel;
use crate::zeroclaw::client::SlotModel;
use crate::zeroclaw::client::TurnOutcome;
use crate::zeroclaw::client;
use crate::zeroclaw::protocol::InFrame;
use crate::zeroclaw::protocol;

verus! {

broadcast use {vstd::seq::group_seq_axioms, vstd::slice::group_slice_axioms};

// ── Names ──────────────────────────────────────────────────────────────────

/// A session key keeps the letters and digits, dashes, underscores and dots of
/// the device id, each in its place, and has an underscore in every other one.
pub proof fn law_key_characters(device: Seq<char>, i: int)
    requires
        0 <= i < device.len(),
    ensures
        client::sanitized(device).len() == device.len(),
        ({
            let c = device[i];
            let kept = 'a' <= c <= 'z' || 'A' <= c <= 'Z' || '0' <= c <= '9' || c == '-' || c == '_'
                || c == '.';
            &&& kept ==> client::sanitized(device)[i] == c
            &&& !kept ==> client::sanitized(device)[i] == '_'
        }),
{
}

/// The gateway knows a session by its key behind "alexa-".
pub proof fn law_session_ids(key: Seq<char>)
    ensures
        client::session_id(key) == "alexa-"@ + key,
{
}

/// What a decision is called on the wire.
pub proof fn law_decisions_on_the_wire()
    ensures
        Decision::Approve.wire() == "approve"@,
        Decision::Deny.wire() == "deny"@,
        Decision::Always.wire() == "always"@,
{
}

/// What each error is called.
pub proof fn law_errors_in_words(s: Seq<char>)
    ensures
        ErrorModel::Connect(s).words() == "gateway connection failed: "@ + s,
        ErrorModel::Busy.words() == "session busy (previous turn still in progress)"@,
        ErrorModel::Disconnected(s).words() == "gateway disconnected: "@ + s,
        ErrorModel::Config(s).words() == "gateway configuration error: "@ + s,
{
}

/// A gateway needs a base and an alias; the base is looked at first.
pub proof fn law_gateway_faults(g: GatewayModel)
    ensures
        trim::blank(g.base) ==> g.fault() == Some(
            ErrorModel::Config("zeroclaw.gateway is empty"@),
        ),
        !trim::blank(g.base) && trim::blank(g.agent_alias) ==> g.fault() == Some(
            ErrorModel::Config("zeroclaw.agent_alias is empty"@),
        ),
        !trim::blank(g.base) && !trim::blank(g.agent_alias) ==> g.fault() is None,
{
}

// ── The way of a turn ──────────────────────────────────────────────────────

/// A turn over a connection that is up begins at once, where no other turn is in
/// progress, or the one that is began five minutes ago: the message goes out, and
/// the session waits for its reply with nothing streamed yet. No other session
/// changes.
pub proof fn law_turn_begins(
    m: ClientModel,
    device: Seq<char>,
    text: Seq<char>,
    began: u128,
    now: u128,
    other: Seq<char>,
)
    requires
        m.cfg.fault() is None,
        m.sessions.dom().contains(client::sanitized(device)),
        m.sessions[client::sanitized(device)].alive,
        m.sessions[client::sanitized(device)].turn matches Some(s) ==> now - s.started
            >= 300_000_000_000,
    ensures
        ({
            let key = client::sanitized(device);
            let (n, a) = m.ask_step(device, text, began, AskEvent::Begin, now);
            &&& a == ActionModel::Send(protocol::json_object(protocol::message_pairs(text)))
            &&& n.sessions.dom().contains(key)
            &&& n.sessions[key].alive
            &&& n.sessions[key].device == m.sessions[key].device
            &&& n.sessions[key].turn matches Some(s) && s.partial.len() == 0 && s.waiting
                && !s.awaiting && s.started == now
            &&& other != key ==> n.sessions.dom().contains(other) == m.sessions.dom().contains(
                other,
            ) && n.sessions[other] == m.sessions[other]
            &&& n.cfg == m.cfg
        }),
        m.ask_step(device, text, began, AskEvent::Waited, now) == m.ask_step(
            device,
            text,
            began,
            AskEvent::Begin,
            now,
        ),
{
}

/// A turn is refused while another one that began less than five minutes ago is
/// in progress.
pub proof fn law_turn_is_refused(
    m: ClientModel,
    device: Seq<char>,
    text: Seq<char>,
    began: u128,
    now: u128,
    s: SlotModel,
)
    requires
        m.cfg.fault() is None,
        m.sessions.dom().contains(client::sanitized(device)),
        m.sessions[client::sanitized(device)].alive,
        m.sessions[client::sanitized(device)].turn == Some(s),
        now - s.started < 300_000_000_000,
    ensures
        m.ask_step(device, text, began, AskEvent::Begin, now) == (
            m,
            ActionModel::Return(Err(ErrorModel::Busy)),
        ),
{
}

/// Without a connection one is made, for a session that is new where the device
/// has none; the turn waits for it for ten seconds and is given up after that.
pub proof fn law_turn_waits_for_connection(
    m: ClientModel,
    device: Seq<char>,
    text: Seq<char>,
    began: u128,
    now: u128,
)
    requires
        m.cfg.fault() is None,
        m.sessions.dom().contains(client::sanitized(device)) ==> !m.sessions[client::sanitized(
            device,
        )].alive,
    ensures
        ({
            let key = client::sanitized(device);
            let (n, a) = m.ask_step(device, text, began, AskEvent::Begin, now);
            &&& a is Connect
            &&& m.sessions.dom().contains(key) ==> n == m
            &&& !m.sessions.dom().contains(key) ==> n.cfg == m.cfg && n.sessions
                == m.sessions.insert(key, SessionModel { device: key, turn: None, alive: false })
        }),
        now - began < 10_000_000_000 ==> m.ask_step(device, text, began, AskEvent::Waited, now) == (
            m,
            ActionModel::Wait,
        ),
        now - began >= 10_000_000_000 ==> m.ask_step(device, text, began, AskEvent::Waited, now)
            == (
            m,
            ActionModel::Return(
                Err(
                    ErrorModel::Connect(
                        "gateway not reachable at "@ + m.cfg.base + " (agent "@ + m.cfg.agent_alias
                            + ")"@,
                    ),
                ),
            ),
        ),
{
}

/// A configuration that names no gateway or no agent ends a turn before it
/// begins.
pub proof fn law_faulty_gateway_ends_turn(
    m: ClientModel,
    device: Seq<char>,
    text: Seq<char>,
    began: u128,
    now: u128,
    e: ErrorModel,
)
    requires
        m.cfg.fault() == Some(e),
    ensures
        m.ask_step(device, text, began, AskEvent::Begin, now) == (m, ActionModel::Return(Err(e))),
{
}

/// What follows once the message is out: the reply is waited for; the outcome is
/// handed on as it is; a failure to send, and a turn that was dropped, are told.
pub proof fn law_turn_goes_on(
    m: ClientModel,
    device: Seq<char>,
    text: Seq<char>,
    began: u128,
    now: u128,
    o: TurnOutcome,
)
    ensures
        m.ask_step(device, text, began, AskEvent::Sent, now) == (m, ActionModel::AwaitReply),
        m.ask_step(device, text, began, AskEvent::Completed(o), now) == (
            m,
            ActionModel::Return(Ok(o@)),
        ),
        m.ask_step(device, text, began, AskEvent::SendFailed, now) == (
            m,
            ActionModel::Return(Err(ErrorModel::Disconnected("send channel closed"@))),
        ),
        m.ask_step(device, text, began, AskEvent::Dropped, now) == (
            m,
            ActionModel::Return(Err(ErrorModel::Disconnected("turn channel closed"@))),
        ),
{
}

/// A turn whose time is over hands back what was streamed of it, and stays so
/// that its end can come as a late reply.
pub proof fn law_turn_times_out(
    m: ClientModel,
    device: Seq<char>,
    text: Seq<char>,
    began: u128,
    now: u128,
    s: SlotModel,
)
    requires
        m.sessions.dom().contains(client::sanitized(device)),
        m.sessions[client::sanitized(device)].turn == Some(s),
    ensures
        ({
            let key = client::sanitized(device);
            let (n, a) = m.ask_step(device, text, began, AskEvent::TimedOut, now);
            &&& a matches ActionModel::Return(Ok(o)) && o.full is None && o.partial == s.partial
                && o.timed_out && o.awaiting_approval is None && o.cost_bits is None
            &&& n.sessions[key].turn == Some(
                SlotModel {
                    partial: s.partial,
                    waiting: false,
                    awaiting: true,
                    started: s.started,
                },
            )
            &&& n.sessions[key].alive == m.sessions[key].alive
            &&& n.sessions.dom() =~= m.sessions.dom()
        }),
{
}

/// A time that is over without a turn hands back nothing.
pub proof fn law_timeout_without_turn(s: SessionModel)
    requires
        s.turn is None,
    ensures
        s.after_timeout() == s,
        s.timeout_outcome().full is None,
        s.timeout_outcome().partial.len() == 0,
        s.timeout_outcome().timed_out,
        s.timeout_outcome().awaiting_approval is None,
        s.lost_outcome() is None,
{
}

/// A caller that waits when the connection dies gets what was streamed; one that
/// has left gets nothing more.
pub proof fn law_lost_connection(s: SessionModel, slot: SlotModel)
    requires
        s.turn == Some(slot),
    ensures
        !slot.waiting ==> s.lost_outcome() is None,
        slot.waiting ==> (s.lost_outcome() matches Some(o) && o.full is None && o.partial
            == slot.partial && o.timed_out && o.awaiting_approval is None && o.cost_bits is None),
{
}

// ── Frames ─────────────────────────────────────────────────────────────────

/// A session without a turn takes no text in; an approval request is announced
/// all the same.
pub proof fn law_frames_without_turn(s: SessionModel, frame: InFrame)
    requires
        s.turn is None,
    ensures
        s.after_frame(frame) == s,
        s.effect_of(frame).outcome is None,
        !(frame is ApprovalRequest) ==> s.effect_of(frame).event is None,
{
}

/// What a frame of a turn in progress does: a chunk is added at the end of what
/// was streamed; the end of the turn goes to the caller that waits, in full, and
/// frees the session; anything unknown does nothing.
pub proof fn law_frames_of_turn(
    s: SessionModel,
    slot: SlotModel,
    content: String,
    full_response: String,
    cost_bits: Option<u64>,
)
    requires
        s.turn == Some(slot),
        slot.waiting,
        !slot.awaiting,
    ensures
        ({
            let f = InFrame::Chunk { content };
            &&& s.after_frame(f) == (SessionModel {
                device: s.device,
                turn: Some(
                    SlotModel {
                        partial: slot.partial + content@,
                        waiting: true,
                        awaiting: false,
                        started: slot.started,
                    },
                ),
                alive: s.alive,
            })
            &&& s.effect_of(f).event is None && s.effect_of(f).outcome is None
        }),
        ({
            let f = InFrame::Done { full_response, cost_bits };
            &&& s.after_frame(f) == (SessionModel {
                device: s.device,
                turn: None,
                alive: s.alive,
            })
            &&& s.effect_of(f).event is None
            &&& s.effect_of(f).outcome == Some(
                OutcomeModel {
                    full: Some(full_response@),
                    partial: slot.partial,
                    timed_out: false,
                    awaiting_approval: None,
                    cost_bits,
                },
            )
        }),
        s.after_frame(InFrame::Other) == s,
        s.effect_of(InFrame::Other).event is None && s.effect_of(InFrame::Other).outcome is None,
{
}

/// An approval request in the middle of a turn lets the caller out with the
/// request and what was streamed, and the turn goes on without it.
pub proof fn law_approval_pauses_turn(
    s: SessionModel,
    slot: SlotModel,
    request_id: String,
    tool: String,
    arguments_summary: String,
    timeout_secs: u64,
)
    requires
        s.turn == Some(slot),
        slot.waiting,
        !slot.awaiting,
    ensures
        ({
            let f = InFrame::ApprovalRequest { request_id, tool, arguments_summary, timeout_secs };
            let info = InfoModel {
                request_id: request_id@,
                tool: tool@,
                summary: arguments_summary@,
                timeout_secs,
            };
            &&& s.effect_of(f).event == Some(
                EventModel::ApprovalRequested { device: s.device, info },
            )
            &&& s.effect_of(f).outcome == Some(
                OutcomeModel {
                    full: None,
                    partial: slot.partial,
                    timed_out: false,
                    awaiting_approval: Some(info),
                    cost_bits: None,
                },
            )
            &&& s.after_frame(f) == (SessionModel {
                device: s.device,
                turn: Some(
                    SlotModel {
                        partial: slot.partial,
                        waiting: false,
                        awaiting: true,
                        started: slot.started,
                    },
                ),
                alive: s.alive,
            })
        }),
{
}

/// The end of a turn whose caller has left is told later: in full, or as far as
/// it was streamed where the end says nothing; the session is free.
pub proof fn law_late_end(
    s: SessionModel,
    slot: SlotModel,
    full_response: String,
    cost_bits: Option<u64>,
)
    requires
        s.turn == Some(slot),
        slot.awaiting,
    ensures
        ({
            let f = InFrame::Done { full_response, cost_bits };
            &&& s.after_frame(f) == (SessionModel { device: s.device, turn: None, alive: s.alive })
            &&& s.effect_of(f).outcome is None
            &&& full_response@.len() > 0 ==> s.effect_of(f).event == Some(
                EventModel::LateReply { device: s.device, text: full_response@ },
            )
            &&& full_response@.len() == 0 ==> s.effect_of(f).event == Some(
                EventModel::LateReply { device: s.device, text: slot.partial },
            )
        }),
{
}

// ── Reconnecting ───────────────────────────────────────────────────────────

/// The pause before a reconnect doubles from one second on, up to fifteen.
pub proof fn law_pauses_double(ms: nat)
    ensures
        ms <= 7_500 ==> client::backoff_after(ms) == 2 * ms,
        ms >= 7_500 ==> client::backoff_after(ms) == 15_000,
        client::CONNECT_RETRY_MIN_MS == 1_000,
        client::CONNECT_RETRY_MAX_MS == 15_000,
        client::READY_POLL_MS == 50,
{
}

// ── On the wire ────────────────────────────────────────────────────────────

/// A text stands in JSON character by character.
pub proof fn law_json_text_by_characters(a: Seq<char>, c: char)
    ensures
        protocol::json_escaped(seq![]) == Seq::<char>::empty(),
        protocol::json_escaped(seq![c] + a) == protocol::json_char(c) + protocol::json_escaped(a),
{
    assert((seq![c] + a).skip(1) =~= a);
}

/// A text without quotes, backslashes and control characters stands in JSON as it
/// is.
pub proof fn law_plain_json_text(s: Seq<char>)
    requires
        forall|i: int|
            0 <= i < s.len() ==> (#[trigger] s[i]) != '"' && s[i] != '\\' && s[i] as u32 >= 0x20,
    ensures
        protocol::json_escaped(s) == s,
        protocol::json_quoted(s) == seq!['"'] + s + seq!['"'],
    decreases s.len(),
{
    if s.len() > 0 {
        let t = s.skip(1);
        assert forall|i: int| 0 <= i < t.len() implies (#[trigger] t[i]) != '"' && t[i] != '\\'
            && t[i] as u32 >= 0x20 by {
            assert(t[i] == s[i + 1]);
        }
        law_plain_json_text(t);
        let c = s[0];
        assert(c as u32 >= 0x20);
        assert(protocol::json_char(c) == seq![c]);
        assert(s =~= seq![c] + t);
    } else {
        assert(s =~= seq![]);
    }
}

/// The members of the frames, by name.
pub proof fn law_frame_members(text: Seq<char>, request_id: Seq<char>, decision: Seq<char>)
    ensures
        protocol::message_pairs(text) == seq![("content"@, text), ("type"@, "message"@)],
        protocol::approval_pairs(request_id, decision) == seq![
            ("decision"@, decision),
            ("request_id"@, request_id),
            ("type"@, "approval_response"@),
        ],
{
}

/// An object is written member by member, each behind a comma but the first.
pub proof fn law_object_members(
    pairs: Seq<(Seq<char>, Seq<char>)>,
    name: Seq<char>,
    value: Seq<char>,
)
    ensures
        protocol::json_members(seq![(name, value)]) == protocol::json_quoted(name) + seq![':']
            + protocol::json_quoted(value),
        pairs.len() > 0 ==> protocol::json_members(pairs.push((name, value)))
            == protocol::json_members(pairs) + seq![','] + protocol::json_members(
            seq![(name, value)],
        ),
        protocol::json_object(pairs) == seq!['{'] + protocol::json_members(pairs) + seq!['}'],
{
    assert(pairs.push((name, value)).drop_last() =~= pairs);
    assert(pairs.push((name, value)).last() == (name, value));
    let one = seq![(name, value)];
    assert(one.last() == (name, value));
}

/// Where a session is reached. `b` is the base without white space around it and
/// slashes at its end: with a scheme of its own it keeps it, without one it gets
/// `ws://`; the endpoint's path follows, unless it is there; and the query names
/// the agent, the session, and the token where there is one.
pub proof fn law_chat_addresses(
    base: Seq<char>,
    b: Seq<char>,
    agent_alias: Seq<char>,
    session_id: Seq<char>,
    token: Seq<char>,
)
    requires
        b == trim::trimmed_end(trim::trimmed(base), chars::CharClass::Slash),
    ensures
        ({
            let named = seq![("agent_alias"@, agent_alias), ("session_id"@, session_id)];
            let q = protocol::form_query(named);
            let url = protocol::chat_address(base, agent_alias, session_id, None);
            let scheme = "ws://"@.is_prefix_of(b) || "wss://"@.is_prefix_of(b);
            &&& b.len() == 0 ==> url is None
            &&& b.len() > 0 && scheme && "/ws/chat"@.is_suffix_of(b) ==> url == Some(b + "?"@ + q)
            &&& b.len() > 0 && scheme && !"/ws/chat"@.is_suffix_of(b) ==> url == Some(
                b + "/ws/chat"@ + "?"@ + q,
            )
            &&& b.len() > 0 && !scheme && "/ws/chat"@.is_suffix_of("ws://"@ + b) ==> url == Some(
                "ws://"@ + b + "?"@ + q,
            )
            &&& b.len() > 0 && !scheme && !"/ws/chat"@.is_suffix_of("ws://"@ + b) ==> url == Some(
                "ws://"@ + b + "/ws/chat"@ + "?"@ + q,
            )
            &&& token.len() > 0 ==> protocol::chat_params(agent_alias, session_id, Some(token))
                == named.push(("token"@, token))
            &&& token.len() == 0 ==> protocol::chat_params(agent_alias, session_id, Some(token))
                == named
        }),
{
}

/// Nothing comes of a frame that has no effect.
pub proof fn law_no_effect()
    ensures
        EffectModel::nothing().event is None,
        EffectModel::nothing().outcome is None,
{
}

/// Once the caller has left, another approval request is announced and changes
/// nothing else: nobody gets an outcome, and the turn goes on.
pub proof fn law_approval_without_caller(
    s: SessionModel,
    slot: SlotModel,
    request_id: String,
    tool: String,
    arguments_summary: String,
    timeout_secs: u64,
)
    requires
        s.turn == Some(slot),
        slot.awaiting,
    ensures
        ({
            let f = InFrame::ApprovalRequest { request_id, tool, arguments_summary, timeout_secs };
            &&& s.after_frame(f) == s
            &&& s.effect_of(f).outcome is None
            &&& s.effect_of(f).event matches Some(EventModel::ApprovalRequested { device, info })
                && device == s.device && info.request_id == request_id@ && info.tool == tool@
                && info.summary == arguments_summary@ && info.timeout_secs == timeout_secs
        }),
{
}

/// The end of a turn that nobody waits for, now or later, is passed over.
pub proof fn law_unwanted_end(
    s: SessionModel,
    slot: SlotModel,
    full_response: String,
    cost_bits: Option<u64>,
)
    requires
        s.turn == Some(slot),
        !slot.awaiting,
        !slot.waiting,
    ensures
        ({
            let f = InFrame::Done { full_response, cost_bits };
            &&& s.after_frame(f) == s
            &&& s.effect_of(f).outcome is None
            &&& s.effect_of(f).event is None
        }),
{
}

} // verus!
