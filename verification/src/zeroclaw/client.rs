//! Sessions against the ZeroClaw gateway.
//!
//! One logical session per Alexa device (its `session_id`), created lazily and
//! kept alive; the agent's memory therefore persists across Alexa sessions.
//! Turns are serialized per session; an `approval_request` returned mid-turn
//! completes the turn early so the caller can voice the prompt to the user.
//!
//! The state of the sessions lives here. The caller owns the sockets and the
//! clock: it performs the actions that are handed back and reports what came of
//! them. Times are nanoseconds of one steady clock.

use vstd::prelude::*;

use crate::string_map::StringMap;
use crate::text::chars::ascii_alnum;
use crate::text::chars::borrow_opt;
use crate::text::chars::concat2;
use crate::text::chars::concat5;
use crate::text::chars::owned;
use crate::text::chars::to_chars;
use crate::text::chars;
use crate::text::trim::is_blank;
use crate::text::trim;
use crate::zeroclaw::protocol::InFrame;
use crate::zeroclaw::protocol::approval_frame;
use crate::zeroclaw::protocol::chat_url;
use crate::zeroclaw::protocol::message_frame;
use crate::zeroclaw::protocol;

verus! {

broadcast use {vstd::seq::group_seq_axioms, vstd::slice::group_slice_axioms};

/// Hard lifetime for a stuck turn slot (gateway hang safety valve): five
/// minutes.
pub const STALE_TURN_NS: u128 = 300_000_000_000;

/// How long a turn waits for the connection: ten seconds.
pub const READY_TIMEOUT_NS: u128 = 10_000_000_000;

/// How long to wait before looking at the connection again.
pub const READY_POLL_MS: u64 = 50;

/// The pause before the first reconnect.
pub const CONNECT_RETRY_MIN_MS: u64 = 1_000;

/// The longest pause before a reconnect.
pub const CONNECT_RETRY_MAX_MS: u64 = 15_000;

// ── Types ──────────────────────────────────────────────────────────────────

#[derive(Debug, Clone)]
pub enum AgentError {
    Connect(String),
    Busy,
    Disconnected(String),
    Config(String),
}

/// What an error says.
pub enum ErrorModel {
    Connect(Seq<char>),
    Busy,
    Disconnected(Seq<char>),
    Config(Seq<char>),
}

impl View for AgentError {
    type V = ErrorModel;

    open spec fn view(&self) -> ErrorModel {
        match *self {
            AgentError::Connect(s) => ErrorModel::Connect(s@),
            AgentError::Busy => ErrorModel::Busy,
            AgentError::Disconnected(s) => ErrorModel::Disconnected(s@),
            AgentError::Config(s) => ErrorModel::Config(s@),
        }
    }
}

impl ErrorModel {
    /// The error in words.
    pub open spec fn words(self) -> Seq<char> {
        match self {
            ErrorModel::Connect(s) => "gateway connection failed: "@ + s,
            ErrorModel::Busy => "session busy (previous turn still in progress)"@,
            ErrorModel::Disconnected(s) => "gateway disconnected: "@ + s,
            ErrorModel::Config(s) => "gateway configuration error: "@ + s,
        }
    }
}

impl AgentError {
    /// The error in words.
    pub fn message(&self) -> (r: String)
        ensures
            r@ == self@.words(),
    {
        match self {
            AgentError::Connect(s) => concat2("gateway connection failed: ", s.as_str()),
            AgentError::Busy => owned("session busy (previous turn still in progress)"),
            AgentError::Disconnected(s) => concat2("gateway disconnected: ", s.as_str()),
            AgentError::Config(s) => concat2("gateway configuration error: ", s.as_str()),
        }
    }
}

#[derive(Debug, Clone, Copy, PartialEq, Eq, Structural)]
pub enum Decision {
    Approve,
    Deny,
    Always,
}

impl Decision {
    /// The decision as the gateway reads it.
    pub open spec fn wire(self) -> Seq<char> {
        match self {
            Decision::Approve => "approve"@,
            Decision::Deny => "deny"@,
            Decision::Always => "always"@,
        }
    }

    /// The decision as the gateway reads it.
    pub fn as_wire(self) -> (r: &'static str)
        ensures
            r@ == self.wire(),
    {
        match self {
            Decision::Approve => "approve",
            Decision::Deny => "deny",
            Decision::Always => "always",
        }
    }
}

#[derive(Debug, Clone)]
pub struct ApprovalInfo {
    pub request_id: String,
    pub tool: String,
    pub summary: String,
    pub timeout_secs: u64,
}

/// What an approval request says.
pub struct InfoModel {
    pub request_id: Seq<char>,
    pub tool: Seq<char>,
    pub summary: Seq<char>,
    pub timeout_secs: u64,
}

impl View for ApprovalInfo {
    type V = InfoModel;

    open spec fn view(&self) -> InfoModel {
        InfoModel {
            request_id: self.request_id@,
            tool: self.tool@,
            summary: self.summary@,
            timeout_secs: self.timeout_secs,
        }
    }
}

impl ApprovalInfo {
    /// A copy of an approval request.
    pub fn copy(&self) -> (r: Self)
        ensures
            r@ == self@,
    {
        ApprovalInfo {
            request_id: self.request_id.clone(),
            tool: self.tool.clone(),
            summary: self.summary.clone(),
            timeout_secs: self.timeout_secs,
        }
    }
}

#[derive(Debug, Clone)]
pub struct TurnOutcome {
    /// Full agent reply (present when the turn completed).
    pub full: Option<String>,
    /// Text streamed so far (used on timeout or early return).
    pub partial: String,
    pub timed_out: bool,
    /// Turn paused waiting for a tool approval; the gateway turn is still live.
    pub awaiting_approval: Option<ApprovalInfo>,
    /// The cost in dollars, as the bits of a 64-bit float.
    pub cost_bits: Option<u64>,
}

/// What a turn's outcome says.
pub struct OutcomeModel {
    pub full: Option<Seq<char>>,
    pub partial: Seq<char>,
    pub timed_out: bool,
    pub awaiting_approval: Option<InfoModel>,
    pub cost_bits: Option<u64>,
}

impl View for TurnOutcome {
    type V = OutcomeModel;

    open spec fn view(&self) -> OutcomeModel {
        OutcomeModel {
            full: chars::opt_text(self.full),
            partial: self.partial@,
            timed_out: self.timed_out,
            awaiting_approval: match self.awaiting_approval {
                Some(i) => Some(i@),
                None => None,
            },
            cost_bits: self.cost_bits,
        }
    }
}

/// Out-of-band events for the surrounding app.
#[derive(Debug, Clone)]
pub enum AgentEvent {
    ApprovalRequested { device: String, info: ApprovalInfo },
    /// Reply that completed a turn whose caller had already left (approval
    /// decision or timeout); surface it on the next user turn.
    LateReply { device: String, text: String },
    SessionError { device: String, message: String },
}

/// What an event says.
pub enum EventModel {
    ApprovalRequested { device: Seq<char>, info: InfoModel },
    LateReply { device: Seq<char>, text: Seq<char> },
    SessionError { device: Seq<char>, message: Seq<char> },
}

impl View for AgentEvent {
    type V = EventModel;

    open spec fn view(&self) -> EventModel {
        match *self {
            AgentEvent::ApprovalRequested { device, info } => EventModel::ApprovalRequested {
                device: device@,
                info: info@,
            },
            AgentEvent::LateReply { device, text } => EventModel::LateReply {
                device: device@,
                text: text@,
            },
            AgentEvent::SessionError { device, message } => EventModel::SessionError {
                device: device@,
                message: message@,
            },
        }
    }
}

#[derive(Debug, Clone)]
pub struct GatewayConfig {
    /// Gateway base URL, e.g. `ws://127.0.0.1:3000`.
    pub base: String,
    /// Bearer token for the gateway (optional on trusted LAN setups).
    pub token: Option<String>,
    /// ZeroClaw agent alias to converse with.
    pub agent_alias: String,
}

/// What a gateway configuration says.
pub struct GatewayModel {
    pub base: Seq<char>,
    pub token: Option<Seq<char>>,
    pub agent_alias: Seq<char>,
}

impl View for GatewayConfig {
    type V = GatewayModel;

    open spec fn view(&self) -> GatewayModel {
        GatewayModel {
            base: self.base@,
            token: chars::opt_text(self.token),
            agent_alias: self.agent_alias@,
        }
    }
}

impl GatewayModel {
    /// What is wrong with the configuration: an empty base, else an empty alias.
    pub open spec fn fault(self) -> Option<ErrorModel> {
        if trim::blank(self.base) {
            Some(ErrorModel::Config("zeroclaw.gateway is empty"@))
        } else if trim::blank(self.agent_alias) {
            Some(ErrorModel::Config("zeroclaw.agent_alias is empty"@))
        } else {
            None
        }
    }

    /// The error of a gateway that does not answer.
    pub open spec fn unreachable(self) -> ErrorModel {
        ErrorModel::Connect(
            "gateway not reachable at "@ + self.base + " (agent "@ + self.agent_alias + ")"@,
        )
    }
}

impl GatewayConfig {
    /// Whether the configuration names a gateway and an agent.
    pub fn validate(&self) -> (r: Result<(), AgentError>)
        ensures
            match r {
                Ok(_) => self@.fault() is None,
                Err(e) => self@.fault() == Some(e@),
            },
    {
        if is_blank(to_chars(self.base.as_str()).as_slice()) {
            return Err(AgentError::Config(owned("zeroclaw.gateway is empty")));
        }
        if is_blank(to_chars(self.agent_alias.as_str()).as_slice()) {
            return Err(AgentError::Config(owned("zeroclaw.agent_alias is empty")));
        }
        Ok(())
    }

    fn not_reachable(&self) -> (r: AgentError)
        ensures
            r@ == self@.unreachable(),
    {
        AgentError::Connect(
            concat5(
                "gateway not reachable at ",
                self.base.as_str(),
                " (agent ",
                self.agent_alias.as_str(),
                ")",
            ),
        )
    }
}

// ── Device keys ────────────────────────────────────────────────────────────

/// A character that a session key may hold.
pub open spec fn key_char(c: char) -> bool {
    chars::is_ascii_alnum(c) || c == '-' || c == '_' || c == '.'
}

/// A device id with every other character made an underscore.
pub open spec fn sanitized(device: Seq<char>) -> Seq<char> {
    Seq::new(
        device.len(),
        |i: int|
            if key_char(device[i]) {
                device[i]
            } else {
                '_'
            },
    )
}

/// The session key of a device.
pub fn sanitize_key(device: &str) -> (r: String)
    ensures
        r@ == sanitized(device@),
{
    let d = to_chars(device);
    let mut out = String::new();
    let mut i: usize = 0;
    while i < d.len()
        invariant
            i <= d@.len(),
            d@ == device@,
            out@ == sanitized(device@).take(i as int),
        decreases d@.len() - i,
    {
        let c = d[i];
        if ascii_alnum(c) || c == '-' || c == '_' || c == '.' {
            out.push(c);
        } else {
            out.push('_');
        }
        i = i + 1;
        assert(out@ =~= sanitized(device@).take(i as int));
    }
    assert(sanitized(device@).take(i as int) == sanitized(device@));
    out
}

// ── Sessions ───────────────────────────────────────────────────────────────

/// A turn in progress.
#[derive(Debug)]
pub struct TurnSlot {
    /// The text streamed so far.
    pub partial: String,
    /// The caller still waits for the outcome.
    pub waiting: bool,
    /// The caller left early (approval or timeout); a later `done` becomes a
    /// LateReply instead of a normal outcome.
    pub awaiting: bool,
    pub started: u128,
}

/// What a turn slot says.
pub struct SlotModel {
    pub partial: Seq<char>,
    pub waiting: bool,
    pub awaiting: bool,
    pub started: u128,
}

#[derive(Debug)]
pub struct Session {
    pub device: String,
    pub turn: Option<TurnSlot>,
    /// The session's connection is up.
    pub alive: bool,
}

/// What a session says.
pub struct SessionModel {
    pub device: Seq<char>,
    pub turn: Option<SlotModel>,
    pub alive: bool,
}

impl View for TurnSlot {
    type V = SlotModel;

    open spec fn view(&self) -> SlotModel {
        SlotModel {
            partial: self.partial@,
            waiting: self.waiting,
            awaiting: self.awaiting,
            started: self.started,
        }
    }
}

impl View for Session {
    type V = SessionModel;

    open spec fn view(&self) -> SessionModel {
        SessionModel {
            device: self.device@,
            turn: match self.turn {
                Some(s) => Some(s@),
                None => None,
            },
            alive: self.alive,
        }
    }
}

/// What a frame brings about beside the session's new state.
#[derive(Debug)]
pub struct FrameEffect {
    /// An event for the surrounding app.
    pub event: Option<AgentEvent>,
    /// The outcome to hand to the waiting caller.
    pub outcome: Option<TurnOutcome>,
}

/// What a frame's effect says.
pub struct EffectModel {
    pub event: Option<EventModel>,
    pub outcome: Option<OutcomeModel>,
}

impl View for FrameEffect {
    type V = EffectModel;

    open spec fn view(&self) -> EffectModel {
        EffectModel {
            event: match self.event {
                Some(e) => Some(e@),
                None => None,
            },
            outcome: match self.outcome {
                Some(o) => Some(o@),
                None => None,
            },
        }
    }
}

impl SlotModel {
    /// A turn that begins.
    pub open spec fn fresh(now: u128) -> SlotModel {
        SlotModel { partial: seq![], waiting: true, awaiting: false, started: now }
    }

    /// The turn once its caller has left.
    pub open spec fn left(self) -> SlotModel {
        SlotModel { waiting: false, awaiting: true, ..self }
    }

    /// The outcome of a turn that was cut short.
    pub open spec fn cut_short(self) -> OutcomeModel {
        OutcomeModel {
            full: None,
            partial: self.partial,
            timed_out: true,
            awaiting_approval: None,
            cost_bits: None,
        }
    }
}

impl EffectModel {
    /// Nothing comes of it.
    pub open spec fn nothing() -> EffectModel {
        EffectModel { event: None, outcome: None }
    }
}

/// The request that an approval frame makes.
pub open spec fn info_of(
    request_id: String,
    tool: String,
    arguments_summary: String,
    timeout_secs: u64,
) -> InfoModel {
    InfoModel {
        request_id: request_id@,
        tool: tool@,
        summary: arguments_summary@,
        timeout_secs,
    }
}

impl SessionModel {
    /// A session without a connection.
    pub open spec fn fresh(device: Seq<char>) -> SessionModel {
        SessionModel { device, turn: None, alive: false }
    }

    /// A turn is in progress that is not stale yet.
    pub open spec fn busy(self, now: u128) -> bool {
        self.turn matches Some(s) && now - s.started < STALE_TURN_NS
    }

    /// The session after a frame.
    pub open spec fn after_frame(self, frame: InFrame) -> SessionModel {
        match (self.turn, frame) {
            (Some(s), InFrame::Chunk { content }) => SessionModel {
                turn: Some(SlotModel { partial: s.partial + content@, ..s }),
                ..self
            },
            (Some(s), InFrame::Done { .. }) => if s.awaiting || s.waiting {
                SessionModel { turn: None, ..self }
            } else {
                self
            },
            (Some(s), InFrame::ApprovalRequest { .. }) => if s.awaiting {
                self
            } else {
                SessionModel { turn: Some(s.left()), ..self }
            },
            _ => self,
        }
    }

    /// What a frame brings about: an approval request is announced and lets a
    /// waiting caller out; the end of a turn goes to the waiting caller, or
    /// becomes a late reply where the caller has left.
    pub open spec fn effect_of(self, frame: InFrame) -> EffectModel {
        match frame {
            InFrame::Done { full_response, cost_bits } => match self.turn {
                Some(s) => if s.awaiting {
                    EffectModel {
                        event: Some(
                            EventModel::LateReply {
                                device: self.device,
                                text: if full_response@.len() == 0 {
                                    s.partial
                                } else {
                                    full_response@
                                },
                            },
                        ),
                        outcome: None,
                    }
                } else if s.waiting {
                    EffectModel {
                        event: None,
                        outcome: Some(
                            OutcomeModel {
                                full: Some(full_response@),
                                partial: s.partial,
                                timed_out: false,
                                awaiting_approval: None,
                                cost_bits,
                            },
                        ),
                    }
                } else {
                    EffectModel::nothing()
                },
                None => EffectModel::nothing(),
            },
            InFrame::ApprovalRequest { request_id, tool, arguments_summary, timeout_secs } => {
                let info = info_of(request_id, tool, arguments_summary, timeout_secs);
                EffectModel {
                    event: Some(EventModel::ApprovalRequested { device: self.device, info }),
                    outcome: match self.turn {
                        Some(s) => if !s.awaiting && s.waiting {
                            Some(
                                OutcomeModel {
                                    full: None,
                                    partial: s.partial,
                                    timed_out: false,
                                    awaiting_approval: Some(info),
                                    cost_bits: None,
                                },
                            )
                        } else {
                            None
                        },
                        None => None,
                    },
                }
            },
            _ => EffectModel::nothing(),
        }
    }

    /// The session once the caller's patience is over; the turn stays, so that
    /// its end can become a late reply.
    pub open spec fn after_timeout(self) -> SessionModel {
        match self.turn {
            Some(s) => SessionModel { turn: Some(s.left()), ..self },
            None => self,
        }
    }

    /// What the caller gets once its patience is over.
    pub open spec fn timeout_outcome(self) -> OutcomeModel {
        match self.turn {
            Some(s) => s.cut_short(),
            None => OutcomeModel {
                full: None,
                partial: seq![],
                timed_out: true,
                awaiting_approval: None,
                cost_bits: None,
            },
        }
    }

    /// What a waiting caller gets when the connection dies.
    pub open spec fn lost_outcome(self) -> Option<OutcomeModel> {
        match self.turn {
            Some(s) => if s.waiting {
                Some(s.cut_short())
            } else {
                None
            },
            None => None,
        }
    }
}

fn empty_text() -> (r: String)
    ensures
        r@ == Seq::<char>::empty(),
{
    let s = String::new();
    assert(s@ =~= seq![]);
    s
}

fn cut_short(partial: String) -> (r: TurnOutcome)
    ensures
        r@ == (OutcomeModel {
            full: None,
            partial: partial@,
            timed_out: true,
            awaiting_approval: None,
            cost_bits: None,
        }),
{
    TurnOutcome { full: None, partial, timed_out: true, awaiting_approval: None, cost_bits: None }
}

impl Session {
    /// A session without a connection.
    pub fn new(device: &str) -> (r: Self)
        ensures
            r@ == SessionModel::fresh(device@),
    {
        Session { device: owned(device), turn: None, alive: false }
    }

    /// Whether a turn is in progress that is not stale yet.
    pub fn is_busy(&self, now: u128) -> (r: bool)
        ensures
            r == self@.busy(now),
    {
        match &self.turn {
            Some(s) => now < s.started || now - s.started < STALE_TURN_NS,
            None => false,
        }
    }

    /// Take in a frame of the gateway.
    pub fn handle_frame(&mut self, frame: InFrame) -> (r: FrameEffect)
        ensures
            final(self)@ == old(self)@.after_frame(frame),
            r@ == old(self)@.effect_of(frame),
    {
        let mut turn: Option<TurnSlot> = None;
        std::mem::swap(&mut turn, &mut self.turn);
        match frame {
            InFrame::Chunk { content } => {
                if let Some(mut slot) = turn {
                    slot.partial.append(content.as_str());
                    self.turn = Some(slot);
                }
                FrameEffect { event: None, outcome: None }
            },
            InFrame::Done { full_response, cost_bits } => {
                match turn {
                    Some(slot) => {
                        if slot.awaiting {
                            // The caller already left (approval decision or
                            // timeout): surface as a late reply.
                            let text = if to_chars(full_response.as_str()).len() == 0 {
                                slot.partial
                            } else {
                                full_response
                            };
                            FrameEffect {
                                event: Some(
                                    AgentEvent::LateReply { device: self.device.clone(), text },
                                ),
                                outcome: None,
                            }
                        } else if slot.waiting {
                            FrameEffect {
                                event: None,
                                outcome: Some(
                                    TurnOutcome {
                                        full: Some(full_response),
                                        partial: slot.partial,
                                        timed_out: false,
                                        awaiting_approval: None,
                                        cost_bits,
                                    },
                                ),
                            }
                        } else {
                            self.turn = Some(slot);
                            FrameEffect { event: None, outcome: None }
                        }
                    },
                    None => FrameEffect { event: None, outcome: None },
                }
            },
            InFrame::ApprovalRequest { request_id, tool, arguments_summary, timeout_secs } => {
                let info = ApprovalInfo {
                    request_id,
                    tool,
                    summary: arguments_summary,
                    timeout_secs,
                };
                let event = AgentEvent::ApprovalRequested {
                    device: self.device.clone(),
                    info: info.copy(),
                };
                // If a turn is active, let the caller out early so it can voice
                // the prompt; the slot stays (awaiting) for the late done.
                let mut outcome: Option<TurnOutcome> = None;
                if let Some(mut slot) = turn {
                    if !slot.awaiting {
                        if slot.waiting {
                            outcome = Some(
                                TurnOutcome {
                                    full: None,
                                    partial: slot.partial.clone(),
                                    timed_out: false,
                                    awaiting_approval: Some(info),
                                    cost_bits: None,
                                },
                            );
                        }
                        slot.awaiting = true;
                        slot.waiting = false;
                    }
                    self.turn = Some(slot);
                }
                FrameEffect { event: Some(event), outcome }
            },
            InFrame::Other => {
                self.turn = turn;
                FrameEffect { event: None, outcome: None }
            },
        }
    }

    /// Give up waiting for the turn: hand back what streamed so far. The slot
    /// stays so a late `done` can turn into a LateReply.
    pub fn time_out(&mut self) -> (r: TurnOutcome)
        ensures
            final(self)@ == old(self)@.after_timeout(),
            r@ == old(self)@.timeout_outcome(),
    {
        let mut turn: Option<TurnSlot> = None;
        std::mem::swap(&mut turn, &mut self.turn);
        match turn {
            Some(mut slot) => {
                let partial = slot.partial.clone();
                slot.waiting = false;
                slot.awaiting = true;
                self.turn = Some(slot);
                cut_short(partial)
            },
            None => cut_short(empty_text()),
        }
    }

    /// Complete an in-flight turn when the connection dies so callers do not
    /// wait their full timeout.
    pub fn finalize_turn(&mut self) -> (r: Option<TurnOutcome>)
        ensures
            final(self)@ == (SessionModel { turn: None, ..old(self)@ }),
            match r {
                Some(o) => old(self)@.lost_outcome() == Some(o@),
                None => old(self)@.lost_outcome() is None,
            },
    {
        let mut turn: Option<TurnSlot> = None;
        std::mem::swap(&mut turn, &mut self.turn);
        match turn {
            Some(slot) => if slot.waiting {
                Some(cut_short(slot.partial))
            } else {
                None
            },
            None => None,
        }
    }
}

// ── The client ─────────────────────────────────────────────────────────────

/// The state of a client of the ZeroClaw gateway: one session per device key.
#[derive(Debug)]
pub struct ZeroClaw {
    cfg: GatewayConfig,
    sessions: StringMap<Session>,
}

/// What a client says.
pub struct ClientModel {
    pub cfg: GatewayModel,
    pub sessions: Map<Seq<char>, SessionModel>,
}

impl View for ZeroClaw {
    type V = ClientModel;

    closed spec fn view(&self) -> ClientModel {
        ClientModel {
            cfg: self.cfg@,
            sessions: Map::new(
                |k: Seq<char>| self.sessions@.dom().contains(k),
                |k: Seq<char>| self.sessions@[k]@,
            ),
        }
    }
}

/// What happened on the way of a turn.
#[derive(Debug)]
pub enum AskEvent {
    /// The turn was asked for.
    Begin,
    /// The connection was started, or a pause is over.
    Waited,
    /// The frame went out.
    Sent,
    /// The frame could not be handed to the connection.
    SendFailed,
    /// The session handed over the turn's outcome.
    Completed(TurnOutcome),
    /// The session dropped the turn without an outcome.
    Dropped,
    /// The turn's time is over.
    TimedOut,
}

/// What to do next on the way of a turn.
#[derive(Debug)]
pub enum AskAction {
    /// Start the connection of the session, and go on.
    Connect,
    /// Pause for a moment, and go on.
    Wait,
    /// Send a frame on the session's connection.
    Send(String),
    /// Wait for the outcome, up to the turn's time.
    AwaitReply,
    /// The turn is over.
    Return(Result<TurnOutcome, AgentError>),
}

/// What an action says.
pub enum ActionModel {
    Connect,
    Wait,
    Send(Seq<char>),
    AwaitReply,
    Return(Result<OutcomeModel, ErrorModel>),
}

impl View for AskAction {
    type V = ActionModel;

    open spec fn view(&self) -> ActionModel {
        match *self {
            AskAction::Connect => ActionModel::Connect,
            AskAction::Wait => ActionModel::Wait,
            AskAction::Send(s) => ActionModel::Send(s@),
            AskAction::AwaitReply => ActionModel::AwaitReply,
            AskAction::Return(r) => ActionModel::Return(
                match r {
                    Ok(o) => Ok(o@),
                    Err(e) => Err(e@),
                },
            ),
        }
    }
}

/// The error of a connection that takes no more frames.
pub open spec fn send_closed() -> ErrorModel {
    ErrorModel::Disconnected("send channel closed"@)
}

/// The error of a turn that was dropped.
pub open spec fn turn_closed() -> ErrorModel {
    ErrorModel::Disconnected("turn channel closed"@)
}

impl ClientModel {
    /// The client with one session in another state.
    pub open spec fn with_session(self, key: Seq<char>, s: SessionModel) -> ClientModel {
        ClientModel { sessions: self.sessions.insert(key, s), ..self }
    }

    /// The session of a key has a connection.
    pub open spec fn connected(self, key: Seq<char>) -> bool {
        self.sessions.dom().contains(key) && self.sessions[key].alive
    }

    /// The next step of a turn that waits for its connection: begin the turn,
    /// wait, or give up.
    pub open spec fn ready_step(
        self,
        key: Seq<char>,
        text: Seq<char>,
        began: u128,
        now: u128,
    ) -> (ClientModel, ActionModel) {
        if self.connected(key) {
            if self.sessions[key].busy(now) {
                (self, ActionModel::Return(Err(ErrorModel::Busy)))
            } else {
                (
                    self.with_session(
                        key,
                        SessionModel { turn: Some(SlotModel::fresh(now)), ..self.sessions[key] },
                    ),
                    ActionModel::Send(protocol::json_object(protocol::message_pairs(text))),
                )
            }
        } else if now - began >= READY_TIMEOUT_NS {
            (self, ActionModel::Return(Err(self.cfg.unreachable())))
        } else {
            (self, ActionModel::Wait)
        }
    }

    /// One step of a turn: the client after the event, and what to do next.
    pub open spec fn ask_step(
        self,
        device: Seq<char>,
        text: Seq<char>,
        began: u128,
        event: AskEvent,
        now: u128,
    ) -> (ClientModel, ActionModel) {
        let key = sanitized(device);
        match event {
            AskEvent::Begin => match self.cfg.fault() {
                Some(e) => (self, ActionModel::Return(Err(e))),
                None => if self.connected(key) {
                    self.ready_step(key, text, began, now)
                } else if self.sessions.dom().contains(key) {
                    (self, ActionModel::Connect)
                } else {
                    (self.with_session(key, SessionModel::fresh(key)), ActionModel::Connect)
                },
            },
            AskEvent::Waited => self.ready_step(key, text, began, now),
            AskEvent::Sent => (self, ActionModel::AwaitReply),
            AskEvent::SendFailed => (self, ActionModel::Return(Err(send_closed()))),
            AskEvent::Completed(o) => (self, ActionModel::Return(Ok(o@))),
            AskEvent::Dropped => (self, ActionModel::Return(Err(turn_closed()))),
            AskEvent::TimedOut => if self.sessions.dom().contains(key) {
                (
                    self.with_session(key, self.sessions[key].after_timeout()),
                    ActionModel::Return(Ok(self.sessions[key].timeout_outcome())),
                )
            } else {
                (self, ActionModel::Return(Ok(SessionModel::fresh(key).timeout_outcome())))
            },
        }
    }
}

/// The gateway's session id of a device key.
pub open spec fn session_id(key: Seq<char>) -> Seq<char> {
    "alexa-"@ + key
}

/// The pause before the next reconnect: twice the last one, up to the longest.
pub open spec fn backoff_after(ms: nat) -> nat {
    if 2 * ms <= CONNECT_RETRY_MAX_MS {
        2 * ms
    } else {
        CONNECT_RETRY_MAX_MS as nat
    }
}

/// The pause before the next reconnect.
pub fn next_backoff(ms: u64) -> (r: u64)
    ensures
        r == backoff_after(ms as nat),
{
    if ms <= CONNECT_RETRY_MAX_MS / 2 {
        2 * ms
    } else {
        CONNECT_RETRY_MAX_MS
    }
}

impl ZeroClaw {
    /// A client without sessions.
    pub fn new(cfg: GatewayConfig) -> (r: Self)
        ensures
            r@ == (ClientModel { cfg: cfg@, sessions: Map::empty() }),
    {
        let r = ZeroClaw { cfg, sessions: StringMap::new() };
        assert(r@.sessions =~= Map::<Seq<char>, SessionModel>::empty());
        r
    }

    fn put(&mut self, key: &str, s: Session)
        ensures
            final(self)@ == old(self)@.with_session(key@, s@),
    {
        self.sessions.insert(owned(key), s);
        assert(self@.sessions =~= old(self)@.sessions.insert(key@, s@));
    }

    fn take(&mut self, key: &str) -> (r: Option<Session>)
        ensures
            final(self)@.cfg == old(self)@.cfg,
            final(self)@.sessions == old(self)@.sessions.remove(key@),
            match r {
                Some(s) => old(self)@.sessions.dom().contains(key@) && old(self)@.sessions[key@]
                    == s@,
                None => !old(self)@.sessions.dom().contains(key@) && final(self)@ == old(self)@,
            },
    {
        let r = self.sessions.remove(key);
        assert(self@.sessions =~= old(self)@.sessions.remove(key@));
        proof {
            if r is None {
                assert(self@.sessions =~= old(self)@.sessions);
            }
        }
        r
    }

    /// Whether the session of a key has a connection.
    pub fn is_connected(&self, key: &str) -> (r: bool)
        ensures
            r == self@.connected(key@),
    {
        match self.sessions.get(key) {
            Some(s) => s.alive,
            None => false,
        }
    }

    /// The URL of a session's connection.
    pub fn session_url(&self, key: &str) -> (r: Option<String>)
        ensures
            chars::opt_text(r) == protocol::chat_address(
                self@.cfg.base,
                self@.cfg.agent_alias,
                session_id(key@),
                self@.cfg.token,
            ),
    {
        let id = concat2("alexa-", key);
        chat_url(
            self.cfg.base.as_str(),
            self.cfg.agent_alias.as_str(),
            id.as_str(),
            borrow_opt(&self.cfg.token),
        )
    }

    /// One step of a conversational turn of `device`, which began to wait for
    /// its connection at `began`. The turn is over when the agent finished, the
    /// turn paused on a tool approval, or its time elapsed (partial reply then).
    pub fn ask(
        &mut self,
        device: &str,
        text: &str,
        began: u128,
        event: AskEvent,
        now: u128,
    ) -> (r: AskAction)
        ensures
            (final(self)@, r@) == old(self)@.ask_step(device@, text@, began, event, now),
    {
        let key = sanitize_key(device);
        match event {
            AskEvent::Begin => {
                match self.cfg.validate() {
                    Err(e) => {
                        return AskAction::Return(Err(e));
                    },
                    Ok(_) => {},
                }
                let known = match self.sessions.get(key.as_str()) {
                    Some(_) => true,
                    None => false,
                };
                if self.is_connected(key.as_str()) {
                    self.begin_when_ready(key.as_str(), text, began, now)
                } else {
                    if !known {
                        self.put(key.as_str(), Session::new(key.as_str()));
                    }
                    AskAction::Connect
                }
            },
            AskEvent::Waited => self.begin_when_ready(key.as_str(), text, began, now),
            AskEvent::Sent => AskAction::AwaitReply,
            AskEvent::SendFailed => AskAction::Return(
                Err(AgentError::Disconnected(owned("send channel closed"))),
            ),
            AskEvent::Completed(o) => AskAction::Return(Ok(o)),
            AskEvent::Dropped => AskAction::Return(
                Err(AgentError::Disconnected(owned("turn channel closed"))),
            ),
            AskEvent::TimedOut => match self.take(key.as_str()) {
                Some(s) => {
                    let mut session = s;
                    let outcome = session.time_out();
                    self.put(key.as_str(), session);
                    assert(self@.sessions =~= old(self)@.sessions.insert(key@, session@));
                    AskAction::Return(Ok(outcome))
                },
                None => AskAction::Return(Ok(cut_short(empty_text()))),
            },
        }
    }

    fn begin_when_ready(&mut self, key: &str, text: &str, began: u128, now: u128) -> (r: AskAction)
        ensures
            (final(self)@, r@) == old(self)@.ready_step(key@, text@, began, now),
    {
        if !self.is_connected(key) {
            return if now >= began && now - began >= READY_TIMEOUT_NS {
                AskAction::Return(Err(self.cfg.not_reachable()))
            } else {
                AskAction::Wait
            };
        }
        let busy = match self.sessions.get(key) {
            Some(s) => s.is_busy(now),
            None => false,
        };
        if busy {
            return AskAction::Return(Err(AgentError::Busy));
        }
        match self.take(key) {
            Some(s) => {
                let slot = TurnSlot {
                    partial: empty_text(),
                    waiting: true,
                    awaiting: false,
                    started: now,
                };
                let session = Session { device: s.device, turn: Some(slot), alive: s.alive };
                self.put(key, session);
                assert(self@.sessions =~= old(self)@.sessions.insert(key@, session@));
            },
            None => {},
        }
        AskAction::Send(message_frame(text))
    }

    /// Answer a pending tool-approval prompt on the gateway: the frame to send
    /// on the session of the device.
    pub fn respond_approval(
        &self,
        device: &str,
        request_id: &str,
        decision: Decision,
    ) -> (r: Result<String, AgentError>)
        ensures
            match r {
                Ok(f) => {
                    &&& self@.sessions.dom().contains(sanitized(device@))
                    &&& f@ == protocol::json_object(
                        protocol::approval_pairs(request_id@, decision.wire()),
                    )
                },
                Err(e) => {
                    &&& !self@.sessions.dom().contains(sanitized(device@))
                    &&& e@ == ErrorModel::Disconnected("no session"@)
                },
            },
    {
        match self.sessions.get(sanitize_key(device).as_str()) {
            Some(_) => Ok(approval_frame(request_id, decision.as_wire())),
            None => Err(AgentError::Disconnected(owned("no session"))),
        }
    }

    /// The error of a connection that takes no more frames.
    pub fn send_failed() -> (r: AgentError)
        ensures
            r@ == send_closed(),
    {
        AgentError::Disconnected(owned("send channel closed"))
    }

    /// Take in a frame of the gateway for the session of a key.
    pub fn handle_frame(&mut self, key: &str, frame: InFrame) -> (r: FrameEffect)
        ensures
            if old(self)@.sessions.dom().contains(key@) {
                &&& final(self)@ == old(self)@.with_session(
                    key@,
                    old(self)@.sessions[key@].after_frame(frame),
                )
                &&& r@ == old(self)@.sessions[key@].effect_of(frame)
            } else {
                final(self)@ == old(self)@ && r@ == EffectModel::nothing()
            },
    {
        match self.take(key) {
            Some(s) => {
                let mut session = s;
                let effect = session.handle_frame(frame);
                self.put(key, session);
                assert(self@.sessions =~= old(self)@.sessions.insert(key@, session@));
                effect
            },
            None => FrameEffect { event: None, outcome: None },
        }
    }

    /// The session's connection came up, or is being made anew.
    pub fn set_alive(&mut self, key: &str, alive: bool)
        ensures
            final(self)@ == (if old(self)@.sessions.dom().contains(key@) {
                old(self)@.with_session(
                    key@,
                    SessionModel { alive, ..old(self)@.sessions[key@] },
                )
            } else {
                old(self)@
            }),
    {
        match self.take(key) {
            Some(s) => {
                let mut session = s;
                session.alive = alive;
                self.put(key, session);
                assert(self@.sessions =~= old(self)@.sessions.insert(key@, session@));
            },
            None => {},
        }
    }

    /// The session's connection died: a waiting caller gets what streamed so
    /// far.
    pub fn connection_lost(&mut self, key: &str) -> (r: Option<TurnOutcome>)
        ensures
            if old(self)@.sessions.dom().contains(key@) {
                let before = old(self)@.sessions[key@];
                &&& final(self)@ == old(self)@.with_session(
                    key@,
                    SessionModel { turn: None, alive: false, ..before },
                )
                &&& match r {
                    Some(o) => before.lost_outcome() == Some(o@),
                    None => before.lost_outcome() is None,
                }
            } else {
                final(self)@ == old(self)@ && r is None
            },
    {
        match self.take(key) {
            Some(s) => {
                let mut session = s;
                session.alive = false;
                let outcome = session.finalize_turn();
                self.put(key, session);
                assert(self@.sessions =~= old(self)@.sessions.insert(key@, session@));
                outcome
            },
            None => None,
        }
    }
}

// ── Laws ───────────────────────────────────────────────────────────────────

/// A session key holds only letters, digits, dashes, underscores and dots, is
/// as long as the device id, and is its own key; an id of such characters is
/// its own key.
pub proof fn law_sanitize_key(device: Seq<char>)
    ensures
        sanitized(device).len() == device.len(),
        forall|i: int| 0 <= i < device.len() ==> key_char(#[trigger] sanitized(device)[i]),
        sanitized(sanitized(device)) == sanitized(device),
        (forall|i: int| 0 <= i < device.len() ==> key_char(#[trigger] device[i])) ==> sanitized(
            device,
        ) == device,
{
    assert(sanitized(sanitized(device)) =~= sanitized(device));
    if forall|i: int| 0 <= i < device.len() ==> key_char(#[trigger] device[i]) {
        assert(sanitized(device) =~= device);
    }
}

/// Turns are serialized: while one is in progress and not stale, another one is
/// refused and nothing changes.
pub proof fn law_one_turn_at_a_time(
    m: ClientModel,
    device: Seq<char>,
    text: Seq<char>,
    began: u128,
    now: u128,
)
    requires
        m.cfg.fault() is None,
        m.connected(sanitized(device)),
        m.sessions[sanitized(device)].busy(now),
    ensures
        m.ask_step(device, text, began, AskEvent::Begin, now) == (
            m,
            ActionModel::Return(Err(ErrorModel::Busy)),
        ),
        m.ask_step(device, text, began, AskEvent::Waited, now) == (
            m,
            ActionModel::Return(Err(ErrorModel::Busy)),
        ),
{
}

/// A hung turn does not block its session for ever: five minutes after it began
/// another turn may begin.
pub proof fn law_stale_turn_gives_way(s: SessionModel, now: u128)
    requires
        s.turn matches Some(t) ==> now >= t.started + STALE_TURN_NS,
    ensures
        !s.busy(now),
{
}

/// A turn whose caller left gets no outcome, whatever frames come; its end
/// becomes a late reply, after which the session is free.
pub proof fn law_late_reply(s: SessionModel, slot: SlotModel, full_response: String, cost_bits: Option<u64>)
    requires
        s.turn == Some(slot),
        slot.awaiting,
    ensures
        s.after_frame(InFrame::Done { full_response, cost_bits }).turn is None,
        s.effect_of(InFrame::Done { full_response, cost_bits }).outcome is None,
        s.effect_of(InFrame::Done { full_response, cost_bits }).event == Some(
            EventModel::LateReply {
                device: s.device,
                text: if full_response@.len() == 0 {
                    slot.partial
                } else {
                    full_response@
                },
            },
        ),
{
}

/// Both ways of leaving a turn early, an approval request and a timeout, leave
/// it to end in a late reply, with the text streamed so far kept.
pub proof fn law_leaving_early_awaits_late_reply(
    s: SessionModel,
    slot: SlotModel,
    request_id: String,
    tool: String,
    summary: String,
    timeout_secs: u64,
)
    requires
        s.turn == Some(slot),
        slot.waiting,
        !slot.awaiting,
    ensures
        s.after_timeout().turn == Some(slot.left()),
        s.timeout_outcome() == slot.cut_short(),
        ({
            let f = InFrame::ApprovalRequest {
                request_id,
                tool,
                arguments_summary: summary,
                timeout_secs,
            };
            &&& s.after_frame(f).turn == Some(slot.left())
            &&& s.effect_of(f).outcome matches Some(o) && o.awaiting_approval == Some(
                info_of(request_id, tool, summary, timeout_secs),
            ) && !o.timed_out && o.full is None && o.partial == slot.partial
        }),
{
}

/// A caller gets at most one outcome of its turn: the frame that brings one
/// leaves nobody waiting.
pub proof fn law_one_outcome_per_turn(s: SessionModel, frame: InFrame)
    ensures
        s.effect_of(frame).outcome is Some ==> {
            &&& s.turn matches Some(slot) && slot.waiting
            &&& s.after_frame(frame).turn matches Some(slot) ==> !slot.waiting
        },
{
}

/// Every approval request is announced, whether or not a turn is in progress.
pub proof fn law_approval_is_announced(
    s: SessionModel,
    request_id: String,
    tool: String,
    summary: String,
    timeout_secs: u64,
)
    ensures
        s.effect_of(
            InFrame::ApprovalRequest {
                request_id,
                tool,
                arguments_summary: summary,
                timeout_secs,
            },
        ).event == Some(
            EventModel::ApprovalRequested {
                device: s.device,
                info: info_of(request_id, tool, summary, timeout_secs),
            },
        ),
{
}

/// The session after frames in order.
pub open spec fn after_frames(s: SessionModel, frames: Seq<InFrame>) -> SessionModel
    decreases frames.len(),
{
    if frames.len() == 0 {
        s
    } else {
        after_frames(s, frames.drop_last()).after_frame(frames.last())
    }
}

/// The contents of chunks, one after the other.
pub open spec fn streamed(frames: Seq<InFrame>) -> Seq<char>
    decreases frames.len(),
{
    if frames.len() == 0 {
        seq![]
    } else {
        match frames.last() {
            InFrame::Chunk { content } => streamed(frames.drop_last()) + content@,
            _ => streamed(frames.drop_last()),
        }
    }
}

/// Chunks accumulate: after any chunks the turn holds their contents in order,
/// and its caller still waits.
pub proof fn law_chunks_accumulate(s: SessionModel, slot: SlotModel, frames: Seq<InFrame>)
    requires
        s.turn == Some(slot),
        forall|i: int| 0 <= i < frames.len() ==> (#[trigger] frames[i]) is Chunk,
    ensures
        after_frames(s, frames).turn == Some(
            SlotModel { partial: slot.partial + streamed(frames), ..slot },
        ),
        after_frames(s, frames).device == s.device,
        after_frames(s, frames).alive == s.alive,
    decreases frames.len(),
{
    if frames.len() > 0 {
        let init = frames.drop_last();
        assert forall|i: int| 0 <= i < init.len() implies (#[trigger] init[i]) is Chunk by {
            assert(init[i] == frames[i]);
        }
        law_chunks_accumulate(s, slot, init);
        assert(frames[frames.len() - 1] is Chunk);
        assert(slot.partial + streamed(frames) =~= slot.partial + streamed(init)
            + frames.last()->Chunk_content@);
    } else {
        assert(slot.partial + streamed(frames) =~= slot.partial);
    }
}

/// Pauses between reconnects never shrink below the first and never grow past
/// the longest.
pub proof fn law_backoff_is_capped(ms: nat)
    requires
        CONNECT_RETRY_MIN_MS <= ms <= CONNECT_RETRY_MAX_MS,
    ensures
        ms <= backoff_after(ms) <= CONNECT_RETRY_MAX_MS,
        backoff_after(ms) == ms <==> ms == CONNECT_RETRY_MAX_MS,
{
}

/// Sessions of other devices are left alone by every step of a turn.
pub proof fn law_turns_of_devices_are_apart(
    m: ClientModel,
    device: Seq<char>,
    text: Seq<char>,
    began: u128,
    event: AskEvent,
    now: u128,
    other: Seq<char>,
)
    requires
        sanitized(device) != other,
        m.sessions.dom().contains(other),
    ensures
        m.ask_step(device, text, began, event, now).0.sessions.dom().contains(other),
        m.ask_step(device, text, began, event, now).0.sessions[other] == m.sessions[other],
{
}

} // verus!
