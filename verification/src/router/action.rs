//! What the router hands back: replies, streams to start, and questions for the
//! agent.

use vstd::prelude::*;

use crate::alexa::response::BodyModel;
use crate::alexa::response::Response;
use crate::alexa::response::ResponseBuilder;
use crate::alexa::response::audio_item;
use crate::alexa::response;
use crate::audio::registry::random_token;
use crate::audio::registry;
use crate::audio::shuffle::draw_picks;
use crate::audio::shuffle;
use crate::json::JsonModel;
use crate::state::AppModel;
use crate::state::AppState;
use crate::text::chars::borrow_opt;
use crate::text::chars::owned;
use crate::text::chars;
use crate::zeroclaw::client::Decision;

verus! {

broadcast use {vstd::seq::group_seq_axioms, vstd::slice::group_slice_axioms};

/// A stream to start. Its cover art is looked up when the reply is made.
#[derive(Debug)]
pub struct PlayPlan {
    pub token: String,
    pub offset_ms: u64,
    /// The stream, and its place, that the device is expected to be on.
    pub expected: Option<(String, u64)>,
    /// The stream waits behind the one that is playing.
    pub enqueue: bool,
    pub title: String,
    pub subtitle: Option<String>,
    /// The track whose cover art goes with the stream.
    pub art: Option<u64>,
    pub speech: Option<String>,
}

/// What a plan says.
pub struct PlanModel {
    pub token: Seq<char>,
    pub offset_ms: u64,
    pub expected: Option<(Seq<char>, u64)>,
    pub enqueue: bool,
    pub title: Seq<char>,
    pub subtitle: Option<Seq<char>>,
    pub art: Option<u64>,
    pub speech: Option<Seq<char>>,
}

impl View for PlayPlan {
    type V = PlanModel;

    open spec fn view(&self) -> PlanModel {
        PlanModel {
            token: self.token@,
            offset_ms: self.offset_ms,
            expected: match self.expected {
                Some((t, o)) => Some((t@, o)),
                None => None,
            },
            enqueue: self.enqueue,
            title: self.title@,
            subtitle: chars::opt_text(self.subtitle),
            art: self.art,
            speech: chars::opt_text(self.speech),
        }
    }
}

/// What to do for a request. With `save` the players are to be persisted.
#[derive(Debug)]
pub enum Action {
    /// Send a response.
    Reply { response: Response, save: bool },
    /// Look up the cover art of the plan's track and start the stream.
    Play { plan: PlayPlan, save: bool },
    /// Forward a decision to the agent; the late reply is to be spoken before
    /// what is said of it.
    Forward { request_id: String, decision: Decision, cached: Option<String> },
    /// Ask the agent; the late reply is to be spoken before its answer.
    Ask { utterance: String, cached: Option<String> },
}

/// What an action says.
pub enum ActionModel {
    Reply { response: (Seq<char>, BodyModel), save: bool },
    Play { plan: PlanModel, save: bool },
    Forward { request_id: Seq<char>, decision: Decision, cached: Option<Seq<char>> },
    Ask { utterance: Seq<char>, cached: Option<Seq<char>> },
}

impl View for Action {
    type V = ActionModel;

    open spec fn view(&self) -> ActionModel {
        match *self {
            Action::Reply { response, save } => ActionModel::Reply { response: response@, save },
            Action::Play { plan, save } => ActionModel::Play { plan: plan@, save },
            Action::Forward { request_id, decision, cached } => ActionModel::Forward {
                request_id: request_id@,
                decision,
                cached: chars::opt_text(cached),
            },
            Action::Ask { utterance, cached } => ActionModel::Ask {
                utterance: utterance@,
                cached: chars::opt_text(cached),
            },
        }
    }
}

/// A spoken reply.
pub open spec fn spoken_reply(text: Seq<char>) -> ActionModel {
    ActionModel::Reply { response: response::said(text), save: false }
}

/// A spoken reply.
pub fn say(text: &str) -> (r: Action)
    ensures
        r@ == spoken_reply(text@),
{
    Action::Reply { response: Response::saying(text), save: false }
}

/// The JSON of the item that a plan plays.
pub open spec fn plan_item(m: AppModel, plan: PlanModel, has_cover: bool) -> JsonModel {
    response::stream_item_json(
        m.cfg.public_base(),
        plan.token,
        plan.offset_ms,
        plan.expected,
        plan.title,
        plan.subtitle,
        match plan.art {
            Some(id) => Some(m.art_address(id, has_cover)),
            None => None,
        },
    )
}

/// How a plan's stream joins what the device plays: in its place, or behind it.
pub open spec fn plan_behavior(plan: PlanModel) -> Seq<char> {
    if plan.enqueue {
        "REPLACE_ENQUEUED"@
    } else {
        "REPLACE_ALL"@
    }
}

/// The response that hands over a plan's stream.
pub open spec fn plan_response(
    m: AppModel,
    plan: PlanModel,
    has_cover: bool,
) -> (Seq<char>, BodyModel) {
    let body = match plan.speech {
        Some(s) => response::saying(response::empty_body(), s),
        None => response::empty_body(),
    };
    response::built(
        response::ending(
            response::directing(
                body,
                response::play_directive(plan_behavior(plan), plan_item(m, plan, has_cover)),
            ),
        ),
    )
}

/// The response that hands over a plan's stream; `has_cover` says whether the file
/// of the plan's track holds cover art.
pub fn finish_play(st: &AppState, plan: &PlayPlan, has_cover: bool) -> (r: Response)
    ensures
        r@ == plan_response(st@, plan@, has_cover),
{
    let art = match plan.art {
        Some(id) => Some(st.art_url(id, has_cover)),
        None => None,
    };
    let expected = match &plan.expected {
        Some(p) => Some((p.0.as_str(), p.1)),
        None => None,
    };
    let base = st.cfg.base_url();
    let item = audio_item(
        base.as_str(),
        plan.token.as_str(),
        plan.offset_ms,
        expected,
        plan.title.as_str(),
        borrow_opt(&plan.subtitle),
        art,
    );
    let mut b = ResponseBuilder::new();
    match &plan.speech {
        Some(s) => {
            b.say(s.as_str());
        },
        None => {},
    }
    if plan.enqueue {
        b.enqueue_audio(item);
    } else {
        b.play_audio(item);
    }
    b.end_session();
    b.build()
}

// ── Random choices ─────────────────────────────────────────────────────────

/// The random choices that a request may need: a fresh token, and the choices
/// of a shuffle.
#[derive(Debug)]
pub struct Draws {
    pub token: String,
    pub picks: Vec<usize>,
}

/// The choices are enough to shuffle the library, and the queue of a device.
pub open spec fn enough_picks(m: AppModel, device: Seq<char>, picks: Seq<usize>) -> bool {
    &&& shuffle::is_deck(picks, m.library.len())
    &&& shuffle::is_deck(picks, m.player(device).queue.len())
}

/// Draws the choices for a request of a device.
pub fn draw(st: &AppState, device: &str) -> (r: Draws)
    ensures
        registry::is_issued(r.token@),
        enough_picks(st@, device@, r.picks@),
{
    let tracks: usize = st.library.len();
    let queued: usize = match st.player(device) {
        Some(p) => p.queue.len(),
        None => 0,
    };
    let n: usize = if tracks > queued {
        tracks
    } else {
        queued
    };
    Draws { token: random_token(), picks: draw_picks(n) }
}

/// An owned copy of the place where a device is expected to be.
pub(crate) fn owned_place(o: Option<(&str, u64)>) -> (r: Option<(String, u64)>)
    ensures
        match r {
            Some((t, n)) => response::opt_place(o) == Some((t@, n)),
            None => response::opt_place(o) is None,
        },
{
    match o {
        Some((t, n)) => Some((owned(t), n)),
        None => None,
    }
}

} // verus!
