//! Application state: library, per-device players, playback tokens, pending
//! approvals, and cached late agent replies.
//!
//! Times are nanoseconds of one steady clock.

use vstd::prelude::*;

use crate::audio::library::Library;
use crate::audio::library::TrackModel;
use crate::audio::player::PlayerModel;
use crate::audio::player::PlayerState;
use crate::audio::registry::EntryModel;
use crate::audio::registry::PlaybackRegistry;
use crate::config::Config;
use crate::string_map::StringMap;
use crate::text::chars::concat3;
use crate::text::chars::owned;
use crate::text::chars::to_chars;
use crate::text::number::write_decimal;
use crate::text::number;
use crate::text::trim::is_blank;
use crate::text::trim;
use crate::zeroclaw::client::AgentEvent;
use crate::zeroclaw::client::ApprovalInfo;
use crate::zeroclaw::client::EventModel;
use crate::zeroclaw::client::InfoModel;

verus! {

broadcast use {vstd::seq::group_seq_axioms, vstd::slice::group_slice_axioms};

/// The nanoseconds of a second.
pub const NS_PER_SEC: u128 = 1_000_000_000;

/// A tool approval we should ask the user about on the next turn.
#[derive(Debug, Clone)]
pub struct PendingApproval {
    pub info: ApprovalInfo,
    pub asked_at: u128,
}

/// What a pending approval says.
pub struct PendingModel {
    pub info: InfoModel,
    pub asked_at: u128,
}

impl View for PendingApproval {
    type V = PendingModel;

    open spec fn view(&self) -> PendingModel {
        PendingModel { info: self.info@, asked_at: self.asked_at }
    }
}

impl PendingModel {
    /// The gateway has given up waiting for the answer, after a second at the
    /// soonest.
    pub open spec fn stale(self, now: u128) -> bool {
        now - self.asked_at >= NS_PER_SEC * if self.info.timeout_secs > 0 {
            self.info.timeout_secs as int
        } else {
            1
        }
    }
}

impl PendingApproval {
    /// Whether the gateway has given up waiting for the answer.
    pub fn is_stale(&self, now: u128) -> (r: bool)
        ensures
            r == self@.stale(now),
    {
        let secs: u64 = if self.info.timeout_secs > 0 {
            self.info.timeout_secs
        } else {
            1
        };
        assert(NS_PER_SEC * secs <= 1_000_000_000 * 0xffff_ffff_ffff_ffff);
        now >= self.asked_at && now - self.asked_at >= NS_PER_SEC * (secs as u128)
    }

    /// A copy of a pending approval.
    pub fn copy(&self) -> (r: Self)
        ensures
            r@ == self@,
    {
        PendingApproval { info: self.info.copy(), asked_at: self.asked_at }
    }
}

/// An agent reply that completed after the user's request had already been
/// answered (post-approval turn or timeout); spoken on the next turn.
#[derive(Debug, Clone)]
pub struct CachedReply {
    pub text: String,
}

/// Everything that requests read and change.
#[derive(Debug)]
pub struct AppState {
    pub cfg: Config,
    /// Swapped on rescan.
    pub library: Library,
    /// device id -> player state.
    pub players: StringMap<PlayerState>,
    pub registry: PlaybackRegistry,
    /// device id -> pending tool approval awaiting a yes/no.
    pub approvals: StringMap<PendingApproval>,
    /// device id -> late reply to speak on the next turn.
    pub cached_reply: StringMap<CachedReply>,
}

/// What the application state says.
pub struct AppModel {
    pub cfg: Config,
    pub library: Seq<TrackModel>,
    pub players: Map<Seq<char>, PlayerModel>,
    pub registry: Map<Seq<char>, EntryModel>,
    pub approvals: Map<Seq<char>, PendingModel>,
    pub cached_reply: Map<Seq<char>, Seq<char>>,
}

/// What the players of a map say.
pub open spec fn player_models(m: Map<Seq<char>, PlayerState>) -> Map<Seq<char>, PlayerModel> {
    Map::new(|k: Seq<char>| m.dom().contains(k), |k: Seq<char>| m[k]@)
}

impl View for AppState {
    type V = AppModel;

    open spec fn view(&self) -> AppModel {
        AppModel {
            cfg: self.cfg,
            library: self.library@,
            players: player_models(self.players@),
            registry: self.registry@,
            approvals: Map::new(
                |k: Seq<char>| self.approvals@.dom().contains(k),
                |k: Seq<char>| self.approvals@[k]@,
            ),
            cached_reply: Map::new(
                |k: Seq<char>| self.cached_reply@.dom().contains(k),
                |k: Seq<char>| self.cached_reply@[k].text@,
            ),
        }
    }
}

/// Every player of the map is well formed.
pub open spec fn players_well_formed(m: Map<Seq<char>, PlayerModel>) -> bool {
    forall|k: Seq<char>| #[trigger] m.dom().contains(k) ==> m[k].well_formed()
}

impl AppModel {
    /// Every player is well formed.
    pub open spec fn well_formed(self) -> bool {
        players_well_formed(self.players)
    }

    /// The player of a device, a fresh one where it has none yet.
    pub open spec fn player(self, device: Seq<char>) -> PlayerModel {
        if self.players.dom().contains(device) {
            self.players[device]
        } else {
            PlayerModel::fresh()
        }
    }

    /// The state with the player of a device in another state.
    pub open spec fn with_player(self, device: Seq<char>, p: PlayerModel) -> AppModel {
        AppModel { players: self.players.insert(device, p), ..self }
    }

    /// The approval that waits for an answer of a device, unless it is stale.
    pub open spec fn pending(self, device: Seq<char>, now: u128) -> Option<PendingModel> {
        if self.approvals.dom().contains(device) && !self.approvals[device].stale(now) {
            Some(self.approvals[device])
        } else {
            None
        }
    }

    /// The state without the approval of a device where it is stale.
    pub open spec fn without_stale(self, device: Seq<char>, now: u128) -> AppModel {
        if self.approvals.dom().contains(device) && self.approvals[device].stale(now) {
            AppModel { approvals: self.approvals.remove(device), ..self }
        } else {
            self
        }
    }

    /// The state with an approval of a device set or cleared.
    pub open spec fn with_pending(self, device: Seq<char>, p: Option<PendingModel>) -> AppModel {
        AppModel {
            approvals: match p {
                Some(v) => self.approvals.insert(device, v),
                None => self.approvals.remove(device),
            },
            ..self
        }
    }

    /// The late reply for a device.
    pub open spec fn late_reply(self, device: Seq<char>) -> Option<Seq<char>> {
        if self.cached_reply.dom().contains(device) {
            Some(self.cached_reply[device])
        } else {
            None
        }
    }

    /// The state once the late reply for a device was taken.
    pub open spec fn without_reply(self, device: Seq<char>) -> AppModel {
        AppModel { cached_reply: self.cached_reply.remove(device), ..self }
    }

    /// The state with a late reply for a device; a blank one is dropped.
    pub open spec fn with_reply(self, device: Seq<char>, text: Seq<char>) -> AppModel {
        if trim::blank(text) {
            self
        } else {
            AppModel { cached_reply: self.cached_reply.insert(device, text), ..self }
        }
    }

    /// The URL of a track's cover art, empty where the track has none.
    pub open spec fn art_address(self, track_id: u64, has_cover: bool) -> Seq<char> {
        if has_cover && 1 <= track_id <= self.library.len() {
            self.cfg.public_base() + "/art/"@ + number::decimal(track_id as nat)
        } else {
            seq![]
        }
    }

    /// The state after an event of the agent: an approval request waits for an
    /// answer from now on, a late reply for the next turn.
    pub open spec fn after_event(self, ev: EventModel, now: u128) -> AppModel {
        match ev {
            EventModel::ApprovalRequested { device, info } => self.with_pending(
                device,
                Some(PendingModel { info, asked_at: now }),
            ),
            EventModel::LateReply { device, text } => self.with_reply(device, text),
            EventModel::SessionError { .. } => self,
        }
    }
}

impl AppState {
    /// The state at the start, with the players that were saved.
    pub fn new(cfg: Config, library: Library, players: StringMap<PlayerState>) -> (r: Self)
        ensures
            r@ == (AppModel {
                cfg,
                library: library@,
                players: player_models(players@),
                registry: Map::empty(),
                approvals: Map::empty(),
                cached_reply: Map::empty(),
            }),
    {
        let r = AppState {
            cfg,
            library,
            players,
            registry: PlaybackRegistry::new(),
            approvals: StringMap::new(),
            cached_reply: StringMap::new(),
        };
        assert(r@.approvals =~= Map::<Seq<char>, PendingModel>::empty());
        assert(r@.cached_reply =~= Map::<Seq<char>, Seq<char>>::empty());
        r
    }

    /// The player of a device, if it has one.
    pub fn player(&self, device: &str) -> (r: Option<&PlayerState>)
        ensures
            match r {
                Some(p) => self@.players.dom().contains(device@) && self@.players[device@] == p@,
                None => !self@.players.dom().contains(device@),
            },
    {
        self.players.get(device)
    }

    /// Takes the player of a device out, a fresh one where it has none yet.
    pub fn take_player(&mut self, device: &str) -> (r: PlayerState)
        ensures
            r@ == old(self)@.player(device@),
            final(self)@ == (AppModel {
                players: old(self)@.players.remove(device@),
                ..old(self)@
            }),
    {
        let p = self.players.remove(device);
        assert(self@.players =~= old(self)@.players.remove(device@));
        match p {
            Some(p) => p,
            None => PlayerState::default(),
        }
    }

    /// Puts the player of a device in.
    pub fn put_player(&mut self, device: &str, p: PlayerState)
        ensures
            final(self)@ == old(self)@.with_player(device@, p@),
    {
        self.players.insert(owned(device), p);
        assert(self@.players =~= old(self)@.players.insert(device@, p@));
    }

    /// Pending approval for `device`, if one is still within the gateway's
    /// approval timeout (stale ones are dropped; the gateway auto-denied them).
    pub fn pending_approval(&mut self, device: &str, now: u128) -> (r: Option<PendingApproval>)
        ensures
            final(self)@ == old(self)@.without_stale(device@, now),
            match r {
                Some(p) => old(self)@.pending(device@, now) == Some(p@),
                None => old(self)@.pending(device@, now) is None,
            },
    {
        let stale = match self.approvals.get(device) {
            Some(p) => {
                if !p.is_stale(now) {
                    return Some(p.copy());
                }
                true
            },
            None => false,
        };
        if stale {
            let _ = self.approvals.remove(device);
            assert(self@.approvals =~= old(self)@.approvals.remove(device@));
        }
        None
    }

    /// Set or clear the approval that waits for an answer of `device`.
    pub fn set_pending_approval(&mut self, device: &str, p: Option<PendingApproval>)
        ensures
            final(self)@ == old(self)@.with_pending(
                device@,
                match p {
                    Some(v) => Some(v@),
                    None => None,
                },
            ),
    {
        match p {
            Some(v) => {
                self.approvals.insert(owned(device), v);
                assert(self@.approvals =~= old(self)@.approvals.insert(device@, v@));
            },
            None => {
                let _ = self.approvals.remove(device);
                assert(self@.approvals =~= old(self)@.approvals.remove(device@));
            },
        }
    }

    /// Take the late reply for `device`.
    pub fn take_cached_reply(&mut self, device: &str) -> (r: Option<String>)
        ensures
            final(self)@ == old(self)@.without_reply(device@),
            match r {
                Some(t) => old(self)@.late_reply(device@) == Some(t@),
                None => old(self)@.late_reply(device@) is None,
            },
    {
        let c = self.cached_reply.remove(device);
        assert(self@.cached_reply =~= old(self)@.cached_reply.remove(device@));
        match c {
            Some(c) => Some(c.text),
            None => None,
        }
    }

    /// Keep a late reply for `device`; a blank one is dropped.
    pub fn set_cached_reply(&mut self, device: &str, text: String)
        ensures
            final(self)@ == old(self)@.with_reply(device@, text@),
    {
        if !is_blank(to_chars(text.as_str()).as_slice()) {
            self.cached_reply.insert(owned(device), CachedReply { text });
            assert(self@.cached_reply =~= old(self)@.cached_reply.insert(device@, text@));
        }
    }

    /// Cover art URL for a track (empty string when unavailable).
    pub fn art_url(&self, track_id: u64, has_cover: bool) -> (r: String)
        ensures
            r@ == self@.art_address(track_id, has_cover),
    {
        if has_cover && self.library.get(track_id).is_some() {
            concat3(self.cfg.base_url().as_str(), "/art/", write_decimal(track_id).as_str())
        } else {
            let e = String::new();
            assert(e@ =~= seq![]);
            e
        }
    }

    /// Fold an event of the agent into the state.
    pub fn fold_event(&mut self, ev: AgentEvent, now: u128)
        ensures
            final(self)@ == old(self)@.after_event(ev@, now),
    {
        match ev {
            AgentEvent::ApprovalRequested { device, info } => {
                self.set_pending_approval(
                    device.as_str(),
                    Some(PendingApproval { info, asked_at: now }),
                );
            },
            AgentEvent::LateReply { device, text } => {
                self.set_cached_reply(device.as_str(), text);
            },
            AgentEvent::SessionError { .. } => {},
        }
    }
}

// ── Laws ───────────────────────────────────────────────────────────────────

/// An approval that was set is pending until its time is over, and no longer.
pub proof fn law_pending_until_timeout(
    m: AppModel,
    device: Seq<char>,
    p: PendingModel,
    now: u128,
)
    ensures
        p.stale(now) ==> m.with_pending(device, Some(p)).pending(device, now) is None,
        !p.stale(now) ==> m.with_pending(device, Some(p)).pending(device, now) == Some(p),
        m.with_pending(device, None).pending(device, now) is None,
        p.asked_at == now ==> !p.stale(now),
{
}

/// A late reply is handed out once.
pub proof fn law_late_reply_is_taken_once(m: AppModel, device: Seq<char>, text: Seq<char>)
    requires
        !trim::blank(text),
    ensures
        m.with_reply(device, text).late_reply(device) == Some(text),
        m.with_reply(device, text).without_reply(device).late_reply(device) is None,
{
}

/// Events of one device leave the others alone, and none touches a player.
pub proof fn law_events_of_devices_are_apart(
    m: AppModel,
    ev: EventModel,
    now: u128,
    other: Seq<char>,
)
    requires
        match ev {
            EventModel::ApprovalRequested { device, .. } => device != other,
            EventModel::LateReply { device, .. } => device != other,
            EventModel::SessionError { .. } => true,
        },
    ensures
        m.after_event(ev, now).late_reply(other) == m.late_reply(other),
        m.after_event(ev, now).pending(other, now) == m.pending(other, now),
        m.after_event(ev, now).players == m.players,
        m.after_event(ev, now).registry == m.registry,
{
}

} // verus!
