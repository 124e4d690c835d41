//! Per-device player state: queue, position, history, shuffle/repeat.

use vstd::prelude::*;

use crate::audio::shuffle::draw_picks;
use crate::audio::shuffle::shuffle_with;
use crate::audio::shuffle;
use crate::text::chars;

verus! {

broadcast use {vstd::seq::group_seq_axioms, vstd::slice::group_slice_axioms};

/// How many finished tracks a player remembers.
pub const HISTORY_LEN: usize = 64;

#[derive(Debug, Clone, Copy, PartialEq, Eq, Structural)]
pub enum Repeat {
    Off,
    One,
    All,
}

impl Default for Repeat {
    fn default() -> (r: Self)
        ensures
            r == Repeat::Off,
    {
        Repeat::Off
    }
}

/// Per-device playback state.
#[derive(Debug, Clone)]
pub struct PlayerState {
    /// Ordered track ids to play; `pos` indexes the current track.
    pub queue: Vec<u64>,
    pub pos: usize,
    /// Recently played (most recent last); backs "previous".
    pub history: Vec<u64>,
    pub shuffle: bool,
    pub repeat: Repeat,
    /// Token currently bound to a stream (see the playback registry).
    pub current_token: Option<String>,
    /// Start of the current stream, in ms.
    pub current_offset_ms: u64,
}

/// What a player state says.
pub struct PlayerModel {
    pub queue: Seq<u64>,
    pub pos: nat,
    pub history: Seq<u64>,
    pub shuffle: bool,
    pub repeat: Repeat,
    pub current_token: Option<Seq<char>>,
    pub current_offset_ms: u64,
}

impl View for PlayerState {
    type V = PlayerModel;

    open spec fn view(&self) -> PlayerModel {
        PlayerModel {
            queue: self.queue@,
            pos: self.pos as nat,
            history: self.history@,
            shuffle: self.shuffle,
            repeat: self.repeat,
            current_token: chars::opt_text(self.current_token),
            current_offset_ms: self.current_offset_ms,
        }
    }
}

/// The position of the first `id` in `q`, from `i` on.
pub open spec fn index_from(q: Seq<u64>, id: u64, i: int) -> Option<nat>
    decreases q.len() - i,
{
    if i < 0 || i >= q.len() {
        None
    } else if q[i] == id {
        Some(i as nat)
    } else {
        index_from(q, id, i + 1)
    }
}

/// The position of the first `id` in `q`.
pub open spec fn index_of(q: Seq<u64>, id: u64) -> Option<nat> {
    index_from(q, id, 0)
}

/// The last item of a history.
pub open spec fn newest(h: Seq<u64>) -> Option<u64> {
    if h.len() > 0 {
        Some(h.last())
    } else {
        None
    }
}

impl PlayerModel {
    /// A player that has not played anything.
    pub open spec fn fresh() -> PlayerModel {
        PlayerModel {
            queue: seq![],
            pos: 0,
            history: seq![],
            shuffle: false,
            repeat: Repeat::Off,
            current_token: None,
            current_offset_ms: 0,
        }
    }

    /// The position lies in the queue, or at the start of an empty one, and the
    /// history is no longer than a player remembers.
    pub open spec fn well_formed(self) -> bool {
        &&& self.pos == 0 || self.pos < self.queue.len()
        &&& self.history.len() <= HISTORY_LEN
    }

    /// A step forward can be counted.
    pub open spec fn can_advance(self) -> bool {
        self.queue.len() > 0 && self.repeat != Repeat::One ==> self.pos < usize::MAX
    }

    /// What follows the position is a part of the queue.
    pub open spec fn can_reshuffle(self) -> bool {
        self.queue.len() > 1 ==> self.pos < self.queue.len()
    }

    /// The track at the position.
    pub open spec fn current(self) -> Option<u64> {
        if self.pos < self.queue.len() {
            Some(self.queue[self.pos as int])
        } else {
            None
        }
    }

    /// The player at the start of a new queue, bound to no stream.
    pub open spec fn with_queue(self, queue: Seq<u64>) -> PlayerModel {
        PlayerModel { queue, pos: 0, ..self }.stopped()
    }

    /// The player bound to no stream.
    pub open spec fn stopped(self) -> PlayerModel {
        PlayerModel { current_token: None, current_offset_ms: 0, ..self }
    }

    /// The position after a step forward, and nothing where the queue is over.
    pub open spec fn next_pos(self) -> Option<nat> {
        if self.queue.len() == 0 {
            None
        } else {
            match self.repeat {
                Repeat::One => Some(self.pos),
                Repeat::All => Some((self.pos + 1) % self.queue.len()),
                Repeat::Off => if self.pos + 1 < self.queue.len() {
                    Some(self.pos + 1)
                } else {
                    None
                },
            }
        }
    }

    /// The player after a step forward.
    pub open spec fn advanced(self) -> PlayerModel {
        match self.next_pos() {
            Some(pos) => PlayerModel { pos, ..self },
            None => self,
        }
    }

    /// The track that a step forward leads to. A position past the end of a
    /// repeating queue counts as its last one.
    pub open spec fn next_track(self) -> Option<u64> {
        match self.next_pos() {
            Some(pos) => Some(
                self.queue[if pos < self.queue.len() {
                    pos as int
                } else {
                    self.queue.len() - 1
                }],
            ),
            None => None,
        }
    }

    /// The history without the current track at its end.
    pub open spec fn earlier(self) -> Seq<u64> {
        if self.current() is Some && newest(self.history) == self.current() {
            self.history.drop_last()
        } else {
            self.history
        }
    }

    /// The track that a step back leads to: the last one of the history that is
    /// not the current one, else the current one.
    pub open spec fn previous_track(self) -> Option<u64> {
        if self.earlier().len() > 0 {
            Some(self.earlier().last())
        } else {
            self.current()
        }
    }

    /// The player after a step back.
    pub open spec fn gone_back(self) -> PlayerModel {
        if self.earlier().len() > 0 {
            let pos = match index_of(self.queue, self.earlier().last()) {
                Some(pos) => pos,
                None => self.pos,
            };
            PlayerModel { history: self.earlier().drop_last(), pos, ..self }.stopped()
        } else if self.current() is Some {
            PlayerModel { history: self.earlier(), ..self }.stopped()
        } else {
            self
        }
    }

    /// The player on the track `id`, which joins the queue if it is not in it.
    pub open spec fn playing(self, id: u64, token: Seq<char>, offset_ms: u64) -> PlayerModel {
        let bound = PlayerModel {
            current_token: Some(token),
            current_offset_ms: offset_ms,
            ..self
        };
        match index_of(self.queue, id) {
            Some(pos) => PlayerModel { pos, ..bound },
            None => PlayerModel { queue: self.queue.push(id), pos: self.queue.len(), ..bound },
        }
    }

    /// The player that remembers its current track as finished.
    pub open spec fn finished(self) -> PlayerModel {
        match self.current() {
            Some(cur) => if newest(self.history) == Some(cur) {
                self
            } else {
                let all = self.history.push(cur);
                PlayerModel {
                    history: if all.len() > HISTORY_LEN {
                        all.remove(0)
                    } else {
                        all
                    },
                    ..self
                }
            },
            None => self,
        }
    }

    /// The player whose stream stands at an offset; a negative one is ignored.
    pub open spec fn at_offset(self, offset_ms: int) -> PlayerModel {
        if offset_ms >= 0 {
            PlayerModel { current_offset_ms: offset_ms as u64, ..self }
        } else {
            self
        }
    }

    /// The player with what follows its position shuffled by the given choices,
    /// where its shuffle mode is on.
    pub open spec fn reshuffled(self, picks: Seq<usize>) -> PlayerModel {
        if self.shuffle && self.queue.len() > 1 {
            let n = self.pos as int + 1;
            PlayerModel {
                queue: self.queue.take(n) + shuffle::shuffled(self.queue.skip(n), picks),
                ..self
            }
        } else {
            self
        }
    }
}

impl Default for PlayerState {
    fn default() -> (r: Self)
        ensures
            r@ == PlayerModel::fresh(),
    {
        PlayerState {
            queue: Vec::new(),
            pos: 0,
            history: Vec::new(),
            shuffle: false,
            repeat: Repeat::Off,
            current_token: None,
            current_offset_ms: 0,
        }
    }
}

fn index(queue: &Vec<u64>, id: u64) -> (r: Option<usize>)
    ensures
        match r {
            Some(i) => index_of(queue@, id) == Some(i as nat) && i < queue@.len()
                && queue@[i as int] == id,
            None => index_of(queue@, id) is None,
        },
{
    let mut i: usize = 0;
    while i < queue.len()
        invariant
            i <= queue@.len(),
            index_from(queue@, id, i as int) == index_of(queue@, id),
        decreases queue@.len() - i,
    {
        if queue[i] == id {
            return Some(i);
        }
        i = i + 1;
    }
    None
}

fn last(history: &Vec<u64>) -> (r: Option<u64>)
    ensures
        r == newest(history@),
{
    if history.len() > 0 {
        Some(history[history.len() - 1])
    } else {
        None
    }
}

impl PlayerState {
    /// Whether a step forward can be counted.
    pub fn may_advance(&self) -> (r: bool)
        ensures
            r == self@.can_advance(),
    {
        self.queue.len() == 0 || self.repeat == Repeat::One || self.pos < usize::MAX
    }

    /// Whether what follows the position is a part of the queue.
    pub fn may_reshuffle(&self) -> (r: bool)
        ensures
            r == self@.can_reshuffle(),
    {
        self.queue.len() <= 1 || self.pos < self.queue.len()
    }

    /// The track at the position.
    pub fn current(&self) -> (r: Option<u64>)
        ensures
            r == self@.current(),
    {
        if self.pos < self.queue.len() {
            Some(self.queue[self.pos])
        } else {
            None
        }
    }

    /// Replace the queue and start at its first entry (or stay idle if empty).
    pub fn start_queue(&mut self, queue: Vec<u64>)
        ensures
            final(self)@ == old(self)@.with_queue(queue@),
    {
        self.queue = queue;
        self.pos = 0;
        self.current_token = None;
        self.current_offset_ms = 0;
    }

    /// Whether there is no track at the position.
    pub fn is_idle(&self) -> (r: bool)
        ensures
            r == (self@.current() is None),
    {
        self.queue.is_empty() || self.pos >= self.queue.len()
    }

    /// Move forward respecting repeat mode. Returns the next track id.
    pub fn advance(&mut self) -> (r: Option<u64>)
        requires
            old(self)@.can_advance(),
        ensures
            r == old(self)@.next_track(),
            final(self)@ == old(self)@.advanced(),
    {
        let n: usize = self.queue.len();
        if n == 0 {
            return None;
        }
        match self.repeat {
            Repeat::One => {
                let at: usize = if self.pos < n {
                    self.pos
                } else {
                    n - 1
                };
                Some(self.queue[at])
            },
            Repeat::All => {
                self.pos = (self.pos + 1) % n;
                Some(self.queue[self.pos])
            },
            Repeat::Off => {
                if self.pos + 1 < n {
                    self.pos = self.pos + 1;
                    Some(self.queue[self.pos])
                } else {
                    // End of queue: park at the last position.
                    None
                }
            },
        }
    }

    /// Go back one track (from history); falls back to restarting current.
    pub fn go_back(&mut self) -> (r: Option<u64>)
        ensures
            r == old(self)@.previous_track(),
            final(self)@ == old(self)@.gone_back(),
    {
        // The current track may already be the last history entry (it was
        // noted as finished before the player moved on); skip past it.
        let cur = self.current();
        if cur.is_some() && last(&self.history) == cur {
            self.history.pop();
        }
        assert(self.history@ == old(self)@.earlier());
        match self.history.pop() {
            Some(prev) => {
                match index(&self.queue, prev) {
                    Some(pos) => {
                        self.pos = pos;
                    },
                    None => {},
                }
                self.current_token = None;
                self.current_offset_ms = 0;
                Some(prev)
            },
            None => {
                if cur.is_some() {
                    self.current_token = None;
                    self.current_offset_ms = 0;
                }
                cur
            },
        }
    }

    /// Record `id` as the currently playing track.
    pub fn set_current(&mut self, id: u64, token: String, offset_ms: u64)
        ensures
            final(self)@ == old(self)@.playing(id, token@, offset_ms),
    {
        match index(&self.queue, id) {
            Some(pos) => {
                self.pos = pos;
            },
            None => {
                self.queue.push(id);
                self.pos = self.queue.len() - 1;
            },
        }
        self.current_token = Some(token);
        self.current_offset_ms = offset_ms;
    }

    /// Mark the current track as finished (for history bookkeeping).
    pub fn note_finished(&mut self)
        ensures
            final(self)@ == old(self)@.finished(),
    {
        match self.current() {
            Some(cur) => {
                if last(&self.history) != Some(cur) {
                    self.history.push(cur);
                    if self.history.len() > HISTORY_LEN {
                        self.history.remove(0);
                    }
                }
            },
            None => {},
        }
    }

    /// Unbind the player from its stream.
    pub fn stop(&mut self)
        ensures
            final(self)@ == old(self)@.stopped(),
    {
        self.current_token = None;
        self.current_offset_ms = 0;
    }

    /// Record where the stream stands; a negative offset is ignored.
    pub fn note_offset(&mut self, offset_ms: i64)
        ensures
            final(self)@ == old(self)@.at_offset(offset_ms as int),
    {
        if offset_ms >= 0 {
            self.current_offset_ms = offset_ms as u64;
        }
    }

    /// Shuffle the remaining queue (current position kept) by the given choices.
    pub fn shuffle_remaining_with(&mut self, picks: &Vec<usize>)
        requires
            old(self).shuffle && old(self).queue@.len() > 1 ==> {
                &&& old(self).pos < old(self).queue@.len()
                &&& shuffle::is_deck(
                    picks@,
                    (old(self).queue@.len() - old(self).pos - 1) as nat,
                )
            },
        ensures
            final(self)@ == old(self)@.reshuffled(picks@),
    {
        if self.shuffle && self.queue.len() > 1 {
            let mut rest: Vec<u64> = self.queue.split_off(self.pos + 1);
            assert(rest@ == old(self).queue@.skip(old(self).pos + 1));
            shuffle_with(rest.as_mut_slice(), picks.as_slice());
            self.queue.append(&mut rest);
            assert(self.queue@ =~= old(self)@.reshuffled(picks@).queue);
        }
    }

    /// Shuffle the remaining queue (current position kept).
    pub fn shuffle_remaining(&mut self)
        requires
            old(self).shuffle && old(self).queue@.len() > 1 ==> old(self).pos
                < old(self).queue@.len(),
        ensures
            exists|picks: Seq<usize>|
                {
                    &&& shuffle::is_deck(picks, old(self).queue@.len())
                    &&& final(self)@ == #[trigger] old(self)@.reshuffled(picks)
                },
            old(self)@.well_formed() ==> final(self)@.well_formed(),
    {
        let picks = draw_picks(self.queue.len());
        proof {
            if self.shuffle && self.queue@.len() > 1 {
                law_reshuffle_keeps_tracks(self@, picks@);
            }
        }
        self.shuffle_remaining_with(&picks);
    }
}

// ── Laws ───────────────────────────────────────────────────────────────────

/// Reshuffling keeps what stands up to the position, and of what follows it
/// every track as often as it was there.
pub proof fn law_reshuffle_keeps_tracks(m: PlayerModel, picks: Seq<usize>)
    requires
        m.pos < m.queue.len(),
        shuffle::is_deck(picks, (m.queue.len() - m.pos - 1) as nat),
    ensures
        m.reshuffled(picks).queue.len() == m.queue.len(),
        m.reshuffled(picks).queue.take(m.pos as int + 1) == m.queue.take(m.pos as int + 1),
        m.reshuffled(picks).queue.skip(m.pos as int + 1).to_multiset() == m.queue.skip(
            m.pos as int + 1,
        ).to_multiset(),
        m.reshuffled(picks).current() == m.current(),
{
    let n = m.pos as int + 1;
    shuffle::law_shuffle_is_permutation(m.queue.skip(n), picks);
    let q = m.reshuffled(picks).queue;
    assert(q.take(n) =~= m.queue.take(n));
    if m.shuffle && m.queue.len() > 1 {
        assert(q.skip(n) =~= shuffle::shuffled(m.queue.skip(n), picks));
    }
    assert(q[m.pos as int] == q.take(n)[m.pos as int]);
}

/// The first position of a track holds the track, and none before it does.
pub proof fn lemma_index_from(q: Seq<u64>, id: u64, i: int)
    requires
        0 <= i,
    ensures
        match index_from(q, id, i) {
            Some(k) => {
                &&& i <= k < q.len()
                &&& q[k as int] == id
                &&& forall|j: int| i <= j < k ==> #[trigger] q[j] != id
            },
            None => forall|j: int| i <= j < q.len() ==> #[trigger] q[j] != id,
        },
    decreases q.len() - i,
{
    if i < q.len() && q[i] != id {
        lemma_index_from(q, id, i + 1);
    }
}

/// Every operation keeps a player well formed.
pub proof fn law_operations_keep_well_formed(
    m: PlayerModel,
    queue: Seq<u64>,
    id: u64,
    token: Seq<char>,
    offset_ms: u64,
    heard_ms: int,
)
    requires
        m.well_formed(),
    ensures
        m.with_queue(queue).well_formed(),
        m.advanced().well_formed(),
        m.gone_back().well_formed(),
        m.playing(id, token, offset_ms).well_formed(),
        m.finished().well_formed(),
        m.stopped().well_formed(),
        m.at_offset(heard_ms).well_formed(),
{
    lemma_index_from(m.queue, id, 0);
    if m.earlier().len() > 0 {
        lemma_index_from(m.queue, m.earlier().last(), 0);
    }
}

/// A fresh player is well formed and idle.
pub proof fn law_fresh_player()
    ensures
        PlayerModel::fresh().well_formed(),
        PlayerModel::fresh().current() is None,
{
}

/// A well-formed player allows every step and shuffle.
pub proof fn law_well_formed_player_can_move(m: PlayerModel)
    requires
        m.well_formed(),
        m.queue.len() <= usize::MAX,
    ensures
        m.can_advance(),
        m.can_reshuffle(),
{
}

/// The track made current is the current track, and it is in the queue; the
/// queue keeps what it held.
pub proof fn law_playing_is_current(m: PlayerModel, id: u64, token: Seq<char>, offset_ms: u64)
    ensures
        m.playing(id, token, offset_ms).current() == Some(id),
        m.playing(id, token, offset_ms).queue.contains(id),
        m.queue.is_prefix_of(m.playing(id, token, offset_ms).queue),
        m.playing(id, token, offset_ms).queue.len() <= m.queue.len() + 1,
{
    lemma_index_from(m.queue, id, 0);
    let q = m.playing(id, token, offset_ms).queue;
    assert(q[m.playing(id, token, offset_ms).pos as int] == id);
    assert(m.queue =~= q.take(m.queue.len() as int));
}

/// A step forward ends on the track it names, which is in the queue, and leaves
/// the queue as it was.
pub proof fn law_advance_names_current(m: PlayerModel)
    requires
        m.current() is Some || m.repeat != Repeat::One,
    ensures
        m.advanced().queue == m.queue,
        m.next_track() is Some ==> m.advanced().current() == m.next_track(),
        m.next_track() is None ==> m.advanced() == m,
{
}

/// Without repeat, a step forward fails exactly at the end of the queue.
pub proof fn law_plain_queue_ends(m: PlayerModel)
    requires
        m.repeat == Repeat::Off,
    ensures
        m.next_track() is None <==> m.pos + 1 >= m.queue.len(),
{
}

/// `n` steps forward.
pub open spec fn advanced_times(m: PlayerModel, n: nat) -> PlayerModel
    decreases n,
{
    if n == 0 {
        m
    } else {
        advanced_times(m, (n - 1) as nat).advanced()
    }
}

proof fn lemma_cycle(m: PlayerModel, n: nat)
    requires
        m.queue.len() > 0,
        m.repeat == Repeat::All,
        m.pos < m.queue.len(),
    ensures
        advanced_times(m, n) == (PlayerModel { pos: (m.pos + n) % m.queue.len(), ..m }),
    decreases n,
{
    let k = m.queue.len() as int;
    if n == 0 {
        vstd::arithmetic::div_mod::lemma_small_mod(m.pos, m.queue.len());
    } else {
        lemma_cycle(m, (n - 1) as nat);
        vstd::arithmetic::div_mod::lemma_add_mod_noop(m.pos + n - 1, 1, k);
        vstd::arithmetic::div_mod::lemma_add_mod_noop((m.pos + n - 1) % k, 1, k);
        vstd::arithmetic::div_mod::lemma_mod_twice(m.pos + n - 1, k);
    }
}

/// A queue on repeat comes round: as many steps as it has tracks lead back to
/// the track they started from.
pub proof fn law_repeat_all_comes_round(m: PlayerModel)
    requires
        m.queue.len() > 0,
        m.repeat == Repeat::All,
        m.pos < m.queue.len(),
    ensures
        advanced_times(m, m.queue.len()) == m,
{
    lemma_cycle(m, m.queue.len());
    vstd::arithmetic::div_mod::lemma_mod_add_multiples_vanish(m.pos as int, m.queue.len() as int);
    vstd::arithmetic::div_mod::lemma_small_mod(m.pos, m.queue.len());
}

/// A track on repeat is followed by itself, and the player stays as it is.
pub proof fn law_repeat_one_replays(m: PlayerModel)
    requires
        m.repeat == Repeat::One,
        m.pos < m.queue.len(),
    ensures
        m.next_track() == m.current(),
        m.advanced() == m,
{
}

/// "Previous" undoes a move to another track: where the track was noted as
/// finished before another one was made current, a step back returns to it.
pub proof fn law_go_back_returns(m: PlayerModel, id: u64, token: Seq<char>, offset_ms: u64)
    requires
        m.current() is Some,
        m.current() != Some(id),
    ensures
        m.finished().playing(id, token, offset_ms).previous_track() == m.current(),
        m.finished().playing(id, token, offset_ms).gone_back().current() == m.current(),
        m.finished().playing(id, token, offset_ms).finished().previous_track() == m.current(),
        m.finished().playing(id, token, offset_ms).finished().gone_back().current() == m.current(),
{
    let cur = m.current()->0;
    let a = m.finished();
    law_playing_is_current(a, id, token, offset_ms);
    let b = a.playing(id, token, offset_ms);
    assert(newest(a.history) == Some(cur));
    assert(a.queue == m.queue);
    assert(b.history == a.history);
    assert(b.queue[m.pos as int] == cur);
    lemma_index_from(b.queue, cur, 0);
    assert(b.current() == Some(id));
    assert(b.earlier() == b.history);
    let c = b.finished();
    assert(c.history.last() == id);
    assert(c.history.len() >= 2);
    assert(c.earlier() == c.history.drop_last());
    assert(c.earlier().last() == cur);
    assert(c.queue == b.queue);
}

} // verus!
