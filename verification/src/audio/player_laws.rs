//! What the operations of a player do to its queue, position and history.

use vstd::prelude::*;

use crate::audio::player::PlayerModel;
use crate::audio::player::Repeat;
use crate::audio::player;
use crate::audio::shuffle;

verus! {

broadcast use {vstd::seq::group_seq_axioms, vstd::slice::group_slice_axioms};

/// Without repeat, a step forward leads to the very next track, and none leads
/// past the last one.
pub proof fn law_step_leads_to_next_track(m: PlayerModel)
    requires
        m.repeat == Repeat::Off,
    ensures
        m.pos + 1 < m.queue.len() ==> {
            &&& m.next_track() == Some(m.queue[m.pos as int + 1])
            &&& m.advanced().pos == m.pos + 1
            &&& m.advanced().current() == Some(m.queue[m.pos as int + 1])
        },
        m.pos + 1 >= m.queue.len() ==> m.next_track() is None && m.advanced().pos == m.pos,
{
}

/// On repeat-all, a step forward leads to the very next track, and from the last
/// one to the first.
pub proof fn law_step_wraps_on_repeat_all(m: PlayerModel)
    requires
        m.repeat == Repeat::All,
        m.pos < m.queue.len(),
    ensures
        m.pos + 1 < m.queue.len() ==> {
            &&& m.next_track() == Some(m.queue[m.pos as int + 1])
            &&& m.advanced().pos == m.pos + 1
        },
        m.pos + 1 == m.queue.len() ==> {
            &&& m.next_track() == Some(m.queue[0])
            &&& m.advanced().pos == 0
        },
{
    if m.pos + 1 < m.queue.len() {
        vstd::arithmetic::div_mod::lemma_small_mod((m.pos + 1) as nat, m.queue.len());
    } else {
        vstd::arithmetic::div_mod::lemma_mod_self_0(m.queue.len() as int);
    }
}

/// On repeat-one, a step forward leads to the track that is playing.
pub proof fn law_step_stays_on_repeat_one(m: PlayerModel)
    requires
        m.repeat == Repeat::One,
        m.pos < m.queue.len(),
    ensures
        m.next_track() == Some(m.queue[m.pos as int]),
        m.advanced().pos == m.pos,
{
}

/// A step forward changes nothing but the position, and an empty queue has none.
pub proof fn law_step_changes_only_position(m: PlayerModel)
    ensures
        m.advanced().queue == m.queue,
        m.advanced().history == m.history,
        m.advanced().shuffle == m.shuffle,
        m.advanced().repeat == m.repeat,
        m.advanced().current_token == m.current_token,
        m.advanced().current_offset_ms == m.current_offset_ms,
        m.queue.len() == 0 ==> m.next_track() is None,
{
}

/// Stepping through a fresh queue without repeat plays each of its tracks once,
/// in order, and then ends.
pub proof fn law_queue_is_played_in_order(m: PlayerModel, queue: Seq<u64>, n: nat)
    requires
        m.repeat == Repeat::Off,
        n < queue.len(),
    ensures
        player::advanced_times(m.with_queue(queue), n).current() == Some(queue[n as int]),
        player::advanced_times(m.with_queue(queue), n).queue == queue,
        player::advanced_times(m.with_queue(queue), n).pos == n,
        n + 1 == queue.len() ==> player::advanced_times(m.with_queue(queue), n).next_track() is None,
    decreases n,
{
    let s = m.with_queue(queue);
    if n > 0 {
        law_queue_is_played_in_order(m, queue, (n - 1) as nat);
        lemma_times_keeps_repeat(s, (n - 1) as nat);
        law_step_leads_to_next_track(player::advanced_times(s, (n - 1) as nat));
    }
    lemma_times_keeps_repeat(s, n);
    law_step_leads_to_next_track(player::advanced_times(s, n));
}

proof fn lemma_times_keeps_repeat(m: PlayerModel, n: nat)
    ensures
        player::advanced_times(m, n).repeat == m.repeat,
    decreases n,
{
    if n > 0 {
        lemma_times_keeps_repeat(m, (n - 1) as nat);
        law_step_changes_only_position(player::advanced_times(m, (n - 1) as nat));
    }
}

/// The track at the position is the current one.
pub proof fn law_current_is_at_position(m: PlayerModel)
    ensures
        m.pos < m.queue.len() ==> m.current() == Some(m.queue[m.pos as int]),
        m.pos >= m.queue.len() ==> m.current() is None,
{
}

/// A new queue starts at its first track, bound to no stream; the history and
/// the modes stay.
pub proof fn law_new_queue_starts_at_first(m: PlayerModel, queue: Seq<u64>)
    ensures
        m.with_queue(queue).queue == queue,
        m.with_queue(queue).pos == 0,
        m.with_queue(queue).current_token is None,
        m.with_queue(queue).current_offset_ms == 0,
        m.with_queue(queue).history == m.history,
        m.with_queue(queue).shuffle == m.shuffle,
        m.with_queue(queue).repeat == m.repeat,
        queue.len() > 0 ==> m.with_queue(queue).current() == Some(queue[0]),
{
}

/// A track made current is bound to the stream it was given, at its first place
/// in the queue, or behind it where it was not in it; history and modes stay.
pub proof fn law_playing_binds_stream(m: PlayerModel, id: u64, token: Seq<char>, offset_ms: u64)
    ensures
        ({
            let p = m.playing(id, token, offset_ms);
            &&& p.current_token == Some(token)
            &&& p.current_offset_ms == offset_ms
            &&& p.history == m.history
            &&& p.shuffle == m.shuffle
            &&& p.repeat == m.repeat
            &&& p.pos < p.queue.len() && p.queue[p.pos as int] == id
            &&& forall|j: int| 0 <= j < p.pos ==> #[trigger] p.queue[j] != id
            &&& m.queue.contains(id) ==> p.queue == m.queue
            &&& !m.queue.contains(id) ==> p.queue == m.queue.push(id) && p.pos == m.queue.len()
        }),
{
    player::lemma_index_from(m.queue, id, 0);
}

/// A finished track is remembered last, unless it is remembered there already;
/// what was remembered stays in order, but for the oldest where the memory is
/// full.
pub proof fn law_finished_track_is_remembered(m: PlayerModel)
    ensures
        m.finished().queue == m.queue,
        m.finished().pos == m.pos,
        m.finished().current_token == m.current_token,
        m.finished().current_offset_ms == m.current_offset_ms,
        m.finished().shuffle == m.shuffle,
        m.finished().repeat == m.repeat,
        m.pos >= m.queue.len() ==> m.finished().history == m.history,
        m.pos < m.queue.len() ==> {
            let cur = m.queue[m.pos as int];
            if m.history.len() > 0 && m.history.last() == cur {
                m.finished().history == m.history
            } else if m.history.len() < 64 {
                m.finished().history == m.history.push(cur)
            } else {
                m.finished().history == m.history.skip(1).push(cur)
            }
        },
{
    if m.pos < m.queue.len() {
        let cur = m.queue[m.pos as int];
        assert(m.history.len() >= 64 ==> m.history.push(cur).remove(0) =~= m.history.skip(1).push(
            cur,
        ));
    }
}

/// A step back leads to the newest remembered track that is not the one playing,
/// forgets it, and frees the player from its stream; the queue and the modes
/// stay. With nothing to go back to, the current track starts over.
pub proof fn law_step_back(m: PlayerModel)
    ensures
        m.gone_back().queue == m.queue,
        m.gone_back().shuffle == m.shuffle,
        m.gone_back().repeat == m.repeat,
        m.history.len() > 0 && m.current() != Some(m.history.last()) ==> {
            &&& m.previous_track() == Some(m.history.last())
            &&& m.gone_back().history == m.history.drop_last()
            &&& m.gone_back().current_token is None
            &&& m.gone_back().current_offset_ms == 0
            &&& m.queue.contains(m.history.last()) ==> m.gone_back().current() == Some(
                m.history.last(),
            )
            &&& !m.queue.contains(m.history.last()) ==> m.gone_back().pos == m.pos
        },
        m.history.len() > 1 && m.current() == Some(m.history.last()) ==> {
            &&& m.previous_track() == Some(m.history[m.history.len() - 2])
            &&& m.gone_back().history == m.history.take(m.history.len() - 2)
            &&& m.gone_back().current_token is None
            &&& m.gone_back().current_offset_ms == 0
        },
        m.history.len() == 0 ==> m.previous_track() == m.current() && m.gone_back().pos == m.pos,
        m.history.len() == 1 && m.current() == Some(m.history.last()) ==> {
            &&& m.previous_track() == m.current()
            &&& m.gone_back().pos == m.pos
            &&& m.gone_back().history.len() == 0
        },
        m.history.len() == 0 && m.current() is Some ==> {
            &&& m.gone_back().current_token is None
            &&& m.gone_back().current_offset_ms == 0
        },
        m.history.len() == 0 && m.current() is None ==> m.gone_back() == m,
{
    if m.earlier().len() > 0 {
        player::lemma_index_from(m.queue, m.earlier().last(), 0);
    }
    if m.history.len() > 1 && m.current() == Some(m.history.last()) {
        assert(m.history.drop_last().drop_last() =~= m.history.take(m.history.len() - 2));
    }
}

/// Stopping frees the player from its stream and changes nothing else.
pub proof fn law_stop_frees_stream(m: PlayerModel)
    ensures
        m.stopped().current_token is None,
        m.stopped().current_offset_ms == 0,
        m.stopped().queue == m.queue,
        m.stopped().pos == m.pos,
        m.stopped().history == m.history,
        m.stopped().shuffle == m.shuffle,
        m.stopped().repeat == m.repeat,
{
}

/// An offset is taken over unless it is negative, and changes nothing else.
pub proof fn law_offset_is_noted(m: PlayerModel, offset_ms: int)
    requires
        offset_ms <= u64::MAX,
    ensures
        offset_ms >= 0 ==> m.at_offset(offset_ms).current_offset_ms == offset_ms,
        offset_ms < 0 ==> m.at_offset(offset_ms).current_offset_ms == m.current_offset_ms,
        m.at_offset(offset_ms).queue == m.queue,
        m.at_offset(offset_ms).pos == m.pos,
        m.at_offset(offset_ms).history == m.history,
        m.at_offset(offset_ms).shuffle == m.shuffle,
        m.at_offset(offset_ms).repeat == m.repeat,
        m.at_offset(offset_ms).current_token == m.current_token,
{
}

/// A fresh player has nothing queued, remembered or bound, and no mode is on.
pub proof fn law_fresh_player_is_empty()
    ensures
        ({
            let p = PlayerModel::fresh();
            &&& p.queue.len() == 0
            &&& p.pos == 0
            &&& p.history.len() == 0
            &&& !p.shuffle
            &&& p.repeat == Repeat::Off
            &&& p.current_token is None
            &&& p.current_offset_ms == 0
        }),
{
}

/// Reshuffling touches the queue alone, and that only in shuffle mode: then the
/// last place gets the track that its choice names among those that follow the
/// position.
pub proof fn law_reshuffle_follows_choices(m: PlayerModel, picks: Seq<usize>)
    requires
        m.pos < m.queue.len(),
        shuffle::is_deck(picks, (m.queue.len() - m.pos - 1) as nat),
    ensures
        m.reshuffled(picks).pos == m.pos,
        m.reshuffled(picks).history == m.history,
        m.reshuffled(picks).shuffle == m.shuffle,
        m.reshuffled(picks).repeat == m.repeat,
        m.reshuffled(picks).current_token == m.current_token,
        m.reshuffled(picks).current_offset_ms == m.current_offset_ms,
        !m.shuffle ==> m.reshuffled(picks).queue == m.queue,
        m.shuffle && m.pos + 1 < m.queue.len() ==> m.reshuffled(picks).queue.last()
            == m.queue[m.pos + 1 + picks[m.queue.len() - m.pos - 2]],
{
    if m.shuffle && m.pos + 1 < m.queue.len() {
        let rest = m.queue.skip(m.pos as int + 1);
        shuffle::law_last_place_gets_its_choice(rest, picks);
        shuffle::law_shuffle_is_permutation(rest, picks);
        assert(m.reshuffled(picks).queue.last() == shuffle::shuffled(rest, picks).last());
        assert(picks[rest.len() - 1] <= rest.len() - 1);
    }
}

} // verus!
