//! What holds of requests taken together.

use vstd::prelude::*;

use crate::alexa::intent::IntentModel;
use crate::alexa::request::AudioPlayerContext;
use crate::audio::library::TrackModel;
use crate::audio::library;
use crate::audio::player::PlayerModel;
use crate::audio::player;
use crate::audio::registry;
use crate::audio::search;
use crate::audio::shuffle;
use crate::router::action::ActionModel;
use crate::router::action;
use crate::router::dispatch;
use crate::router::play;
use crate::router::radio;
use crate::state::AppModel;
use crate::stream::TargetModel;
use crate::stream;

verus! {

broadcast use {vstd::seq::group_seq_axioms, vstd::slice::group_slice_axioms};

/// Starting a track that is there and playable puts the device's player on it,
/// and the token of the reply streams that track until its time is over.
pub proof fn law_started_track_streams(
    m: AppModel,
    device: Seq<char>,
    id: u64,
    offset_ms: u64,
    expected: Option<(Seq<char>, u64)>,
    token: Seq<char>,
    now: u128,
    later: u128,
)
    requires
        1 <= id <= m.library.len(),
        m.library[id - 1].playable,
        registry::is_token(token),
        now <= later <= now + registry::TOKEN_TTL_NS,
    ensures
        ({
            let (n, a) = play::file_started(m, device, id, offset_ms, expected, token, now);
            let t = m.library[id - 1];
            &&& a matches ActionModel::Play { plan, save } && save && plan.token == token
                && plan.art == Some(id) && plan.title == t.title
            &&& n.player(device).current() == Some(id)
            &&& n.player(device).current_token == Some(token)
            &&& stream::stream_resolved(n, token, later).1 == (TargetModel::File {
                path: t.path,
                format: t.format,
                offset_ms,
                avg_bitrate_kbps: t.avg_bitrate_kbps,
            })
        }),
{
    let p = m.player(device);
    let q = if p.current() != Some(id) {
        p.finished()
    } else {
        p
    };
    player::law_playing_is_current(q, id, token, offset_ms);
}

/// A track that is not playable is never streamed: asked for, it is refused in
/// words and nothing changes.
pub proof fn law_unplayable_track_is_refused(
    m: AppModel,
    device: Seq<char>,
    id: u64,
    offset_ms: u64,
    expected: Option<(Seq<char>, u64)>,
    token: Seq<char>,
    now: u128,
)
    requires
        1 <= id <= m.library.len(),
        !m.library[id - 1].playable,
    ensures
        play::file_started(m, device, id, offset_ms, expected, token, now) == (
            m,
            action::spoken_reply(
                "That file is not in a format Echo can stream. MP3 and AAC work."@,
            ),
        ),
{
}

/// "Previous" after "next" returns to the track that was playing.
pub proof fn law_previous_undoes_next(
    m: AppModel,
    device: Seq<char>,
    ap: Option<AudioPlayerContext>,
    bp: Option<AudioPlayerContext>,
    at_end: Seq<char>,
    token: Seq<char>,
    again: Seq<char>,
    now: u128,
    later: u128,
    c: u64,
    id: u64,
)
    requires
        m.player(device).current() == Some(c),
        m.player(device).finished().next_track() == Some(id),
        c != id,
        1 <= c <= m.library.len(),
        m.library[c - 1].playable,
        1 <= id <= m.library.len(),
        m.library[id - 1].playable,
    ensures
        ({
            let n = play::moved_forward(m, device, ap, at_end, token, now).0;
            let (k, a) = play::moved_back(n, device, bp, again, later);
            &&& n.player(device).current() == Some(id)
            &&& k.player(device).current() == Some(c)
            &&& a matches ActionModel::Play { plan, .. } && plan.art == Some(c)
        }),
{
    let p0 = m.player(device);
    let p1 = p0.finished();
    assert(player::newest(p1.history) == Some(c));
    assert(p1.queue == p0.queue && p1.pos == p0.pos);
    let p2 = p1.advanced();
    player::law_advance_names_current(p1);
    assert(p2.current() == Some(id));
    assert(p2.history == p1.history);
    let p3 = p2.playing(id, token, 0);
    player::law_playing_is_current(p2, id, token, 0);
    let n = play::moved_forward(m, device, ap, at_end, token, now).0;
    assert(n.player(device) == p3);
    assert(p3.earlier() == p3.history);
    assert(p3.previous_track() == Some(c));
    let p4 = p3.gone_back();
    let q = if p4.current() != Some(c) {
        p4.finished()
    } else {
        p4
    };
    player::law_playing_is_current(q, c, again, 0);
}

/// Resuming keeps the stream: the reply carries the same token, which streams
/// what it streamed before.
pub proof fn law_resume_keeps_stream(
    m: AppModel,
    device: Seq<char>,
    token: Seq<char>,
    offset_ms: u64,
    expected: Option<(Seq<char>, u64)>,
    now: u128,
)
    requires
        m.registry.dom().contains(token),
        !m.registry[token].expired(now),
    ensures
        ({
            let (n, a) = play::stream_resumed(m, device, token, offset_ms, expected, now);
            &&& a matches ActionModel::Play { plan, .. } && plan.token == token && plan.offset_ms
                == offset_ms
            &&& n.registry == m.registry
            &&& stream::stream_resolved(n, token, now).1 == stream::stream_resolved(
                m,
                token,
                now,
            ).1
        }),
{
}

/// A jump stays within the track, and one past its end starts it over.
pub proof fn law_seek_stays_within_track(m: AppModel, id: u64, off: int)
    requires
        1 <= id <= m.library.len(),
        0 <= off,
    ensures
        play::seek_offset(m, id, off) < m.library[id - 1].duration_ms || play::seek_offset(
            m,
            id,
            off,
        ) == 0,
        off < m.library[id - 1].duration_ms ==> play::seek_offset(m, id, off) == off,
{
}

/// At a nearly finished track the next one is preloaded: its stream waits behind
/// the one that is playing, which the reply names as the one it follows.
pub proof fn law_nearly_finished_preloads(
    m: AppModel,
    device: Seq<char>,
    ap: Option<AudioPlayerContext>,
    token: Seq<char>,
    now: u128,
    id: u64,
)
    requires
        m.player(device).finished().next_track() == Some(id),
        1 <= id <= m.library.len(),
        m.library[id - 1].playable,
    ensures
        play::report_handled(m, device, ap, true, token, now).1 matches ActionModel::Play {
            plan,
            ..
        } && {
            &&& plan.enqueue
            &&& plan.art == Some(id)
            &&& plan.expected == play::reported_place(ap)
            &&& action::plan_behavior(plan) == "REPLACE_ENQUEUED"@
        },
{
}

/// The order in which a query is looked up: a radio preset goes before an
/// album, an album before an artist, an artist before a genre, and only where
/// none of them has the name is the library searched.
pub proof fn law_query_order(
    m: AppModel,
    device: Seq<char>,
    query: Seq<char>,
    q: Seq<char>,
    token: Seq<char>,
    picks: Seq<usize>,
    now: u128,
)
    requires
        play::asked_for(Some(query)) == Some(q),
    ensures
        ({
            let r = play::music_played(m, device, Some(query), token, picks, now);
            let album = library::ids_where(m.library, play::named(play::NameField::Album, q));
            let artist = library::ids_where(m.library, play::named(play::NameField::Artist, q));
            let genre = library::ids_where(m.library, play::named(play::NameField::Genre, q));
            &&& radio::station_of(m.cfg.radio, q) matches Some((name, url)) ==> r
                == play::radio_started(m, device, url, name, token, now)
            &&& radio::station_of(m.cfg.radio, q) is None ==> {
                &&& album.len() > 0 ==> r == play::queue_started(m, device, album, token, now)
                &&& album.len() == 0 && artist.len() > 0 ==> r == play::queue_started(
                    m,
                    device,
                    artist,
                    token,
                    now,
                )
                &&& album.len() == 0 && artist.len() == 0 && genre.len() > 0
                    && !m.player(device).shuffle ==> r == play::queue_started(
                    m,
                    device,
                    genre,
                    token,
                    now,
                )
                &&& album.len() == 0 && artist.len() == 0 && genre.len() == 0 ==> (
                play::best_match(m.library, q) matches Some(id) ==> r == play::file_started(
                    m,
                    device,
                    id,
                    0,
                    None,
                    token,
                    now,
                ))
            }
        }),
{
}

proof fn lemma_first_playable(tracks: Seq<TrackModel>, hits: Seq<(u64, u32)>, i: int)
    requires
        0 <= i,
    ensures
        match play::first_playable(tracks, hits, i) {
            Some(id) => exists|b: int|
                {
                    &&& i <= b < hits.len()
                    &&& (#[trigger] hits[b]).0 == id
                    &&& play::can_stream(tracks, id)
                    &&& forall|j: int|
                        i <= j < b ==> !play::can_stream(tracks, (#[trigger] hits[j]).0)
                },
            None => forall|j: int|
                i <= j < hits.len() ==> !play::can_stream(tracks, (#[trigger] hits[j]).0),
        },
    decreases hits.len() - i,
{
    if i < hits.len() {
        if play::can_stream(tracks, hits[i].0) {
            assert(hits[i].0 == hits[i].0);
        } else {
            lemma_first_playable(tracks, hits, i + 1);
            if play::first_playable(tracks, hits, i + 1) is Some {
                let id = play::first_playable(tracks, hits, i + 1)->0;
                let b = choose|b: int|
                    {
                        &&& i + 1 <= b < hits.len()
                        &&& (#[trigger] hits[b]).0 == id
                        &&& play::can_stream(tracks, id)
                        &&& forall|j: int|
                            i + 1 <= j < b ==> !play::can_stream(tracks, (#[trigger] hits[j]).0)
                    };
                assert(hits[b].0 == id);
                assert forall|j: int| i <= j < b implies !play::can_stream(
                    tracks,
                    (#[trigger] hits[j]).0,
                ) by {
                    if j == i {
                        assert(!play::can_stream(tracks, hits[i].0));
                    }
                }
            }
        }
    }
}

/// Of the tracks that a query matches, one that can be streamed is played where
/// there is one, and none that can be streamed has a better score.
pub proof fn law_best_match_can_be_streamed(tracks: Seq<TrackModel>, q: Seq<char>)
    requires
        tracks.len() <= usize::MAX,
    ensures
        forall|j: int|
            0 <= j < search::all_found(tracks, q).len() && play::can_stream(
                tracks,
                (#[trigger] search::all_found(tracks, q)[j]).0,
            ) ==> {
                &&& play::best_match(tracks, q) matches Some(id) && play::can_stream(tracks, id)
                &&& exists|b: int|
                    {
                        &&& 0 <= b <= j
                        &&& (#[trigger] search::all_found(tracks, q)[b]).0 == play::best_match(
                            tracks,
                            q,
                        )->0
                        &&& search::all_found(tracks, q)[b].1 >= search::all_found(tracks, q)[j].1
                    }
            },
        play::best_match(tracks, q) is None <==> search::all_found(tracks, q).len() == 0,
{
    let hits = search::all_found(tracks, q);
    lemma_first_playable(tracks, hits, 0);
    search::lemma_found_all(tracks, q);
    search::law_search_is_ranked(tracks, q, tracks.len());
    assert forall|j: int|
        0 <= j < hits.len() && play::can_stream(tracks, (#[trigger] hits[j]).0) implies {
        &&& play::best_match(tracks, q) matches Some(id) && play::can_stream(tracks, id)
        &&& exists|b: int|
            {
                &&& 0 <= b <= j
                &&& (#[trigger] hits[b]).0 == play::best_match(tracks, q)->0
                &&& hits[b].1 >= hits[j].1
            }
    } by {
        let id = play::first_playable(tracks, hits, 0)->0;
        let b = choose|b: int|
            {
                &&& 0 <= b < hits.len()
                &&& (#[trigger] hits[b]).0 == id
                &&& play::can_stream(tracks, id)
                &&& forall|i: int|
                    0 <= i < b ==> !play::can_stream(tracks, (#[trigger] hits[i]).0)
            };
        assert(b <= j);
        assert(hits[b].0 == id);
        if b < j {
            let f = search::found(tracks, q, tracks.len());
            assert(f[b] == hits[b] && f[j] == hits[j]);
        }
    }
}

/// The new state differs from the old one in nothing but the player of the
/// device, the tokens, and what waits for the device's next turn.
pub open spec fn touches_only(m: AppModel, n: AppModel, device: Seq<char>) -> bool {
    &&& n.cfg == m.cfg
    &&& n.library == m.library
    &&& forall|other: Seq<char>| #![trigger n.players.dom().contains(other)]
        other != device ==> {
            &&& n.players.dom().contains(other) == m.players.dom().contains(other)
            &&& n.players[other] == m.players[other]
        }
    &&& forall|other: Seq<char>| #![trigger n.approvals.dom().contains(other)]
        other != device ==> {
            &&& n.approvals.dom().contains(other) == m.approvals.dom().contains(other)
            &&& n.approvals[other] == m.approvals[other]
        }
    &&& forall|other: Seq<char>| #![trigger n.cached_reply.dom().contains(other)]
        other != device ==> {
            &&& n.cached_reply.dom().contains(other) == m.cached_reply.dom().contains(other)
            &&& n.cached_reply[other] == m.cached_reply[other]
        }
}

proof fn lemma_file_touches(
    m: AppModel,
    base: AppModel,
    device: Seq<char>,
    id: u64,
    offset_ms: u64,
    expected: Option<(Seq<char>, u64)>,
    token: Seq<char>,
    now: u128,
)
    requires
        touches_only(base, m, device),
    ensures
        touches_only(
            base,
            play::file_started(m, device, id, offset_ms, expected, token, now).0,
            device,
        ),
{
}

proof fn lemma_queue_touches(
    m: AppModel,
    device: Seq<char>,
    ids: Seq<u64>,
    token: Seq<char>,
    now: u128,
)
    ensures
        touches_only(m, play::queue_started(m, device, ids, token, now).0, device),
{
    if ids.len() > 0 {
        let n = m.with_player(device, m.player(device).with_queue(ids));
        lemma_file_touches(n, m, device, ids[0], 0, None, token, now);
    }
}

proof fn lemma_played_touches(
    m: AppModel,
    device: Seq<char>,
    ap: Option<AudioPlayerContext>,
    token: Seq<char>,
    picks: Seq<usize>,
    now: u128,
)
    ensures
        touches_only(m, play::played(m, device, ap, token, picks, now).0, device),
{
    if !play::same_stream(m, device, ap) {
        match play::track_to_resume(m.player(device)) {
            Some((id, offset_ms)) => {
                lemma_file_touches(
                    m,
                    m,
                    device,
                    id,
                    offset_ms,
                    play::reported_place(ap),
                    token,
                    now,
                );
            },
            None => {
                lemma_queue_touches(m, device, play::whole_library(m, device, picks), token, now);
            },
        }
    }
}

proof fn lemma_music_touches(
    m: AppModel,
    device: Seq<char>,
    query: Option<Seq<char>>,
    token: Seq<char>,
    picks: Seq<usize>,
    now: u128,
)
    ensures
        touches_only(m, play::music_played(m, device, query, token, picks, now).0, device),
{
    lemma_played_touches(m, device, None, token, picks, now);
    match play::asked_for(query) {
        Some(q) => {
            let album = library::ids_where(
                m.library,
                play::named(play::NameField::Album, q),
            );
            let artist = library::ids_where(
                m.library,
                play::named(play::NameField::Artist, q),
            );
            let genre = library::ids_where(
                m.library,
                play::named(play::NameField::Genre, q),
            );
            lemma_queue_touches(m, device, album, token, now);
            lemma_queue_touches(m, device, artist, token, now);
            lemma_queue_touches(m, device, genre, token, now);
            lemma_queue_touches(m, device, shuffle::shuffled(genre, picks), token, now);
            if play::best_match(m.library, q) is Some {
                lemma_file_touches(
                    m,
                    m,
                    device,
                    play::best_match(m.library, q)->0,
                    0,
                    None,
                    token,
                    now,
                );
            }
        },
        None => {},
    }
}

proof fn lemma_forward_touches(
    m: AppModel,
    device: Seq<char>,
    ap: Option<AudioPlayerContext>,
    at_end: Seq<char>,
    token: Seq<char>,
    now: u128,
)
    ensures
        touches_only(m, play::moved_forward(m, device, ap, at_end, token, now).0, device),
{
    let p = m.player(device).finished();
    let n = m.with_player(device, p.advanced());
    if p.next_track() is Some {
        lemma_file_touches(
            n,
            m,
            device,
            p.next_track()->0,
            0,
            play::reported_place(ap),
            token,
            now,
        );
    }
}

proof fn lemma_back_touches(
    m: AppModel,
    device: Seq<char>,
    ap: Option<AudioPlayerContext>,
    token: Seq<char>,
    now: u128,
)
    ensures
        touches_only(m, play::moved_back(m, device, ap, token, now).0, device),
{
    let p = m.player(device);
    let n = m.with_player(device, p.gone_back());
    if p.previous_track() is Some {
        lemma_file_touches(
            n,
            m,
            device,
            p.previous_track()->0,
            0,
            play::reported_place(ap),
            token,
            now,
        );
    }
}

proof fn lemma_seek_touches(
    m: AppModel,
    device: Seq<char>,
    offset_ms: Option<int>,
    token: Seq<char>,
    now: u128,
)
    ensures
        touches_only(m, play::sought(m, device, offset_ms, token, now).0, device),
{
    let p = m.player(device);
    if offset_ms is Some && p.current() is Some {
        lemma_file_touches(
            m,
            m,
            device,
            p.current()->0,
            play::seek_offset(m, p.current()->0, offset_ms->0),
            None,
            token,
            now,
        );
    }
}

proof fn lemma_resume_touches(
    m: AppModel,
    device: Seq<char>,
    offset_ms: int,
    token: Seq<char>,
    picks: Seq<usize>,
    now: u128,
)
    ensures
        touches_only(m, play::resumed(m, device, offset_ms, token, picks, now).0, device),
{
    lemma_played_touches(m, device, None, token, picks, now);
}

/// A request of one device leaves the players, approvals and late replies of
/// all others alone, and never changes the configuration or the library.
#[verifier::rlimit(60)]
pub proof fn law_requests_touch_only_their_device(
    m: AppModel,
    device: Seq<char>,
    kind: IntentModel,
    ap: Option<AudioPlayerContext>,
    token: Seq<char>,
    picks: Seq<usize>,
    now: u128,
)
    ensures
        touches_only(
            m,
            dispatch::intent_handled(m, device, kind, ap, token, picks, now).0,
            device,
        ),
{
    match kind {
        IntentModel::PlayMusic { query } => {
            lemma_music_touches(m, device, query, token, picks, now);
        },
        IntentModel::Play => {
            lemma_played_touches(m, device, ap, token, picks, now);
        },
        IntentModel::Next => {
            lemma_forward_touches(m, device, ap, play::queue_over(false), token, now);
        },
        IntentModel::PlaybackNearlyFinished => {
            lemma_forward_touches(m, device, ap, play::queue_over(false), token, now);
        },
        IntentModel::PlaybackFinished => {
            lemma_forward_touches(m, device, ap, play::queue_over(true), token, now);
        },
        IntentModel::PlaybackFailed => {
            lemma_forward_touches(m, device, ap, play::queue_over(true), token, now);
        },
        IntentModel::Previous => {
            lemma_back_touches(m, device, ap, token, now);
        },
        IntentModel::Resume { offset_ms } => {
            lemma_resume_touches(m, device, offset_ms, token, picks, now);
        },
        IntentModel::Seek { offset_ms } => {
            lemma_seek_touches(m, device, offset_ms, token, now);
        },
        _ => {},
    }
}

/// Switching shuffle on keeps every track of the queue and the current one;
/// switching it off changes nothing but the mode.
pub proof fn law_shuffle_keeps_queue(m: AppModel, device: Seq<char>, picks: Seq<usize>)
    requires
        m.player(device).shuffle || m.player(device).can_reshuffle(),
        action::enough_picks(m, device, picks),
    ensures
        ({
            let p = m.player(device);
            let q = play::shuffle_toggled(m, device, picks).0.player(device);
            &&& q.shuffle == !p.shuffle
            &&& q.queue.to_multiset() == p.queue.to_multiset()
            &&& q.current() == p.current()
            &&& p.shuffle ==> q.queue == p.queue
        }),
{
    let p = m.player(device);
    let on = PlayerModel { shuffle: !p.shuffle, ..p };
    if on.shuffle && on.queue.len() > 1 {
        player::law_reshuffle_keeps_tracks(on, picks);
        let n = on.pos as int + 1;
        let q = on.reshuffled(picks);
        assert(q.queue =~= q.queue.take(n) + q.queue.skip(n));
        assert(on.queue =~= on.queue.take(n) + on.queue.skip(n));
        vstd::seq_lib::lemma_multiset_commutative(q.queue.take(n), q.queue.skip(n));
        vstd::seq_lib::lemma_multiset_commutative(on.queue.take(n), on.queue.skip(n));
    }
}

} // verus!
