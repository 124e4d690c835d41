//! What requests for music do, track by track.

use vstd::prelude::*;

use crate::alexa::intent::IntentModel;
use crate::alexa::intent;
use crate::alexa::request::AudioPlayerContext;
use crate::alexa::request::Envelope;
use crate::alexa::response;
use crate::audio::library::TrackModel;
use crate::audio::library;
use crate::audio::player::PlayerModel;
use crate::audio::player::Repeat;
use crate::audio::player;
use crate::audio::player_laws;
use crate::audio::registry::EntryModel;
use crate::audio::registry::SourceModel;
use crate::audio::search;
use crate::audio::shuffle;
use crate::router::action::ActionModel;
use crate::router::action::PlanModel;
use crate::router::action;
use crate::router::dispatch;
use crate::router::play::NameField;
use crate::router::play;
use crate::router::radio;
use crate::state::AppModel;
use crate::text::chars;
use crate::text::trim;

verus! {

broadcast use {vstd::seq::group_seq_axioms, vstd::slice::group_slice_axioms};

// ── Names ──────────────────────────────────────────────────────────────────

/// The name is the one asked for, letter by letter and to its end, ASCII capitals
/// of the name aside.
pub open spec fn is_the_name(name: Seq<char>, q: Seq<char>) -> bool {
    &&& name.len() == q.len()
    &&& forall|i: int|
        0 <= i < name.len() ==> {
            if 'A' <= #[trigger] name[i] <= 'Z' {
                q[i] as int == name[i] as int + 32
            } else {
                q[i] == name[i]
            }
        }
}

proof fn lemma_same_name(name: Seq<char>, q: Seq<char>)
    ensures
        play::same_name(name, q) <==> is_the_name(name, trim::trimmed(q)),
{
    let t = trim::trimmed(q);
    let low = chars::lowered(name);
    if play::same_name(name, q) {
        assert forall|i: int| 0 <= i < name.len() implies {
            if 'A' <= #[trigger] name[i] <= 'Z' {
                t[i] as int == name[i] as int + 32
            } else {
                t[i] == name[i]
            }
        } by {
            assert(low[i] == t[i]);
        }
    }
    if is_the_name(name, t) {
        assert forall|i: int| 0 <= i < low.len() implies low[i] == t[i] by {
            let c = name[i];
            assert(low[i] == chars::lower_char(c));
        }
        assert(low =~= t);
    }
}

/// A name is the one asked for only as a whole: names and queries that differ in
/// length, or in any character beyond capitals, white space around the query
/// aside, are not the same, and all others are.
pub proof fn law_whole_name_is_asked_for(name: Seq<char>, q: Seq<char>)
    ensures
        play::same_name(name, q) <==> is_the_name(name, trim::trimmed(q)),
{
    lemma_same_name(name, q);
}

/// Asking for an album, an artist or a genre picks exactly the playable tracks
/// that have the whole name there.
pub proof fn law_named_tracks_have_the_name(t: Seq<TrackModel>, q: Seq<char>, id: u64)
    requires
        library::ids_in_order(t),
        t.len() <= u64::MAX,
    ensures
        library::ids_where(t, play::named(NameField::Album, q)).contains(id) <==> 1 <= id <= t.len()
            && t[id - 1].playable && t[id - 1].album.len() > 0 && is_the_name(
            t[id - 1].album,
            trim::trimmed(q),
        ),
        library::ids_where(t, play::named(NameField::Artist, q)).contains(id) <==> 1 <= id
            <= t.len() && t[id - 1].playable && t[id - 1].artist.len() > 0 && is_the_name(
            t[id - 1].artist,
            trim::trimmed(q),
        ),
        library::ids_where(t, play::named(NameField::Genre, q)).contains(id) <==> 1 <= id <= t.len()
            && t[id - 1].playable && t[id - 1].genre.len() > 0 && is_the_name(
            t[id - 1].genre,
            trim::trimmed(q),
        ),
{
    library::law_ids_lead_to_picked_tracks(t, play::named(NameField::Album, q));
    library::law_ids_lead_to_picked_tracks(t, play::named(NameField::Artist, q));
    library::law_ids_lead_to_picked_tracks(t, play::named(NameField::Genre, q));
    if 1 <= id <= t.len() {
        lemma_same_name(t[id - 1].album, q);
        lemma_same_name(t[id - 1].artist, q);
        lemma_same_name(t[id - 1].genre, q);
    }
}

/// What is asked for is the query in small letters, without white space around
/// it; a blank query asks for nothing.
pub proof fn law_asked_for(query: Seq<char>)
    ensures
        play::asked_for(None) is None,
        trim::blank(query) ==> play::asked_for(Some(query)) is None,
        !trim::blank(query) ==> play::asked_for(Some(query)) == Some(
            chars::lowered(trim::trimmed(query)),
        ),
{
}

// ── Starting ───────────────────────────────────────────────────────────────

/// The state differs in the players and the tokens alone.
pub open spec fn only_plays(m: AppModel, n: AppModel) -> bool {
    &&& n.cfg == m.cfg
    &&& n.library == m.library
    &&& n.approvals == m.approvals
    &&& n.cached_reply == m.cached_reply
}

/// Starting a track that can be streamed: the reply hands over its stream, at the
/// offset, names it by title and artist, and is to be saved; the token is bound to
/// the track for the device; the player stands on the track, bound to the token,
/// and remembers the track it leaves.
pub proof fn law_track_is_started(
    m: AppModel,
    device: Seq<char>,
    id: u64,
    offset_ms: u64,
    expected: Option<(Seq<char>, u64)>,
    token: Seq<char>,
    now: u128,
)
    requires
        1 <= id <= m.library.len(),
        m.library[id - 1].playable,
    ensures
        ({
            let (n, a) = play::file_started(m, device, id, offset_ms, expected, token, now);
            let t = m.library[id - 1];
            let p = m.player(device);
            let q = n.player(device);
            &&& a == (ActionModel::Play {
                plan: PlanModel {
                    token,
                    offset_ms,
                    expected,
                    enqueue: false,
                    title: t.title,
                    subtitle: Some(t.artist),
                    art: Some(id),
                    speech: Some("Playing "@ + t.title + " by "@ + t.artist + "."@),
                },
                save: true,
            })
            &&& n.registry == m.registry.insert(
                token,
                EntryModel {
                    source: SourceModel::File {
                        track_id: id,
                        path: t.path,
                        format: t.format,
                        offset_ms,
                        avg_bitrate_kbps: t.avg_bitrate_kbps,
                        title: t.title,
                        artist: t.artist,
                    },
                    device,
                    issued: now,
                },
            )
            &&& q.pos < q.queue.len() && q.queue[q.pos as int] == id
            &&& q.current_token == Some(token)
            &&& q.current_offset_ms == offset_ms
            &&& q.repeat == p.repeat && q.shuffle == p.shuffle
            &&& p.queue.is_prefix_of(q.queue)
            &&& p.current() == Some(id) ==> q.history == p.history
            &&& p.current() matches Some(c) ==> c != id ==> q.history.len() > 0 && q.history.last()
                == c
            &&& only_plays(m, n)
        }),
{
    let p = m.player(device);
    let r = if p.current() != Some(id) {
        p.finished()
    } else {
        p
    };
    player_laws::law_finished_track_is_remembered(p);
    player_laws::law_playing_binds_stream(r, id, token, offset_ms);
    player::law_playing_is_current(r, id, token, offset_ms);
}

/// A track that is not there is refused in words, and nothing changes.
pub proof fn law_missing_track_is_refused(
    m: AppModel,
    device: Seq<char>,
    id: u64,
    offset_ms: u64,
    expected: Option<(Seq<char>, u64)>,
    token: Seq<char>,
    now: u128,
)
    requires
        id == 0 || id > m.library.len(),
    ensures
        play::file_started(m, device, id, offset_ms, expected, token, now) == (
            m,
            action::spoken_reply("I couldn't find that track."@),
        ),
{
}

/// A queue is started at its first track: the player gets the whole queue, and
/// that track starts from its beginning.
pub proof fn law_queue_is_started(
    m: AppModel,
    device: Seq<char>,
    ids: Seq<u64>,
    token: Seq<char>,
    now: u128,
)
    requires
        ids.len() > 0,
        1 <= ids[0] <= m.library.len(),
        m.library[ids[0] - 1].playable,
    ensures
        ({
            let (n, a) = play::queue_started(m, device, ids, token, now);
            &&& a matches ActionModel::Play { plan, save } && save && plan.art == Some(ids[0])
                && plan.offset_ms == 0 && plan.token == token && plan.expected is None
                && !plan.enqueue
            &&& n.player(device).queue == ids
            &&& n.player(device).pos == 0
            &&& n.player(device).current_token == Some(token)
            &&& only_plays(m, n)
        }),
        play::queue_started(m, device, seq![], token, now) == (
            m,
            action::spoken_reply("Nothing to play."@),
        ),
{
    let p = m.player(device).with_queue(ids);
    player_laws::law_new_queue_starts_at_first(m.player(device), ids);
    let k = m.with_player(device, p);
    assert(k.player(device) == p);
    assert(p.current() == Some(ids[0]));
    player_laws::law_playing_binds_stream(p, ids[0], token, 0);
    assert(ids.contains(ids[0]));
    let q = p.playing(ids[0], token, 0);
    assert(q.pos == 0) by {
        if q.pos > 0 {
            assert(q.queue[0] != ids[0]);
        }
    }
}

/// A station is started from its beginning: its token streams its URL, the reply
/// names it, and the player's queue is dropped.
pub proof fn law_station_is_started(
    m: AppModel,
    device: Seq<char>,
    url: Seq<char>,
    name: Seq<char>,
    token: Seq<char>,
    now: u128,
)
    ensures
        ({
            let (n, a) = play::radio_started(m, device, url, name, token, now);
            let q = n.player(device);
            &&& a == (ActionModel::Play {
                plan: PlanModel {
                    token,
                    offset_ms: 0,
                    expected: None,
                    enqueue: false,
                    title: name,
                    subtitle: Some("Radio"@),
                    art: None,
                    speech: Some("Playing "@ + name + "."@),
                },
                save: false,
            })
            &&& n.registry == m.registry.insert(
                token,
                EntryModel { source: SourceModel::Radio { url, title: name }, device, issued: now },
            )
            &&& q.queue.len() == 0 && q.pos == 0
            &&& q.current_token == Some(token) && q.current_offset_ms == 0
            &&& q.history == m.player(device).history
            &&& only_plays(m, n)
        }),
{
    player_laws::law_new_queue_starts_at_first(m.player(device), seq![]);
}

// ── Moving ─────────────────────────────────────────────────────────────────

/// "Next", and a track that is over: the very next track of the queue starts from
/// its beginning, at the end of the queue the given words are said; either way
/// the track that was playing is remembered.
pub proof fn law_next_track_starts(
    m: AppModel,
    device: Seq<char>,
    ap: Option<AudioPlayerContext>,
    at_end: Seq<char>,
    token: Seq<char>,
    now: u128,
)
    requires
        m.player(device).repeat == Repeat::Off,
        m.player(device).pos < m.player(device).queue.len(),
    ensures
        ({
            let p = m.player(device);
            let (n, a) = play::moved_forward(m, device, ap, at_end, token, now);
            &&& p.pos + 1 < p.queue.len() ==> ({
                let id = p.queue[p.pos as int + 1];
                1 <= id <= m.library.len() && m.library[id - 1].playable ==> (a matches ActionModel::Play {
                    plan,
                    ..
                } && plan.art == Some(id) && plan.offset_ms == 0 && plan.token == token
                    && plan.expected == play::reported_place(ap) && plan.title == m.library[id
                    - 1].title)
            })
            &&& p.pos + 1 == p.queue.len() ==> {
                &&& a == action::spoken_reply(at_end)
                &&& n.player(device).queue == p.queue && n.player(device).pos == p.pos
                &&& n.registry == m.registry
                &&& n.player(device).history.len() > 0 && n.player(device).history.last()
                    == p.queue[p.pos as int]
            }
            &&& only_plays(m, n)
        }),
{
    let p = m.player(device);
    player_laws::law_finished_track_is_remembered(p);
    player_laws::law_step_leads_to_next_track(p.finished());
    player_laws::law_step_changes_only_position(p.finished());
}

/// On repeat-one the same track starts again, and on repeat-all the last track is
/// followed by the first.
pub proof fn law_repeat_modes_start(
    m: AppModel,
    device: Seq<char>,
    ap: Option<AudioPlayerContext>,
    at_end: Seq<char>,
    token: Seq<char>,
    now: u128,
)
    requires
        m.player(device).pos < m.player(device).queue.len(),
        forall|i: int|
            0 <= i < m.player(device).queue.len() ==> 1 <= #[trigger] m.player(device).queue[i]
                <= m.library.len() && m.library[m.player(device).queue[i] - 1].playable,
    ensures
        ({
            let p = m.player(device);
            let (n, a) = play::moved_forward(m, device, ap, at_end, token, now);
            &&& p.repeat == Repeat::One ==> (a matches ActionModel::Play { plan, .. } && plan.art
                == Some(p.queue[p.pos as int]))
            &&& p.repeat == Repeat::All && p.pos + 1 == p.queue.len() ==> (
            a matches ActionModel::Play { plan, .. } && plan.art == Some(p.queue[0]))
            &&& p.repeat == Repeat::All && p.pos + 1 < p.queue.len() ==> (
            a matches ActionModel::Play { plan, .. } && plan.art == Some(p.queue[p.pos as int + 1]))
        }),
{
    let p = m.player(device);
    player_laws::law_finished_track_is_remembered(p);
    let f = p.finished();
    if p.repeat == Repeat::One {
        player_laws::law_step_stays_on_repeat_one(f);
    } else if p.repeat == Repeat::All {
        player_laws::law_step_wraps_on_repeat_all(f);
    }
    let queue = p.queue;
    assert(1 <= queue[p.pos as int] <= m.library.len());
    assert(1 <= queue[0] <= m.library.len());
    if p.pos + 1 < queue.len() {
        assert(1 <= queue[p.pos as int + 1] <= m.library.len());
    }
}

/// "Previous": the newest remembered track that is not the one playing starts
/// from its beginning.
pub proof fn law_previous_track_starts(
    m: AppModel,
    device: Seq<char>,
    ap: Option<AudioPlayerContext>,
    token: Seq<char>,
    now: u128,
)
    requires
        m.player(device).history.len() > 0,
        m.player(device).current() != Some(m.player(device).history.last()),
        1 <= m.player(device).history.last() <= m.library.len(),
        m.library[m.player(device).history.last() - 1].playable,
    ensures
        ({
            let (n, a) = play::moved_back(m, device, ap, token, now);
            &&& a matches ActionModel::Play { plan, .. } && plan.art == Some(
                m.player(device).history.last(),
            ) && plan.offset_ms == 0 && plan.token == token && plan.expected
                == play::reported_place(ap)
            &&& only_plays(m, n)
        }),
{
    player_laws::law_step_back(m.player(device));
}

/// "Jump to": the track that is playing starts anew at the offset, at its
/// beginning where the offset lies past its end; a negative offset, an offset that
/// was not understood, or nothing playing, is answered in words.
pub proof fn law_jump(
    m: AppModel,
    device: Seq<char>,
    off: int,
    token: Seq<char>,
    now: u128,
)
    requires
        off <= i64::MAX,
    ensures
        play::sought(m, device, None, token, now) == (
            m,
            action::spoken_reply(
                "I couldn't understand that time. Try jump to 2 minutes 30 seconds."@,
            ),
        ),
        off < 0 ==> play::sought(m, device, Some(off), token, now) == (
            m,
            action::spoken_reply("I can only seek forward."@),
        ),
        off >= 0 && m.player(device).current() is None ==> play::sought(
            m,
            device,
            Some(off),
            token,
            now,
        ) == (m, action::spoken_reply("Nothing is playing."@)),
        off >= 0 ==> (m.player(device).current() matches Some(id) ==> (1 <= id <= m.library.len()
            && m.library[id - 1].playable ==> (play::sought(
            m,
            device,
            Some(off),
            token,
            now,
        ).1 matches ActionModel::Play { plan, .. } && plan.art == Some(id) && plan.token == token
            && plan.expected is None && plan.offset_ms == if off < m.library[id - 1].duration_ms {
            off
        } else {
            0
        }))),
{
}

/// "Play" without a query: goes on with the stream the device is on where its
/// player is bound to it, else with the player's track where it stands, else with
/// the start of its queue.
pub proof fn law_play_goes_on(
    m: AppModel,
    device: Seq<char>,
    token: Seq<char>,
    picks: Seq<usize>,
    now: u128,
)
    requires
        m.player(device).queue.len() > 0,
    ensures
        ({
            let p = m.player(device);
            let (n, a) = play::played(m, device, None, token, picks, now);
            &&& p.pos < p.queue.len() ==> ({
                let id = p.queue[p.pos as int];
                1 <= id <= m.library.len() && m.library[id - 1].playable ==> (a matches ActionModel::Play {
                    plan,
                    ..
                } && plan.art == Some(id) && plan.offset_ms == p.current_offset_ms)
            })
            &&& p.pos >= p.queue.len() ==> ({
                let id = p.queue[0];
                1 <= id <= m.library.len() && m.library[id - 1].playable ==> (a matches ActionModel::Play {
                    plan,
                    ..
                } && plan.art == Some(id) && plan.offset_ms == 0)
            })
        }),
{
}

/// "Play" with nothing queued starts the whole library: the queue is every
/// playable track, in library order without shuffle and in some order with it; an
/// empty library is told.
pub proof fn law_play_starts_library(
    m: AppModel,
    device: Seq<char>,
    token: Seq<char>,
    picks: Seq<usize>,
    now: u128,
)
    requires
        m.player(device).queue.len() == 0,
        library::ids_in_order(m.library),
        m.library.len() <= usize::MAX,
        shuffle::is_deck(picks, m.library.len()),
    ensures
        ({
            let (n, a) = play::played(m, device, None, token, picks, now);
            let all = library::ids_where(m.library, library::can_play());
            &&& all.len() == 0 ==> n == m && a == action::spoken_reply(
                "Your music library is empty. Add MP3 or AAC files to the library folders, then ask me to play."@,
            )
            &&& all.len() > 0 ==> {
                &&& n.player(device).queue.to_multiset() == all.to_multiset()
                &&& !m.player(device).shuffle ==> n.player(device).queue == all
                &&& n.player(device).pos == 0
                &&& a matches ActionModel::Play { plan, .. } && plan.art == Some(
                    n.player(device).queue[0],
                ) && plan.offset_ms == 0
            }
        }),
{
    let all = library::ids_where(m.library, library::can_play());
    library::lemma_ids_where(m.library, library::can_play());
    shuffle::law_shuffle_is_permutation(all, picks);
    let ids = play::whole_library(m, device, picks);
    if all.len() > 0 {
        assert(ids.len() == all.len());
        assert(ids.contains(ids[0]));
        assert(all.contains(ids[0]));
        library::law_ids_lead_to_picked_tracks(m.library, library::can_play());
        law_queue_is_started(m, device, ids, token, now);
    }
}

/// A device that reports the stream its player is bound to goes on with that very
/// stream, at the place it reports.
pub proof fn law_play_resumes_reported_stream(
    m: AppModel,
    device: Seq<char>,
    ap: AudioPlayerContext,
    t: String,
    off: i64,
    token: Seq<char>,
    picks: Seq<usize>,
    now: u128,
)
    requires
        ap.token == Some(t),
        ap.offset_in_milliseconds == Some(off),
        m.players.dom().contains(device),
        m.players[device].current_token == Some(t@),
        m.registry.dom().contains(t@),
        !m.registry[t@].expired(now),
        t@.len() > 0,
    ensures
        ({
            let at: u64 = if off > 0 {
                off as u64
            } else {
                0
            };
            let (n, a) = play::played(m, device, Some(ap), token, picks, now);
            &&& a matches ActionModel::Play { plan, save } && !save && plan.token == t@
                && plan.offset_ms == at && plan.expected == Some((t@, at)) && plan.speech is None
                && !plan.enqueue
            &&& n.registry == m.registry
            &&& n.player(device).current_offset_ms == at
            &&& n.player(device).queue == m.player(device).queue
            &&& only_plays(m, n)
        }),
{
}

/// "Resume" goes on with the stream that the player is bound to, at the offset,
/// never before its start; what it shows is what the token is bound to.
pub proof fn law_resume_goes_on(
    m: AppModel,
    device: Seq<char>,
    t: Seq<char>,
    off: int,
    token: Seq<char>,
    picks: Seq<usize>,
    now: u128,
)
    requires
        m.players.dom().contains(device),
        m.players[device].current_token == Some(t),
        t.len() > 0,
        m.registry.dom().contains(t),
        !m.registry[t].expired(now),
        off <= i64::MAX,
    ensures
        ({
            let at = if off > 0 {
                off
            } else {
                0
            };
            let (n, a) = play::resumed(m, device, off, token, picks, now);
            &&& a matches ActionModel::Play { plan, save } && !save && plan.token == t
                && plan.offset_ms == at && plan.expected is None && plan.speech is None && match m.registry[t].source {
                SourceModel::File { track_id, title, artist, .. } => plan.art == Some(track_id)
                    && plan.title == title && (artist.len() > 0 ==> plan.subtitle == Some(artist))
                    && (artist.len() == 0 ==> plan.subtitle is None),
                SourceModel::Radio { title, .. } => plan.art is None && plan.title == title
                    && plan.subtitle is None,
            }
            &&& n.registry == m.registry
            &&& n.player(device).current_offset_ms == at
            &&& n.player(device).current_token == Some(t)
            &&& only_plays(m, n)
        }),
{
}

/// A token whose time is over, or that is not known, leads to words and is
/// forgotten; the players stay.
pub proof fn law_expired_stream_is_told(
    m: AppModel,
    device: Seq<char>,
    t: Seq<char>,
    offset_ms: u64,
    expected: Option<(Seq<char>, u64)>,
    now: u128,
)
    requires
        !m.registry.dom().contains(t) || m.registry[t].expired(now),
    ensures
        ({
            let (n, a) = play::stream_resumed(m, device, t, offset_ms, expected, now);
            &&& a == action::spoken_reply("That stream has expired. Say play to start again."@)
            &&& n.players == m.players
            &&& n.registry == m.registry.remove(t)
            &&& only_plays(m, n)
        }),
{
}

/// Where player and device have drifted apart, the player follows the token that
/// the stream goes on with.
pub proof fn law_player_follows_token(
    m: AppModel,
    device: Seq<char>,
    t: Seq<char>,
    offset_ms: u64,
    expected: Option<(Seq<char>, u64)>,
    now: u128,
    id: u64,
)
    requires
        m.registry.dom().contains(t),
        !m.registry[t].expired(now),
        m.registry[t].source matches SourceModel::File { track_id, .. } && track_id == id,
        m.player(device).current_token != Some(t),
    ensures
        ({
            let q = play::stream_resumed(m, device, t, offset_ms, expected, now).0.player(device);
            &&& q.current_token == Some(t)
            &&& q.current_offset_ms == offset_ms
            &&& q.current() == Some(id)
        }),
{
    let p = m.player(device);
    let q = if offset_ms <= i64::MAX {
        p.at_offset(offset_ms as int)
    } else {
        p
    };
    player_laws::law_playing_binds_stream(q, id, t, offset_ms);
}

/// The place that a device reports: its token, unless that is empty, and its
/// offset, never before the start.
pub proof fn law_reported_place(ap: AudioPlayerContext)
    ensures
        play::reported_place(None) is None,
        ap.token is None ==> play::reported_place(Some(ap)) is None,
        ap.token matches Some(t) ==> (t@.len() == 0 ==> play::reported_place(Some(ap)) is None),
        ap.token matches Some(t) ==> (t@.len() > 0 ==> (play::reported_place(Some(ap)) matches Some(
            (u, o),
        ) && u == t@ && match ap.offset_in_milliseconds {
            Some(n) => if n > 0 {
                o == n
            } else {
                o == 0
            },
            None => o == 0,
        })),
{
}

// ── Replies ────────────────────────────────────────────────────────────────

/// The response that hands over a plan's stream: its one directive plays the
/// item of the plan, behind what is playing where the plan says so and in its
/// place otherwise; it says the plan's words, and ends the session.
pub proof fn law_plan_is_handed_over(m: AppModel, plan: PlanModel, has_cover: bool)
    ensures
        ({
            let r = action::plan_response(m, plan, has_cover);
            &&& r.0 == "1.0"@
            &&& r.1.should_end_session
            &&& r.1.directives.len() == 1
            &&& r.1.directives[0] == response::play_directive(
                if plan.enqueue {
                    "REPLACE_ENQUEUED"@
                } else {
                    "REPLACE_ALL"@
                },
                response::stream_item_json(
                    m.cfg.public_base(),
                    plan.token,
                    plan.offset_ms,
                    plan.expected,
                    plan.title,
                    plan.subtitle,
                    match plan.art {
                        Some(id) => Some(m.art_address(id, has_cover)),
                        None => None,
                    },
                ),
            )
            &&& plan.speech is None ==> r.1.output_speech is None
            &&& plan.speech matches Some(s) ==> r.1.output_speech == response::said(
                s,
            ).1.output_speech
        }),
{
}

/// A spoken reply is just that: nothing is saved.
pub proof fn law_spoken_reply_says(text: Seq<char>)
    ensures
        action::spoken_reply(text) == (ActionModel::Reply {
            response: response::said(text),
            save: false,
        }),
{
}

// ── Intents ────────────────────────────────────────────────────────────────

/// What each intent does that is answered in words: what is said, what is saved,
/// and how the player of the device changes.
pub proof fn law_plain_intents(
    m: AppModel,
    device: Seq<char>,
    kind: IntentModel,
    ap: Option<AudioPlayerContext>,
    token: Seq<char>,
    picks: Seq<usize>,
    now: u128,
)
    ensures
        ({
            let (n, a) = dispatch::intent_handled(m, device, kind, ap, token, picks, now);
            let p = m.player(device);
            match kind {
                IntentModel::Launch => n == m && a == action::spoken_reply(
                    "Aria is ready. Say play some music, or ask me anything."@,
                ),
                IntentModel::Cancel => n == m && a == action::spoken_reply("Okay, bye."@),
                IntentModel::SessionEnded => n == m && a == (ActionModel::Reply {
                    response: response::silent(),
                    save: true,
                }),
                IntentModel::SystemRequest => n == m && a == (ActionModel::Reply {
                    response: response::silent(),
                    save: true,
                }),
                IntentModel::Pause => {
                    &&& n == m
                    &&& a matches ActionModel::Reply { response: r, save } && save
                        && r.1.should_end_session && r.1.directives == seq![
                        response::bare_directive("AudioPlayer.Pause"@),
                    ] && r.1.output_speech == response::said("Paused."@).1.output_speech
                },
                IntentModel::Stop => {
                    &&& a matches ActionModel::Reply { response: r, save } && !save
                        && r.1.should_end_session && r.1.directives == seq![
                        response::bare_directive("AudioPlayer.Stop"@),
                    ] && r.1.output_speech == response::said("Stopped."@).1.output_speech
                    &&& n.player(device).current_token is None
                    &&& n.player(device).current_offset_ms == 0
                    &&& n.player(device).queue == p.queue
                    &&& n.player(device).pos == p.pos
                    &&& p.current() matches Some(c) ==> n.player(device).history.len() > 0
                        && n.player(device).history.last() == c
                },
                IntentModel::RepeatOne => {
                    &&& n.player(device) == (PlayerModel { repeat: Repeat::One, ..p })
                    &&& a == action::spoken_reply("Repeating this song."@)
                },
                IntentModel::RepeatAll => {
                    &&& n.player(device) == (PlayerModel { repeat: Repeat::All, ..p })
                    &&& a == action::spoken_reply("Repeating the whole queue."@)
                },
                IntentModel::RepeatOff => {
                    &&& n.player(device) == (PlayerModel { repeat: Repeat::Off, ..p })
                    &&& a == action::spoken_reply("Repeat off."@)
                },
                IntentModel::ToggleShuffle => {
                    &&& n.player(device).shuffle == !p.shuffle
                    &&& a == action::spoken_reply(
                        if p.shuffle {
                            "Shuffle off."@
                        } else {
                            "Shuffle on."@
                        },
                    )
                },
                IntentModel::PlaybackStarted => {
                    &&& a == (ActionModel::Reply { response: response::silent(), save: true })
                    &&& n.player(device).queue == p.queue && n.player(device).pos == p.pos
                    &&& ap matches Some(x) ==> x.token matches Some(t)
                        ==> x.offset_in_milliseconds matches Some(o) ==> n.player(
                        device,
                    ).current_token == Some(t@) && n.player(device).current_offset_ms == if o > 0 {
                        o as int
                    } else {
                        0
                    }
                    &&& ap is None ==> n == m
                },
                IntentModel::PlaybackStopped => {
                    &&& a == (ActionModel::Reply { response: response::silent(), save: false })
                    &&& n.player(device).queue == p.queue && n.player(device).pos == p.pos
                    &&& n.player(device).current_token == p.current_token
                    &&& ap matches Some(x) ==> x.offset_in_milliseconds matches Some(o)
                        ==> n.player(device).current_offset_ms == if o >= 0 {
                        o as int
                    } else {
                        p.current_offset_ms as int
                    }
                    &&& ap is None ==> n == m
                },
                IntentModel::Fallback { utterance: None } => n == m && a == action::spoken_reply(
                    "I didn't catch that. Say ask aria plus your question, or play some music."@,
                ),
                IntentModel::Unknown { .. } => n == m && a == action::spoken_reply(
                    "I can play music or answer questions. Try play some music, or ask me something."@,
                ),
                _ => true,
            }
        }),
{
}

/// Each intent that plays or asks does what its request is for: "next" moves
/// forward, "previous" back, and so on.
pub proof fn law_playing_intents(
    m: AppModel,
    device: Seq<char>,
    ap: Option<AudioPlayerContext>,
    token: Seq<char>,
    picks: Seq<usize>,
    now: u128,
    query: Option<Seq<char>>,
    words: Seq<char>,
    off: int,
)
    ensures
        dispatch::intent_handled(m, device, IntentModel::Next, ap, token, picks, now)
            == play::moved_forward(
            m,
            device,
            ap,
            "That was the last one in the queue."@,
            token,
            now,
        ),
        dispatch::intent_handled(m, device, IntentModel::PlaybackFinished, ap, token, picks, now)
            == play::moved_forward(
            m,
            device,
            ap,
            "Playback failed and the queue is empty."@,
            token,
            now,
        ),
        dispatch::intent_handled(m, device, IntentModel::PlaybackFailed, ap, token, picks, now)
            == play::moved_forward(
            m,
            device,
            ap,
            "Playback failed and the queue is empty."@,
            token,
            now,
        ),
        ({
            let (n, a) = dispatch::intent_handled(
                m,
                device,
                IntentModel::PlaybackNearlyFinished,
                ap,
                token,
                picks,
                now,
            );
            let (k, b) = play::moved_forward(
                m,
                device,
                ap,
                "That was the last one in the queue."@,
                token,
                now,
            );
            &&& n == k
            &&& b matches ActionModel::Play { plan, save } ==> a == (ActionModel::Play {
                plan: PlanModel { enqueue: true, ..plan },
                save,
            })
            &&& !(b is Play) ==> a == b
        }),
        dispatch::intent_handled(m, device, IntentModel::Previous, ap, token, picks, now)
            == play::moved_back(m, device, ap, token, now),
        dispatch::intent_handled(m, device, IntentModel::Play, ap, token, picks, now)
            == play::played(m, device, ap, token, picks, now),
        dispatch::intent_handled(m, device, IntentModel::PlayMusic { query }, ap, token, picks, now)
            == play::music_played(m, device, query, token, picks, now),
        dispatch::intent_handled(
            m,
            device,
            IntentModel::Resume { offset_ms: off },
            ap,
            token,
            picks,
            now,
        ) == play::resumed(m, device, off, token, picks, now),
        dispatch::intent_handled(
            m,
            device,
            IntentModel::Seek { offset_ms: Some(off) },
            ap,
            token,
            picks,
            now,
        ) == play::sought(m, device, Some(off), token, now),
        dispatch::intent_handled(
            m,
            device,
            IntentModel::Ask { utterance: words },
            ap,
            token,
            picks,
            now,
        ) == dispatch::intent_handled(
            m,
            device,
            IntentModel::Fallback { utterance: Some(words) },
            ap,
            token,
            picks,
            now,
        ),
        dispatch::intent_handled(
            m,
            device,
            IntentModel::Ask { utterance: words },
            ap,
            token,
            picks,
            now,
        ) == crate::router::turn::agent_turn(m, device, words, now),
{
}

// ── Requests ───────────────────────────────────────────────────────────────

/// A request counts for the device it names, and for a common one where it names
/// none; what it does is what its intent does there.
pub proof fn law_request_is_its_intent(
    m: AppModel,
    env: Envelope,
    token: Seq<char>,
    picks: Seq<usize>,
    now: u128,
    kind: IntentModel,
)
    requires
        intent::intent_of(env) == kind,
    ensures
        env.device() matches Some(d) ==> dispatch::request_handled(m, env, token, picks, now)
            == dispatch::intent_handled(m, d, kind, env.player(), token, picks, now),
        env.device() is None ==> dispatch::request_handled(m, env, token, picks, now)
            == dispatch::intent_handled(
            m,
            "unknown-device"@,
            kind,
            env.player(),
            token,
            picks,
            now,
        ),
{
}

/// Help names what can be said.
pub proof fn law_help(
    m: AppModel,
    device: Seq<char>,
    ap: Option<AudioPlayerContext>,
    token: Seq<char>,
    picks: Seq<usize>,
    now: u128,
)
    ensures
        dispatch::intent_handled(m, device, IntentModel::Help, ap, token, picks, now) == (
            m,
            action::spoken_reply(
                "You can say: play a song, album, artist, or genre. Play radio plus a station name. Play, pause, stop, next, previous, or jump to a time. Shuffle, repeat this song, or repeat all. And you can just ask me a question — ZeroClaw will answer."@,
            ),
        ),
{
}

/// A report that says too little of the stream changes nothing.
pub proof fn law_poor_reports_change_nothing(
    m: AppModel,
    device: Seq<char>,
    x: AudioPlayerContext,
    token: Seq<char>,
    picks: Seq<usize>,
    now: u128,
)
    requires
        x.offset_in_milliseconds is None,
    ensures
        dispatch::intent_handled(
            m,
            device,
            IntentModel::PlaybackStarted,
            Some(x),
            token,
            picks,
            now,
        ).0 == m,
        dispatch::intent_handled(
            m,
            device,
            IntentModel::PlaybackStopped,
            Some(x),
            token,
            picks,
            now,
        ).0 == m,
{
}

/// A device that starts to play without naming its stream changes nothing.
pub proof fn law_nameless_start_changes_nothing(
    m: AppModel,
    device: Seq<char>,
    x: AudioPlayerContext,
    token: Seq<char>,
    picks: Seq<usize>,
    now: u128,
)
    requires
        x.token is None,
    ensures
        dispatch::intent_handled(
            m,
            device,
            IntentModel::PlaybackStarted,
            Some(x),
            token,
            picks,
            now,
        ).0 == m,
{
}

/// Switching shuffle off leaves the queue as it is; switching it on shuffles what
/// follows the current track and leaves everything up to it in place.
pub proof fn law_shuffle_switch(m: AppModel, device: Seq<char>, picks: Seq<usize>)
    requires
        m.player(device).pos < m.player(device).queue.len(),
        shuffle::is_deck(picks, m.player(device).queue.len()),
    ensures
        ({
            let p = m.player(device);
            let q = play::shuffle_toggled(m, device, picks).0.player(device);
            &&& p.shuffle ==> q == (PlayerModel { shuffle: false, ..p })
            &&& !p.shuffle ==> {
                &&& q.shuffle
                &&& q.pos == p.pos
                &&& q.queue.len() == p.queue.len()
                &&& p.pos + 1 < p.queue.len() ==> q.queue.last() == p.queue[p.pos + 1
                    + picks[p.queue.len() - p.pos - 2]]
                &&& forall|i: int| 0 <= i <= p.pos ==> #[trigger] q.queue[i] == p.queue[i]
                &&& q.current_token == p.current_token
                &&& q.current_offset_ms == p.current_offset_ms
                &&& q.history == p.history && q.repeat == p.repeat
            }
        }),
{
    let p = m.player(device);
    let s = PlayerModel { shuffle: !p.shuffle, ..p };
    player::law_reshuffle_keeps_tracks(s, picks);
    player_laws::law_reshuffle_follows_choices(s, picks);
    let q = s.reshuffled(picks);
    let n = p.pos as int + 1;
    assert forall|i: int| 0 <= i <= p.pos implies #[trigger] q.queue[i] == p.queue[i] by {
        assert(q.queue.take(n)[i] == p.queue.take(n)[i]);
    }
}

/// "Resume" without a stream to resume plays.
pub proof fn law_resume_without_stream_plays(
    m: AppModel,
    device: Seq<char>,
    off: int,
    token: Seq<char>,
    picks: Seq<usize>,
    now: u128,
)
    requires
        m.player(device).current_token matches Some(t) ==> t.len() == 0,
    ensures
        play::resumed(m, device, off, token, picks, now) == play::played(
            m,
            device,
            None,
            token,
            picks,
            now,
        ),
{
}

/// A device that reports another stream than its player's, or no place, does not
/// have it resumed: "play" starts the player's track, and names what the device
/// reported as what it replaces.
pub proof fn law_play_with_foreign_report(
    m: AppModel,
    device: Seq<char>,
    ap: AudioPlayerContext,
    token: Seq<char>,
    picks: Seq<usize>,
    now: u128,
)
    requires
        m.player(device).pos < m.player(device).queue.len(),
        1 <= m.player(device).queue[m.player(device).pos as int] <= m.library.len(),
        m.library[m.player(device).queue[m.player(device).pos as int] - 1].playable,
        ap.offset_in_milliseconds is None || ap.token is None || (ap.token matches Some(t)
            && m.player(device).current_token != Some(t@)),
    ensures
        play::played(
            m,
            device,
            Some(ap),
            token,
            picks,
            now,
        ).1 matches ActionModel::Play { plan, save } && save && plan.token == token && plan.art
            == Some(m.player(device).queue[m.player(device).pos as int]) && plan.offset_ms
            == m.player(device).current_offset_ms && plan.expected == play::reported_place(
            Some(ap),
        ),
{
}

/// "Previous" with nothing remembered starts the current track over, and with
/// nothing playing either says so.
pub proof fn law_previous_without_history(
    m: AppModel,
    device: Seq<char>,
    ap: Option<AudioPlayerContext>,
    token: Seq<char>,
    now: u128,
)
    requires
        m.player(device).history.len() == 0,
    ensures
        m.player(device).current() is None ==> play::moved_back(m, device, ap, token, now).1
            == action::spoken_reply("Nothing is playing."@),
        m.player(device).current() matches Some(id) ==> (1 <= id <= m.library.len()
            && m.library[id - 1].playable ==> (play::moved_back(
            m,
            device,
            ap,
            token,
            now,
        ).1 matches ActionModel::Play { plan, .. } && plan.art == Some(id) && plan.offset_ms == 0)),
{
    player_laws::law_step_back(m.player(device));
}

/// What a query plays: with no station, album, artist or genre of that name and
/// nothing found, it is told that there is nothing; a blank query plays on; a
/// genre is shuffled where shuffle is on.
pub proof fn law_query_without_match(
    m: AppModel,
    device: Seq<char>,
    query: Seq<char>,
    q: Seq<char>,
    token: Seq<char>,
    picks: Seq<usize>,
    now: u128,
)
    requires
        q == chars::lowered(trim::trimmed(query)),
    ensures
        ({
            let r = play::music_played(m, device, Some(query), token, picks, now);
            let album = library::ids_where(m.library, play::named(NameField::Album, q));
            let artist = library::ids_where(m.library, play::named(NameField::Artist, q));
            let genre = library::ids_where(m.library, play::named(NameField::Genre, q));
            let unnamed = radio::station_of(m.cfg.radio, q) is None && album.len() == 0
                && artist.len() == 0;
            &&& trim::blank(query) ==> r == play::played(m, device, None, token, picks, now)
            &&& !trim::blank(query) && unnamed && genre.len() == 0 && search::all_found(
                m.library,
                q,
            ).len() == 0 ==> r == (
                m,
                action::spoken_reply("Sorry, I couldn't find "@ + q + " in your music library."@),
            )
            &&& !trim::blank(query) && unnamed && genre.len() > 0 && m.player(device).shuffle
                ==> r == play::queue_started(
                m,
                device,
                shuffle::shuffled(genre, picks),
                token,
                now,
            )
        }),
        play::music_played(m, device, None, token, picks, now) == play::played(
            m,
            device,
            None,
            token,
            picks,
            now,
        ),
{
}

/// Where nothing that a query matches can be streamed, the best match is named, so
/// that it can be told why.
pub proof fn law_best_match_without_stream(t: Seq<TrackModel>, q: Seq<char>)
    requires
        search::all_found(t, q).len() > 0,
        forall|j: int|
            0 <= j < search::all_found(t, q).len() ==> {
                let id = (#[trigger] search::all_found(t, q)[j]).0;
                id == 0 || id > t.len() || !t[id - 1].playable
            },
    ensures
        play::best_match(t, q) == Some(search::all_found(t, q)[0].0),
{
    lemma_none_playable(t, search::all_found(t, q), 0);
}

proof fn lemma_none_playable(t: Seq<TrackModel>, hits: Seq<(u64, u32)>, i: int)
    requires
        0 <= i,
        forall|j: int|
            0 <= j < hits.len() ==> {
                let id = (#[trigger] hits[j]).0;
                id == 0 || id > t.len() || !t[id - 1].playable
            },
    ensures
        play::first_playable(t, hits, i) is None,
    decreases hits.len() - i,
{
    if i < hits.len() {
        let id = hits[i].0;
        assert(!play::can_stream(t, id));
        lemma_none_playable(t, hits, i + 1);
    }
}

} // verus!
