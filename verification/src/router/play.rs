//! Music: starting, resuming and moving through streams.

use vstd::prelude::*;

use crate::alexa::request::AudioPlayerContext;
use crate::alexa::response::Response;
use crate::alexa::response;
use crate::audio::library::Library;
use crate::audio::library::Track;
use crate::audio::library::TrackModel;
use crate::audio::library;
use crate::audio::player::PlayerModel;
use crate::audio::player::Repeat;
use crate::audio::player;
use crate::audio::registry::EntryModel;
use crate::audio::registry::SourceModel;
use crate::audio::registry::StreamSource;
use crate::audio::search::search;
use crate::audio::search;
use crate::audio::shuffle::shuffle_with;
use crate::audio::shuffle;
use crate::router::action::Action;
use crate::router::action::ActionModel;
use crate::router::action::Draws;
use crate::router::action::PlanModel;
use crate::router::action::PlayPlan;
use crate::router::action::owned_place;
use crate::router::action::say;
use crate::router::action;
use crate::router::radio::match_radio;
use crate::router::radio;
use crate::state::AppModel;
use crate::state::AppState;
use crate::text::chars::concat3;
use crate::text::chars::concat5;
use crate::text::chars::owned;
use crate::text::chars::same_chars;
use crate::text::chars::same_text;
use crate::text::chars::to_chars;
use crate::text::chars::to_lower;
use crate::text::chars::to_text;
use crate::text::chars;
use crate::text::trim::is_blank;
use crate::text::trim;

verus! {

broadcast use {vstd::seq::group_seq_axioms, vstd::slice::group_slice_axioms};

// ── Names ──────────────────────────────────────────────────────────────────

/// A field of a track that names it.
#[derive(Debug, Clone, Copy, PartialEq, Eq, Structural)]
pub enum NameField {
    Album,
    Artist,
    Genre,
}

/// The name that a track has in a field.
pub open spec fn field_name(t: TrackModel, f: NameField) -> Seq<char> {
    match f {
        NameField::Album => t.album,
        NameField::Artist => t.artist,
        NameField::Genre => t.genre,
    }
}

/// The name is the one asked for, capitals aside.
pub open spec fn same_name(name: Seq<char>, q: Seq<char>) -> bool {
    chars::lowered(name) == trim::trimmed(q)
}

/// The playable tracks with the name asked for in a field.
pub open spec fn named(f: NameField, q: Seq<char>) -> spec_fn(TrackModel) -> bool {
    |t: TrackModel|
        t.playable && field_name(t, f).len() > 0 && same_name(field_name(t, f), q)
}

/// Whether a name is the one asked for, capitals aside.
pub fn eq_norm(a: &str, b: &str) -> (r: bool)
    ensures
        r == same_name(a@, b@),
{
    let low = to_lower(to_chars(a).as_slice());
    let all = to_chars(b);
    same_chars(low.as_slice(), trim::trim(all.as_slice()))
}

fn field_text<'a>(t: &'a Track, f: NameField) -> (r: &'a str)
    ensures
        r@ == field_name(t@, f),
{
    match f {
        NameField::Album => t.album.as_str(),
        NameField::Artist => t.artist.as_str(),
        NameField::Genre => t.genre.as_str(),
    }
}

/// The ids of the playable tracks with the name asked for in a field, if any.
pub fn named_tracks(lib: &Library, f: NameField, q: &str) -> (r: Option<Vec<u64>>)
    ensures
        match r {
            Some(ids) => ids@ == library::ids_where(lib@, named(f, q@)) && ids@.len() > 0,
            None => library::ids_where(lib@, named(f, q@)).len() == 0,
        },
{
    let mut ids: Vec<u64> = Vec::new();
    let n: usize = lib.len();
    let mut i: usize = 0;
    while i < n
        invariant
            i <= n,
            n == lib@.len(),
            ids@ == library::ids_where(lib@.take(i as int), named(f, q@)),
        decreases n - i,
    {
        let t = lib.track(i);
        assert(lib@.take(i + 1).drop_last() == lib@.take(i as int));
        assert(lib@.take(i + 1).last() == t@);
        let name = field_text(t, f);
        if t.playable && to_chars(name).len() > 0 && eq_norm(name, q) {
            ids.push(t.id);
        }
        i = i + 1;
    }
    assert(lib@.take(i as int) == lib@);
    if ids.len() > 0 {
        Some(ids)
    } else {
        None
    }
}

// ── Starting a stream ──────────────────────────────────────────────────────

/// What a token for a track is bound to.
pub open spec fn track_source(t: TrackModel, offset_ms: u64) -> SourceModel {
    SourceModel::File {
        track_id: t.id,
        path: t.path,
        format: t.format,
        offset_ms,
        avg_bitrate_kbps: t.avg_bitrate_kbps,
        title: t.title,
        artist: t.artist,
    }
}

/// The player once it moves on to a track; the outgoing one is remembered.
pub open spec fn moved_on(p: PlayerModel, id: u64, token: Seq<char>, offset_ms: u64) -> PlayerModel {
    let q = if p.current() != Some(id) {
        p.finished()
    } else {
        p
    };
    q.playing(id, token, offset_ms)
}

/// Starting a track on a device: a token is bound to it, the player moves on to
/// it, and its stream starts. A track that is not there, or that Echo cannot
/// stream, changes nothing.
pub open spec fn file_started(
    m: AppModel,
    device: Seq<char>,
    id: u64,
    offset_ms: u64,
    expected: Option<(Seq<char>, u64)>,
    token: Seq<char>,
    now: u128,
) -> (AppModel, ActionModel) {
    if !(1 <= id <= m.library.len()) {
        (m, action::spoken_reply("I couldn't find that track."@))
    } else if !m.library[id - 1].playable {
        (
            m,
            action::spoken_reply(
                "That file is not in a format Echo can stream. MP3 and AAC work."@,
            ),
        )
    } else {
        let t = m.library[id - 1];
        (
            AppModel {
                registry: m.registry.insert(
                    token,
                    EntryModel {
                        source: track_source(TrackModel { id, ..t }, offset_ms),
                        device,
                        issued: now,
                    },
                ),
                ..m.with_player(device, moved_on(m.player(device), id, token, offset_ms))
            },
            ActionModel::Play {
                plan: PlanModel {
                    token,
                    offset_ms,
                    expected,
                    enqueue: false,
                    title: t.title,
                    subtitle: Some(t.artist),
                    art: Some(id),
                    speech: Some("Playing "@ + t.title + " by "@ + t.artist + "."@),
                },
                save: true,
            },
        )
    }
}

/// Issue a token, update player state, and build the Play response.
pub fn start_file(
    st: &mut AppState,
    device: &str,
    track_id: u64,
    offset_ms: u64,
    expected: Option<(&str, u64)>,
    token: &str,
    now: u128,
) -> (r: Action)
    ensures
        (final(st)@, r@) == file_started(
            old(st)@,
            device@,
            track_id,
            offset_ms,
            response::opt_place(expected),
            token@,
            now,
        ),
{
    let (title, artist, path, format, bitrate) = match st.library.get(track_id) {
        Some(track) => {
            if !track.playable {
                return say("That file is not in a format Echo can stream. MP3 and AAC work.");
            }
            (
                track.title.clone(),
                track.artist.clone(),
                track.path.clone(),
                track.format,
                track.avg_bitrate_kbps,
            )
        },
        None => {
            return say("I couldn't find that track.");
        },
    };
    let source = StreamSource::File {
        track_id,
        path,
        format,
        offset_ms,
        avg_bitrate_kbps: bitrate,
        title: title.clone(),
        artist: artist.clone(),
    };
    st.registry.issue_with(token, device, source, now);
    let mut p = st.take_player(device);
    // Remember the outgoing track so "previous" can find it.
    if p.current() != Some(track_id) {
        p.note_finished();
    }
    p.set_current(track_id, owned(token), offset_ms);
    st.put_player(device, p);
    let speech = concat5("Playing ", title.as_str(), " by ", artist.as_str(), ".");
    let plan = PlayPlan {
        token: owned(token),
        offset_ms,
        expected: owned_place(expected),
        enqueue: false,
        title,
        subtitle: Some(artist),
        art: Some(track_id),
        speech: Some(speech),
    };
    proof {
        let want = file_started(
            old(st)@,
            device@,
            track_id,
            offset_ms,
            response::opt_place(expected),
            token@,
            now,
        );
        assert(st@.players =~= want.0.players);
        assert(st@ == want.0);
    }
    Action::Play { plan, save: true }
}

/// Starting a queue on a device at its first track.
pub open spec fn queue_started(
    m: AppModel,
    device: Seq<char>,
    ids: Seq<u64>,
    token: Seq<char>,
    now: u128,
) -> (AppModel, ActionModel) {
    if ids.len() == 0 {
        (m, action::spoken_reply("Nothing to play."@))
    } else {
        file_started(
            m.with_player(device, m.player(device).with_queue(ids)),
            device,
            ids[0],
            0,
            None,
            token,
            now,
        )
    }
}

/// Start a fresh queue and play its first entry.
pub fn play_queue(st: &mut AppState, device: &str, ids: Vec<u64>, token: &str, now: u128) -> (r:
    Action)
    ensures
        (final(st)@, r@) == queue_started(old(st)@, device@, ids@, token@, now),
{
    if ids.len() == 0 {
        return say("Nothing to play.");
    }
    let first: u64 = ids[0];
    let mut p = st.take_player(device);
    p.start_queue(ids);
    st.put_player(device, p);
    assert(st@.players =~= old(st)@.players.insert(device@, p@));
    start_file(st, device, first, 0, None, token, now)
}

/// Starting a radio station on a device: its queue is dropped.
pub open spec fn radio_started(
    m: AppModel,
    device: Seq<char>,
    url: Seq<char>,
    name: Seq<char>,
    token: Seq<char>,
    now: u128,
) -> (AppModel, ActionModel) {
    let p = PlayerModel { current_token: Some(token), ..m.player(device).with_queue(seq![]) };
    (
        AppModel {
            registry: m.registry.insert(
                token,
                EntryModel { source: SourceModel::Radio { url, title: name }, device, issued: now },
            ),
            ..m.with_player(device, p)
        },
        ActionModel::Play {
            plan: PlanModel {
                token,
                offset_ms: 0,
                expected: None,
                enqueue: false,
                title: name,
                subtitle: Some("Radio"@),
                art: None,
                speech: Some("Playing "@ + name + "."@),
            },
            save: false,
        },
    )
}

/// Start a radio station.
pub fn start_radio(
    st: &mut AppState,
    device: &str,
    url: String,
    name: String,
    token: &str,
    now: u128,
) -> (r: Action)
    ensures
        (final(st)@, r@) == radio_started(old(st)@, device@, url@, name@, token@, now),
{
    let source = StreamSource::Radio { url, title: name.clone() };
    st.registry.issue_with(token, device, source, now);
    let mut p = st.take_player(device);
    let queue: Vec<u64> = Vec::new();
    assert(queue@ =~= seq![]);
    p.start_queue(queue);
    p.current_token = Some(owned(token));
    p.current_offset_ms = 0;
    st.put_player(device, p);
    let speech = concat3("Playing ", name.as_str(), ".");
    let plan = PlayPlan {
        token: owned(token),
        offset_ms: 0,
        expected: None,
        enqueue: false,
        title: name,
        subtitle: Some(owned("Radio")),
        art: None,
        speech: Some(speech),
    };
    proof {
        let want = radio_started(old(st)@, device@, url@, name@, token@, now);
        assert(st@.players =~= want.0.players);
        assert(st@ == want.0);
    }
    Action::Play { plan, save: false }
}

// ── Resuming ───────────────────────────────────────────────────────────────

/// The track that a token is bound to, if it is bound to one.
pub open spec fn source_track(s: SourceModel) -> Option<u64> {
    match s {
        SourceModel::File { track_id, .. } => Some(track_id),
        SourceModel::Radio { .. } => None,
    }
}

/// The title of what a token is bound to.
pub open spec fn source_title(s: SourceModel) -> Seq<char> {
    match s {
        SourceModel::File { title, .. } => title,
        SourceModel::Radio { title, .. } => title,
    }
}

/// The artist of what a token is bound to, if one is known.
pub open spec fn source_artist(s: SourceModel) -> Option<Seq<char>> {
    match s {
        SourceModel::File { artist, .. } => if artist.len() > 0 {
            Some(artist)
        } else {
            None
        },
        SourceModel::Radio { .. } => None,
    }
}

/// The player once the stream of a token goes on at an offset. Where player and
/// device have drifted apart, the player follows the token.
pub open spec fn resynced(
    p: PlayerModel,
    s: SourceModel,
    token: Seq<char>,
    offset_ms: u64,
) -> PlayerModel {
    let q = if offset_ms <= i64::MAX {
        p.at_offset(offset_ms as int)
    } else {
        p
    };
    if q.current_token != Some(token) && source_track(s) is Some {
        q.playing(source_track(s)->0, token, offset_ms)
    } else {
        q
    }
}

/// Going on with the stream of a token at an offset. A token whose time is over
/// leads nowhere.
pub open spec fn stream_resumed(
    m: AppModel,
    device: Seq<char>,
    token: Seq<char>,
    offset_ms: u64,
    expected: Option<(Seq<char>, u64)>,
    now: u128,
) -> (AppModel, ActionModel) {
    if !m.registry.dom().contains(token) || m.registry[token].expired(now) {
        (
            AppModel { registry: m.registry.remove(token), ..m },
            action::spoken_reply("That stream has expired. Say play to start again."@),
        )
    } else {
        let s = m.registry[token].source;
        (
            m.with_player(device, resynced(m.player(device), s, token, offset_ms)),
            ActionModel::Play {
                plan: PlanModel {
                    token,
                    offset_ms,
                    expected,
                    enqueue: false,
                    title: source_title(s),
                    subtitle: source_artist(s),
                    art: source_track(s),
                    speech: None,
                },
                save: false,
            },
        )
    }
}

/// Rebuild the same stream (resume/seek): same token, explicit offset.
pub fn resume_stream(
    st: &mut AppState,
    device: &str,
    token: &str,
    offset_ms: u64,
    expected: Option<(&str, u64)>,
    now: u128,
) -> (r: Action)
    ensures
        (final(st)@, r@) == stream_resumed(
            old(st)@,
            device@,
            token@,
            offset_ms,
            response::opt_place(expected),
            now,
        ),
{
    let resolved = match st.registry.resolve(token, now) {
        Some(r) => r,
        None => {
            return say("That stream has expired. Say play to start again.");
        },
    };
    let (title, subtitle, art) = match &resolved.source {
        StreamSource::File { title, artist, track_id, .. } => (
            title.clone(),
            if to_chars(artist.as_str()).len() > 0 {
                Some(artist.clone())
            } else {
                None
            },
            Some(*track_id),
        ),
        StreamSource::Radio { title, .. } => (title.clone(), None, None),
    };
    let mut p = st.take_player(device);
    if offset_ms <= i64::MAX as u64 {
        p.note_offset(offset_ms as i64);
    }
    let same = match &p.current_token {
        Some(t) => same_text(t.as_str(), token),
        None => false,
    };
    if !same {
        // The state and device drifted; resync token binding.
        match art {
            Some(id) => p.set_current(id, owned(token), offset_ms),
            None => {},
        }
    }
    st.put_player(device, p);
    let plan = PlayPlan {
        token: owned(token),
        offset_ms,
        expected: owned_place(expected),
        enqueue: false,
        title,
        subtitle,
        art,
        speech: None,
    };
    proof {
        let want = stream_resumed(
            old(st)@,
            device@,
            token@,
            offset_ms,
            response::opt_place(expected),
            now,
        );
        assert(st@.players =~= want.0.players);
        assert(st@ == want.0);
    }
    Action::Play { plan, save: false }
}

/// An offset that a device reports, never before the start.
pub open spec fn reported_ms(o: Option<i64>) -> u64 {
    match o {
        Some(n) => if n > 0 {
            n as u64
        } else {
            0
        },
        None => 0,
    }
}

fn not_negative(n: i64) -> (r: u64)
    ensures
        r == reported_ms(Some(n)),
{
    if n > 0 {
        n as u64
    } else {
        0
    }
}

/// The stream, and its place, that a device reports to be on.
pub open spec fn reported_place(ap: Option<AudioPlayerContext>) -> Option<(Seq<char>, u64)> {
    match ap {
        Some(a) => match a.token {
            Some(t) => if t@.len() > 0 {
                Some((t@, reported_ms(a.offset_in_milliseconds)))
            } else {
                None
            },
            None => None,
        },
        None => None,
    }
}

/// What an optional reference refers to.
pub open spec fn context_of(ap: Option<&AudioPlayerContext>) -> Option<AudioPlayerContext> {
    match ap {
        Some(a) => Some(*a),
        None => None,
    }
}

/// (token, offset) from AudioPlayer context, for expected* stream fields.
pub fn ap_context_expected<'a>(ap: Option<&'a AudioPlayerContext>) -> (r: Option<(&'a str, u64)>)
    ensures
        response::opt_place(r) == reported_place(context_of(ap)),
{
    match ap {
        Some(a) => match &a.token {
            Some(t) => if to_chars(t.as_str()).len() > 0 {
                let ms: u64 = match a.offset_in_milliseconds {
                    Some(n) => not_negative(n),
                    None => 0,
                };
                Some((t.as_str(), ms))
            } else {
                None
            },
            None => None,
        },
        None => None,
    }
}

/// The device reports to be on the stream that its player is bound to, and at
/// which offset.
pub open spec fn same_stream(m: AppModel, device: Seq<char>, ap: Option<AudioPlayerContext>) -> bool {
    match ap {
        Some(a) => match a.token {
            Some(t) => {
                &&& a.offset_in_milliseconds is Some
                &&& m.players.dom().contains(device)
                &&& m.players[device].current_token == Some(t@)
            },
            None => false,
        },
        None => false,
    }
}

/// The track that "play" goes on with, and where: the current one, else the
/// start of the queue.
pub open spec fn track_to_resume(p: PlayerModel) -> Option<(u64, u64)> {
    if p.current() is Some {
        Some((p.current()->0, p.current_offset_ms))
    } else if p.queue.len() > 0 {
        Some((p.queue[0], 0))
    } else {
        None
    }
}

/// The ids of the playable tracks, shuffled where the device's shuffle mode is
/// on.
pub open spec fn whole_library(m: AppModel, device: Seq<char>, picks: Seq<usize>) -> Seq<u64> {
    let ids = library::ids_where(m.library, library::can_play());
    if m.player(device).shuffle {
        shuffle::shuffled(ids, picks)
    } else {
        ids
    }
}

/// "Play" without a query: go on with the stream the device is on, else with
/// the player's track, else start the whole library.
pub open spec fn played(
    m: AppModel,
    device: Seq<char>,
    ap: Option<AudioPlayerContext>,
    token: Seq<char>,
    picks: Seq<usize>,
    now: u128,
) -> (AppModel, ActionModel) {
    if same_stream(m, device, ap) {
        stream_resumed(
            m,
            device,
            ap->0.token->0@,
            reported_ms(ap->0.offset_in_milliseconds),
            reported_place(ap),
            now,
        )
    } else {
        match track_to_resume(m.player(device)) {
            Some((id, offset_ms)) => file_started(
                m,
                device,
                id,
                offset_ms,
                reported_place(ap),
                token,
                now,
            ),
            None => {
                let ids = whole_library(m, device, picks);
                if ids.len() > 0 {
                    queue_started(m, device, ids, token, now)
                } else {
                    (
                        m,
                        action::spoken_reply(
                            "Your music library is empty. Add MP3 or AAC files to the library folders, then ask me to play."@,
                        ),
                    )
                }
            },
        }
    }
}

fn shuffle_of(st: &AppState, device: &str) -> (r: bool)
    ensures
        r == st@.player(device@).shuffle,
{
    match st.player(device) {
        Some(p) => p.shuffle,
        None => false,
    }
}

/// "Alexa, play" (no query).
pub fn handle_play_noquery(
    st: &mut AppState,
    device: &str,
    ap: Option<&AudioPlayerContext>,
    draws: &Draws,
    now: u128,
) -> (r: Action)
    requires
        action::enough_picks(old(st)@, device@, draws.picks@),
    ensures
        (final(st)@, r@) == played(
            old(st)@,
            device@,
            context_of(ap),
            draws.token@,
            draws.picks@,
            now,
        ),
{
    // Same-token resume (device paused/stopped, user says play).
    match ap {
        Some(a) => match (&a.token, a.offset_in_milliseconds) {
            (Some(tok), Some(off)) => {
                let same = match st.player(device) {
                    Some(p) => match &p.current_token {
                        Some(t) => same_text(t.as_str(), tok.as_str()),
                        None => false,
                    },
                    None => false,
                };
                if same {
                    return resume_stream(
                        st,
                        device,
                        tok.as_str(),
                        not_negative(off),
                        ap_context_expected(ap),
                        now,
                    );
                }
            },
            _ => {},
        },
        None => {},
    }
    let resume: Option<(u64, u64)> = match st.player(device) {
        Some(p) => match p.current() {
            Some(id) => Some((id, p.current_offset_ms)),
            None => if p.queue.len() > 0 {
                Some((p.queue[0], 0))
            } else {
                None
            },
        },
        None => None,
    };
    match resume {
        Some((id, offset_ms)) => {
            return start_file(
                st,
                device,
                id,
                offset_ms,
                ap_context_expected(ap),
                draws.token.as_str(),
                now,
            );
        },
        None => {},
    }
    // Nothing queued: start the whole library.
    let shuffled = shuffle_of(st, device);
    let ids = st.library.all_ids_with(shuffled, &draws.picks);
    if ids.len() > 0 {
        play_queue(st, device, ids, draws.token.as_str(), now)
    } else {
        say(
            "Your music library is empty. Add MP3 or AAC files to the library folders, then ask me to play.",
        )
    }
}

/// What is asked for, in small letters and without white space around it.
pub open spec fn asked_for(query: Option<Seq<char>>) -> Option<Seq<char>> {
    match query {
        Some(q) => if trim::blank(q) {
            None
        } else {
            Some(chars::lowered(trim::trimmed(q)))
        },
        None => None,
    }
}

/// The track is there and can be streamed.
pub open spec fn can_stream(tracks: Seq<TrackModel>, id: u64) -> bool {
    1 <= id <= tracks.len() && tracks[id - 1].playable
}

/// The first hit, from `i` on, that can be streamed.
pub open spec fn first_playable(
    tracks: Seq<TrackModel>,
    hits: Seq<(u64, u32)>,
    i: int,
) -> Option<u64>
    decreases hits.len() - i,
{
    if i < 0 || i >= hits.len() {
        None
    } else if can_stream(tracks, hits[i].0) {
        Some(hits[i].0)
    } else {
        first_playable(tracks, hits, i + 1)
    }
}

/// The best match of a search that can be streamed; where no match can be, the
/// best match.
pub open spec fn best_match(tracks: Seq<TrackModel>, q: Seq<char>) -> Option<u64> {
    let hits = search::all_found(tracks, q);
    match first_playable(tracks, hits, 0) {
        Some(id) => Some(id),
        None => if hits.len() > 0 {
            Some(hits[0].0)
        } else {
            None
        },
    }
}

/// "Play <query>": a radio preset, else an album, an artist or a genre of that
/// name, else the best match of a search.
pub open spec fn music_played(
    m: AppModel,
    device: Seq<char>,
    query: Option<Seq<char>>,
    token: Seq<char>,
    picks: Seq<usize>,
    now: u128,
) -> (AppModel, ActionModel) {
    match asked_for(query) {
        None => played(m, device, None, token, picks, now),
        Some(q) => {
            let album = library::ids_where(m.library, named(NameField::Album, q));
            let artist = library::ids_where(m.library, named(NameField::Artist, q));
            let genre = library::ids_where(m.library, named(NameField::Genre, q));
            match radio::station_of(m.cfg.radio, q) {
                Some((name, url)) => radio_started(m, device, url, name, token, now),
                None => if album.len() > 0 {
                    queue_started(m, device, album, token, now)
                } else if artist.len() > 0 {
                    queue_started(m, device, artist, token, now)
                } else if genre.len() > 0 {
                    queue_started(
                        m,
                        device,
                        if m.player(device).shuffle {
                            shuffle::shuffled(genre, picks)
                        } else {
                            genre
                        },
                        token,
                        now,
                    )
                } else {
                    match best_match(m.library, q) {
                        Some(id) => file_started(m, device, id, 0, None, token, now),
                        None => (
                            m,
                            action::spoken_reply(
                                "Sorry, I couldn't find "@ + q + " in your music library."@,
                            ),
                        ),
                    }
                },
            }
        },
    }
}

/// A query that is short enough to search for.
pub open spec fn query_fits(query: Option<Seq<char>>) -> bool {
    match query {
        Some(q) => q.len() <= search::MAX_QUERY_CHARS,
        None => true,
    }
}

/// The best match of a search that can be streamed; where no match can be, the
/// best match.
pub fn find_match(lib: &Library, q: &str) -> (r: Option<u64>)
    requires
        q@.len() <= search::MAX_QUERY_CHARS,
    ensures
        r == best_match(lib@, q@),
{
    let hits = search(lib, q, lib.len());
    proof {
        search::lemma_found_all(lib@, q@);
    }
    let mut i: usize = 0;
    while i < hits.len()
        invariant
            i <= hits@.len(),
            hits@ == search::all_found(lib@, q@),
            first_playable(lib@, hits@, i as int) == first_playable(lib@, hits@, 0),
        decreases hits@.len() - i,
    {
        let id: u64 = hits[i].0;
        match lib.get(id) {
            Some(t) => {
                if t.playable {
                    return Some(id);
                }
            },
            None => {},
        }
        i = i + 1;
    }
    if hits.len() > 0 {
        Some(hits[0].0)
    } else {
        None
    }
}

/// "Play <query>": song, artist, album, genre, or radio station.
pub fn handle_play_music(
    st: &mut AppState,
    device: &str,
    query: Option<&str>,
    draws: &Draws,
    now: u128,
) -> (r: Action)
    requires
        action::enough_picks(old(st)@, device@, draws.picks@),
        query_fits(chars::opt_str(query)),
    ensures
        (final(st)@, r@) == music_played(
            old(st)@,
            device@,
            chars::opt_str(query),
            draws.token@,
            draws.picks@,
            now,
        ),
{
    let text = match query {
        Some(q) => q,
        None => {
            return handle_play_noquery(st, device, None, draws, now);
        },
    };
    let all = to_chars(text);
    if is_blank(all.as_slice()) {
        return handle_play_noquery(st, device, None, draws, now);
    }
    let low = to_lower(trim::trim(all.as_slice()));
    let q = to_text(low.as_slice());
    proof {
        trim::lemma_trimmed_start(text@, chars::CharClass::White);
        trim::lemma_trimmed_end(
            trim::trimmed_start(text@, chars::CharClass::White),
            chars::CharClass::White,
        );
        assert(q@.len() <= text@.len());
    }
    // 1) Radio preset?
    match match_radio(&st.cfg.radio, q.as_str()) {
        Some((name, url)) => {
            return start_radio(st, device, url, name, draws.token.as_str(), now);
        },
        None => {},
    }
    // 2) Album by name.
    match named_tracks(&st.library, NameField::Album, q.as_str()) {
        Some(ids) => {
            return play_queue(st, device, ids, draws.token.as_str(), now);
        },
        None => {},
    }
    // 3) Artist by name.
    match named_tracks(&st.library, NameField::Artist, q.as_str()) {
        Some(ids) => {
            return play_queue(st, device, ids, draws.token.as_str(), now);
        },
        None => {},
    }
    // 4) Genre by name.
    match named_tracks(&st.library, NameField::Genre, q.as_str()) {
        Some(found) => {
            let mut ids = found;
            if shuffle_of(st, device) {
                proof {
                    library::lemma_ids_where(st@.library, named(NameField::Genre, q@));
                }
                shuffle_with(ids.as_mut_slice(), draws.picks.as_slice());
                proof {
                    shuffle::law_shuffle_is_permutation(found@, draws.picks@);
                }
            }
            return play_queue(st, device, ids, draws.token.as_str(), now);
        },
        None => {},
    }
    // 5) Fuzzy search.
    match find_match(&st.library, q.as_str()) {
        Some(id) => start_file(st, device, id, 0, None, draws.token.as_str(), now),
        None => {
            let text = concat3("Sorry, I couldn't find ", q.as_str(), " in your music library.");
            say(text.as_str())
        },
    }
}

// ── Moving through the queue ───────────────────────────────────────────────

/// The current track is over: the player moves forward and the next track
/// starts. `at_end` is said where there is none.
pub open spec fn moved_forward(
    m: AppModel,
    device: Seq<char>,
    ap: Option<AudioPlayerContext>,
    at_end: Seq<char>,
    token: Seq<char>,
    now: u128,
) -> (AppModel, ActionModel) {
    let p = m.player(device).finished();
    let n = m.with_player(device, p.advanced());
    match p.next_track() {
        Some(id) => file_started(n, device, id, 0, reported_place(ap), token, now),
        None => (n, action::spoken_reply(at_end)),
    }
}

fn move_forward(
    st: &mut AppState,
    device: &str,
    ap: Option<&AudioPlayerContext>,
    at_end: &str,
    token: &str,
    now: u128,
) -> (r: Action)
    requires
        old(st)@.player(device@).can_advance(),
    ensures
        (final(st)@, r@) == moved_forward(
            old(st)@,
            device@,
            context_of(ap),
            at_end@,
            token@,
            now,
        ),
{
    let mut p = st.take_player(device);
    p.note_finished();
    let next = p.advance();
    st.put_player(device, p);
    assert(st@.players =~= old(st)@.players.insert(device@, p@));
    match next {
        Some(id) => start_file(st, device, id, 0, ap_context_expected(ap), token, now),
        None => say(at_end),
    }
}

/// "Next."
pub fn handle_next(
    st: &mut AppState,
    device: &str,
    ap: Option<&AudioPlayerContext>,
    token: &str,
    now: u128,
) -> (r: Action)
    requires
        old(st)@.player(device@).can_advance(),
    ensures
        (final(st)@, r@) == moved_forward(
            old(st)@,
            device@,
            context_of(ap),
            "That was the last one in the queue."@,
            token@,
            now,
        ),
{
    move_forward(st, device, ap, "That was the last one in the queue.", token, now)
}

/// What is said when a queue is over.
pub open spec fn queue_over(failed: bool) -> Seq<char> {
    if failed {
        "Playback failed and the queue is empty."@
    } else {
        "That was the last one in the queue."@
    }
}

/// The stream of an action waits behind the one that is playing.
pub open spec fn preloaded(a: ActionModel) -> ActionModel {
    match a {
        ActionModel::Play { plan, save } => ActionModel::Play {
            plan: PlanModel { enqueue: true, ..plan },
            save,
        },
        _ => a,
    }
}

/// A device reports that the current track is nearly finished, or that it is
/// finished or has failed: the player moves forward and the next stream is handed
/// over. At a nearly finished track it is preloaded, so that there is no dead air
/// between the two.
pub open spec fn report_handled(
    m: AppModel,
    device: Seq<char>,
    ap: Option<AudioPlayerContext>,
    nearly: bool,
    token: Seq<char>,
    now: u128,
) -> (AppModel, ActionModel) {
    let (n, a) = moved_forward(m, device, ap, queue_over(!nearly), token, now);
    (
        n,
        if nearly {
            preloaded(a)
        } else {
            a
        },
    )
}

/// Device signalled the current track nearly finished / finished / failed:
/// advance the queue and hand over the next stream.
pub fn handle_advance(
    st: &mut AppState,
    device: &str,
    ap: Option<&AudioPlayerContext>,
    failed: bool,
    token: &str,
    now: u128,
) -> (r: Action)
    requires
        old(st)@.player(device@).can_advance(),
    ensures
        (final(st)@, r@) == report_handled(
            old(st)@,
            device@,
            context_of(ap),
            !failed,
            token@,
            now,
        ),
{
    if failed {
        return move_forward(
            st,
            device,
            ap,
            "Playback failed and the queue is empty.",
            token,
            now,
        );
    }
    match move_forward(st, device, ap, "That was the last one in the queue.", token, now) {
        Action::Play { plan, save } => {
            let mut next = plan;
            next.enqueue = true;
            Action::Play { plan: next, save }
        },
        other => other,
    }
}

/// "Previous": the player moves back and that track starts.
pub open spec fn moved_back(
    m: AppModel,
    device: Seq<char>,
    ap: Option<AudioPlayerContext>,
    token: Seq<char>,
    now: u128,
) -> (AppModel, ActionModel) {
    let p = m.player(device);
    let n = m.with_player(device, p.gone_back());
    match p.previous_track() {
        Some(id) => file_started(n, device, id, 0, reported_place(ap), token, now),
        None => (n, action::spoken_reply("Nothing is playing."@)),
    }
}

/// "Previous."
pub fn handle_previous(
    st: &mut AppState,
    device: &str,
    ap: Option<&AudioPlayerContext>,
    token: &str,
    now: u128,
) -> (r: Action)
    ensures
        (final(st)@, r@) == moved_back(old(st)@, device@, context_of(ap), token@, now),
{
    let mut p = st.take_player(device);
    let prev = p.go_back();
    st.put_player(device, p);
    assert(st@.players =~= old(st)@.players.insert(device@, p@));
    match prev {
        Some(id) => start_file(st, device, id, 0, ap_context_expected(ap), token, now),
        None => say("Nothing is playing."),
    }
}

/// The token that the player of a device is bound to, unless it is empty.
pub open spec fn bound_token(m: AppModel, device: Seq<char>) -> Option<Seq<char>> {
    match m.player(device).current_token {
        Some(t) => if t.len() > 0 {
            Some(t)
        } else {
            None
        },
        None => None,
    }
}

/// "Resume" at an offset: go on with the player's stream, else play.
pub open spec fn resumed(
    m: AppModel,
    device: Seq<char>,
    offset_ms: int,
    token: Seq<char>,
    picks: Seq<usize>,
    now: u128,
) -> (AppModel, ActionModel) {
    match bound_token(m, device) {
        Some(t) => stream_resumed(
            m,
            device,
            t,
            if offset_ms > 0 {
                offset_ms as u64
            } else {
                0
            },
            None,
            now,
        ),
        None => played(m, device, None, token, picks, now),
    }
}

/// "Resume."
pub fn handle_resume(
    st: &mut AppState,
    device: &str,
    offset_ms: i64,
    draws: &Draws,
    now: u128,
) -> (r: Action)
    requires
        action::enough_picks(old(st)@, device@, draws.picks@),
    ensures
        (final(st)@, r@) == resumed(
            old(st)@,
            device@,
            offset_ms as int,
            draws.token@,
            draws.picks@,
            now,
        ),
{
    let bound = match st.player(device) {
        Some(p) => match &p.current_token {
            Some(t) => if to_chars(t.as_str()).len() > 0 {
                Some(t.clone())
            } else {
                None
            },
            None => None,
        },
        None => None,
    };
    match bound {
        Some(t) => resume_stream(st, device, t.as_str(), not_negative(offset_ms), None, now),
        None => handle_play_noquery(st, device, None, draws, now),
    }
}

/// "Stop": the current track counts as finished, and the player is bound to no
/// stream.
pub open spec fn device_stopped(m: AppModel, device: Seq<char>) -> AppModel {
    m.with_player(device, m.player(device).finished().stopped())
}

/// Stop the player of a device.
pub fn stop_device(st: &mut AppState, device: &str)
    ensures
        final(st)@ == device_stopped(old(st)@, device@),
{
    let mut p = st.take_player(device);
    p.note_finished();
    p.stop();
    st.put_player(device, p);
    assert(st@.players =~= old(st)@.players.insert(device@, p@));
}

/// Record where the stream of a device stands; a negative offset is ignored.
pub fn note_offset(st: &mut AppState, device: &str, offset_ms: i64)
    ensures
        final(st)@ == old(st)@.with_player(
            device@,
            old(st)@.player(device@).at_offset(offset_ms as int),
        ),
{
    let mut p = st.take_player(device);
    p.note_offset(offset_ms);
    st.put_player(device, p);
    assert(st@.players =~= old(st)@.players.insert(device@, p@));
}

/// The state once a device reports that it plays: the player follows the report.
pub open spec fn playback_started(
    m: AppModel,
    device: Seq<char>,
    ap: Option<AudioPlayerContext>,
) -> AppModel {
    match ap {
        Some(a) => match (a.token, a.offset_in_milliseconds) {
            (Some(t), Some(o)) => m.with_player(
                device,
                PlayerModel {
                    current_token: Some(t@),
                    current_offset_ms: reported_ms(Some(o)),
                    ..m.player(device)
                },
            ),
            _ => m,
        },
        None => m,
    }
}

/// The device reports that it plays.
pub fn handle_playback_started(
    st: &mut AppState,
    device: &str,
    ap: Option<&AudioPlayerContext>,
) -> (r: Action)
    ensures
        final(st)@ == playback_started(old(st)@, device@, context_of(ap)),
        r@ == (ActionModel::Reply { response: response::silent(), save: true }),
{
    match ap {
        Some(a) => match (&a.token, a.offset_in_milliseconds) {
            (Some(tok), Some(off)) => {
                let mut p = st.take_player(device);
                p.current_token = Some(tok.clone());
                p.current_offset_ms = not_negative(off);
                st.put_player(device, p);
                assert(st@.players =~= old(st)@.players.insert(device@, p@));
            },
            _ => {},
        },
        None => {},
    }
    Action::Reply { response: Response::empty(), save: true }
}

// ── Modes and seeking ──────────────────────────────────────────────────────

/// "Shuffle": the mode is switched; switched on, it shuffles what follows.
pub open spec fn shuffle_toggled(
    m: AppModel,
    device: Seq<char>,
    picks: Seq<usize>,
) -> (AppModel, ActionModel) {
    let p = m.player(device);
    let q = PlayerModel { shuffle: !p.shuffle, ..p };
    (
        m.with_player(device, q.reshuffled(picks)),
        action::spoken_reply(
            if q.shuffle {
                "Shuffle on."@
            } else {
                "Shuffle off."@
            },
        ),
    )
}

/// "Shuffle."
pub fn handle_shuffle(st: &mut AppState, device: &str, draws: &Draws) -> (r: Action)
    requires
        old(st)@.player(device@).shuffle || old(st)@.player(device@).can_reshuffle(),
        action::enough_picks(old(st)@, device@, draws.picks@),
    ensures
        (final(st)@, r@) == shuffle_toggled(old(st)@, device@, draws.picks@),
{
    let mut p = st.take_player(device);
    let on = !p.shuffle;
    p.shuffle = on;
    if on {
        p.shuffle_remaining_with(&draws.picks);
    }
    st.put_player(device, p);
    assert(st@.players =~= old(st)@.players.insert(device@, p@));
    if on {
        say("Shuffle on.")
    } else {
        say("Shuffle off.")
    }
}

/// Set the repeat mode of a device.
pub fn set_repeat(st: &mut AppState, device: &str, repeat: Repeat, msg: &str) -> (r: Action)
    ensures
        final(st)@ == old(st)@.with_player(
            device@,
            PlayerModel { repeat, ..old(st)@.player(device@) },
        ),
        r@ == action::spoken_reply(msg@),
{
    let mut p = st.take_player(device);
    p.repeat = repeat;
    st.put_player(device, p);
    assert(st@.players =~= old(st)@.players.insert(device@, p@));
    say(msg)
}

/// The offset that a jump in a track leads to: one past the end leads to the
/// start.
pub open spec fn seek_offset(m: AppModel, id: u64, off: int) -> u64 {
    if 1 <= id <= m.library.len() && off >= m.library[id - 1].duration_ms {
        0
    } else {
        off as u64
    }
}

/// "Jump to": the current track starts anew at the offset.
pub open spec fn sought(
    m: AppModel,
    device: Seq<char>,
    offset_ms: Option<int>,
    token: Seq<char>,
    now: u128,
) -> (AppModel, ActionModel) {
    match offset_ms {
        None => (
            m,
            action::spoken_reply(
                "I couldn't understand that time. Try jump to 2 minutes 30 seconds."@,
            ),
        ),
        Some(off) => if off < 0 {
            (m, action::spoken_reply("I can only seek forward."@))
        } else {
            match m.player(device).current() {
                None => (m, action::spoken_reply("Nothing is playing."@)),
                Some(id) => file_started(
                    m,
                    device,
                    id,
                    seek_offset(m, id, off),
                    None,
                    token,
                    now,
                ),
            }
        },
    }
}

/// "Jump to."
pub fn handle_seek(
    st: &mut AppState,
    device: &str,
    offset_ms: Option<i64>,
    token: &str,
    now: u128,
) -> (r: Action)
    ensures
        (final(st)@, r@) == sought(
            old(st)@,
            device@,
            match offset_ms {
                Some(n) => Some(n as int),
                None => None,
            },
            token@,
            now,
        ),
{
    let off: i64 = match offset_ms {
        Some(n) => n,
        None => {
            return say("I couldn't understand that time. Try jump to 2 minutes 30 seconds.");
        },
    };
    if off < 0 {
        return say("I can only seek forward.");
    }
    let current = match st.player(device) {
        Some(p) => p.current(),
        None => None,
    };
    let id: u64 = match current {
        Some(id) => id,
        None => {
            return say("Nothing is playing.");
        },
    };
    let past_end = match st.library.get(id) {
        Some(t) => off as u64 >= t.duration_ms,
        None => false,
    };
    let at: u64 = if past_end {
        0
    } else {
        off as u64
    };
    start_file(st, device, id, at, None, token, now)
}

} // verus!
