//! The entry point for every request from Amazon.

use vstd::prelude::*;

use crate::alexa::intent::IntentKind;
use crate::alexa::intent::IntentModel;
use crate::alexa::intent;
use crate::alexa::request::AudioPlayerContext;
use crate::alexa::request::Envelope;
use crate::alexa::response::Response;
use crate::alexa::response::ResponseBuilder;
use crate::alexa::response;
use crate::audio::player::PlayerModel;
use crate::audio::player::Repeat;
use crate::audio::player;
use crate::audio::registry;
use crate::audio::search;
use crate::audio::shuffle;
use crate::router::action::Action;
use crate::router::action::ActionModel;
use crate::router::action::Draws;
use crate::router::action::draw;
use crate::router::action::say;
use crate::router::action;
use crate::router::play::handle_advance;
use crate::router::play::handle_next;
use crate::router::play::handle_play_music;
use crate::router::play::handle_play_noquery;
use crate::router::play::handle_playback_started;
use crate::router::play::handle_previous;
use crate::router::play::handle_resume;
use crate::router::play::handle_seek;
use crate::router::play::handle_shuffle;
use crate::router::play::note_offset;
use crate::router::play::set_repeat;
use crate::router::play::stop_device;
use crate::router::play;
use crate::router::turn::handle_agent_turn;
use crate::router::turn;
use crate::state::AppModel;
use crate::state::AppState;
use crate::text::chars::borrow_opt;
use crate::text::chars::to_chars;

verus! {

broadcast use {vstd::seq::group_seq_axioms, vstd::slice::group_slice_axioms};

/// The device that a request counts for.
pub open spec fn request_device(env: Envelope) -> Seq<char> {
    match env.device() {
        Some(d) => d,
        None => "unknown-device"@,
    }
}

/// The state with the repeat mode of a device set.
pub open spec fn with_repeat(m: AppModel, device: Seq<char>, repeat: Repeat) -> AppModel {
    m.with_player(device, PlayerModel { repeat, ..m.player(device) })
}

/// What an intent does: the state after it, and what to do.
pub open spec fn intent_handled(
    m: AppModel,
    device: Seq<char>,
    kind: IntentModel,
    ap: Option<AudioPlayerContext>,
    token: Seq<char>,
    picks: Seq<usize>,
    now: u128,
) -> (AppModel, ActionModel) {
    match kind {
        IntentModel::Launch => (
            m,
            action::spoken_reply("Aria is ready. Say play some music, or ask me anything."@),
        ),
        IntentModel::SessionEnded | IntentModel::SystemRequest => (
            m,
            ActionModel::Reply { response: response::silent(), save: true },
        ),
        IntentModel::Help => (
            m,
            action::spoken_reply(
                "You can say: play a song, album, artist, or genre. Play radio plus a station name. Play, pause, stop, next, previous, or jump to a time. Shuffle, repeat this song, or repeat all. And you can just ask me a question — ZeroClaw will answer."@,
            ),
        ),
        IntentModel::Cancel => (m, action::spoken_reply("Okay, bye."@)),
        IntentModel::PlayMusic { query } => play::music_played(m, device, query, token, picks, now),
        IntentModel::Play => play::played(m, device, ap, token, picks, now),
        IntentModel::Pause => (
            m,
            ActionModel::Reply {
                response: response::built(
                    response::ending(
                        response::directing(
                            response::saying(response::empty_body(), "Paused."@),
                            response::bare_directive("AudioPlayer.Pause"@),
                        ),
                    ),
                ),
                save: true,
            },
        ),
        IntentModel::Stop => (
            play::device_stopped(m, device),
            ActionModel::Reply {
                response: response::built(
                    response::ending(
                        response::directing(
                            response::saying(response::empty_body(), "Stopped."@),
                            response::bare_directive("AudioPlayer.Stop"@),
                        ),
                    ),
                ),
                save: false,
            },
        ),
        IntentModel::Next => play::moved_forward(
            m,
            device,
            ap,
            "That was the last one in the queue."@,
            token,
            now,
        ),
        IntentModel::Previous => play::moved_back(m, device, ap, token, now),
        IntentModel::Resume { offset_ms } => play::resumed(m, device, offset_ms, token, picks, now),
        IntentModel::PlaybackStarted => (
            play::playback_started(m, device, ap),
            ActionModel::Reply { response: response::silent(), save: true },
        ),
        IntentModel::PlaybackStopped => (
            match ap {
                Some(a) => match a.offset_in_milliseconds {
                    Some(off) => m.with_player(device, m.player(device).at_offset(off as int)),
                    None => m,
                },
                None => m,
            },
            ActionModel::Reply { response: response::silent(), save: false },
        ),
        IntentModel::PlaybackNearlyFinished => play::report_handled(
            m,
            device,
            ap,
            true,
            token,
            now,
        ),
        IntentModel::PlaybackFinished | IntentModel::PlaybackFailed => play::report_handled(
            m,
            device,
            ap,
            false,
            token,
            now,
        ),
        IntentModel::ToggleShuffle => play::shuffle_toggled(m, device, picks),
        IntentModel::RepeatOne => (
            with_repeat(m, device, Repeat::One),
            action::spoken_reply("Repeating this song."@),
        ),
        IntentModel::RepeatAll => (
            with_repeat(m, device, Repeat::All),
            action::spoken_reply("Repeating the whole queue."@),
        ),
        IntentModel::RepeatOff => (
            with_repeat(m, device, Repeat::Off),
            action::spoken_reply("Repeat off."@),
        ),
        IntentModel::Seek { offset_ms } => play::sought(m, device, offset_ms, token, now),
        IntentModel::Ask { utterance } => turn::agent_turn(m, device, utterance, now),
        IntentModel::Fallback { utterance } => match utterance {
            Some(u) => turn::agent_turn(m, device, u, now),
            None => (
                m,
                action::spoken_reply(
                    "I didn't catch that. Say ask aria plus your question, or play some music."@,
                ),
            ),
        },
        IntentModel::Unknown { .. } => (
            m,
            action::spoken_reply(
                "I can play music or answer questions. Try play some music, or ask me something."@,
            ),
        ),
    }
}

/// The intent stays within machine limits: what it asks to play can be searched
/// for, and a step forward or a shuffle finds the player at a place that allows
/// it. Only a player restored from a damaged file can stand elsewhere.
pub open spec fn manageable(m: AppModel, device: Seq<char>, kind: IntentModel) -> bool {
    let p = m.player(device);
    match kind {
        IntentModel::PlayMusic { query } => play::query_fits(query),
        IntentModel::Next
        | IntentModel::PlaybackNearlyFinished
        | IntentModel::PlaybackFinished
        | IntentModel::PlaybackFailed => p.can_advance(),
        IntentModel::ToggleShuffle => p.shuffle || p.can_reshuffle(),
        _ => true,
    }
}

/// The request can be read, and its intent stays within machine limits.
pub open spec fn answerable(m: AppModel, env: Envelope) -> bool {
    &&& intent::classifiable(env)
    &&& manageable(m, request_device(env), intent::intent_of(env))
}

/// What a request does: the state after it, and what to do.
pub open spec fn request_handled(
    m: AppModel,
    env: Envelope,
    token: Seq<char>,
    picks: Seq<usize>,
    now: u128,
) -> (AppModel, ActionModel) {
    intent_handled(
        m,
        request_device(env),
        intent::intent_of(env),
        env.player(),
        token,
        picks,
        now,
    )
}

/// Whether a request can be read, and its intent stays within machine limits.
pub fn can_answer(st: &AppState, env: &Envelope) -> (r: bool)
    ensures
        r == answerable(st@, *env),
{
    if !IntentKind::can_classify(env) {
        return false;
    }
    let player = st.player(device_of(env));
    match IntentKind::from_envelope(env) {
        IntentKind::PlayMusic { query } => match query {
            Some(q) => to_chars(q.as_str()).len() <= search::MAX_QUERY_CHARS,
            None => true,
        },
        IntentKind::Next
        | IntentKind::PlaybackNearlyFinished
        | IntentKind::PlaybackFinished
        | IntentKind::PlaybackFailed => match player {
            Some(p) => p.may_advance(),
            None => true,
        },
        IntentKind::ToggleShuffle => match player {
            Some(p) => p.shuffle || p.may_reshuffle(),
            None => true,
        },
        _ => true,
    }
}

/// What to do for an intent, with the given random choices.
#[verifier::rlimit(60)]
pub fn handle_intent(
    st: &mut AppState,
    device: &str,
    kind: &IntentKind,
    ap: Option<&AudioPlayerContext>,
    draws: &Draws,
    now: u128,
) -> (r: Action)
    requires
        manageable(old(st)@, device@, kind@),
        action::enough_picks(old(st)@, device@, draws.picks@),
    ensures
        (final(st)@, r@) == intent_handled(
            old(st)@,
            device@,
            kind@,
            play::context_of(ap),
            draws.token@,
            draws.picks@,
            now,
        ),
{
    let token = draws.token.as_str();
    match kind {
        IntentKind::Launch => say("Aria is ready. Say play some music, or ask me anything."),
        IntentKind::SessionEnded | IntentKind::SystemRequest => {
            // Persist on the way out.
            Action::Reply { response: Response::empty(), save: true }
        },
        IntentKind::Help => say(
            "You can say: play a song, album, artist, or genre. Play radio plus a station name. Play, pause, stop, next, previous, or jump to a time. Shuffle, repeat this song, or repeat all. And you can just ask me a question — ZeroClaw will answer.",
        ),
        IntentKind::Cancel => say("Okay, bye."),
        IntentKind::PlayMusic { query } => handle_play_music(
            st,
            device,
            borrow_opt(query),
            draws,
            now,
        ),
        IntentKind::Play => handle_play_noquery(st, device, ap, draws, now),
        IntentKind::Pause => {
            let mut b = ResponseBuilder::new();
            b.say("Paused.");
            b.pause_audio();
            b.end_session();
            Action::Reply { response: b.build(), save: true }
        },
        IntentKind::Stop => {
            stop_device(st, device);
            let mut b = ResponseBuilder::new();
            b.say("Stopped.");
            b.stop_audio();
            b.end_session();
            Action::Reply { response: b.build(), save: false }
        },
        IntentKind::Next => handle_next(st, device, ap, token, now),
        IntentKind::Previous => handle_previous(st, device, ap, token, now),
        IntentKind::Resume { offset_ms } => handle_resume(st, device, *offset_ms, draws, now),
        IntentKind::PlaybackStarted => handle_playback_started(st, device, ap),
        IntentKind::PlaybackStopped => {
            match ap {
                Some(a) => match a.offset_in_milliseconds {
                    Some(off) => note_offset(st, device, off),
                    None => {},
                },
                None => {},
            }
            Action::Reply { response: Response::empty(), save: false }
        },
        IntentKind::PlaybackNearlyFinished => handle_advance(st, device, ap, false, token, now),
        IntentKind::PlaybackFinished => handle_advance(st, device, ap, true, token, now),
        IntentKind::PlaybackFailed => handle_advance(st, device, ap, true, token, now),
        IntentKind::ToggleShuffle => handle_shuffle(st, device, draws),
        IntentKind::RepeatOne => set_repeat(st, device, Repeat::One, "Repeating this song."),
        IntentKind::RepeatAll => set_repeat(st, device, Repeat::All, "Repeating the whole queue."),
        IntentKind::RepeatOff => set_repeat(st, device, Repeat::Off, "Repeat off."),
        IntentKind::Seek { offset_ms } => handle_seek(st, device, *offset_ms, token, now),
        IntentKind::Ask { utterance } => handle_agent_turn(st, device, utterance.as_str(), now),
        IntentKind::Fallback { utterance } => match utterance {
            Some(u) => handle_agent_turn(st, device, u.as_str(), now),
            None => say("I didn't catch that. Say ask aria plus your question, or play some music."),
        },
        IntentKind::Unknown { .. } => say(
            "I can play music or answer questions. Try play some music, or ask me something.",
        ),
    }
}

/// The device that a request counts for.
pub fn device_of(env: &Envelope) -> (r: &str)
    ensures
        r@ == request_device(*env),
{
    match env.device_id() {
        Some(d) => d,
        None => "unknown-device",
    }
}

/// What to do for a request, with the given random choices.
pub fn handle_alexa_with(st: &mut AppState, env: &Envelope, draws: &Draws, now: u128) -> (r: Action)
    requires
        answerable(old(st)@, *env),
        action::enough_picks(old(st)@, request_device(*env), draws.picks@),
    ensures
        (final(st)@, r@) == request_handled(old(st)@, *env, draws.token@, draws.picks@, now),
        old(st)@.well_formed() ==> final(st)@.well_formed(),
{
    proof {
        if st@.well_formed() {
            law_requests_keep_players_well_formed(
                st@,
                request_device(*env),
                intent::intent_of(*env),
                env.player(),
                draws.token@,
                draws.picks@,
                now,
            );
        }
    }
    let kind = IntentKind::from_envelope(env);
    handle_intent(st, device_of(env), &kind, env.audio_player(), draws, now)
}

/// Entry point for every request from Amazon.
pub fn handle_alexa(st: &mut AppState, env: &Envelope, now: u128) -> (r: Action)
    requires
        answerable(old(st)@, *env),
    ensures
        exists|token: Seq<char>, picks: Seq<usize>|
            {
                &&& registry::is_issued(token)
                &&& action::enough_picks(old(st)@, request_device(*env), picks)
                &&& (final(st)@, r@) == #[trigger] request_handled(
                    old(st)@,
                    *env,
                    token,
                    picks,
                    now,
                )
            },
        old(st)@.well_formed() ==> final(st)@.well_formed(),
{
    let draws = draw(st, device_of(env));
    let r = handle_alexa_with(st, env, &draws, now);
    assert((st@, r@) == request_handled(old(st)@, *env, draws.token@, draws.picks@, now));
    r
}

// ── Laws ───────────────────────────────────────────────────────────────────

proof fn lemma_player_well_formed(m: AppModel, device: Seq<char>)
    requires
        m.well_formed(),
    ensures
        m.player(device).well_formed(),
{
    player::law_fresh_player();
}

proof fn lemma_with_player(m: AppModel, device: Seq<char>, p: PlayerModel)
    requires
        m.well_formed(),
        p.well_formed(),
    ensures
        m.with_player(device, p).well_formed(),
{
}

proof fn lemma_file_started(
    m: AppModel,
    device: Seq<char>,
    id: u64,
    offset_ms: u64,
    expected: Option<(Seq<char>, u64)>,
    token: Seq<char>,
    now: u128,
)
    requires
        m.well_formed(),
    ensures
        play::file_started(m, device, id, offset_ms, expected, token, now).0.well_formed(),
{
    let p = m.player(device);
    lemma_player_well_formed(m, device);
    player::law_operations_keep_well_formed(p, seq![], id, token, offset_ms, 0);
    player::law_operations_keep_well_formed(p.finished(), seq![], id, token, offset_ms, 0);
    lemma_with_player(m, device, play::moved_on(p, id, token, offset_ms));
}

proof fn lemma_queue_started(
    m: AppModel,
    device: Seq<char>,
    ids: Seq<u64>,
    token: Seq<char>,
    now: u128,
)
    requires
        m.well_formed(),
    ensures
        play::queue_started(m, device, ids, token, now).0.well_formed(),
{
    if ids.len() > 0 {
        lemma_player_well_formed(m, device);
        let n = m.with_player(device, m.player(device).with_queue(ids));
        lemma_with_player(m, device, m.player(device).with_queue(ids));
        lemma_file_started(n, device, ids[0], 0, None, token, now);
    }
}

proof fn lemma_stream_resumed(
    m: AppModel,
    device: Seq<char>,
    token: Seq<char>,
    offset_ms: u64,
    expected: Option<(Seq<char>, u64)>,
    now: u128,
)
    requires
        m.well_formed(),
    ensures
        play::stream_resumed(m, device, token, offset_ms, expected, now).0.well_formed(),
{
    let p = m.player(device);
    lemma_player_well_formed(m, device);
    player::law_operations_keep_well_formed(p, seq![], 0, token, offset_ms, offset_ms as int);
    if m.registry.dom().contains(token) && !m.registry[token].expired(now) {
        let s = m.registry[token].source;
        let q = if offset_ms <= i64::MAX {
            p.at_offset(offset_ms as int)
        } else {
            p
        };
        if play::source_track(s) is Some {
            player::law_operations_keep_well_formed(
                q,
                seq![],
                play::source_track(s)->0,
                token,
                offset_ms,
                0,
            );
        }
        lemma_with_player(m, device, play::resynced(p, s, token, offset_ms));
    }
}

proof fn lemma_played(
    m: AppModel,
    device: Seq<char>,
    ap: Option<AudioPlayerContext>,
    token: Seq<char>,
    picks: Seq<usize>,
    now: u128,
)
    requires
        m.well_formed(),
    ensures
        play::played(m, device, ap, token, picks, now).0.well_formed(),
{
    if play::same_stream(m, device, ap) {
        lemma_stream_resumed(
            m,
            device,
            ap->0.token->0@,
            play::reported_ms(ap->0.offset_in_milliseconds),
            play::reported_place(ap),
            now,
        );
    } else {
        match play::track_to_resume(m.player(device)) {
            Some((id, offset_ms)) => {
                lemma_file_started(
                    m,
                    device,
                    id,
                    offset_ms,
                    play::reported_place(ap),
                    token,
                    now,
                );
            },
            None => {
                lemma_queue_started(m, device, play::whole_library(m, device, picks), token, now);
            },
        }
    }
}

/// Every request keeps every player well formed, whatever the intent.
pub proof fn law_requests_keep_players_well_formed(
    m: AppModel,
    device: Seq<char>,
    kind: IntentModel,
    ap: Option<AudioPlayerContext>,
    token: Seq<char>,
    picks: Seq<usize>,
    now: u128,
)
    requires
        m.well_formed(),
        action::enough_picks(m, device, picks),
    ensures
        intent_handled(m, device, kind, ap, token, picks, now).0.well_formed(),
{
    let p = m.player(device);
    lemma_player_well_formed(m, device);
    player::law_operations_keep_well_formed(p, seq![], 0, token, 0, 0);
    player::law_operations_keep_well_formed(p.finished(), seq![], 0, token, 0, 0);
    match kind {
        IntentModel::PlayMusic { query } => {
            lemma_played(m, device, None, token, picks, now);
            match play::asked_for(query) {
                Some(q) => {
                    let album = crate::audio::library::ids_where(
                        m.library,
                        play::named(play::NameField::Album, q),
                    );
                    let artist = crate::audio::library::ids_where(
                        m.library,
                        play::named(play::NameField::Artist, q),
                    );
                    let genre = crate::audio::library::ids_where(
                        m.library,
                        play::named(play::NameField::Genre, q),
                    );
                    lemma_queue_started(m, device, album, token, now);
                    lemma_queue_started(m, device, artist, token, now);
                    lemma_queue_started(m, device, genre, token, now);
                    lemma_queue_started(
                        m,
                        device,
                        shuffle::shuffled(genre, picks),
                        token,
                        now,
                    );
                    if play::best_match(m.library, q) is Some {
                        lemma_file_started(
                            m,
                            device,
                            play::best_match(m.library, q)->0,
                            0,
                            None,
                            token,
                            now,
                        );
                    }
                    lemma_with_player(
                        m,
                        device,
                        PlayerModel { current_token: Some(token), ..p.with_queue(seq![]) },
                    );
                },
                None => {},
            }
        },
        IntentModel::Play => {
            lemma_played(m, device, ap, token, picks, now);
        },
        IntentModel::Stop => {
            lemma_with_player(m, device, p.finished().stopped());
        },
        IntentModel::Next
        | IntentModel::PlaybackNearlyFinished
        | IntentModel::PlaybackFinished
        | IntentModel::PlaybackFailed => {
            let n = m.with_player(device, p.finished().advanced());
            lemma_with_player(m, device, p.finished().advanced());
            if p.finished().next_track() is Some {
                lemma_file_started(
                    n,
                    device,
                    p.finished().next_track()->0,
                    0,
                    play::reported_place(ap),
                    token,
                    now,
                );
            }
        },
        IntentModel::Previous => {
            let n = m.with_player(device, p.gone_back());
            lemma_with_player(m, device, p.gone_back());
            if p.previous_track() is Some {
                lemma_file_started(
                    n,
                    device,
                    p.previous_track()->0,
                    0,
                    play::reported_place(ap),
                    token,
                    now,
                );
            }
        },
        IntentModel::Resume { offset_ms } => {
            lemma_played(m, device, None, token, picks, now);
            if play::bound_token(m, device) is Some {
                lemma_stream_resumed(
                    m,
                    device,
                    play::bound_token(m, device)->0,
                    if offset_ms > 0 {
                        offset_ms as u64
                    } else {
                        0
                    },
                    None,
                    now,
                );
            }
        },
        IntentModel::ToggleShuffle => {
            let q = PlayerModel { shuffle: !p.shuffle, ..p };
            if q.shuffle && q.queue.len() > 1 {
                player::law_reshuffle_keeps_tracks(q, picks);
            }
            lemma_with_player(m, device, q.reshuffled(picks));
        },
        IntentModel::Seek { offset_ms } => {
            if offset_ms is Some && p.current() is Some {
                lemma_file_started(
                    m,
                    device,
                    p.current()->0,
                    play::seek_offset(m, p.current()->0, offset_ms->0),
                    None,
                    token,
                    now,
                );
            }
        },
        _ => {},
    }
}

} // verus!
