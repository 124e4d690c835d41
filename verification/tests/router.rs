use aria::alexa::intent::IntentKind;
use aria::alexa::request::ApplicationRef;
use aria::alexa::request::AudioPlayerContext;
use aria::alexa::request::Context;
use aria::alexa::request::Device;
use aria::alexa::request::Envelope;
use aria::alexa::request::Intent;
use aria::alexa::request::Request;
use aria::alexa::request::Session;
use aria::alexa::request::Slot;
use aria::alexa::request::SystemContext;
use aria::alexa::response::Response;
use aria::audio::library::FoundFile;
use aria::audio::library::Library;
use aria::audio::library::Meta;
use aria::audio::library::RootListing;
use aria::audio::player::PlayerState;
use aria::audio::player::Repeat;
use aria::audio::registry::looks_like_token;
use aria::audio::registry::TOKEN_TTL_NS;
use aria::config::Config;
use aria::config::RadioConfig;
use aria::json::Json;
use aria::persist::load_state;
use aria::router::action::finish_play;
use aria::router::action::Action;
use aria::router::action::Draws;
use aria::router::action::PlayPlan;
use aria::router::decision::approval_summary;
use aria::router::decision::parse_decision;
use aria::router::decision::truncate_at_word;
use aria::router::dispatch::can_answer;
use aria::router::dispatch::handle_alexa;
use aria::router::dispatch::handle_intent;
use aria::router::play::find_match;
use aria::router::play::start_file;
use aria::router::radio::match_radio;
use aria::router::turn::finish_approval;
use aria::router::turn::finish_turn;
use aria::router::turn::handle_agent_turn;
use aria::state::AppState;
use aria::state::PendingApproval;
use aria::state::NS_PER_SEC;
use aria::stream;
use aria::stream::handle_health;
use aria::stream::handle_stream;
use aria::stream::parse_range_start;
use aria::stream::radio_content_type;
use aria::stream::stream_start;
use aria::stream::StreamTarget;
use aria::string_map::StringMap;
use aria::zeroclaw::client::AgentError;
use aria::zeroclaw::client::AgentEvent;
use aria::zeroclaw::client::ApprovalInfo;
use aria::zeroclaw::client::Decision;
use aria::zeroclaw::client::TurnOutcome;

fn meta(title: &str, artist: &str, album: &str, genre: &str) -> Meta {
    Meta {
        title: title.to_string(),
        artist: artist.to_string(),
        album: album.to_string(),
        genre: genre.to_string(),
        track_no: None,
        duration_ms: 60_000,
        bitrate_kbps: 128,
    }
}

fn file(path: &str, m: Meta) -> FoundFile {
    FoundFile { path: path.to_string(), meta: m }
}

/// Three playable tracks and a fourth that is not.
fn app() -> AppState {
    let lib = Library::scan(&vec![RootListing {
        root: "/m".to_string(),
        is_dir: true,
        files: vec![
            file("/m/a.mp3", meta("Alpha", "Ann", "First", "Rock")),
            file("/m/b.mp3", meta("Beta", "Ann", "Second", "Rock")),
            file("/m/c.mp3", meta("Gamma", "Bob", "Third", "Jazz")),
            file("/m/d.flac", meta("Delta", "Cid", "Fourth", "Jazz")),
        ],
    }])
    .unwrap();
    let mut cfg = Config::default();
    cfg.server.public_base_url = "https://x.example/".into();
    cfg.radio.stations.insert("rock fm".into(), "https://r.example/rock.mp3".into());
    AppState::new(cfg, lib, StringMap::new())
}

fn draws(token: &str) -> Draws {
    Draws { token: token.to_string(), picks: vec![0, 0, 0, 0, 0, 0] }
}

fn act(st: &mut AppState, kind: IntentKind, token: &str, now: u128) -> Action {
    handle_intent(st, "dev", &kind, None, &draws(token), now)
}

fn plan(a: Action) -> PlayPlan {
    match a {
        Action::Play { plan, .. } => plan,
        _ => panic!("nothing played: {a:?}"),
    }
}

fn speech(r: &Response) -> String {
    match &r.response.output_speech {
        Some(s) => s.ssml.clone().unwrap().replace("<speak>", "").replace("</speak>", ""),
        None => String::new(),
    }
}

fn said(a: Action) -> String {
    match a {
        Action::Reply { response, .. } => speech(&response),
        _ => panic!("nothing said: {a:?}"),
    }
}

fn play_music(q: &str) -> IntentKind {
    IntentKind::PlayMusic { query: Some(q.to_string()) }
}

fn envelope(app_id: &str, kind: &str, intent: Option<&str>) -> Envelope {
    Envelope {
        version: "1.0".into(),
        session: Some(Session {
            new: None,
            session_id: None,
            application: Some(ApplicationRef { application_id: Some(app_id.to_string()) }),
            user: None,
            attributes: None,
        }),
        context: Some(Context {
            system: Some(SystemContext {
                device: Some(Device {
                    device_id: Some("dev".to_string()),
                    supported_interfaces: None,
                }),
                application: None,
                user: None,
            }),
            audio_player: None,
        }),
        request: Request {
            request_type: kind.to_string(),
            request_id: None,
            timestamp: None,
            locale: None,
            dialog_state: None,
            intent: intent.map(|n| Intent {
                name: Some(n.to_string()),
                confirmation_status: None,
                slots: StringMap::new(),
            }),
        },
    }
}

fn info(summary: &str, timeout_secs: u64) -> ApprovalInfo {
    ApprovalInfo {
        request_id: "r1".into(),
        tool: "shell".into(),
        summary: summary.to_string(),
        timeout_secs,
    }
}

fn outcome(full: Option<&str>, partial: &str) -> TurnOutcome {
    TurnOutcome {
        full: full.map(|s| s.to_string()),
        partial: partial.to_string(),
        timed_out: full.is_none(),
        awaiting_approval: None,
        cost_bits: None,
    }
}

#[test]
fn decision_phrases() {
    assert_eq!(parse_decision("yes"), Some(Decision::Approve));
    assert_eq!(parse_decision("Yes please"), Some(Decision::Approve));
    assert_eq!(parse_decision("approve"), Some(Decision::Approve));
    assert_eq!(parse_decision("no"), Some(Decision::Deny));
    assert_eq!(parse_decision("no thanks"), Some(Decision::Deny));
    assert_eq!(parse_decision("yes, but always"), Some(Decision::Always));
    assert_eq!(parse_decision("what is the weather"), None);
}

#[test]
fn longer_answers_count_at_their_end() {
    assert_eq!(parse_decision("yes i do think so"), None);
    assert_eq!(parse_decision("oh well then do it please"), Some(Decision::Approve));
    assert_eq!(parse_decision("i would rather say no"), Some(Decision::Deny));
    assert_eq!(parse_decision("no ok"), Some(Decision::Approve));
    assert_eq!(parse_decision(""), None);
}

#[test]
fn radio_matching() {
    let mut radio = RadioConfig::default();
    radio.stations.insert("rock fm".into(), "https://r.example/rock.mp3".into());
    assert_eq!(match_radio(&radio, "rock fm").map(|(n, _)| n), Some("rock fm".into()));
    assert_eq!(match_radio(&radio, "rock").map(|(n, _)| n), Some("rock fm".into()));
    assert_eq!(match_radio(&radio, "play something new"), None);
    assert_eq!(match_radio(&radio, "r"), None);
}

#[test]
fn radio_prefers_exact_names() {
    let mut radio = RadioConfig::default();
    radio.stations.insert("jazz".into(), "u1".into());
    radio.stations.insert("Jazz Club".into(), "u2".into());
    assert_eq!(match_radio(&radio, " jazz "), Some(("jazz".into(), "u1".into())));
    // In the order of names, capitals first.
    assert_eq!(match_radio(&radio, "jaz"), Some(("Jazz Club".into(), "u2".into())));
    assert_eq!(match_radio(&radio, "jazz music please"), Some(("jazz".into(), "u1".into())));
}

#[test]
fn summaries_are_cut_at_words() {
    assert_eq!(approval_summary(&info(" ", 1)), "the shell tool wants to run");
    assert_eq!(approval_summary(&info("ls", 1)), "the shell tool: ls");
    assert_eq!(truncate_at_word("one two three", 9), "one two");
    assert_eq!(truncate_at_word("one two", 7), "one two");
    assert_eq!(truncate_at_word("abcdef", 3), "abc");
}

#[test]
fn plays_albums_artists_genres_and_matches() {
    let mut st = app();
    let p = plan(act(&mut st, play_music(" SECOND "), "t1", 0));
    assert_eq!((p.title.as_str(), p.art, p.subtitle.as_deref()), ("Beta", Some(2), Some("Ann")));
    assert_eq!(p.speech.as_deref(), Some("Playing Beta by Ann."));
    assert_eq!(st.player("dev").unwrap().queue, vec![2]);
    let p = plan(act(&mut st, play_music("ann"), "t2", 0));
    assert_eq!(p.art, Some(1));
    assert_eq!(st.player("dev").unwrap().queue, vec![1, 2]);
    // The genre holds one track that can be streamed.
    let p = plan(act(&mut st, play_music("jazz"), "t3", 0));
    assert_eq!(p.art, Some(3));
    assert_eq!(st.player("dev").unwrap().queue, vec![3]);
    let p = plan(act(&mut st, play_music("alpha ann"), "t4", 0));
    assert_eq!(p.art, Some(1));
    assert_eq!(
        said(act(&mut st, play_music("Delta"), "t5", 0)),
        "That file is not in a format Echo can stream. MP3 and AAC work."
    );
    assert_eq!(
        said(act(&mut st, play_music("Nothing Here"), "t6", 0)),
        "Sorry, I couldn't find nothing here in your music library."
    );
}

#[test]
fn shuffled_genre_follows_the_choices() {
    let mut st = app();
    // "rock" would name the radio preset.
    st.cfg.radio = RadioConfig::default();
    assert_eq!(said(act(&mut st, IntentKind::ToggleShuffle, "t", 0)), "Shuffle on.");
    let p = plan(act(&mut st, play_music("rock"), "t", 0));
    assert_eq!(p.art, Some(2));
    assert_eq!(st.player("dev").unwrap().queue, vec![2, 1]);
    assert_eq!(said(act(&mut st, IntentKind::ToggleShuffle, "t", 0)), "Shuffle off.");
    assert_eq!(st.player("dev").unwrap().queue, vec![2, 1]);
}

#[test]
fn radio_drops_the_queue() {
    let mut st = app();
    act(&mut st, play_music("ann"), "t1", 0);
    let p = plan(act(&mut st, play_music("rock"), "t2", 5));
    assert_eq!((p.title.as_str(), p.subtitle.as_deref(), p.art), ("rock fm", Some("Radio"), None));
    assert_eq!(p.speech.as_deref(), Some("Playing rock fm."));
    let player = st.player("dev").unwrap();
    assert!(player.queue.is_empty());
    assert_eq!(player.current_token.as_deref(), Some("t2"));
    let r = st.registry.resolve("t2", 5).unwrap();
    assert_eq!(r.device, "dev");
}

#[test]
fn next_previous_and_end_of_queue() {
    let mut st = app();
    act(&mut st, play_music("ann"), "t1", 0);
    assert_eq!(plan(act(&mut st, IntentKind::Next, "t2", 0)).art, Some(2));
    assert_eq!(plan(act(&mut st, IntentKind::Previous, "t3", 0)).art, Some(1));
    assert_eq!(plan(act(&mut st, IntentKind::Next, "t4", 0)).art, Some(2));
    assert_eq!(
        said(act(&mut st, IntentKind::Next, "t5", 0)),
        "That was the last one in the queue."
    );
    assert_eq!(
        said(act(&mut st, IntentKind::PlaybackNearlyFinished, "t5", 0)),
        "That was the last one in the queue."
    );
    assert_eq!(
        said(act(&mut st, IntentKind::PlaybackFailed, "t5", 0)),
        "Playback failed and the queue is empty."
    );
    assert_eq!(said(act(&mut st, IntentKind::RepeatAll, "t", 0)), "Repeating the whole queue.");
    assert_eq!(plan(act(&mut st, IntentKind::PlaybackFinished, "t6", 0)).art, Some(1));
    assert_eq!(said(act(&mut st, IntentKind::RepeatOne, "t", 0)), "Repeating this song.");
    assert_eq!(plan(act(&mut st, IntentKind::Next, "t7", 0)).art, Some(1));
    assert_eq!(said(act(&mut st, IntentKind::RepeatOff, "t", 0)), "Repeat off.");
    assert_eq!(st.player("dev").unwrap().repeat, Repeat::Off);
}

#[test]
fn nothing_to_go_back_to() {
    let mut st = app();
    assert_eq!(said(act(&mut st, IntentKind::Previous, "t", 0)), "Nothing is playing.");
    let seek = |ms| IntentKind::Seek { offset_ms: ms };
    assert_eq!(said(act(&mut st, seek(Some(5)), "t", 0)), "Nothing is playing.");
    assert_eq!(said(act(&mut st, seek(Some(-5)), "t", 0)), "I can only seek forward.");
    assert_eq!(
        said(act(&mut st, seek(None), "t", 0)),
        "I couldn't understand that time. Try jump to 2 minutes 30 seconds."
    );
}

#[test]
fn seeking_stays_within_the_track() {
    let mut st = app();
    act(&mut st, play_music("ann"), "t1", 0);
    let p = plan(act(&mut st, IntentKind::Seek { offset_ms: Some(59_999) }, "t2", 0));
    assert_eq!((p.art, p.offset_ms), (Some(1), 59_999));
    let p = plan(act(&mut st, IntentKind::Seek { offset_ms: Some(60_000) }, "t3", 0));
    assert_eq!(p.offset_ms, 0);
}

#[test]
fn play_goes_on_with_the_stream() {
    let mut st = app();
    act(&mut st, play_music("ann"), "t1", 0);
    let ap = AudioPlayerContext {
        player_activity: None,
        token: Some("t1".into()),
        offset_in_milliseconds: Some(4321),
    };
    let p = plan(handle_intent(&mut st, "dev", &IntentKind::Play, Some(&ap), &draws("t2"), 9));
    assert_eq!((p.token.as_str(), p.offset_ms, p.speech), ("t1", 4321, None));
    assert_eq!(p.expected, Some(("t1".to_string(), 4321)));
    assert_eq!(st.player("dev").unwrap().current_offset_ms, 4321);
    // Another token: the player's own track starts anew where it stood.
    let other = AudioPlayerContext { token: Some("t9".into()), ..ap.clone() };
    let p = plan(handle_intent(&mut st, "dev", &IntentKind::Play, Some(&other), &draws("t3"), 9));
    assert_eq!((p.token.as_str(), p.offset_ms, p.art), ("t3", 4321, Some(1)));
    assert_eq!(p.expected, Some(("t9".to_string(), 4321)));
    let gone = AudioPlayerContext { token: Some("t3".into()), ..ap };
    let late = 10 + TOKEN_TTL_NS;
    assert_eq!(
        said(handle_intent(&mut st, "dev", &IntentKind::Play, Some(&gone), &draws("t4"), late)),
        "That stream has expired. Say play to start again."
    );
}

#[test]
fn play_starts_the_whole_library() {
    let mut st = app();
    let p = plan(act(&mut st, IntentKind::Play, "t", 0));
    assert_eq!(p.art, Some(1));
    assert_eq!(st.player("dev").unwrap().queue, vec![1, 2, 3]);
    let mut none = AppState::new(Config::default(), Library::empty(), StringMap::new());
    assert_eq!(
        said(act(&mut none, IntentKind::PlayMusic { query: None }, "t", 0)),
        "Your music library is empty. Add MP3 or AAC files to the library folders, then ask me to play."
    );
}

#[test]
fn resume_uses_the_bound_token() {
    let mut st = app();
    act(&mut st, play_music("ann"), "t1", 0);
    let p = plan(act(&mut st, IntentKind::Resume { offset_ms: 77 }, "t2", 0));
    assert_eq!((p.token.as_str(), p.offset_ms), ("t1", 77));
    let stopped = act(&mut st, IntentKind::Stop, "t", 0);
    assert_eq!(said(stopped), "Stopped.");
    assert_eq!(st.player("dev").unwrap().current_token, None);
    let p = plan(act(&mut st, IntentKind::Resume { offset_ms: -1 }, "t3", 0));
    assert_eq!((p.token.as_str(), p.art), ("t3", Some(1)));
}

#[test]
fn reports_update_the_player() {
    let mut st = app();
    act(&mut st, play_music("ann"), "t1", 0);
    let ap = AudioPlayerContext {
        player_activity: None,
        token: Some("tx".into()),
        offset_in_milliseconds: Some(-3),
    };
    let a = handle_intent(&mut st, "dev", &IntentKind::PlaybackStarted, Some(&ap), &draws("t"), 0);
    assert!(matches!(a, Action::Reply { save: true, .. }));
    assert_eq!(st.player("dev").unwrap().current_token.as_deref(), Some("tx"));
    assert_eq!(st.player("dev").unwrap().current_offset_ms, 0);
    let ap = AudioPlayerContext { offset_in_milliseconds: Some(55), ..ap };
    let a = handle_intent(&mut st, "dev", &IntentKind::PlaybackStopped, Some(&ap), &draws("t"), 0);
    assert!(matches!(a, Action::Reply { save: false, .. }));
    assert_eq!(st.player("dev").unwrap().current_offset_ms, 55);
    let a = act(&mut st, IntentKind::Pause, "t", 0);
    match a {
        Action::Reply { response, save } => {
            assert!(save);
            assert_eq!(speech(&response), "Paused.");
            let dirs = response.to_json();
            let dir = dirs.get("response").unwrap().get("directives").unwrap().at(0).unwrap();
            assert_eq!(dir.get("type").unwrap().as_str(), Some("AudioPlayer.Pause"));
        }
        _ => panic!(),
    }
}

#[test]
fn simple_intents_are_answered() {
    let mut st = app();
    assert_eq!(
        said(act(&mut st, IntentKind::Launch, "t", 0)),
        "Aria is ready. Say play some music, or ask me anything."
    );
    assert!(said(act(&mut st, IntentKind::Help, "t", 0)).starts_with("You can say: play a song"));
    assert_eq!(said(act(&mut st, IntentKind::Cancel, "t", 0)), "Okay, bye.");
    assert_eq!(said(act(&mut st, IntentKind::SessionEnded, "t", 0)), "");
    assert_eq!(
        said(act(&mut st, IntentKind::Fallback { utterance: None }, "t", 0)),
        "I didn't catch that. Say ask aria plus your question, or play some music."
    );
    assert_eq!(
        said(act(&mut st, IntentKind::Unknown { name: "X".into() }, "t", 0)),
        "I can play music or answer questions. Try play some music, or ask me something."
    );
}

#[test]
fn plans_become_responses() {
    let mut st = app();
    let p = plan(start_file(&mut st, "dev", 2, 1000, Some(("old", 3)), "tok", 0));
    for has_cover in [true, false] {
        let v = finish_play(&st, &p, has_cover).to_json();
        let dir = v.get("response").unwrap().get("directives").unwrap().at(0).unwrap();
        assert_eq!(dir.get("playBehavior").unwrap().as_str(), Some("REPLACE_ALL"));
        let item = dir.get("audioItem").unwrap();
        let stream = item.get("stream").unwrap();
        assert_eq!(stream.get("url").unwrap().as_str(), Some("https://x.example/stream/tok"));
        assert_eq!(stream.get("expectedPreviousToken").unwrap().as_str(), Some("old"));
        assert!(matches!(stream.get("offsetInMilliseconds"), Some(Json::Number(1000))));
        let art = item.get("metadata").unwrap().get("art");
        assert_eq!(art.is_some(), has_cover);
        if let Some(a) = art {
            assert_eq!(
                a.get("sources").unwrap().at(0).unwrap().get("url").unwrap().as_str(),
                Some("https://x.example/art/2")
            );
        }
    }
    assert_eq!(said(start_file(&mut st, "dev", 9, 0, None, "t", 0)), "I couldn't find that track.");
}

#[test]
fn agent_is_asked_and_late_reply_goes_first() {
    let mut st = app();
    st.fold_event(AgentEvent::LateReply { device: "dev".into(), text: " ".into() }, 0);
    assert!(st.take_cached_reply("dev").is_none());
    st.fold_event(AgentEvent::LateReply { device: "dev".into(), text: "By the way.".into() }, 0);
    let cached = match act(&mut st, IntentKind::Ask { utterance: "hi".into() }, "t", 0) {
        Action::Ask { utterance, cached } => {
            assert_eq!(utterance, "hi");
            cached
        }
        _ => panic!(),
    };
    let r = finish_turn(&mut st, "dev", cached.as_deref(), Ok(outcome(Some("Hello."), "")), 0);
    assert_eq!(speech(&r), "By the way. Hello.");
    assert!(matches!(
        handle_agent_turn(&mut st, "dev", "again", 0),
        Action::Ask { cached: None, .. }
    ));
}

#[test]
fn outcomes_are_spoken() {
    let mut st = app();
    let mut say = |r| speech(&finish_turn(&mut st, "dev", None, r, 0));
    assert_eq!(say(Ok(outcome(None, "So far"))), "So far");
    assert_eq!(
        say(Ok(outcome(None, " "))),
        "That's taking longer than I can say in one go. Try again in a moment."
    );
    assert_eq!(
        say(Err(AgentError::Busy)),
        "I'm still working on the previous request. Give me a moment, then try again."
    );
    assert_eq!(
        say(Err(AgentError::Connect("x".into()))),
        "I can't reach the ZeroClaw agent right now. Check that it is running."
    );
    assert_eq!(
        say(Err(AgentError::Disconnected("x".into()))),
        "The agent hit an error. Try again in a moment."
    );
}

#[test]
fn approvals_are_voiced_and_forwarded() {
    let mut st = app();
    let mut o = outcome(None, "");
    o.awaiting_approval = Some(info("restart", 120));
    let r = finish_turn(&mut st, "dev", None, Ok(o), 0);
    assert_eq!(
        speech(&r),
        "ZeroClaw needs your approval: the shell tool: restart. Say yes to allow it, or no to deny it."
    );
    assert_eq!(
        said(handle_agent_turn(&mut st, "dev", "what is up", 1)),
        "ZeroClaw is waiting for your approval: the shell tool: restart. Say yes to allow it, or no to deny it."
    );
    match handle_agent_turn(&mut st, "dev", "yes", 119 * NS_PER_SEC) {
        Action::Forward { request_id, decision, cached: None } => {
            assert_eq!((request_id.as_str(), decision), ("r1", Decision::Approve));
        }
        _ => panic!(),
    }
    let r = finish_approval(&mut st, "dev", Decision::Approve, true, None);
    assert_eq!(speech(&r), "Approved. I'll tell you when it's done.");
    assert!(st.pending_approval("dev", 0).is_none());
    assert_eq!(speech(&finish_approval(&mut st, "dev", Decision::Deny, false, None)), "Denied.");
    assert_eq!(
        speech(&finish_approval(&mut st, "dev", Decision::Always, false, None)),
        "I couldn't forward that approval. The agent will decide on its own timeout."
    );
}

#[test]
fn approvals_go_stale() {
    let mut st = app();
    st.fold_event(
        AgentEvent::ApprovalRequested { device: "dev".into(), info: info("x", 0) },
        5,
    );
    st.fold_event(AgentEvent::SessionError { device: "dev".into(), message: "m".into() }, 5);
    assert!(st.pending_approval("dev", 4 + NS_PER_SEC).is_some());
    assert!(st.pending_approval("dev", 5 + NS_PER_SEC).is_none());
    assert!(st.pending_approval("dev", 5).is_none());
    st.set_pending_approval("dev", Some(PendingApproval { info: info("x", 9), asked_at: 0 }));
    assert!(st.pending_approval("dev", 0).is_some());
    st.set_pending_approval("dev", None);
    assert!(st.pending_approval("dev", 0).is_none());
}

#[test]
fn requests_draw_their_own_tokens() {
    let mut st = app();
    let env = envelope("skill", "IntentRequest", Some("PlayIntent"));
    assert!(can_answer(&st, &env));
    let a = plan(handle_alexa(&mut st, &env, 0));
    assert!(looks_like_token(&a.token));
    match handle_stream(&mut st, &a.token, 1) {
        StreamTarget::File { path, avg_bitrate_kbps, offset_ms, .. } => {
            assert_eq!((path.as_str(), avg_bitrate_kbps, offset_ms), ("/m/a.mp3", 128, 0));
        }
        _ => panic!(),
    }
    assert!(matches!(handle_stream(&mut st, "x", 1), StreamTarget::NotFound));
    assert!(matches!(handle_stream(&mut st, &"0".repeat(48), 1), StreamTarget::Expired));
}

#[test]
fn other_skills_are_met_with_silence() {
    let mut st = app();
    st.cfg.server.client_id = Some("mine".into());
    let other = envelope("other", "LaunchRequest", None);
    let own = envelope("mine", "LaunchRequest", None);
    match stream::handle_alexa(&mut st, Some(&other), 0) {
        Action::Reply { response, .. } => {
            let v = response.to_json();
            assert!(v.get("response").unwrap().get("outputSpeech").is_none());
            assert!(response.response.should_end_session);
        }
        _ => panic!(),
    }
    assert!(said(stream::handle_alexa(&mut st, Some(&own), 0)).starts_with("Aria is ready."));
    assert_eq!(said(stream::handle_alexa(&mut st, None, 0)), "");
}

#[test]
fn file_streams_start_at_the_offset() {
    // One second at 128 kbps are 16000 bytes.
    assert_eq!(stream_start(1000, 128, 1_000_000, None), 16_000);
    assert_eq!(stream_start(1000, 128, 1_000_000, Some(5)), 16_000);
    assert_eq!(stream_start(1000, 128, 1_000_000, Some(20_000)), 20_000);
    assert_eq!(stream_start(1000, 128, 10, Some(20_000)), 10);
    assert_eq!(stream_start(u64::MAX, u32::MAX, u64::MAX, None), u64::MAX / 8);
    assert_eq!(stream_start(0, 128, 10, None), 0);
}

#[test]
fn range_headers() {
    assert_eq!(parse_range_start(Some("bytes=12345-")), Some(12345));
    assert_eq!(parse_range_start(Some("bytes= 7 -9")), Some(7));
    assert_eq!(parse_range_start(Some("bytes=-9")), None);
    assert_eq!(parse_range_start(Some("items=1-")), None);
    assert_eq!(parse_range_start(None), None);
}

#[test]
fn radio_types() {
    assert_eq!(radio_content_type(Some("audio/aacp")), "audio/aacp");
    assert_eq!(radio_content_type(Some("application/x-mpegURL")), "application/x-mpegURL");
    assert_eq!(radio_content_type(Some("text/html")), "audio/mpeg");
    assert_eq!(radio_content_type(None), "audio/mpeg");
}

#[test]
fn health_counts() {
    let mut st = app();
    act(&mut st, IntentKind::Play, "t", 0);
    let v = handle_health(&st, 12);
    let number = |name: &str| match v.get(name) {
        Some(Json::Number(n)) => *n,
        _ => panic!("no {name}"),
    };
    assert!(matches!(v.get("ok"), Some(Json::Bool(true))));
    assert_eq!(number("uptime_secs"), 12);
    assert_eq!(number("library_tracks"), 4);
    assert_eq!(number("playable_tracks"), 3);
    assert_eq!(number("stream_tokens"), 1);
    assert_eq!(number("devices"), 1);
}

#[test]
fn slots_hold_lists() {
    let mut env = envelope("skill", "IntentRequest", Some("PlayMusicIntent"));
    if let Some(i) = &mut env.request.intent {
        i.slots.insert(
            "query".into(),
            Slot {
                name: Some("query".into()),
                value: None,
                values: Some(vec!["a".into(), "b".into()]),
                resolution_status: None,
                confirmation_status: None,
            },
        );
    }
    assert_eq!(env.slot_values("query"), vec!["a".to_string(), "b".to_string()]);
}

#[test]
fn state_roundtrips() {
    let mut st = app();
    let mut ps = PlayerState::default();
    ps.start_queue(vec![1, 2]);
    ps.shuffle = true;
    ps.repeat = Repeat::All;
    ps.history.push(7);
    ps.current_token = Some("tok".into());
    ps.current_offset_ms = 9;
    st.put_player("dev1", ps);
    st.put_player("dev2", PlayerState::default());
    let saved = st.save_state(123);
    assert_eq!(saved.get("saved_at").unwrap().as_str(), Some("123"));
    let back = load_state(&saved);
    let p = back.get("dev1").unwrap();
    assert!(p.shuffle);
    assert_eq!(p.queue, vec![1, 2]);
    assert_eq!((p.repeat, p.pos, p.current_offset_ms), (Repeat::All, 0, 9));
    assert_eq!(p.history, vec![7]);
    assert_eq!(p.current_token.as_deref(), Some("tok"));
    assert_eq!(back.get("dev2").unwrap().current_token, None);
    assert_eq!(back.len(), 2);
}

#[test]
fn unreadable_state_restores_nothing() {
    assert_eq!(load_state(&Json::Null).len(), 0);
    let players = Json::Object(vec![("d".to_string(), Json::Object(vec![]))]);
    let file = Json::Object(vec![
        ("players".to_string(), players),
        ("saved_at".to_string(), Json::Text("1".to_string())),
    ]);
    assert_eq!(load_state(&file).len(), 0);
    let undated = Json::Object(vec![("players".to_string(), Json::Object(vec![]))]);
    assert_eq!(load_state(&undated).len(), 0);
}

#[test]
fn devices_do_not_disturb_each_other() {
    let mut st = app();
    act(&mut st, play_music("ann"), "t1", 0);
    st.fold_event(AgentEvent::LateReply { device: "dev".into(), text: "late".into() }, 0);
    let kinds = [
        IntentKind::Play,
        IntentKind::Next,
        IntentKind::Stop,
        IntentKind::ToggleShuffle,
        IntentKind::Ask { utterance: "x".into() },
        play_music("bob"),
    ];
    for kind in kinds {
        handle_intent(&mut st, "other", &kind, None, &draws("t2"), 0);
        assert_eq!(st.player("dev").unwrap().queue, vec![1, 2]);
        assert_eq!(st.player("dev").unwrap().current_token.as_deref(), Some("t1"));
    }
    assert_eq!(st.take_cached_reply("dev").as_deref(), Some("late"));
    assert_eq!(st.library.len(), 4);
}

#[test]
fn shuffling_keeps_the_queue() {
    let mut st = app();
    act(&mut st, IntentKind::Play, "t1", 0);
    act(&mut st, IntentKind::ToggleShuffle, "t2", 0);
    let p = st.player("dev").unwrap();
    assert_eq!(p.queue, vec![1, 3, 2]);
    assert_eq!(p.current(), Some(1));
}

#[test]
fn late_reply_goes_before_whatever_comes() {
    let mut st = app();
    let late = |st: &mut AppState| {
        st.fold_event(AgentEvent::LateReply { device: "dev".into(), text: "Done.".into() }, 0);
        match handle_agent_turn(st, "dev", "hello", 0) {
            Action::Ask { cached, .. } => cached,
            _ => panic!(),
        }
    };
    let cached = late(&mut st);
    assert_eq!(cached.as_deref(), Some("Done."));
    let r = finish_turn(&mut st, "dev", cached.as_deref(), Err(AgentError::Busy), 0);
    assert_eq!(
        speech(&r),
        "Done. I'm still working on the previous request. Give me a moment, then try again."
    );
    assert!(st.take_cached_reply("dev").is_none());
    let cached = late(&mut st);
    let mut o = outcome(None, "");
    o.awaiting_approval = Some(info("restart", 120));
    let r = finish_turn(&mut st, "dev", cached.as_deref(), Ok(o), 0);
    assert!(speech(&r).starts_with("Done. ZeroClaw needs your approval: the shell tool: restart."));
    // An approval is pending now.
    st.set_cached_reply("dev", "More.".into());
    assert!(
        said(handle_agent_turn(&mut st, "dev", "what", 1))
            .starts_with("More. ZeroClaw is waiting for your approval")
    );
    st.set_cached_reply("dev", "Again.".into());
    match handle_agent_turn(&mut st, "dev", "no", 1) {
        Action::Forward { decision, cached, .. } => {
            let r = finish_approval(&mut st, "dev", decision, true, cached.as_deref());
            assert_eq!(speech(&r), "Again. Denied.");
        }
        _ => panic!(),
    }
    assert!(st.take_cached_reply("dev").is_none());
}

#[test]
fn first_playable_match_is_played() {
    // The better match cannot be streamed, the other one can.
    let lib = Library::scan(&vec![RootListing {
        root: "/m".to_string(),
        is_dir: true,
        files: vec![
            file("/m/a.flac", meta("Sunrise", "Ann", "", "")),
            file("/m/b.mp3", meta("Dawn", "Bob", "Sunrise Songs", "")),
        ],
    }])
    .unwrap();
    let mut st = AppState::new(Config::default(), lib, StringMap::new());
    assert_eq!(plan(act(&mut st, play_music("sunrise"), "t", 0)).art, Some(2));
    assert_eq!(find_match(&st.library, "dawn"), Some(2));
    assert_eq!(find_match(&st.library, "ann"), Some(1));
    assert_eq!(find_match(&st.library, "nothing"), None);
}

#[test]
fn players_come_back_as_they_were_saved() {
    let mut st = app();
    let mut odd = PlayerState::default();
    odd.start_queue(vec![1, 2]);
    odd.pos = 9;
    odd.current_offset_ms = 5;
    odd.history = (0..70).collect();
    let mut sound = PlayerState::default();
    sound.start_queue(vec![3]);
    st.put_player("dev", odd);
    st.put_player("sound", sound);
    let back = load_state(&st.save_state(1));
    assert_eq!(back.get("sound").unwrap().queue, vec![3]);
    let p = back.get("dev").unwrap();
    assert_eq!((p.pos, p.current_offset_ms), (9, 5));
    assert_eq!(p.queue, vec![1, 2]);
    assert_eq!(p.history, (0..70).collect::<Vec<u64>>());
    // Past its end the queue is over, and "play" starts it anew.
    let mut st = AppState::new(Config::default(), app().library, back);
    assert_eq!(
        said(act(&mut st, IntentKind::Next, "t", 0)),
        "That was the last one in the queue."
    );
    assert_eq!(plan(act(&mut st, IntentKind::Play, "t", 0)).art, Some(1));
}

#[test]
fn a_position_that_allows_no_step_is_told() {
    let mut st = app();
    let mut odd = PlayerState::default();
    odd.start_queue(vec![1, 2]);
    odd.pos = usize::MAX;
    assert!(!odd.may_advance());
    assert!(!odd.may_reshuffle());
    st.put_player("dev", odd);
    assert!(!can_answer(&st, &envelope("s", "IntentRequest", Some("NextIntent"))));
    assert!(!can_answer(&st, &envelope("s", "IntentRequest", Some("ToggleShuffleIntent"))));
    assert!(can_answer(&st, &envelope("s", "IntentRequest", Some("PlayIntent"))));
    assert!(can_answer(&app(), &envelope("s", "IntentRequest", Some("NextIntent"))));
}

#[test]
fn nearly_finished_track_preloads_the_next() {
    let mut st = app();
    act(&mut st, play_music("ann"), "t1", 0);
    let ap = AudioPlayerContext {
        player_activity: None,
        token: Some("t1".into()),
        offset_in_milliseconds: Some(55_000),
    };
    let kind = IntentKind::PlaybackNearlyFinished;
    let p = plan(handle_intent(&mut st, "dev", &kind, Some(&ap), &draws("t2"), 0));
    assert!(p.enqueue);
    assert_eq!((p.art, p.expected.clone()), (Some(2), Some(("t1".to_string(), 55_000))));
    let v = finish_play(&st, &p, false).to_json();
    let dir = v.get("response").unwrap().get("directives").unwrap().at(0).unwrap();
    assert_eq!(dir.get("playBehavior").unwrap().as_str(), Some("REPLACE_ENQUEUED"));
    act(&mut st, play_music("ann"), "t3", 0);
    assert!(!plan(act(&mut st, IntentKind::PlaybackFinished, "t4", 0)).enqueue);
}
