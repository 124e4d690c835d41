use aria::alexa::intent::IntentKind;
use aria::alexa::intent::parse_time_slot;
use aria::alexa::intent::time_slot_fits;
use aria::alexa::request::ApplicationRef;
use aria::alexa::request::AudioPlayerContext;
use aria::alexa::request::Context;
use aria::alexa::request::Device;
use aria::alexa::request::Envelope;
use aria::alexa::request::Intent;
use aria::alexa::request::PlayerActivity;
use aria::alexa::request::Request;
use aria::alexa::request::Session;
use aria::alexa::request::Slot;
use aria::alexa::request::SystemContext;
use aria::alexa::response::audio_item;
use aria::alexa::response::Response;
use aria::alexa::response::ResponseBuilder;
use aria::alexa::ssml::escape_ssml;
use aria::alexa::ssml::speak;
use aria::alexa::ssml::strip_markdown;
use aria::alexa::ssml::truncate_sentence;
use aria::json::Json;
use aria::string_map::StringMap;

fn slot(name: &str, value: Option<&str>, values: Option<Vec<&str>>) -> Slot {
    Slot {
        name: Some(name.to_string()),
        value: value.map(|v| v.to_string()),
        values: values.map(|vs| vs.iter().map(|v| v.to_string()).collect()),
        resolution_status: None,
        confirmation_status: None,
    }
}

fn request(kind: &str, intent: Option<(&str, Vec<Slot>)>) -> Request {
    Request {
        request_type: kind.to_string(),
        request_id: Some("r1".to_string()),
        timestamp: Some("2026-01-01T00:00:00Z".to_string()),
        locale: Some("en-US".to_string()),
        dialog_state: Some("SUCCEEDED".to_string()),
        intent: intent.map(|(name, slots)| {
            let mut map = StringMap::new();
            for s in slots {
                map.insert(s.name.clone().unwrap(), s);
            }
            Intent { name: Some(name.to_string()), confirmation_status: None, slots: map }
        }),
    }
}

fn base(intent: &str, slots: Vec<Slot>) -> Envelope {
    Envelope {
        version: "1.0".to_string(),
        session: Some(Session {
            new: Some(false),
            session_id: Some("s1".to_string()),
            application: Some(ApplicationRef {
                application_id: Some("amzn1.ask.skill.test".to_string()),
            }),
            user: None,
            attributes: None,
        }),
        context: Some(Context {
            system: Some(SystemContext {
                device: Some(Device {
                    device_id: Some("d1".to_string()),
                    supported_interfaces: Some(Json::Object(vec![(
                        "AudioPlayer".to_string(),
                        Json::Object(vec![]),
                    )])),
                }),
                application: None,
                user: None,
            }),
            audio_player: Some(AudioPlayerContext {
                player_activity: Some(PlayerActivity::Playing),
                token: Some("tok".to_string()),
                offset_in_milliseconds: Some(1234),
            }),
        }),
        request: request("IntentRequest", Some((intent, slots))),
    }
}

fn bare(kind: &str, intent: Option<(&str, Vec<Slot>)>) -> Envelope {
    Envelope { version: "1.0".to_string(), session: None, context: None, request: request(kind, intent) }
}

fn text_at<'a>(v: &'a Json, path: &[&str]) -> &'a str {
    let mut at = v;
    for name in path {
        at = at.get(name).unwrap();
    }
    at.as_str().unwrap()
}

#[test]
fn builds_play_response() {
    let mut b = ResponseBuilder::new();
    b.say("Playing test")
        .play_audio(audio_item(
            "https://example.com",
            "tok123",
            0,
            None,
            "Song",
            Some("Artist"),
            Some("https://example.com/art/tok123".into()),
        ))
        .end_session();
    let v = b.build().to_json();
    assert_eq!(text_at(&v, &["version"]), "1.0");
    assert_eq!(text_at(&v, &["response", "outputSpeech", "type"]), "SSML");
    assert!(text_at(&v, &["response", "outputSpeech", "ssml"]).starts_with("<speak>"));
    let body = v.get("response").unwrap();
    assert!(matches!(body.get("shouldEndSession"), Some(Json::Bool(true))));
    let dir = body.get("directives").unwrap().at(0).unwrap();
    assert_eq!(text_at(dir, &["type"]), "AudioPlayer.Play");
    assert_eq!(text_at(dir, &["playBehavior"]), "REPLACE_ALL");
    assert_eq!(
        text_at(dir, &["audioItem", "stream", "url"]),
        "https://example.com/stream/tok123"
    );
    let stream = dir.get("audioItem").unwrap().get("stream").unwrap();
    assert!(stream.get("offsetInMilliseconds").is_none());
    assert_eq!(text_at(dir, &["audioItem", "metadata", "title"]), "Song");
    let sources = dir
        .get("audioItem")
        .unwrap()
        .get("metadata")
        .unwrap()
        .get("art")
        .unwrap()
        .get("sources")
        .unwrap();
    assert_eq!(text_at(sources.at(0).unwrap(), &["url"]), "https://example.com/art/tok123");
    assert!(sources.at(1).is_none());
}

#[test]
fn offset_and_expected_serialized_when_set() {
    let item = audio_item("https://e.com", "t", 42_000, Some(("prev", 40_000)), "S", None, None);
    let v = item.to_json();
    let stream = v.get("stream").unwrap();
    assert!(matches!(stream.get("offsetInMilliseconds"), Some(Json::Number(42_000))));
    assert_eq!(text_at(stream, &["expectedPreviousToken"]), "prev");
    assert!(matches!(stream.get("expectedOffsetInMilliseconds"), Some(Json::Number(40_000))));
    assert!(v.get("metadata").unwrap().get("subtitle").is_none());
    assert!(v.get("metadata").unwrap().get("art").is_none());
}

#[test]
fn empty_response_shape() {
    let v = Response::empty().to_json();
    let body = v.get("response").unwrap();
    assert!(matches!(body.get("shouldEndSession"), Some(Json::Bool(true))));
    assert!(body.get("outputSpeech").is_none());
    assert!(body.get("directives").is_none());
}

#[test]
fn builder_keeps_wire_names() {
    let mut b = ResponseBuilder::new();
    b.say_raw_ssml("<p>hi</p>")
        .reprompt("still there?")
        .session_attributes(Json::Text("a".to_string()))
        .enqueue_audio(audio_item("b", "t", 0, None, "S", None, None))
        .pause_audio()
        .stop_audio()
        .clear_queue()
        .directive(Json::Null)
        .end_session()
        .open_session();
    let v = b.build().to_json();
    let body = v.get("response").unwrap();
    assert_eq!(text_at(body, &["outputSpeech", "ssml"]), "<speak><p>hi</p></speak>");
    assert_eq!(text_at(body, &["reprompt", "type"]), "PLAIN_TEXT");
    assert_eq!(text_at(body, &["reprompt", "text"]), "still there?");
    assert_eq!(text_at(body, &["sessionAttributes"]), "a");
    assert!(body.get("shouldEndSession").is_none());
    let dirs = body.get("directives").unwrap();
    assert_eq!(text_at(dirs.at(0).unwrap(), &["playBehavior"]), "REPLACE_ENQUEUED");
    assert_eq!(text_at(dirs.at(1).unwrap(), &["type"]), "AudioPlayer.Pause");
    assert_eq!(text_at(dirs.at(2).unwrap(), &["type"]), "AudioPlayer.Stop");
    assert_eq!(text_at(dirs.at(3).unwrap(), &["type"]), "AudioPlayer.ClearQueue");
    assert_eq!(text_at(dirs.at(3).unwrap(), &["clearBehavior"]), "CLEAR_ALL");
    assert!(matches!(dirs.at(4), Some(Json::Null)));
}

#[test]
fn blank_text_is_not_spoken() {
    let mut b = ResponseBuilder::default();
    b.say(" \n");
    assert!(b.build().to_json().get("response").unwrap().get("outputSpeech").is_none());
}

#[test]
fn parses_full_envelope() {
    let env = base("PlayIntent", vec![]);
    assert_eq!(env.device_id(), Some("d1"));
    assert_eq!(env.application_id(), Some("amzn1.ask.skill.test"));
    let ap = env.audio_player().unwrap();
    assert_eq!(ap.player_activity, Some(PlayerActivity::Playing));
    assert_eq!(ap.offset_in_milliseconds, Some(1234));
}

#[test]
fn classifies_playback_controller() {
    for (intent, want) in [
        ("PlayIntent", IntentKind::Play),
        ("PauseIntent", IntentKind::Pause),
        ("StopIntent", IntentKind::Stop),
        ("NextIntent", IntentKind::Next),
        ("PreviousIntent", IntentKind::Previous),
    ] {
        let env = base(intent, vec![]);
        assert_eq!(IntentKind::from_envelope(&env), want, "{intent}");
    }
}

#[test]
fn classifies_resume_with_offset() {
    let env = base("ResumeIntent", vec![]);
    assert_eq!(IntentKind::from_envelope(&env), IntentKind::Resume { offset_ms: 1234 });
}

#[test]
fn classifies_play_music_query() {
    let env = base(
        "PlayMusicIntent",
        vec![slot("query", Some("bohemian rhapsody by queen"), None)],
    );
    assert_eq!(
        IntentKind::from_envelope(&env),
        IntentKind::PlayMusic { query: Some("bohemian rhapsody by queen".into()) }
    );
}

#[test]
fn fallback_with_utterance_slot() {
    let env = bare(
        "IntentRequest",
        Some((
            "AMAZON.FallbackIntent",
            vec![slot("utterance", Some("what is the capital of France"), None)],
        )),
    );
    assert_eq!(
        IntentKind::from_envelope(&env),
        IntentKind::Fallback { utterance: Some("what is the capital of France".into()) }
    );
}

#[test]
fn intent_from_json() {
    let e = bare("LaunchRequest", None);
    assert_eq!(IntentKind::from_envelope(&e), IntentKind::Launch);
}

#[test]
fn classifies_seek_slots() {
    let env = base("SeekIntent", vec![slot("time", Some("PT2M30S"), None)]);
    assert!(IntentKind::can_classify(&env));
    assert_eq!(
        IntentKind::from_envelope(&env),
        IntentKind::Seek { offset_ms: Some(150_000) }
    );
    let huge = base("SeekIntent", vec![slot("time", Some("9223372036854775807"), None)]);
    assert!(!IntentKind::can_classify(&huge));
}

#[test]
fn parse_time_variants() {
    assert_eq!(parse_time_slot("PT2M30S"), Some(150_000));
    assert_eq!(parse_time_slot("PT30S"), Some(30_000));
    assert_eq!(parse_time_slot("PT1H2M3S"), Some(3_723_000));
    assert_eq!(parse_time_slot("2:30"), Some(150_000));
    assert_eq!(parse_time_slot("1:02:03"), Some(3_723_000));
    assert_eq!(parse_time_slot("5"), Some(300_000));
    assert_eq!(parse_time_slot(""), None);
    assert_eq!(parse_time_slot("garbage"), None);
}

#[test]
fn strips_code_blocks_and_fences() {
    let src = "Here you go:\n```rust\nfn main() {}\n```\nDone.";
    assert_eq!(strip_markdown(src), "Here you go: Done.");
}

#[test]
fn strips_headings_lists_emphasis_links() {
    let src = "# Title\n- **bold** item\n- [a link](https://x.y) item\n*italic* end";
    let out = strip_markdown(src);
    assert_eq!(out, "Title bold item a link item italic end");
}

#[test]
fn escapes_ssml() {
    assert_eq!(escape_ssml("a < b & c > d"), "a &lt; b &amp; c &gt; d");
}

#[test]
fn speak_wraps_and_limits() {
    let out = speak("Hello **world** <test>");
    assert!(out.starts_with("<speak>"));
    assert!(out.ends_with("</speak>"));
    assert!(out.contains("Hello world &lt;test&gt;"));
    let long = speak(&"word ".repeat(1000));
    assert!(long.chars().count() < 1300);
}

#[test]
fn table_rows_flatten() {
    let src = "| a | b |\n|---|---|\n| 1 | 2 |";
    assert_eq!(strip_markdown(src), "a, b 1, 2");
}

#[test]
fn long_speech_ends_at_a_sentence() {
    let text = format!("{}. {}", "a".repeat(800), "b".repeat(800));
    let cut = truncate_sentence(&text, 1200);
    assert_eq!(cut, "a".repeat(800));
    assert_eq!(truncate_sentence("short", 1200), "short");
}

#[test]
fn times_that_do_not_fit() {
    assert!(time_slot_fits("PT2M30S"));
    assert!(time_slot_fits("garbage"));
    assert!(!time_slot_fits("9223372036854775807"));
    assert!(!time_slot_fits("PT9223372036854775807H"));
    assert_eq!(parse_time_slot("12:34"), Some(12 * 60_000 + 34 * 1000));
    assert_eq!(parse_time_slot("PT0H0M0S"), None);
    assert_eq!(parse_time_slot("PT5"), None);
    assert_eq!(parse_time_slot("-5"), None);
    assert_eq!(parse_time_slot("1:2:3:4"), None);
}

#[test]
fn questions_for_the_agent() {
    let ask = IntentKind::Ask { utterance: "hi".into() };
    assert_eq!(ask.agent_utterance(), Some("hi"));
    assert_eq!(IntentKind::Fallback { utterance: None }.agent_utterance(), None);
    assert_eq!(IntentKind::Play.agent_utterance(), None);
    let unmatched = bare("IntentRequest", Some(("OtherIntent", vec![])));
    assert_eq!(
        IntentKind::from_envelope(&unmatched),
        IntentKind::Unknown { name: "OtherIntent".into() }
    );
}

#[test]
fn plain_text_is_spoken_as_it_is() {
    assert_eq!(speak("Good morning."), "<speak>Good morning.</speak>");
    assert_eq!(strip_markdown("see [the docs](https://x.y/z) now"), "see the docs now");
    assert!(!escape_ssml("<a>&</a>").contains('<'));
}

#[test]
fn code_spans_keep_their_content() {
    assert_eq!(strip_markdown("use `ls` now"), "use ls now");
    assert_eq!(strip_markdown("`a_b` and *c*"), "a_b and c");
    assert_eq!(strip_markdown("a ` b"), "a  b");
}

#[test]
fn links_may_hold_any_characters() {
    assert_eq!(strip_markdown("[\u{e9}](u) xy"), "\u{e9} xy");
    assert_eq!(strip_markdown("see [\u{1f600}](https://x/\u{e9}\u{e9}) and more"), "see \u{1f600} and more");
}

#[test]
fn escaping_can_be_undone_and_split() {
    let s = "&lt; <b> & &amp;gt; >";
    let e = escape_ssml(s);
    assert_eq!(e.replace("&lt;", "<").replace("&gt;", ">").replace("&amp;", "&"), s);
    assert_eq!(escape_ssml("a<b") + &escape_ssml(">&c"), escape_ssml("a<b>&c"));
}

#[test]
fn ways_of_saying_a_time_agree() {
    for t in ["PT0H2M5S", "PT2M5S", " PT0H2M5S\n", "0:2:5", "2:5", " 2:5 ", "PT125S"] {
        assert!(time_slot_fits(t), "{t}");
        assert_eq!(parse_time_slot(t), Some(125_000), "{t}");
    }
    assert_eq!(parse_time_slot("PT1H"), Some(3_600_000));
    assert_eq!(parse_time_slot("1:0:0"), Some(3_600_000));
}
