//! What requests are taken for, and what responses carry.

use vstd::prelude::*;

use crate::alexa::intent::IntentKind;
use crate::alexa::intent::IntentModel;
use crate::alexa::intent;
use crate::alexa::request::Envelope;
use crate::alexa::response::Art;
use crate::alexa::response::ArtSource;
use crate::alexa::response::AudioItem;
use crate::alexa::response::AudioMetadata;
use crate::alexa::response::BodyModel;
use crate::alexa::response::SpeechModel;
use crate::alexa::response::SpeechType;
use crate::alexa::response;
use crate::alexa::ssml;
use crate::json::JsonModel;
use crate::json;
use crate::text::chars;
use crate::text::trim;

verus! {

broadcast use {vstd::seq::group_seq_axioms, vstd::slice::group_slice_axioms};

// ── What a request holds ───────────────────────────────────────────────────

/// The device of a request is the one that its system context names, unless the
/// name is empty.
pub proof fn law_device(env: Envelope)
    ensures
        match env.device() {
            Some(d) => {
                &&& d.len() > 0
                &&& env.context is Some && env.context->0.system is Some
                &&& env.context->0.system->0.device is Some
                &&& env.context->0.system->0.device->0.device_id is Some
                &&& env.context->0.system->0.device->0.device_id->0@ == d
            },
            None => env.context matches Some(c) ==> c.system matches Some(s) ==> s.device matches Some(
                d,
            ) ==> d.device_id matches Some(id) ==> id@.len() == 0,
        },
{
}

/// The application of a request is the one of its system context; only without
/// one there does that of the session count.
pub proof fn law_application(env: Envelope)
    ensures
        env.context matches Some(c) ==> c.system matches Some(s) ==> s.application matches Some(a)
            ==> a.application_id matches Some(id) ==> env.application() == Some(id@),
        (env.context is None || env.context->0.system is None
            || env.context->0.system->0.application is None) ==> (env.session matches Some(t)
            ==> t.application matches Some(a) ==> a.application_id matches Some(id)
            ==> env.application() == Some(id@)),
        env.context is None && env.session is None ==> env.application() is None,
{
}

/// The player of a request is the one that its context reports.
pub proof fn law_player(env: Envelope)
    ensures
        env.context matches Some(c) ==> env.player() == c.audio_player,
        env.context is None ==> env.player() is None,
{
}

/// The value of a slot is what the intent holds under its name; a blank value
/// counts as none.
pub proof fn law_slot_value(env: Envelope, name: Seq<char>)
    ensures
        match env.slot_value(name) {
            Some(v) => {
                &&& env.request.intent is Some
                &&& env.request.intent->0.slots@.dom().contains(name)
                &&& env.request.intent->0.slots@[name].value is Some
                &&& env.request.intent->0.slots@[name].value->0@ == v
                &&& exists|k: int| 0 <= k < v.len() && !chars::is_white(#[trigger] v[k])
            },
            None => env.request.intent matches Some(i) ==> (i.slots@.dom().contains(name) ==> (
            i.slots@[name].value matches Some(w) ==> forall|k: int|
                0 <= k < w@.len() ==> chars::is_white(#[trigger] w@[k]))),
        },
{
    if env.slot_value(name) is Some {
        let v = env.slot_value(name)->0;
        let k = choose|k: int| 0 <= k < v.len() && !chars::CharClass::White.has(#[trigger] v[k]);
        assert(!chars::is_white(v[k]));
    } else if env.slot_named(name) is Some && env.slot_named(name)->0.value is Some {
        let w = env.slot_named(name)->0.value->0;
        assert forall|k: int| 0 <= k < w@.len() implies chars::is_white(#[trigger] w@[k]) by {
            assert(chars::CharClass::White.has(w@[k]));
        }
    }
}

/// The request is an intent request with the given name.
pub open spec fn is_named(env: Envelope, name: Seq<char>) -> bool {
    env.request.request_type@ == "IntentRequest"@ && env.intent_text() == Some(name)
}

/// Each intent comes of the request types and names that stand for it, and of no
/// others, with what the request holds for it.
pub proof fn law_intents(env: Envelope)
    ensures
        match intent::intent_of(env) {
            IntentModel::Launch => env.request.request_type@ == "LaunchRequest"@,
            IntentModel::SessionEnded => env.request.request_type@ == "SessionEndedRequest"@,
            IntentModel::SystemRequest => env.request.request_type@ == "SystemRequest"@,
            IntentModel::Help => is_named(env, "AMAZON.HelpIntent"@),
            IntentModel::Cancel => is_named(env, "AMAZON.CancelIntent"@),
            IntentModel::Play => is_named(env, "PlayIntent"@),
            IntentModel::Pause => is_named(env, "PauseIntent"@),
            IntentModel::Stop => is_named(env, "StopIntent"@) || is_named(env, "AMAZON.StopIntent"@),
            IntentModel::Next => is_named(env, "NextIntent"@) || is_named(env, "AMAZON.NextIntent"@),
            IntentModel::Previous => is_named(env, "PreviousIntent"@) || is_named(
                env,
                "AMAZON.PreviousIntent"@,
            ),
            IntentModel::PlaybackStarted => is_named(env, "PlaybackStartedRequest"@),
            IntentModel::PlaybackStopped => is_named(env, "PlaybackStoppedRequest"@),
            IntentModel::PlaybackNearlyFinished => is_named(env, "PlaybackNearlyFinishedRequest"@),
            IntentModel::PlaybackFailed => is_named(env, "PlaybackFailedRequest"@),
            IntentModel::PlaybackFinished => is_named(env, "PlaybackFinishedRequest"@),
            IntentModel::ToggleShuffle => is_named(env, "ToggleShuffleIntent"@),
            IntentModel::RepeatOne => is_named(env, "RepeatOneIntent"@),
            IntentModel::RepeatAll => is_named(env, "RepeatAllIntent"@),
            IntentModel::RepeatOff => is_named(env, "RepeatOffIntent"@),
            IntentModel::Resume { offset_ms } => {
                &&& is_named(env, "ResumeIntent"@)
                &&& env.player() matches Some(a) ==> a.offset_in_milliseconds matches Some(n)
                    ==> offset_ms == n
                &&& (env.player() is None || env.player()->0.offset_in_milliseconds is None)
                    ==> offset_ms == 0
            },
            IntentModel::Fallback { utterance } => {
                ||| is_named(env, "AMAZON.FallbackIntent"@) && utterance == env.slot_value(
                    "utterance"@,
                )
                ||| is_named(env, "AskIntent"@) && utterance is None && env.slot_value(
                    "utterance"@,
                ) is None
            },
            IntentModel::Ask { utterance } => is_named(env, "AskIntent"@) && env.slot_value(
                "utterance"@,
            ) == Some(utterance),
            IntentModel::PlayMusic { query } => is_named(env, "PlayMusicIntent"@) && query
                == env.slot_value("query"@),
            IntentModel::Seek { offset_ms } => {
                &&& is_named(env, "SeekIntent"@)
                &&& env.slot_value("time"@) matches Some(v) ==> (intent::time_millis(v) is Some
                    ==> offset_ms == intent::time_millis(v))
                &&& offset_ms is Some ==> (env.slot_value("time"@) is Some && intent::time_millis(
                    env.slot_value("time"@)->0,
                ) == offset_ms) || exists|i: int|
                    0 <= i < env.slot_list("time"@).len() && intent::time_millis(
                        #[trigger] env.slot_list("time"@)[i],
                    ) == offset_ms
                &&& offset_ms is None ==> forall|i: int|
                    0 <= i < env.slot_list("time"@).len() ==> intent::time_millis(
                        #[trigger] env.slot_list("time"@)[i],
                    ) is None
            },
            IntentModel::Unknown { name } => if env.request.request_type@ == "IntentRequest"@ {
                &&& env.intent_text() is Some ==> env.intent_text() == Some(name)
                &&& name != "PlayIntent"@ && name != "PauseIntent"@ && name != "StopIntent"@
                &&& name != "NextIntent"@ && name != "PreviousIntent"@ && name != "ResumeIntent"@
                &&& name != "PlaybackStartedRequest"@ && name != "PlaybackStoppedRequest"@
                &&& name != "PlaybackNearlyFinishedRequest"@ && name != "PlaybackFailedRequest"@
                &&& name != "PlaybackFinishedRequest"@ && name != "AMAZON.HelpIntent"@
                &&& name != "AMAZON.CancelIntent"@ && name != "AMAZON.StopIntent"@
                &&& name != "AMAZON.NextIntent"@ && name != "AMAZON.PreviousIntent"@
                &&& name != "AMAZON.FallbackIntent"@ && name != "PlayMusicIntent"@
                &&& name != "AskIntent"@ && name != "SeekIntent"@ && name != "ToggleShuffleIntent"@
                &&& name != "RepeatOneIntent"@ && name != "RepeatAllIntent"@ && name
                    != "RepeatOffIntent"@
            } else {
                &&& name == env.request.request_type@
                &&& name != "LaunchRequest"@ && name != "SessionEndedRequest"@ && name
                    != "SystemRequest"@
            },
        },
{
    lemma_first_time(env.slot_list("time"@));
    lemma_unknown_is_no_name();
}

proof fn lemma_first_time(vs: Seq<Seq<char>>)
    ensures
        match intent::first_time(vs) {
            Some(n) => exists|i: int|
                0 <= i < vs.len() && intent::time_millis(#[trigger] vs[i]) == Some(n),
            None => forall|i: int|
                0 <= i < vs.len() ==> intent::time_millis(#[trigger] vs[i]) is None,
        },
    decreases vs.len(),
{
    if vs.len() > 0 {
        let rest = vs.skip(1);
        lemma_first_time(rest);
        if intent::time_millis(vs[0]) is None {
            match intent::first_time(rest) {
                Some(n) => {
                    let i = choose|i: int|
                        0 <= i < rest.len() && intent::time_millis(#[trigger] rest[i]) == Some(n);
                    assert(vs[i + 1] == rest[i]);
                },
                None => {
                    assert forall|i: int| 0 <= i < vs.len() implies intent::time_millis(
                        #[trigger] vs[i],
                    ) is None by {
                        if i > 0 {
                            assert(rest[i - 1] == vs[i]);
                        }
                    }
                },
            }
        } else {
            assert(intent::time_millis(vs[0]) == intent::first_time(vs));
        }
    }
}

proof fn lemma_unknown_is_no_name()
    ensures
        intent::named_intent("Unknown"@) is None,
        "Unknown"@ != "ResumeIntent"@,
        "Unknown"@ != "AMAZON.FallbackIntent"@,
        "Unknown"@ != "PlayMusicIntent"@,
        "Unknown"@ != "AskIntent"@,
        "Unknown"@ != "SeekIntent"@,
{
    reveal_strlit("Unknown");
    reveal_strlit("PlayIntent");
    reveal_strlit("PauseIntent");
    reveal_strlit("StopIntent");
    reveal_strlit("NextIntent");
    reveal_strlit("PreviousIntent");
    reveal_strlit("PlaybackStartedRequest");
    reveal_strlit("PlaybackStoppedRequest");
    reveal_strlit("PlaybackNearlyFinishedRequest");
    reveal_strlit("PlaybackFailedRequest");
    reveal_strlit("PlaybackFinishedRequest");
    reveal_strlit("AMAZON.HelpIntent");
    reveal_strlit("AMAZON.CancelIntent");
    reveal_strlit("AMAZON.StopIntent");
    reveal_strlit("AMAZON.NextIntent");
    reveal_strlit("AMAZON.PreviousIntent");
    reveal_strlit("AMAZON.FallbackIntent");
    reveal_strlit("ToggleShuffleIntent");
    reveal_strlit("RepeatOneIntent");
    reveal_strlit("RepeatAllIntent");
    reveal_strlit("RepeatOffIntent");
    reveal_strlit("ResumeIntent");
    reveal_strlit("PlayMusicIntent");
    reveal_strlit("AskIntent");
    reveal_strlit("SeekIntent");
    assert("Unknown"@.len() == 7);
}

/// What is no time: an unknown unit, digits without a unit, a time of nothing, a
/// negative number of minutes.
pub proof fn law_what_is_no_time(d: Seq<char>)
    requires
        d.len() > 0,
        forall|i: int| 0 <= i < d.len() ==> '0' <= #[trigger] d[i] <= '9',
    ensures
        intent::time_millis(seq![]) is None,
        intent::iso_seconds(d, seq![], 0) is None,
        forall|c: char, secs: int|
            #![trigger intent::iso_seconds(seq![c], d, secs)]
            c != 'H' && c != 'M' && c != 'S' && !('0' <= c <= '9') ==> intent::iso_seconds(
                seq![c],
                d,
                secs,
            ) is None,
        intent::iso_seconds(seq![], seq![], 0) == Some(0int),
{
    assert(trim::trimmed(Seq::<char>::empty()) =~= seq![]);
    lemma_digits_alone(d, seq![], 0);
}

proof fn lemma_digits_alone(d: Seq<char>, num: Seq<char>, secs: int)
    requires
        d.len() + num.len() > 0,
        forall|i: int| 0 <= i < d.len() ==> '0' <= #[trigger] d[i] <= '9',
    ensures
        intent::iso_seconds(d, num, secs) is None,
    decreases d.len(),
{
    if d.len() > 0 {
        assert('0' <= d[0] <= '9');
        let e = d.skip(1);
        assert forall|i: int| 0 <= i < e.len() implies '0' <= #[trigger] e[i] <= '9' by {
            assert(e[i] == d[i + 1]);
        }
        lemma_digits_alone(e, num.push(d[0]), secs);
    }
}

// ── What a response carries ────────────────────────────────────────────────

/// Saying a text makes it the speech, unless it is blank, and changes nothing
/// else.
pub proof fn law_saying(b: BodyModel, text: Seq<char>)
    ensures
        ({
            let r = response::saying(b, text);
            &&& r.reprompt == b.reprompt
            &&& r.should_end_session == b.should_end_session
            &&& r.directives == b.directives
            &&& r.session_attributes == b.session_attributes
            &&& trim::blank(text) ==> r.output_speech == b.output_speech
            &&& !trim::blank(text) ==> r.output_speech == Some(
                SpeechModel {
                    speech_type: SpeechType::Ssml,
                    ssml: Some(ssml::spoken(text)),
                    text: None,
                },
            )
        }),
{
}

/// A spoken reply says its text and ends the session, with no directive.
pub proof fn law_spoken_reply(text: Seq<char>)
    ensures
        ({
            let r = response::said(text);
            &&& r.0 == "1.0"@
            &&& r.1.should_end_session
            &&& r.1.directives.len() == 0
            &&& r.1.reprompt is None
            &&& r.1.session_attributes is None
            &&& !trim::blank(text) ==> (r.1.output_speech matches Some(s) && s.speech_type
                == SpeechType::Ssml && s.ssml == Some(ssml::spoken(text)) && s.text is None)
            &&& trim::blank(text) ==> r.1.output_speech is None
        }),
        ({
            let r = response::silent();
            &&& r.0 == "1.0"@
            &&& r.1.should_end_session
            &&& r.1.directives.len() == 0
            &&& r.1.output_speech is None
            &&& r.1.reprompt is None
        }),
{
}

/// A directive joins the others behind them.
pub proof fn law_directing(b: BodyModel, d: JsonModel)
    ensures
        response::directing(b, d).directives == b.directives.push(d),
        response::directing(b, d).output_speech == b.output_speech,
        response::directing(b, d).should_end_session == b.should_end_session,
        response::directing(b, d).reprompt == b.reprompt,
        response::ending(b).should_end_session,
        response::ending(b).output_speech == b.output_speech,
        response::ending(b).directives == b.directives,
{
}

/// The fields of an object are read back by their names.
proof fn lemma_field(fs: Seq<(Seq<char>, JsonModel)>, name: Seq<char>, v: JsonModel)
    requires
        forall|j: int| 0 <= j < fs.len() ==> (#[trigger] fs[j]).0 != name,
    ensures
        json::field_of(fs.push((name, v)), name) == Some(v),
        json::field_of(fs, name) is None,
{
    json::lemma_field_at(fs.push((name, v)), name, fs.len() as int);
    lemma_no_field(fs, name);
}

proof fn lemma_no_field(fs: Seq<(Seq<char>, JsonModel)>, name: Seq<char>)
    requires
        forall|j: int| 0 <= j < fs.len() ==> (#[trigger] fs[j]).0 != name,
    ensures
        json::field_of(fs, name) is None,
    decreases fs.len(),
{
    if fs.len() > 0 {
        assert(fs[0].0 != name);
        let t = fs.skip(1);
        assert forall|j: int| 0 <= j < t.len() implies (#[trigger] t[j]).0 != name by {
            assert(t[j] == fs[j + 1]);
        }
        lemma_no_field(t, name);
    }
}

/// A field that stands before others is read back behind them too.
proof fn lemma_field_stays(
    fs: Seq<(Seq<char>, JsonModel)>,
    name: Seq<char>,
    other: Seq<char>,
    v: JsonModel,
)
    requires
        other != name,
    ensures
        json::field_of(fs.push((other, v)), name) == json::field_of(fs, name),
    decreases fs.len(),
{
    let all = fs.push((other, v));
    if fs.len() > 0 {
        assert(all[0] == fs[0]);
        assert(all.skip(1) =~= fs.skip(1).push((other, v)));
        lemma_field_stays(fs.skip(1), name, other, v);
    } else {
        assert(all[0].0 == other);
        assert(all.skip(1) =~= fs);
    }
}

/// On the wire a body ends the session exactly where it says so, and carries its
/// directives in order; what is not there is left out.
pub proof fn law_body_on_the_wire(b: BodyModel)
    ensures
        ({
            let j = response::body_json(b);
            &&& j is Object
            &&& json::field_of(j->Object_0, "shouldEndSession"@) == if b.should_end_session {
                Some(JsonModel::Bool(true))
            } else {
                None
            }
            &&& json::field_of(j->Object_0, "directives"@) == if b.directives.len() > 0 {
                Some(JsonModel::List(b.directives))
            } else {
                None
            }
            &&& b.output_speech is None ==> json::field_of(j->Object_0, "outputSpeech"@) is None
            &&& b.output_speech is Some ==> json::field_of(j->Object_0, "outputSpeech"@) == Some(
                response::speech_json(b.output_speech->0),
            )
            &&& json::field_of(j->Object_0, "sessionAttributes"@) == b.session_attributes
        }),
{
    lemma_body_names();
    let f0 = response::no_fields();
    let f1 = json::with_some(f0, "outputSpeech"@, response::opt_speech_json(b.output_speech));
    let f2 = json::with_some(f1, "reprompt"@, response::opt_speech_json(b.reprompt));
    let f3 = json::with_some(
        f2,
        "shouldEndSession"@,
        if b.should_end_session {
            Some(JsonModel::Bool(true))
        } else {
            None
        },
    );
    let f4 = json::with_some(
        f3,
        "directives"@,
        if b.directives.len() > 0 {
            Some(JsonModel::List(b.directives))
        } else {
            None
        },
    );
    lemma_with_some(f0, "outputSpeech"@, response::opt_speech_json(b.output_speech), "outputSpeech"@);
    lemma_with_some(f1, "reprompt"@, response::opt_speech_json(b.reprompt), "outputSpeech"@);
    lemma_with_some(f2, "shouldEndSession"@, if b.should_end_session {
        Some(JsonModel::Bool(true))
    } else {
        None
    }, "outputSpeech"@);
    lemma_with_some(f3, "directives"@, if b.directives.len() > 0 {
        Some(JsonModel::List(b.directives))
    } else {
        None
    }, "outputSpeech"@);
    lemma_with_some(f4, "sessionAttributes"@, b.session_attributes, "outputSpeech"@);
    lemma_with_some(f0, "outputSpeech"@, response::opt_speech_json(b.output_speech), "shouldEndSession"@);
    lemma_with_some(f1, "reprompt"@, response::opt_speech_json(b.reprompt), "shouldEndSession"@);
    lemma_with_some(f2, "shouldEndSession"@, if b.should_end_session {
        Some(JsonModel::Bool(true))
    } else {
        None
    }, "shouldEndSession"@);
    lemma_with_some(f3, "directives"@, if b.directives.len() > 0 {
        Some(JsonModel::List(b.directives))
    } else {
        None
    }, "shouldEndSession"@);
    lemma_with_some(f4, "sessionAttributes"@, b.session_attributes, "shouldEndSession"@);
    lemma_with_some(f0, "outputSpeech"@, response::opt_speech_json(b.output_speech), "directives"@);
    lemma_with_some(f1, "reprompt"@, response::opt_speech_json(b.reprompt), "directives"@);
    lemma_with_some(f2, "shouldEndSession"@, if b.should_end_session {
        Some(JsonModel::Bool(true))
    } else {
        None
    }, "directives"@);
    lemma_with_some(f3, "directives"@, if b.directives.len() > 0 {
        Some(JsonModel::List(b.directives))
    } else {
        None
    }, "directives"@);
    lemma_with_some(f4, "sessionAttributes"@, b.session_attributes, "directives"@);
    lemma_with_some(f0, "outputSpeech"@, response::opt_speech_json(b.output_speech), "sessionAttributes"@);
    lemma_with_some(f1, "reprompt"@, response::opt_speech_json(b.reprompt), "sessionAttributes"@);
    lemma_with_some(f2, "shouldEndSession"@, if b.should_end_session {
        Some(JsonModel::Bool(true))
    } else {
        None
    }, "sessionAttributes"@);
    lemma_with_some(f3, "directives"@, if b.directives.len() > 0 {
        Some(JsonModel::List(b.directives))
    } else {
        None
    }, "sessionAttributes"@);
    lemma_with_some(f4, "sessionAttributes"@, b.session_attributes, "sessionAttributes"@);
    assert(json::field_of(f0, "outputSpeech"@) is None);
    assert(json::field_of(f0, "shouldEndSession"@) is None);
    assert(json::field_of(f0, "directives"@) is None);
    assert(json::field_of(f0, "sessionAttributes"@) is None);
}

/// Adding a field changes the value of no other name, and gives its own name its
/// value where it had none.
proof fn lemma_with_some(
    fs: Seq<(Seq<char>, JsonModel)>,
    other: Seq<char>,
    v: Option<JsonModel>,
    name: Seq<char>,
)
    ensures
        other != name ==> json::field_of(json::with_some(fs, other, v), name) == json::field_of(
            fs,
            name,
        ),
        other == name && json::field_of(fs, name) is None ==> json::field_of(
            json::with_some(fs, other, v),
            name,
        ) == v,
    decreases fs.len(),
{
    if v is Some {
        if other != name {
            lemma_field_stays(fs, name, other, v->0);
        } else if json::field_of(fs, name) is None {
            lemma_absent(fs, name);
            lemma_field(fs, name, v->0);
        }
    }
}

proof fn lemma_absent(fs: Seq<(Seq<char>, JsonModel)>, name: Seq<char>)
    requires
        json::field_of(fs, name) is None,
    ensures
        forall|j: int| 0 <= j < fs.len() ==> (#[trigger] fs[j]).0 != name,
    decreases fs.len(),
{
    if fs.len() > 0 {
        let t = fs.skip(1);
        lemma_absent(t, name);
        assert forall|j: int| 0 <= j < fs.len() implies (#[trigger] fs[j]).0 != name by {
            if j > 0 {
                assert(t[j - 1] == fs[j]);
            }
        }
    }
}

proof fn lemma_body_names()
    ensures
        "outputSpeech"@ != "reprompt"@,
        "outputSpeech"@ != "shouldEndSession"@,
        "outputSpeech"@ != "directives"@,
        "outputSpeech"@ != "sessionAttributes"@,
        "reprompt"@ != "shouldEndSession"@,
        "reprompt"@ != "directives"@,
        "reprompt"@ != "sessionAttributes"@,
        "shouldEndSession"@ != "directives"@,
        "shouldEndSession"@ != "sessionAttributes"@,
        "directives"@ != "sessionAttributes"@,
{
    reveal_strlit("outputSpeech");
    reveal_strlit("reprompt");
    reveal_strlit("shouldEndSession");
    reveal_strlit("directives");
    reveal_strlit("sessionAttributes");
    assert("outputSpeech"@.len() == 12);
    assert("reprompt"@.len() == 8);
    assert("shouldEndSession"@.len() == 16);
    assert("directives"@.len() == 10);
    assert("sessionAttributes"@.len() == 17);
}

/// A play directive carries the behavior and the item that it was made of.
pub proof fn law_play_directive(behavior: Seq<char>, item: JsonModel)
    ensures
        ({
            let d = response::play_directive(behavior, item);
            &&& d is Object
            &&& json::field_of(d->Object_0, "type"@) == Some(JsonModel::Text("AudioPlayer.Play"@))
            &&& json::field_of(d->Object_0, "playBehavior"@) == Some(JsonModel::Text(behavior))
            &&& json::field_of(d->Object_0, "audioItem"@) == Some(item)
        }),
{
    reveal_strlit("type");
    reveal_strlit("playBehavior");
    reveal_strlit("audioItem");
    assert("type"@.len() == 4);
    assert("playBehavior"@.len() == 12);
    assert("audioItem"@.len() == 9);
    let d = response::play_directive(behavior, item)->Object_0;
    assert(d.len() == 3);
    json::lemma_field_at(d, "type"@, 0);
    json::lemma_field_at(d, "playBehavior"@, 1);
    json::lemma_field_at(d, "audioItem"@, 2);
}

/// The stream of an item leads to its token below the base URL, starts at the
/// offset where there is one, and names the stream it is expected to follow.
pub proof fn law_stream_item(
    base_url: Seq<char>,
    token: Seq<char>,
    offset_ms: u64,
    expected: Option<(Seq<char>, u64)>,
    title: Seq<char>,
    subtitle: Option<Seq<char>>,
    art_url: Option<Seq<char>>,
)
    ensures
        ({
            let i = response::stream_item_json(
                base_url,
                token,
                offset_ms,
                expected,
                title,
                subtitle,
                art_url,
            );
            let s = json::field_of(i->Object_0, "stream"@);
            let m = json::field_of(i->Object_0, "metadata"@);
            &&& i is Object
            &&& s matches Some(JsonModel::Object(fs)) && {
                &&& json::field_of(fs, "url"@) == Some(
                    JsonModel::Text(base_url + "/stream/"@ + token),
                )
                &&& json::field_of(fs, "token"@) == Some(JsonModel::Text(token))
                &&& json::field_of(fs, "offsetInMilliseconds"@) == if offset_ms > 0 {
                    Some(JsonModel::Number(offset_ms as nat))
                } else {
                    None
                }
                &&& match expected {
                    Some((t, o)) => {
                        &&& json::field_of(fs, "expectedPreviousToken"@) == Some(JsonModel::Text(t))
                        &&& json::field_of(fs, "expectedOffsetInMilliseconds"@) == Some(
                            JsonModel::Number(o as nat),
                        )
                    },
                    None => {
                        &&& json::field_of(fs, "expectedPreviousToken"@) is None
                        &&& json::field_of(fs, "expectedOffsetInMilliseconds"@) is None
                    },
                }
            }
            &&& m matches Some(JsonModel::Object(fs)) && {
                &&& json::field_of(fs, "title"@) == Some(JsonModel::Text(title))
                &&& match subtitle {
                    Some(t) => json::field_of(fs, "subtitle"@) == Some(JsonModel::Text(t)),
                    None => json::field_of(fs, "subtitle"@) is None,
                }
                &&& json::field_of(fs, "art"@) is Some <==> (art_url matches Some(u)
                    && u.len() > 0)
            }
        }),
{
    reveal_strlit("url");
    reveal_strlit("token");
    reveal_strlit("offsetInMilliseconds");
    reveal_strlit("expectedPreviousToken");
    reveal_strlit("expectedOffsetInMilliseconds");
    reveal_strlit("title");
    reveal_strlit("subtitle");
    reveal_strlit("art");
    reveal_strlit("stream");
    reveal_strlit("metadata");
    assert("url"@.len() == 3);
    assert("token"@.len() == 5);
    assert("offsetInMilliseconds"@.len() == 20);
    assert("expectedPreviousToken"@.len() == 21);
    assert("expectedOffsetInMilliseconds"@.len() == 28);
    assert("title"@.len() == 5);
    assert("subtitle"@.len() == 8);
    assert("art"@.len() == 3);
    assert("stream"@.len() == 6);
    assert("metadata"@.len() == 8);
    let i = response::stream_item_json(
        base_url,
        token,
        offset_ms,
        expected,
        title,
        subtitle,
        art_url,
    )->Object_0;
    assert(i.len() == 2);
    json::lemma_field_at(i, "stream"@, 0);
    json::lemma_field_at(i, "metadata"@, 1);
    let off = response::number_json(
        if offset_ms > 0 {
            Some(offset_ms)
        } else {
            None
        },
    );
    let none = response::no_fields();
    let s0 = json::with(none, "url"@, JsonModel::Text(base_url + "/stream/"@ + token));
    let s1 = json::with(s0, "token"@, JsonModel::Text(token));
    let s2 = json::with_some(s1, "offsetInMilliseconds"@, off);
    lemma_names_of_stream(
        none,
        JsonModel::Text(base_url + "/stream/"@ + token),
        JsonModel::Text(token),
        off,
        expected,
    );
    let m0 = json::with(none, "title"@, JsonModel::Text(title));
    let m1 = json::with_some(m0, "subtitle"@, response::text_json(subtitle));
    lemma_no_field(none, "title"@);
    lemma_no_field(none, "subtitle"@);
    lemma_no_field(none, "art"@);
    lemma_with_some(none, "title"@, Some(JsonModel::Text(title)), "title"@);
    lemma_with_some(none, "title"@, Some(JsonModel::Text(title)), "subtitle"@);
    lemma_with_some(none, "title"@, Some(JsonModel::Text(title)), "art"@);
    lemma_with_some(m0, "subtitle"@, response::text_json(subtitle), "title"@);
    lemma_with_some(m0, "subtitle"@, response::text_json(subtitle), "subtitle"@);
    lemma_with_some(m0, "subtitle"@, response::text_json(subtitle), "art"@);
    if art_url is Some && art_url->0.len() > 0 {
        let m = i[1].1->Object_0;
        let art = m[m.len() - 1].1;
        assert(m == json::with_some(m1, "art"@, Some(art)));
        lemma_with_some(m1, "art"@, Some(art), "title"@);
        lemma_with_some(m1, "art"@, Some(art), "subtitle"@);
        lemma_with_some(m1, "art"@, Some(art), "art"@);
    }
}

proof fn lemma_names_of_stream(
    none: Seq<(Seq<char>, JsonModel)>,
    url: JsonModel,
    token: JsonModel,
    off: Option<JsonModel>,
    expected: Option<(Seq<char>, u64)>,
)
    requires
        none.len() == 0,
    ensures
        ({
            let s0 = json::with(none, "url"@, url);
            let s1 = json::with(s0, "token"@, token);
            let s2 = json::with_some(s1, "offsetInMilliseconds"@, off);
            let fs = match expected {
                Some((t, o)) => json::with(
                    json::with(s2, "expectedPreviousToken"@, JsonModel::Text(t)),
                    "expectedOffsetInMilliseconds"@,
                    JsonModel::Number(o as nat),
                ),
                None => s2,
            };
            &&& json::field_of(fs, "url"@) == Some(url)
            &&& json::field_of(fs, "token"@) == Some(token)
            &&& json::field_of(fs, "offsetInMilliseconds"@) == off
            &&& match expected {
                Some((t, o)) => {
                    &&& json::field_of(fs, "expectedPreviousToken"@) == Some(JsonModel::Text(t))
                    &&& json::field_of(fs, "expectedOffsetInMilliseconds"@) == Some(
                        JsonModel::Number(o as nat),
                    )
                },
                None => {
                    &&& json::field_of(fs, "expectedPreviousToken"@) is None
                    &&& json::field_of(fs, "expectedOffsetInMilliseconds"@) is None
                },
            }
        }),
{
    reveal_strlit("url");
    reveal_strlit("token");
    reveal_strlit("offsetInMilliseconds");
    reveal_strlit("expectedPreviousToken");
    reveal_strlit("expectedOffsetInMilliseconds");
    assert("url"@.len() == 3);
    assert("token"@.len() == 5);
    assert("offsetInMilliseconds"@.len() == 20);
    assert("expectedPreviousToken"@.len() == 21);
    assert("expectedOffsetInMilliseconds"@.len() == 28);
    let s0 = json::with(none, "url"@, url);
    let s1 = json::with(s0, "token"@, token);
    let s2 = json::with_some(s1, "offsetInMilliseconds"@, off);
    let fs = match expected {
        Some((t, o)) => json::with(
            json::with(s2, "expectedPreviousToken"@, JsonModel::Text(t)),
            "expectedOffsetInMilliseconds"@,
            JsonModel::Number(o as nat),
        ),
        None => s2,
    };
    json::lemma_field_at(fs, "url"@, 0);
    json::lemma_field_at(fs, "token"@, 1);
    let k: int = if off is Some {
        json::lemma_field_at(fs, "offsetInMilliseconds"@, 2);
        3
    } else {
        lemma_no_field(fs, "offsetInMilliseconds"@);
        2
    };
    if expected is Some {
        json::lemma_field_at(fs, "expectedPreviousToken"@, k);
        json::lemma_field_at(fs, "expectedOffsetInMilliseconds"@, k + 1);
    } else {
        lemma_no_field(fs, "expectedPreviousToken"@);
        lemma_no_field(fs, "expectedOffsetInMilliseconds"@);
    }
}

/// What a response is on the wire: its version and its body. A body has its parts
/// in a fixed order, and of those that are missing no word.
pub proof fn law_response_on_the_wire(
    version: Seq<char>,
    b: BodyModel,
    o: SpeechModel,
    r: SpeechModel,
    attrs: JsonModel,
)
    requires
        b.output_speech == Some(o),
        b.reprompt == Some(r),
        b.session_attributes == Some(attrs),
        b.should_end_session,
        b.directives.len() > 0,
    ensures
        response::response_json((version, b)) == JsonModel::Object(
            seq![("version"@, JsonModel::Text(version)), ("response"@, response::body_json(b))],
        ),
        response::body_json(b) == JsonModel::Object(
            seq![
                ("outputSpeech"@, response::speech_json(o)),
                ("reprompt"@, response::speech_json(r)),
                ("shouldEndSession"@, JsonModel::Bool(true)),
                ("directives"@, JsonModel::List(b.directives)),
                ("sessionAttributes"@, attrs),
            ],
        ),
{
    let all = response::body_json(b)->Object_0;
    assert(all =~= seq![
        ("outputSpeech"@, response::speech_json(o)),
        ("reprompt"@, response::speech_json(r)),
        ("shouldEndSession"@, JsonModel::Bool(true)),
        ("directives"@, JsonModel::List(b.directives)),
        ("sessionAttributes"@, attrs),
    ]);
    let two = response::response_json((version, b))->Object_0;
    assert(two =~= seq![
        ("version"@, JsonModel::Text(version)),
        ("response"@, response::body_json(b)),
    ]);
}

/// A body of which nothing is there says nothing on the wire.
pub proof fn law_empty_body_on_the_wire(b: BodyModel)
    requires
        b.output_speech is None,
        b.reprompt is None,
        b.session_attributes is None,
        !b.should_end_session,
        b.directives.len() == 0,
    ensures
        response::body_json(b) is Object,
        response::body_json(b)->Object_0.len() == 0,
{
}

/// Speech on the wire: marked-up speech and plain text, each under its name.
pub proof fn law_speech_on_the_wire(t: Seq<char>)
    ensures
        response::speech_json(
            SpeechModel { speech_type: SpeechType::Ssml, ssml: Some(t), text: None },
        ) == JsonModel::Object(
            seq![("type"@, JsonModel::Text("SSML"@)), ("ssml"@, JsonModel::Text(t))],
        ),
        response::speech_json(
            SpeechModel { speech_type: SpeechType::PlainText, ssml: None, text: Some(t) },
        ) == JsonModel::Object(
            seq![("type"@, JsonModel::Text("PLAIN_TEXT"@)), ("text"@, JsonModel::Text(t))],
        ),
{
    let a = response::speech_json(
        SpeechModel { speech_type: SpeechType::Ssml, ssml: Some(t), text: None },
    )->Object_0;
    assert(a =~= seq![("type"@, JsonModel::Text("SSML"@)), ("ssml"@, JsonModel::Text(t))]);
    let b = response::speech_json(
        SpeechModel { speech_type: SpeechType::PlainText, ssml: None, text: Some(t) },
    )->Object_0;
    assert(b =~= seq![("type"@, JsonModel::Text("PLAIN_TEXT"@)), ("text"@, JsonModel::Text(t))]);
}

/// The directives without an item: those that are a name alone, and the one that
/// clears the queue.
pub proof fn law_plain_directives(name: Seq<char>)
    ensures
        response::bare_directive(name) == JsonModel::Object(seq![("type"@, JsonModel::Text(name))]),
        response::clear_directive() == JsonModel::Object(
            seq![
                ("type"@, JsonModel::Text("AudioPlayer.ClearQueue"@)),
                ("clearBehavior"@, JsonModel::Text("CLEAR_ALL"@)),
            ],
        ),
{
    assert(response::bare_directive(name)->Object_0 =~= seq![("type"@, JsonModel::Text(name))]);
    assert(response::clear_directive()->Object_0 =~= seq![
        ("type"@, JsonModel::Text("AudioPlayer.ClearQueue"@)),
        ("clearBehavior"@, JsonModel::Text("CLEAR_ALL"@)),
    ]);
}

/// An item on the wire: its stream by address and token, with its offset and the
/// place it follows where they are given, and what is shown with it.
pub proof fn law_item_on_the_wire(i: AudioItem, m: AudioMetadata, a: Art, k: int)
    requires
        i.metadata == Some(m),
        m.art == Some(a),
        0 <= k < a.sources@.len(),
    ensures
        ({
            let fs = response::item_json(i)->Object_0;
            let s = fs[0].1->Object_0;
            let shown = fs[1].1->Object_0;
            let x = i.stream;
            &&& response::item_json(i) is Object && fs.len() == 2
            &&& fs[0].0 == "stream"@ && fs[0].1 is Object
            &&& fs[1].0 == "metadata"@ && fs[1].1 is Object
            &&& s.len() >= 2
            &&& s[0] == ("url"@, JsonModel::Text(x.url@))
            &&& s[1] == ("token"@, JsonModel::Text(x.token@))
            &&& x.offset_in_milliseconds is None && x.expected_previous_token is None
                && x.expected_offset_in_milliseconds is None ==> s.len() == 2
            &&& x.offset_in_milliseconds matches Some(o) ==> (
            x.expected_previous_token matches Some(t) ==> (
            x.expected_offset_in_milliseconds matches Some(p) ==> s.len() == 5 && s[2] == (
                "offsetInMilliseconds"@,
                JsonModel::Number(o as nat),
            ) && s[3] == ("expectedPreviousToken"@, JsonModel::Text(t@)) && s[4] == (
                "expectedOffsetInMilliseconds"@,
                JsonModel::Number(p as nat),
            )))
            &&& shown[0] == ("title"@, JsonModel::Text(m.title@))
            &&& m.subtitle matches Some(t) ==> shown.len() == 3 && shown[1] == (
                "subtitle"@,
                JsonModel::Text(t@),
            ) && shown[2] == ("art"@, response::art_json(a))
            &&& m.subtitle is None ==> shown.len() == 2 && shown[1] == (
                "art"@,
                response::art_json(a),
            )
            &&& response::art_json(a)->Object_0.len() == 1
            &&& response::art_json(a)->Object_0[0].0 == "sources"@
            &&& response::art_json(a)->Object_0[0].1 matches JsonModel::List(v) && v.len()
                == a.sources@.len() && v[k] == response::art_source_json(a.sources@[k])
        }),
{
}

/// A picture on the wire: its address, and its size where it is given.
pub proof fn law_picture_on_the_wire(s: ArtSource, w: u32, h: u32)
    ensures
        ({
            let fs = response::art_source_json(s)->Object_0;
            &&& fs[0] == ("url"@, JsonModel::Text(s.url@))
            &&& s.width_pixels is None && s.height_pixels is None ==> fs.len() == 1
            &&& s.width_pixels == Some(w) && s.height_pixels == Some(h) ==> fs.len() == 3 && fs[1]
                == ("widthPixels"@, JsonModel::Number(w as nat)) && fs[2] == (
                "heightPixels"@,
                JsonModel::Number(h as nat),
            )
        }),
{
}

// ── Times of a jump ────────────────────────────────────────────────────────

/// Where the value of a time slot says no time, the first of its listed values
/// that says one counts.
pub proof fn law_first_listed_time_counts(env: Envelope, i: int)
    requires
        is_named(env, "SeekIntent"@),
        env.slot_value("time"@) matches Some(v) ==> intent::time_millis(v) is None,
        0 <= i < env.slot_list("time"@).len(),
        intent::time_millis(env.slot_list("time"@)[i]) is Some,
        forall|j: int|
            0 <= j < i ==> intent::time_millis(#[trigger] env.slot_list("time"@)[j]) is None,
    ensures
        intent::seek_millis(env) == intent::time_millis(env.slot_list("time"@)[i]),
{
    lemma_first_time_at(env.slot_list("time"@), i);
}

proof fn lemma_first_time_at(vs: Seq<Seq<char>>, i: int)
    requires
        0 <= i < vs.len(),
        intent::time_millis(vs[i]) is Some,
        forall|j: int| 0 <= j < i ==> intent::time_millis(#[trigger] vs[j]) is None,
    ensures
        intent::first_time(vs) == intent::time_millis(vs[i]),
    decreases vs.len(),
{
    if i > 0 {
        assert(intent::time_millis(vs[0]) is None);
        let rest = vs.skip(1);
        assert forall|j: int| 0 <= j < i - 1 implies intent::time_millis(
            #[trigger] rest[j],
        ) is None by {
            assert(rest[j] == vs[j + 1]);
        }
        lemma_first_time_at(rest, i - 1);
    }
}

/// What an intent asks the agent: its utterance, where it has one.
pub proof fn law_questions(k: IntentKind)
    ensures
        match k {
            IntentKind::Ask { utterance } => k.question() == Some(utterance@),
            IntentKind::Fallback { utterance } => match utterance {
                Some(u) => k.question() == Some(u@),
                None => k.question() is None,
            },
            _ => k.question() is None,
        },
{
}

} // verus!
