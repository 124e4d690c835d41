//! Builders for ASK v1 responses.
//!
//! Responses are camelCase JSON; the builder keeps them ergonomic and
//! `to_json` keeps the wire format explicit.

use vstd::prelude::*;

use crate::alexa::ssml;
use crate::json::Json;
use crate::json::JsonModel;
use crate::json::copy_json;
use crate::json::copy_list;
use crate::json::put;
use crate::json;
use crate::text::chars::concat3;
use crate::text::chars::owned;
use crate::text::chars::owned_opt;
use crate::text::chars::to_chars;
use crate::text::chars;
use crate::text::trim::is_blank;
use crate::text::trim;

verus! {

broadcast use vstd::seq::group_seq_axioms;

/// A complete response to send back to Amazon.
#[derive(Debug)]
pub struct Response {
    pub version: String,
    pub response: ResponseBody,
}

#[derive(Debug)]
pub struct ResponseBody {
    pub output_speech: Option<OutputSpeech>,
    pub reprompt: Option<OutputSpeech>,
    pub should_end_session: bool,
    pub directives: Vec<Json>,
    pub session_attributes: Option<Json>,
}

#[derive(Debug, Clone)]
pub struct OutputSpeech {
    pub speech_type: SpeechType,
    pub ssml: Option<String>,
    pub text: Option<String>,
}

#[derive(Debug, Clone, Copy, PartialEq, Eq, Structural)]
pub enum SpeechType {
    Ssml,
    PlainText,
}

/// AudioPlayer stream descriptor.
#[derive(Debug, Clone)]
pub struct Stream {
    pub url: String,
    pub token: String,
    pub offset_in_milliseconds: Option<u64>,
    pub expected_previous_token: Option<String>,
    pub expected_offset_in_milliseconds: Option<u64>,
}

#[derive(Debug, Clone)]
pub struct AudioItem {
    pub stream: Stream,
    pub metadata: Option<AudioMetadata>,
}

#[derive(Debug, Clone)]
pub struct AudioMetadata {
    pub title: String,
    pub subtitle: Option<String>,
    pub art: Option<Art>,
}

#[derive(Debug, Clone)]
pub struct Art {
    pub sources: Vec<ArtSource>,
}

#[derive(Debug, Clone)]
pub struct ArtSource {
    pub url: String,
    pub width_pixels: Option<u32>,
    pub height_pixels: Option<u32>,
}

/// Fluent builder for [`Response`].
#[derive(Debug)]
pub struct ResponseBuilder {
    pub body: ResponseBody,
}

// ── What the values say ────────────────────────────────────────────────────

/// What an output speech says.
pub struct SpeechModel {
    pub speech_type: SpeechType,
    pub ssml: Option<Seq<char>>,
    pub text: Option<Seq<char>>,
}

/// What a response body says.
pub struct BodyModel {
    pub output_speech: Option<SpeechModel>,
    pub reprompt: Option<SpeechModel>,
    pub should_end_session: bool,
    pub directives: Seq<JsonModel>,
    pub session_attributes: Option<JsonModel>,
}

impl View for OutputSpeech {
    type V = SpeechModel;

    open spec fn view(&self) -> SpeechModel {
        SpeechModel {
            speech_type: self.speech_type,
            ssml: chars::opt_text(self.ssml),
            text: chars::opt_text(self.text),
        }
    }
}

/// What an optional output speech says.
pub open spec fn opt_speech(o: Option<OutputSpeech>) -> Option<SpeechModel> {
    match o {
        Some(s) => Some(s@),
        None => None,
    }
}

impl View for ResponseBody {
    type V = BodyModel;

    open spec fn view(&self) -> BodyModel {
        BodyModel {
            output_speech: opt_speech(self.output_speech),
            reprompt: opt_speech(self.reprompt),
            should_end_session: self.should_end_session,
            directives: json::list_model(self.directives@),
            session_attributes: json::option_model(self.session_attributes),
        }
    }
}

impl View for ResponseBuilder {
    type V = BodyModel;

    open spec fn view(&self) -> BodyModel {
        self.body@
    }
}

impl View for Response {
    type V = (Seq<char>, BodyModel);

    open spec fn view(&self) -> (Seq<char>, BodyModel) {
        (self.version@, self.response@)
    }
}

/// The body that a fresh builder holds: nothing is said and the session stays
/// open.
pub open spec fn empty_body() -> BodyModel {
    BodyModel {
        output_speech: None,
        reprompt: None,
        should_end_session: false,
        directives: seq![],
        session_attributes: None,
    }
}

/// The response that a body makes.
pub open spec fn built(body: BodyModel) -> (Seq<char>, BodyModel) {
    ("1.0"@, body)
}

/// A body that also speaks a text, unless the text is blank.
pub open spec fn saying(body: BodyModel, text: Seq<char>) -> BodyModel {
    if trim::blank(text) {
        body
    } else {
        BodyModel {
            output_speech: Some(
                SpeechModel { speech_type: SpeechType::Ssml, ssml: Some(ssml::spoken(text)), text: None },
            ),
            ..body
        }
    }
}

/// A body that ends the session.
pub open spec fn ending(body: BodyModel) -> BodyModel {
    BodyModel { should_end_session: true, ..body }
}

/// A body with one more directive.
pub open spec fn directing(body: BodyModel, dir: JsonModel) -> BodyModel {
    BodyModel { directives: body.directives.push(dir), ..body }
}

/// The response that speaks a text and ends the session.
pub open spec fn said(text: Seq<char>) -> (Seq<char>, BodyModel) {
    built(ending(saying(empty_body(), text)))
}

/// The response that says nothing and ends the session.
pub open spec fn silent() -> (Seq<char>, BodyModel) {
    built(ending(empty_body()))
}

// ── The wire format ────────────────────────────────────────────────────────

/// The fields of an object without any.
pub open spec fn no_fields() -> Seq<(Seq<char>, JsonModel)> {
    seq![]
}

/// The JSON of an optional text.
pub open spec fn text_json(o: Option<Seq<char>>) -> Option<JsonModel> {
    match o {
        Some(s) => Some(JsonModel::Text(s)),
        None => None,
    }
}

/// The JSON of an optional number.
pub open spec fn number_json(o: Option<u64>) -> Option<JsonModel> {
    match o {
        Some(n) => Some(JsonModel::Number(n as nat)),
        None => None,
    }
}

/// The JSON of an optional pixel count.
pub open spec fn pixels_json(o: Option<u32>) -> Option<JsonModel> {
    match o {
        Some(n) => Some(JsonModel::Number(n as nat)),
        None => None,
    }
}

/// The wire name of a speech type.
pub open spec fn speech_type_name(t: SpeechType) -> Seq<char> {
    match t {
        SpeechType::Ssml => "SSML"@,
        SpeechType::PlainText => "PLAIN_TEXT"@,
    }
}

/// The JSON of an output speech.
pub open spec fn speech_json(s: SpeechModel) -> JsonModel {
    let f = json::with(no_fields(), "type"@, JsonModel::Text(speech_type_name(s.speech_type)));
    let f = json::with_some(f, "ssml"@, text_json(s.ssml));
    JsonModel::Object(json::with_some(f, "text"@, text_json(s.text)))
}

/// The JSON of an optional output speech.
pub open spec fn opt_speech_json(o: Option<SpeechModel>) -> Option<JsonModel> {
    match o {
        Some(s) => Some(speech_json(s)),
        None => None,
    }
}

/// The JSON of a response body: what is absent, an open session and an empty
/// list of directives are left out.
pub open spec fn body_json(b: BodyModel) -> JsonModel {
    let f = json::with_some(no_fields(), "outputSpeech"@, opt_speech_json(b.output_speech));
    let f = json::with_some(f, "reprompt"@, opt_speech_json(b.reprompt));
    let f = json::with_some(
        f,
        "shouldEndSession"@,
        if b.should_end_session {
            Some(JsonModel::Bool(true))
        } else {
            None
        },
    );
    let f = json::with_some(
        f,
        "directives"@,
        if b.directives.len() > 0 {
            Some(JsonModel::List(b.directives))
        } else {
            None
        },
    );
    JsonModel::Object(json::with_some(f, "sessionAttributes"@, b.session_attributes))
}

/// The JSON of a response.
pub open spec fn response_json(r: (Seq<char>, BodyModel)) -> JsonModel {
    let f = json::with(no_fields(), "version"@, JsonModel::Text(r.0));
    JsonModel::Object(json::with(f, "response"@, body_json(r.1)))
}

/// The JSON of a stream descriptor.
pub open spec fn stream_json(s: Stream) -> JsonModel {
    let f = json::with(no_fields(), "url"@, JsonModel::Text(s.url@));
    let f = json::with(f, "token"@, JsonModel::Text(s.token@));
    let f = json::with_some(f, "offsetInMilliseconds"@, number_json(s.offset_in_milliseconds));
    let f = json::with_some(
        f,
        "expectedPreviousToken"@,
        text_json(chars::opt_text(s.expected_previous_token)),
    );
    JsonModel::Object(
        json::with_some(
            f,
            "expectedOffsetInMilliseconds"@,
            number_json(s.expected_offset_in_milliseconds),
        ),
    )
}

/// The JSON of one source of an image.
pub open spec fn art_source_json(s: ArtSource) -> JsonModel {
    let f = json::with(no_fields(), "url"@, JsonModel::Text(s.url@));
    let f = json::with_some(f, "widthPixels"@, pixels_json(s.width_pixels));
    JsonModel::Object(json::with_some(f, "heightPixels"@, pixels_json(s.height_pixels)))
}

/// The JSON of an image.
pub open spec fn art_json(a: Art) -> JsonModel {
    JsonModel::Object(
        json::with(
            no_fields(),
            "sources"@,
            JsonModel::List(Seq::new(a.sources@.len(), |i: int| art_source_json(a.sources@[i]))),
        ),
    )
}

/// The JSON of what a player shows.
pub open spec fn metadata_json(m: AudioMetadata) -> JsonModel {
    let f = json::with(no_fields(), "title"@, JsonModel::Text(m.title@));
    let f = json::with_some(f, "subtitle"@, text_json(chars::opt_text(m.subtitle)));
    JsonModel::Object(
        json::with_some(
            f,
            "art"@,
            match m.art {
                Some(a) => Some(art_json(a)),
                None => None,
            },
        ),
    )
}

/// The JSON of an audio item.
pub open spec fn item_json(i: AudioItem) -> JsonModel {
    let f = json::with(no_fields(), "stream"@, stream_json(i.stream));
    JsonModel::Object(
        json::with_some(
            f,
            "metadata"@,
            match i.metadata {
                Some(m) => Some(metadata_json(m)),
                None => None,
            },
        ),
    )
}

/// The JSON of the item that streams `token` below `base_url`.
pub open spec fn stream_item_json(
    base_url: Seq<char>,
    token: Seq<char>,
    offset_ms: u64,
    expected: Option<(Seq<char>, u64)>,
    title: Seq<char>,
    subtitle: Option<Seq<char>>,
    art_url: Option<Seq<char>>,
) -> JsonModel {
    let f = json::with(no_fields(), "url"@, JsonModel::Text(base_url + "/stream/"@ + token));
    let f = json::with(f, "token"@, JsonModel::Text(token));
    let f = json::with_some(
        f,
        "offsetInMilliseconds"@,
        number_json(
            if offset_ms > 0 {
                Some(offset_ms)
            } else {
                None
            },
        ),
    );
    let stream = match expected {
        Some((t, o)) => json::with(
            json::with(f, "expectedPreviousToken"@, JsonModel::Text(t)),
            "expectedOffsetInMilliseconds"@,
            JsonModel::Number(o as nat),
        ),
        None => f,
    };
    let m = json::with(no_fields(), "title"@, JsonModel::Text(title));
    let m = json::with_some(m, "subtitle"@, text_json(subtitle));
    let m = match art_url {
        Some(u) => if u.len() > 0 {
            let source = JsonModel::Object(json::with(no_fields(), "url"@, JsonModel::Text(u)));
            json::with(
                m,
                "art"@,
                JsonModel::Object(
                    json::with(no_fields(), "sources"@, JsonModel::List(seq![source])),
                ),
            )
        } else {
            m
        },
        None => m,
    };
    let i = json::with(no_fields(), "stream"@, JsonModel::Object(stream));
    JsonModel::Object(json::with(i, "metadata"@, JsonModel::Object(m)))
}

/// What an optional token and offset say.
pub open spec fn opt_place(o: Option<(&str, u64)>) -> Option<(Seq<char>, u64)> {
    match o {
        Some((t, n)) => Some((t@, n)),
        None => None,
    }
}

/// The directive that plays an item.
pub open spec fn play_directive(behavior: Seq<char>, item: JsonModel) -> JsonModel {
    let f = json::with(no_fields(), "type"@, JsonModel::Text("AudioPlayer.Play"@));
    let f = json::with(f, "playBehavior"@, JsonModel::Text(behavior));
    JsonModel::Object(json::with(f, "audioItem"@, item))
}

/// The directive that is its type alone.
pub open spec fn bare_directive(name: Seq<char>) -> JsonModel {
    JsonModel::Object(json::with(no_fields(), "type"@, JsonModel::Text(name)))
}

/// The directive that empties the device's queue.
pub open spec fn clear_directive() -> JsonModel {
    let f = json::with(no_fields(), "type"@, JsonModel::Text("AudioPlayer.ClearQueue"@));
    JsonModel::Object(json::with(f, "clearBehavior"@, JsonModel::Text("CLEAR_ALL"@)))
}

fn put_text(fields: &mut Vec<(String, Json)>, name: &str, value: &Option<String>)
    ensures
        json::fields_model(final(fields)@) == json::with_some(
            json::fields_model(old(fields)@),
            name@,
            text_json(chars::opt_text(*value)),
        ),
{
    match value {
        Some(s) => put(fields, name, json::text(s.as_str())),
        None => {},
    }
}

fn put_number(fields: &mut Vec<(String, Json)>, name: &str, value: Option<u64>)
    ensures
        json::fields_model(final(fields)@) == json::with_some(
            json::fields_model(old(fields)@),
            name@,
            number_json(value),
        ),
{
    match value {
        Some(n) => put(fields, name, Json::Number(n)),
        None => {},
    }
}

fn fields() -> (r: Vec<(String, Json)>)
    ensures
        json::fields_model(r@) == no_fields(),
{
    Vec::new()
}

impl OutputSpeech {
    /// The JSON of an output speech.
    pub fn to_json(&self) -> (r: Json)
        ensures
            r@ == speech_json(self@),
    {
        let mut f = fields();
        let name = match self.speech_type {
            SpeechType::Ssml => "SSML",
            SpeechType::PlainText => "PLAIN_TEXT",
        };
        put(&mut f, "type", json::text(name));
        put_text(&mut f, "ssml", &self.ssml);
        put_text(&mut f, "text", &self.text);
        json::object(f)
    }

    /// A copy of an output speech.
    pub fn copy(&self) -> (r: Self)
        ensures
            r@ == self@,
    {
        OutputSpeech {
            speech_type: self.speech_type,
            ssml: owned_opt(chars::borrow_opt(&self.ssml)),
            text: owned_opt(chars::borrow_opt(&self.text)),
        }
    }
}

impl Stream {
    /// The JSON of a stream descriptor.
    pub fn to_json(&self) -> (r: Json)
        ensures
            r@ == stream_json(*self),
    {
        let mut f = fields();
        put(&mut f, "url", json::text(self.url.as_str()));
        put(&mut f, "token", json::text(self.token.as_str()));
        put_number(&mut f, "offsetInMilliseconds", self.offset_in_milliseconds);
        put_text(&mut f, "expectedPreviousToken", &self.expected_previous_token);
        put_number(
            &mut f,
            "expectedOffsetInMilliseconds",
            self.expected_offset_in_milliseconds,
        );
        json::object(f)
    }
}

impl ArtSource {
    /// The JSON of one source of an image.
    pub fn to_json(&self) -> (r: Json)
        ensures
            r@ == art_source_json(*self),
    {
        let mut f = fields();
        put(&mut f, "url", json::text(self.url.as_str()));
        match self.width_pixels {
            Some(n) => put(&mut f, "widthPixels", Json::Number(n as u64)),
            None => {},
        }
        match self.height_pixels {
            Some(n) => put(&mut f, "heightPixels", Json::Number(n as u64)),
            None => {},
        }
        json::object(f)
    }
}

impl Art {
    /// The JSON of an image.
    pub fn to_json(&self) -> (r: Json)
        ensures
            r@ == art_json(*self),
    {
        let mut out: Vec<Json> = Vec::new();
        let mut i: usize = 0;
        let ghost all = Seq::new(self.sources@.len(), |i: int| art_source_json(self.sources@[i]));
        assert(json::list_model(out@) =~= all.take(0));
        while i < self.sources.len()
            invariant
                i <= self.sources@.len(),
                all == Seq::new(self.sources@.len(), |i: int| art_source_json(self.sources@[i])),
                json::list_model(out@) == all.take(i as int),
            decreases self.sources@.len() - i,
        {
            let j = self.sources[i].to_json();
            let ghost before = out@;
            out.push(j);
            assert(out@.drop_last() == before);
            assert(all.take(i + 1) == all.take(i as int).push(all[i as int]));
            i = i + 1;
        }
        assert(all.take(i as int) == all);
        let mut f = fields();
        put(&mut f, "sources", json::list(out));
        json::object(f)
    }
}

impl AudioMetadata {
    /// The JSON of what a player shows.
    pub fn to_json(&self) -> (r: Json)
        ensures
            r@ == metadata_json(*self),
    {
        let mut f = fields();
        put(&mut f, "title", json::text(self.title.as_str()));
        put_text(&mut f, "subtitle", &self.subtitle);
        match &self.art {
            Some(a) => put(&mut f, "art", a.to_json()),
            None => {},
        }
        json::object(f)
    }
}

impl AudioItem {
    /// The JSON of an audio item.
    pub fn to_json(&self) -> (r: Json)
        ensures
            r@ == item_json(*self),
    {
        let mut f = fields();
        put(&mut f, "stream", self.stream.to_json());
        match &self.metadata {
            Some(m) => put(&mut f, "metadata", m.to_json()),
            None => {},
        }
        json::object(f)
    }
}

impl ResponseBody {
    /// The JSON of a response body.
    pub fn to_json(&self) -> (r: Json)
        ensures
            r@ == body_json(self@),
    {
        let mut f = fields();
        match &self.output_speech {
            Some(s) => put(&mut f, "outputSpeech", s.to_json()),
            None => {},
        }
        match &self.reprompt {
            Some(s) => put(&mut f, "reprompt", s.to_json()),
            None => {},
        }
        if self.should_end_session {
            put(&mut f, "shouldEndSession", Json::Bool(true));
        }
        proof {
            json::lemma_list_model(self.directives@);
        }
        if self.directives.len() > 0 {
            put(&mut f, "directives", json::list(copy_list(&self.directives)));
        }
        match &self.session_attributes {
            Some(a) => put(&mut f, "sessionAttributes", copy_json(a)),
            None => {},
        }
        json::object(f)
    }

    /// A copy of a response body.
    pub fn copy(&self) -> (r: Self)
        ensures
            r@ == self@,
    {
        ResponseBody {
            output_speech: match &self.output_speech {
                Some(s) => Some(s.copy()),
                None => None,
            },
            reprompt: match &self.reprompt {
                Some(s) => Some(s.copy()),
                None => None,
            },
            should_end_session: self.should_end_session,
            directives: copy_list(&self.directives),
            session_attributes: match &self.session_attributes {
                Some(a) => Some(copy_json(a)),
                None => None,
            },
        }
    }
}

// ── The builder ────────────────────────────────────────────────────────────

impl ResponseBuilder {
    /// A builder that says nothing yet.
    pub fn new() -> (r: Self)
        ensures
            r@ == empty_body(),
    {
        ResponseBuilder {
            body: ResponseBody {
                output_speech: None,
                reprompt: None,
                should_end_session: false,
                directives: Vec::new(),
                session_attributes: None,
            },
        }
    }

    /// Speak `text` through Amazon TTS (markdown stripped, SSML-escaped).
    pub fn say(&mut self, text: &str) -> (r: &mut Self)
        ensures
            *final(self) == *final(r),
            (*r)@ == saying(old(self)@, text@),
    {
        if !is_blank(to_chars(text).as_slice()) {
            self.body.output_speech = Some(
                OutputSpeech {
                    speech_type: SpeechType::Ssml,
                    ssml: Some(ssml::speak(text)),
                    text: None,
                },
            );
        }
        self
    }

    /// Speak raw text without SSML escaping (caller controls the format).
    pub fn say_raw_ssml(&mut self, ssml: &str) -> (r: &mut Self)
        ensures
            *final(self) == *final(r),
            (*r)@ == (BodyModel {
                output_speech: Some(
                    SpeechModel {
                        speech_type: SpeechType::Ssml,
                        ssml: Some(ssml::wrapped(ssml@)),
                        text: None,
                    },
                ),
                ..old(self)@
            }),
    {
        self.body.output_speech = Some(
            OutputSpeech {
                speech_type: SpeechType::Ssml,
                ssml: Some(ssml::wrap(ssml)),
                text: None,
            },
        );
        self
    }

    /// Say `text` again when the user does not answer.
    pub fn reprompt(&mut self, text: &str) -> (r: &mut Self)
        ensures
            *final(self) == *final(r),
            (*r)@ == (BodyModel {
                reprompt: Some(
                    SpeechModel { speech_type: SpeechType::PlainText, ssml: None, text: Some(text@) },
                ),
                ..old(self)@
            }),
    {
        self.body.reprompt = Some(
            OutputSpeech { speech_type: SpeechType::PlainText, ssml: None, text: Some(owned(text)) },
        );
        self
    }

    /// End the session with this response.
    pub fn end_session(&mut self) -> (r: &mut Self)
        ensures
            *final(self) == *final(r),
            (*r)@ == ending(old(self)@),
    {
        self.body.should_end_session = true;
        self
    }

    /// Keep the session open after this response.
    pub fn open_session(&mut self) -> (r: &mut Self)
        ensures
            *final(self) == *final(r),
            (*r)@ == (BodyModel { should_end_session: false, ..old(self)@ }),
    {
        self.body.should_end_session = false;
        self
    }

    /// Attach attributes that come back with the next request of the session.
    pub fn session_attributes(&mut self, attrs: Json) -> (r: &mut Self)
        ensures
            *final(self) == *final(r),
            (*r)@ == (BodyModel { session_attributes: Some(attrs@), ..old(self)@ }),
    {
        self.body.session_attributes = Some(attrs);
        self
    }

    /// AudioPlayer.Play with REPLACE_ALL.
    pub fn play_audio(&mut self, item: AudioItem) -> (r: &mut Self)
        ensures
            *final(self) == *final(r),
            (*r)@ == directing(
                old(self)@,
                play_directive("REPLACE_ALL"@, item_json(item)),
            ),
    {
        self.play("REPLACE_ALL", item)
    }

    /// AudioPlayer.Play with REPLACE_ENQUEUED (keeps what is playing queued).
    pub fn enqueue_audio(&mut self, item: AudioItem) -> (r: &mut Self)
        ensures
            *final(self) == *final(r),
            (*r)@ == directing(
                old(self)@,
                play_directive("REPLACE_ENQUEUED"@, item_json(item)),
            ),
    {
        self.play("REPLACE_ENQUEUED", item)
    }

    fn play(&mut self, behavior: &str, item: AudioItem) -> (r: &mut Self)
        ensures
            *final(self) == *final(r),
            (*r)@ == directing(old(self)@, play_directive(behavior@, item_json(item))),
    {
        let mut f = fields();
        put(&mut f, "type", json::text("AudioPlayer.Play"));
        put(&mut f, "playBehavior", json::text(behavior));
        put(&mut f, "audioItem", item.to_json());
        self.directive(json::object(f))
    }

    /// AudioPlayer.Pause.
    pub fn pause_audio(&mut self) -> (r: &mut Self)
        ensures
            *final(self) == *final(r),
            (*r)@ == directing(old(self)@, bare_directive("AudioPlayer.Pause"@)),
    {
        let mut f = fields();
        put(&mut f, "type", json::text("AudioPlayer.Pause"));
        self.directive(json::object(f))
    }

    /// AudioPlayer.Stop.
    pub fn stop_audio(&mut self) -> (r: &mut Self)
        ensures
            *final(self) == *final(r),
            (*r)@ == directing(old(self)@, bare_directive("AudioPlayer.Stop"@)),
    {
        let mut f = fields();
        put(&mut f, "type", json::text("AudioPlayer.Stop"));
        self.directive(json::object(f))
    }

    /// AudioPlayer.ClearQueue.
    pub fn clear_queue(&mut self) -> (r: &mut Self)
        ensures
            *final(self) == *final(r),
            (*r)@ == directing(old(self)@, clear_directive()),
    {
        let mut f = fields();
        put(&mut f, "type", json::text("AudioPlayer.ClearQueue"));
        put(&mut f, "clearBehavior", json::text("CLEAR_ALL"));
        self.directive(json::object(f))
    }

    /// Append a directive.
    pub fn directive(&mut self, dir: Json) -> (r: &mut Self)
        ensures
            *final(self) == *final(r),
            (*r)@ == directing(old(self)@, dir@),
    {
        self.body.directives.push(dir);
        assert(self.body.directives@.drop_last() == old(self).body.directives@);
        self
    }

    /// The response built so far.
    pub fn build(&self) -> (r: Response)
        ensures
            r@ == built(self@),
    {
        Response { version: owned("1.0"), response: self.body.copy() }
    }
}

impl Default for ResponseBuilder {
    fn default() -> (r: Self)
        ensures
            r@ == empty_body(),
    {
        ResponseBuilder::new()
    }
}

impl Response {
    /// Empty response (required shape for session-ended / player reports that
    /// need no speech or directives).
    pub fn empty() -> (r: Self)
        ensures
            r@ == silent(),
    {
        let mut b = ResponseBuilder::new();
        b.end_session();
        b.build()
    }

    /// The response that speaks `text` and ends the session.
    pub fn saying(text: &str) -> (r: Self)
        ensures
            r@ == said(text@),
    {
        let mut b = ResponseBuilder::new();
        b.say(text);
        b.end_session();
        b.build()
    }

    /// Serialize to the JSON Amazon expects.
    pub fn to_json(&self) -> (r: Json)
        ensures
            r@ == response_json(self@),
    {
        let mut f = fields();
        put(&mut f, "version", json::text(self.version.as_str()));
        put(&mut f, "response", self.response.to_json());
        json::object(f)
    }
}

/// Build an AudioItem for a library/radio stream.
pub fn audio_item(
    base_url: &str,
    token: &str,
    offset_ms: u64,
    expected: Option<(&str, u64)>,
    title: &str,
    subtitle: Option<&str>,
    art_url: Option<String>,
) -> (r: AudioItem)
    ensures
        item_json(r) == stream_item_json(
            base_url@,
            token@,
            offset_ms,
            opt_place(expected),
            title@,
            chars::opt_str(subtitle),
            chars::opt_text(art_url),
        ),
        r.stream.url@ == base_url@ + "/stream/"@ + token@,
        r.stream.token@ == token@,
{
    let stream = Stream {
        url: concat3(base_url, "/stream/", token),
        token: owned(token),
        offset_in_milliseconds: if offset_ms > 0 {
            Some(offset_ms)
        } else {
            None
        },
        expected_previous_token: match expected {
            Some((t, _o)) => Some(owned(t)),
            None => None,
        },
        expected_offset_in_milliseconds: match expected {
            Some((_t, o)) => Some(o),
            None => None,
        },
    };
    let art = match art_url {
        Some(u) => if to_chars(u.as_str()).len() > 0 {
            let mut sources: Vec<ArtSource> = Vec::new();
            sources.push(ArtSource { url: u, width_pixels: None, height_pixels: None });
            proof {
                let listed = Seq::new(sources@.len(), |i: int| art_source_json(sources@[i]));
                let source = JsonModel::Object(json::with(no_fields(), "url"@, JsonModel::Text(u@)));
                assert(listed =~= seq![source]);
            }
            Some(Art { sources })
        } else {
            None
        },
        None => None,
    };
    let metadata = AudioMetadata { title: owned(title), subtitle: owned_opt(subtitle), art };
    AudioItem { stream, metadata: Some(metadata) }
}

} // verus!
