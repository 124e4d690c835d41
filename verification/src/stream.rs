//! What the HTTP endpoints decide: which requests count, which stream a token
//! leads to, where a file stream starts, and what the health report says.

use vstd::prelude::*;

use crate::alexa::request::Envelope;
use crate::alexa::response::Response;
use crate::alexa::response;
use crate::audio::library::Format;
use crate::audio::library;
use crate::audio::registry::SourceModel;
use crate::audio::registry::StreamSource;
use crate::audio::registry::looks_like_token;
use crate::audio::registry;
use crate::config::ServerConfig;
use crate::json::Json;
use crate::json::JsonModel;
use crate::json::put;
use crate::json;
use crate::router::action::Action;
use crate::router::action::ActionModel;
use crate::router::action;
use crate::router::dispatch;
use crate::state::AppModel;
use crate::state::AppState;
use crate::text::chars::owned;
use crate::text::chars::same_text;
use crate::text::chars::to_chars;
use crate::text::chars;
use crate::text::find::starts_with;
use crate::text::number::parse_u64;
use crate::text::number;
use crate::text::split;
use crate::text::trim;

verus! {

broadcast use {vstd::seq::group_seq_axioms, vstd::slice::group_slice_axioms};

// ── The skill endpoint ─────────────────────────────────────────────────────

/// The request comes from the configured skill, or it cannot be told.
pub open spec fn from_own_skill(server: ServerConfig, env: Envelope) -> bool {
    match (server.client_id, env.application()) {
        (Some(want), Some(got)) => got == want@,
        _ => true,
    }
}

/// Client-id check (prevents other skills hitting this endpoint).
pub fn accepts(server: &ServerConfig, env: &Envelope) -> (r: bool)
    ensures
        r == from_own_skill(*server, *env),
{
    match (&server.client_id, env.application_id()) {
        (Some(want), Some(got)) => same_text(got, want.as_str()),
        _ => true,
    }
}

/// The silent end of a session.
pub open spec fn silent_end() -> ActionModel {
    ActionModel::Reply { response: response::silent(), save: false }
}

/// What to do for a request to the skill endpoint. One that cannot be read, or
/// that another skill sends, is met with silence.
pub fn handle_alexa(st: &mut AppState, env: Option<&Envelope>, now: u128) -> (r: Action)
    requires
        env matches Some(e) ==> from_own_skill(old(st).cfg.server, *e) ==> dispatch::answerable(
            old(st)@,
            *e,
        ),
    ensures
        match env {
            Some(e) => if from_own_skill(old(st).cfg.server, *e) {
                exists|token: Seq<char>, picks: Seq<usize>|
                    {
                        &&& registry::is_issued(token)
                        &&& action::enough_picks(old(st)@, dispatch::request_device(*e), picks)
                        &&& (final(st)@, r@) == #[trigger] dispatch::request_handled(
                            old(st)@,
                            *e,
                            token,
                            picks,
                            now,
                        )
                    }
            } else {
                final(st)@ == old(st)@ && r@ == silent_end()
            },
            None => final(st)@ == old(st)@ && r@ == silent_end(),
        },
        old(st)@.well_formed() ==> final(st)@.well_formed(),
{
    match env {
        Some(e) => {
            if accepts(&st.cfg.server, e) {
                dispatch::handle_alexa(st, e, now)
            } else {
                Action::Reply { response: Response::empty(), save: false }
            }
        },
        None => Action::Reply { response: Response::empty(), save: false },
    }
}

// ── Streams ────────────────────────────────────────────────────────────────

/// Where a stream request leads.
#[derive(Debug)]
pub enum StreamTarget {
    /// The path is no token.
    NotFound,
    /// The token is unknown, or its time is over.
    Expired,
    File { path: String, format: Format, offset_ms: u64, avg_bitrate_kbps: u32 },
    Radio { url: String },
}

/// What a stream target says.
pub enum TargetModel {
    NotFound,
    Expired,
    File { path: Seq<char>, format: Format, offset_ms: u64, avg_bitrate_kbps: u32 },
    Radio { url: Seq<char> },
}

impl View for StreamTarget {
    type V = TargetModel;

    open spec fn view(&self) -> TargetModel {
        match *self {
            StreamTarget::NotFound => TargetModel::NotFound,
            StreamTarget::Expired => TargetModel::Expired,
            StreamTarget::File { path, format, offset_ms, avg_bitrate_kbps } => TargetModel::File {
                path: path@,
                format,
                offset_ms,
                avg_bitrate_kbps,
            },
            StreamTarget::Radio { url } => TargetModel::Radio { url: url@ },
        }
    }
}

/// Where a source leads.
pub open spec fn source_target(s: SourceModel) -> TargetModel {
    match s {
        SourceModel::File { path, format, offset_ms, avg_bitrate_kbps, .. } => TargetModel::File {
            path,
            format,
            offset_ms,
            avg_bitrate_kbps,
        },
        SourceModel::Radio { url, .. } => TargetModel::Radio { url },
    }
}

/// Where a stream request leads, and the state after it.
pub open spec fn stream_resolved(
    m: AppModel,
    token: Seq<char>,
    now: u128,
) -> (AppModel, TargetModel) {
    if !registry::is_token(token) {
        (m, TargetModel::NotFound)
    } else if m.registry.dom().contains(token) && !m.registry[token].expired(now) {
        (m, source_target(m.registry[token].source))
    } else {
        (AppModel { registry: m.registry.remove(token), ..m }, TargetModel::Expired)
    }
}

/// Where a stream request leads.
pub fn handle_stream(st: &mut AppState, token: &str, now: u128) -> (r: StreamTarget)
    ensures
        (final(st)@, r@) == stream_resolved(old(st)@, token@, now),
{
    if !looks_like_token(token) {
        return StreamTarget::NotFound;
    }
    match st.registry.resolve(token, now) {
        Some(resolved) => match resolved.source {
            StreamSource::File { path, format, offset_ms, avg_bitrate_kbps, .. } =>
                StreamTarget::File { path, format, offset_ms, avg_bitrate_kbps },
            StreamSource::Radio { url, .. } => StreamTarget::Radio { url },
        },
        None => StreamTarget::Expired,
    }
}

/// The byte that a place in a stream stands at, at the average bitrate: kbps
/// times milliseconds are bits.
pub open spec fn offset_byte(offset_ms: u64, kbps: u32) -> int {
    let bits: int = offset_ms * kbps;
    if bits > u64::MAX {
        u64::MAX as int / 8
    } else {
        bits / 8
    }
}

/// The smaller of two numbers.
pub open spec fn smaller(a: int, b: int) -> int {
    if a < b {
        a
    } else {
        b
    }
}

/// The byte that a file stream starts at: that of the offset, or a later one
/// that the device asks for, never past the end.
pub open spec fn start_byte(offset_ms: u64, kbps: u32, len: u64, range: Option<u64>) -> int {
    let from_offset = smaller(offset_byte(offset_ms, kbps), len as int);
    match range {
        Some(n) => if n > from_offset {
            smaller(n as int, len as int)
        } else {
            from_offset
        },
        None => from_offset,
    }
}

/// The byte that a file stream starts at.
pub fn stream_start(offset_ms: u64, avg_bitrate_kbps: u32, len: u64, range: Option<u64>) -> (r: u64)
    ensures
        r == start_byte(offset_ms, avg_bitrate_kbps, len, range),
{
    let bits: u64 = match offset_ms.checked_mul(avg_bitrate_kbps as u64) {
        Some(n) => n,
        None => u64::MAX,
    };
    let byte: u64 = bits / 8;
    let from_offset: u64 = if byte < len {
        byte
    } else {
        len
    };
    match range {
        Some(n) => if n > from_offset {
            if n < len {
                n
            } else {
                len
            }
        } else {
            from_offset
        },
        None => from_offset,
    }
}

/// The first byte that a `Range` header asks for.
pub open spec fn range_start(header: Option<Seq<char>>) -> Option<int> {
    match header {
        Some(h) => if "bytes="@.is_prefix_of(h) {
            number::parsed_u64(
                trim::trimmed(split::split_parts(h.skip("bytes="@.len() as int), '-')[0]),
            )
        } else {
            None
        },
        None => None,
    }
}

/// The first byte that a `Range` header asks for.
pub fn parse_range_start(header: Option<&str>) -> (r: Option<u64>)
    ensures
        match r {
            Some(n) => range_start(chars::opt_str(header)) == Some(n as int),
            None => range_start(chars::opt_str(header)) is None,
        },
{
    let h = match header {
        Some(h) => to_chars(h),
        None => {
            return None;
        },
    };
    let prefix = to_chars("bytes=");
    if !starts_with(h.as_slice(), prefix.as_slice()) {
        return None;
    }
    // "bytes=12345-"
    let rest = vstd::slice::slice_subrange(h.as_slice(), prefix.len(), h.len());
    assert(rest@ =~= h@.skip("bytes="@.len() as int));
    let parts = split::split(rest, '-');
    assert(split::texts(parts@)[0] == parts@[0]@);
    parse_u64(trim::trim(parts[0]))
}

/// The content type that a radio stream is passed on with.
pub open spec fn radio_type(upstream: Option<Seq<char>>) -> Seq<char> {
    match upstream {
        Some(t) => if "audio/"@.is_prefix_of(t) || "application/vnd.apple.mpegurl"@.is_prefix_of(t)
            || "application/x-mpegURL"@.is_prefix_of(t) {
            t
        } else {
            "audio/mpeg"@
        },
        None => "audio/mpeg"@,
    }
}

/// The content type that a radio stream is passed on with.
pub fn radio_content_type(upstream: Option<&str>) -> (r: String)
    ensures
        r@ == radio_type(chars::opt_str(upstream)),
{
    match upstream {
        Some(t) => {
            let c = to_chars(t);
            if starts_with(c.as_slice(), to_chars("audio/").as_slice()) || starts_with(
                c.as_slice(),
                to_chars("application/vnd.apple.mpegurl").as_slice(),
            ) || starts_with(c.as_slice(), to_chars("application/x-mpegURL").as_slice()) {
                owned(t)
            } else {
                owned("audio/mpeg")
            }
        },
        None => owned("audio/mpeg"),
    }
}

// ── Health ─────────────────────────────────────────────────────────────────

/// The health report.
pub open spec fn health_report(m: AppModel, uptime_secs: u64) -> JsonModel {
    let f = json::with(response::no_fields(), "ok"@, JsonModel::Bool(true));
    let f = json::with(f, "uptime_secs"@, JsonModel::Number(uptime_secs as nat));
    let f = json::with(f, "library_tracks"@, JsonModel::Number(m.library.len()));
    let f = json::with(
        f,
        "playable_tracks"@,
        JsonModel::Number(library::ids_where(m.library, library::can_play()).len()),
    );
    let f = json::with(f, "stream_tokens"@, JsonModel::Number(m.registry.dom().len()));
    JsonModel::Object(json::with(f, "devices"@, JsonModel::Number(m.players.dom().len())))
}

/// The health report.
pub fn handle_health(st: &AppState, uptime_secs: u64) -> (r: Json)
    ensures
        r@ == health_report(st@, uptime_secs),
{
    let mut f: Vec<(String, Json)> = Vec::new();
    assert(json::fields_model(f@) == response::no_fields());
    put(&mut f, "ok", Json::Bool(true));
    put(&mut f, "uptime_secs", Json::Number(uptime_secs));
    put(&mut f, "library_tracks", Json::Number(st.library.len() as u64));
    put(&mut f, "playable_tracks", Json::Number(st.library.playable_len() as u64));
    put(&mut f, "stream_tokens", Json::Number(st.registry.len() as u64));
    assert(st@.players.dom() =~= st.players@.dom());
    put(&mut f, "devices", Json::Number(st.players.len() as u64));
    json::object(f)
}

// ── Laws ───────────────────────────────────────────────────────────────────

/// A file stream never starts past the end of the file, nor before the offset
/// that its token is bound to.
pub proof fn law_stream_starts_within_file(
    offset_ms: u64,
    kbps: u32,
    len: u64,
    range: Option<u64>,
)
    ensures
        0 <= start_byte(offset_ms, kbps, len, range) <= len,
        start_byte(offset_ms, kbps, len, range) >= smaller(
            offset_byte(offset_ms, kbps),
            len as int,
        ),
        offset_ms == 0 && range is None ==> start_byte(offset_ms, kbps, len, range) == 0,
{
    assert(0 <= offset_ms * kbps) by (nonlinear_arith)
        requires
            offset_ms >= 0,
            kbps >= 0,
    ;
    assert(0 * kbps == 0);
}

/// A later place in a stream stands at a later byte, or at the same one.
pub proof fn law_offset_byte_is_monotone(a: u64, b: u64, kbps: u32)
    requires
        a <= b,
    ensures
        offset_byte(a, kbps) <= offset_byte(b, kbps),
{
    assert(a * kbps <= b * kbps) by (nonlinear_arith)
        requires
            a <= b,
            kbps >= 0,
    ;
}

/// A stream opens for exactly the tokens that are bound and whose time is not
/// over, and opening one changes nothing.
pub proof fn law_stream_opens_for_live_tokens(m: AppModel, token: Seq<char>, now: u128)
    ensures
        (stream_resolved(m, token, now).1 is File || stream_resolved(m, token, now).1 is Radio)
            <==> registry::is_token(token) && m.registry.dom().contains(token)
            && !m.registry[token].expired(now),
        stream_resolved(m, token, now).1 is File || stream_resolved(m, token, now).1 is Radio
            ==> stream_resolved(m, token, now).0 == m,
{
}

} // verus!
