//! What the endpoints answer, and what the state keeps, case by case.

use vstd::prelude::*;

use crate::alexa::request::Envelope;
use crate::alexa::response;
use crate::audio::library;
use crate::audio::player::PlayerModel;
use crate::audio::registry::SourceModel;
use crate::audio::registry;
use crate::config::ServerConfig;
use crate::json::JsonModel;
use crate::router::action::ActionModel;
use crate::state::AppModel;
use crate::state::PendingModel;
use crate::stream::TargetModel;
use crate::stream;
use crate::text::chars;
use crate::text::find;
use crate::text::number;
use crate::text::split;
use crate::text::text_laws;
use crate::text::trim;
use crate::zeroclaw::client::EventModel;
use crate::zeroclaw::client::InfoModel;

verus! {

broadcast use {vstd::seq::group_seq_axioms, vstd::slice::group_slice_axioms};

// ── Where a stream starts ──────────────────────────────────────────────────

/// Kilobits per second times milliseconds are bits: where the place lies within
/// the file, the stream starts at the byte that holds its bit, and where it does
/// not, at the end.
pub proof fn law_start_is_at_bit_of_offset(offset_ms: u64, kbps: u32, len: u64)
    requires
        offset_ms * kbps <= u64::MAX,
    ensures
        ({
            let start = stream::start_byte(offset_ms, kbps, len, None);
            &&& offset_ms * kbps < 8 * len ==> 8 * start <= offset_ms * kbps < 8 * start + 8
            &&& offset_ms * kbps >= 8 * len ==> start == len
        }),
{
    assert(0 <= offset_ms * kbps) by (nonlinear_arith)
        requires
            offset_ms >= 0,
            kbps >= 0,
    ;
}

/// A place whose bits do not fit 64 bits counts as the last one that does.
pub proof fn law_start_of_distant_offset(offset_ms: u64, kbps: u32, len: u64)
    requires
        offset_ms * kbps > u64::MAX,
    ensures
        ({
            let start = stream::start_byte(offset_ms, kbps, len, None);
            &&& len <= 0x1fff_ffff_ffff_ffff ==> start == len
            &&& len > 0x1fff_ffff_ffff_ffff ==> start == 0x1fff_ffff_ffff_ffff
        }),
{
    assert(u64::MAX as int / 8 == 0x1fff_ffff_ffff_ffff);
}

/// A device may ask for a later byte than that of the place, up to the end, and
/// never for an earlier one.
pub proof fn law_later_byte_can_be_asked_for(offset_ms: u64, kbps: u32, len: u64, n: u64)
    ensures
        ({
            let place = stream::start_byte(offset_ms, kbps, len, None);
            let start = stream::start_byte(offset_ms, kbps, len, Some(n));
            &&& n <= place ==> start == place
            &&& place < n < len ==> start == n
            &&& place < n && n >= len ==> start == len
        }),
{
}

proof fn lemma_first_part(d: Seq<char>, c: char, rest: Seq<char>)
    requires
        !d.contains(c),
    ensures
        split::split_parts(d + seq![c] + rest, c)[0] == d,
{
    let s = d + seq![c] + rest;
    find::lemma_first_of(s, 0, c);
    let n = d.len() as int;
    assert(s[n] == c);
    assert forall|j: int| 0 <= j < n implies s[j] != c by {
        assert(s[j] == d[j]);
        assert(d.contains(d[j]));
    }
    assert(find::first_of(s, 0, c) == Some(n));
    assert(s.take(n) =~= d);
}

/// A `Range` header asks for the byte that stands in digits before its dash.
pub proof fn law_range_header(d: Seq<char>, rest: Seq<char>)
    requires
        d.len() > 0,
        forall|i: int| 0 <= i < d.len() ==> '0' <= #[trigger] d[i] <= '9',
    ensures
        stream::range_start(Some("bytes="@ + d + seq!['-'] + rest)) == if number::decimal_value(d)
            <= u64::MAX {
            Some(number::decimal_value(d))
        } else {
            None
        },
        stream::range_start(Some("bytes="@ + seq!['-'] + rest)) is None,
        stream::range_start(None) is None,
{
    let p = "bytes="@;
    let h = p + d + seq!['-'] + rest;
    assert(p =~= h.subrange(0, p.len() as int));
    assert(h.skip(p.len() as int) =~= d + seq!['-'] + rest);
    assert(!d.contains('-')) by {
        if d.contains('-') {
            let i = choose|i: int| 0 <= i < d.len() && d[i] == '-';
            assert('0' <= d[i]);
        }
    }
    lemma_first_part(d, '-', rest);
    let none = Seq::<char>::empty();
    assert(!chars::is_white(d[0]));
    assert(!chars::is_white(d[d.len() - 1]));
    trim::law_blanks_around_are_trimmed(none, d, none);
    assert(none + d + none =~= d);
    text_laws::law_numbers_read(d);
    let g = p + seq!['-'] + rest;
    assert(p =~= g.subrange(0, p.len() as int));
    assert(g.skip(p.len() as int) =~= none + seq!['-'] + rest);
    lemma_first_part(none, '-', rest);
    assert(trim::trimmed(none) =~= none);
    assert(number::parsed_u64(none) is None);
}

/// A header that does not count bytes asks for nothing.
pub proof fn law_other_ranges_are_ignored(h: Seq<char>)
    requires
        !"bytes="@.is_prefix_of(h),
    ensures
        stream::range_start(Some(h)) is None,
{
}

// ── Which stream ───────────────────────────────────────────────────────────

/// What a token leads to: its file or its station while its time lasts, after
/// that and for an unknown one to word that it is over, and what is no token at
/// all to nothing. The token is forgotten once its time is over; nothing else of
/// the state changes.
pub proof fn law_where_streams_lead(m: AppModel, token: Seq<char>, now: u128)
    ensures
        ({
            let (n, t) = stream::stream_resolved(m, token, now);
            let live = m.registry.dom().contains(token) && !m.registry[token].expired(now);
            &&& !registry::is_token(token) ==> t is NotFound && n == m
            &&& registry::is_token(token) && !live ==> t is Expired && n.registry
                == m.registry.remove(token)
            &&& registry::is_token(token) && live ==> n == m && match m.registry[token].source {
                SourceModel::File { path, format, offset_ms, avg_bitrate_kbps, .. } => t == (
                TargetModel::File { path, format, offset_ms, avg_bitrate_kbps }),
                SourceModel::Radio { url, .. } => t == (TargetModel::Radio { url }),
            }
            &&& n.cfg == m.cfg && n.library == m.library && n.players == m.players
            &&& n.approvals == m.approvals && n.cached_reply == m.cached_reply
        }),
{
}

/// What kind of stream a station is passed on as: what it says itself where that
/// is audio or a playlist, and MP3 otherwise.
pub proof fn law_station_type(t: Seq<char>, x: Seq<char>)
    ensures
        stream::radio_type(None) == "audio/mpeg"@,
        stream::radio_type(Some("audio/"@ + x)) == "audio/"@ + x,
        stream::radio_type(Some("application/vnd.apple.mpegurl"@ + x))
            == "application/vnd.apple.mpegurl"@ + x,
        stream::radio_type(Some("application/x-mpegURL"@ + x)) == "application/x-mpegURL"@ + x,
        !"audio/"@.is_prefix_of(t) && !"application/vnd.apple.mpegurl"@.is_prefix_of(t)
            && !"application/x-mpegURL"@.is_prefix_of(t) ==> stream::radio_type(Some(t))
            == "audio/mpeg"@,
{
    let (a, b, c) = ("audio/"@, "application/vnd.apple.mpegurl"@, "application/x-mpegURL"@);
    assert(a =~= (a + x).subrange(0, a.len() as int));
    assert(b =~= (b + x).subrange(0, b.len() as int));
    assert(c =~= (c + x).subrange(0, c.len() as int));
}

// ── Who may ask ────────────────────────────────────────────────────────────

/// With a skill configured, a request that names its skill counts exactly where
/// it names that one; without either name every request counts.
pub proof fn law_own_skill(server: ServerConfig, env: Envelope)
    ensures
        server.client_id is None ==> stream::from_own_skill(server, env),
        env.application() is None ==> stream::from_own_skill(server, env),
        server.client_id matches Some(want) ==> (env.application() matches Some(got) ==> (
        stream::from_own_skill(server, env) <==> got == want@)),
{
}

/// A request that does not count is met with a response that says nothing, and
/// nothing is saved.
pub proof fn law_silence()
    ensures
        stream::silent_end() == (ActionModel::Reply { response: response::silent(), save: false }),
        response::silent().0 == "1.0"@,
        response::silent().1.output_speech is None,
        response::silent().1.directives.len() == 0,
        response::silent().1.should_end_session,
{
}

/// What the health report says: that all is well, for how long, and how many
/// tracks, playable tracks, tokens and devices there are.
pub proof fn law_health_report(m: AppModel, uptime_secs: u64)
    ensures
        stream::health_report(m, uptime_secs) == JsonModel::Object(
            seq![
                ("ok"@, JsonModel::Bool(true)),
                ("uptime_secs"@, JsonModel::Number(uptime_secs as nat)),
                ("library_tracks"@, JsonModel::Number(m.library.len())),
                (
                    "playable_tracks"@,
                    JsonModel::Number(library::ids_where(m.library, library::can_play()).len()),
                ),
                ("stream_tokens"@, JsonModel::Number(m.registry.dom().len())),
                ("devices"@, JsonModel::Number(m.players.dom().len())),
            ],
        ),
{
    let want = seq![
        ("ok"@, JsonModel::Bool(true)),
        ("uptime_secs"@, JsonModel::Number(uptime_secs as nat)),
        ("library_tracks"@, JsonModel::Number(m.library.len())),
        (
            "playable_tracks"@,
            JsonModel::Number(library::ids_where(m.library, library::can_play()).len()),
        ),
        ("stream_tokens"@, JsonModel::Number(m.registry.dom().len())),
        ("devices"@, JsonModel::Number(m.players.dom().len())),
    ];
    assert(stream::health_report(m, uptime_secs)->Object_0 =~= want);
}

// ── What the state keeps ───────────────────────────────────────────────────

/// An approval waits for as many seconds as its request says, and for one at
/// least.
pub proof fn law_approval_time(p: PendingModel, now: u128)
    ensures
        p.info.timeout_secs > 0 ==> (p.stale(now) <==> now >= p.asked_at + 1_000_000_000
            * p.info.timeout_secs),
        p.info.timeout_secs == 0 ==> (p.stale(now) <==> now >= p.asked_at + 1_000_000_000),
{
}

/// The player that is put in is the one that is found, and no other is touched; a
/// device that has none yet starts with an empty one.
pub proof fn law_players_are_kept(
    m: AppModel,
    device: Seq<char>,
    other: Seq<char>,
    p: PlayerModel,
)
    ensures
        ({
            let n = m.with_player(device, p);
            &&& n.player(device) == p
            &&& other != device ==> n.player(other) == m.player(other)
            &&& n.cfg == m.cfg && n.library == m.library && n.registry == m.registry
            &&& n.approvals == m.approvals && n.cached_reply == m.cached_reply
        }),
        !m.players.dom().contains(device) ==> m.player(device).queue.len() == 0 && m.player(
            device,
        ).current_token is None && m.player(device).history.len() == 0,
{
}

/// What waits for one device's next turn does not touch what waits for another's.
pub proof fn law_waiting_is_kept_apart(
    m: AppModel,
    device: Seq<char>,
    other: Seq<char>,
    p: Option<PendingModel>,
    text: Seq<char>,
    now: u128,
)
    requires
        other != device,
    ensures
        m.with_pending(device, p).pending(other, now) == m.pending(other, now),
        m.without_stale(device, now).pending(other, now) == m.pending(other, now),
        m.with_reply(device, text).late_reply(other) == m.late_reply(other),
        m.without_reply(device).late_reply(other) == m.late_reply(other),
        m.with_pending(device, p).cached_reply == m.cached_reply,
        m.with_pending(device, p).players == m.players,
        m.with_reply(device, text).approvals == m.approvals,
        m.with_reply(device, text).players == m.players,
        m.without_reply(device).approvals == m.approvals,
        m.without_stale(device, now).cached_reply == m.cached_reply,
        m.without_stale(device, now).pending(device, now) == m.pending(device, now),
        trim::blank(text) ==> m.with_reply(device, text) == m,
{
}

/// The cover of a track that has one is found below the public URL, by the
/// track's number.
pub proof fn law_cover_address(m: AppModel, id: u64)
    ensures
        1 <= id <= m.library.len() ==> m.art_address(id, true) == m.cfg.public_base() + "/art/"@
            + number::decimal(id as nat),
        id == 0 || id > m.library.len() ==> m.art_address(id, true).len() == 0,
        m.art_address(id, false).len() == 0,
{
}

/// What an event leaves behind: a request waits from now on for its device's
/// answer, a reply for its device's next turn, and an error leaves nothing.
pub proof fn law_events(
    m: AppModel,
    device: Seq<char>,
    info: InfoModel,
    text: Seq<char>,
    now: u128,
)
    ensures
        ({
            let n = m.after_event(EventModel::ApprovalRequested { device, info }, now);
            &&& n.approvals == m.approvals.insert(device, PendingModel { info, asked_at: now })
            &&& n.pending(device, now) == Some(PendingModel { info, asked_at: now })
            &&& n.cached_reply == m.cached_reply
        }),
        ({
            let n = m.after_event(EventModel::LateReply { device, text }, now);
            &&& !trim::blank(text) ==> n.late_reply(device) == Some(text)
            &&& trim::blank(text) ==> n == m
            &&& n.approvals == m.approvals
        }),
        m.after_event(EventModel::SessionError { device, message: text }, now) == m,
{
}

} // verus!
