//! Classification of an ASK request into a concrete intent the router handles.

use vstd::prelude::*;

use crate::alexa::request::Envelope;
use crate::text::chars::digit;
use crate::text::chars::owned;
use crate::text::chars::owned_opt;
use crate::text::chars::same_text;
use crate::text::chars::to_chars;
use crate::text::chars;
use crate::text::find::has_char;
use crate::text::find::starts_with;
use crate::text::number::parse_i64;
use crate::text::number;
use crate::text::split;
use crate::text::trim;

verus! {

broadcast use {vstd::seq::group_seq_axioms, vstd::slice::group_slice_axioms};

/// Everything the router can do, derived from the raw ASK request.
#[derive(Debug, Clone, PartialEq)]
pub enum IntentKind {
    /// "Alexa, open aria"
    Launch,
    /// User said stop/cancel or the session ended.
    SessionEnded,
    SystemRequest,
    Help,
    Cancel,
    /// Anything not matched by a skill intent; `utterance` is the transcript
    /// when ASK provides it (slot "utterance"), else `None`.
    Fallback { utterance: Option<String> },
    /// Explicit "ask aria <question>" style request.
    Ask { utterance: String },
    /// "play <query>": song, artist, album, genre, or radio station.
    PlayMusic { query: Option<String> },
    /// Bare "play" / "resume" (PlaybackController).
    Play,
    Pause,
    Stop,
    Next,
    Previous,
    /// Resume with offset reported by the device.
    Resume { offset_ms: i64 },
    /// Device-originated player reports.
    PlaybackStarted,
    PlaybackStopped,
    PlaybackNearlyFinished,
    PlaybackFailed,
    PlaybackFinished,
    ToggleShuffle,
    RepeatOne,
    RepeatAll,
    RepeatOff,
    Seek { offset_ms: Option<i64> },
    /// Recognized intent name the router does not model.
    Unknown { name: String },
}

/// What an intent says.
pub enum IntentModel {
    Launch,
    SessionEnded,
    SystemRequest,
    Help,
    Cancel,
    Fallback { utterance: Option<Seq<char>> },
    Ask { utterance: Seq<char> },
    PlayMusic { query: Option<Seq<char>> },
    Play,
    Pause,
    Stop,
    Next,
    Previous,
    Resume { offset_ms: int },
    PlaybackStarted,
    PlaybackStopped,
    PlaybackNearlyFinished,
    PlaybackFailed,
    PlaybackFinished,
    ToggleShuffle,
    RepeatOne,
    RepeatAll,
    RepeatOff,
    Seek { offset_ms: Option<int> },
    Unknown { name: Seq<char> },
}

impl View for IntentKind {
    type V = IntentModel;

    open spec fn view(&self) -> IntentModel {
        match self {
            IntentKind::Launch => IntentModel::Launch,
            IntentKind::SessionEnded => IntentModel::SessionEnded,
            IntentKind::SystemRequest => IntentModel::SystemRequest,
            IntentKind::Help => IntentModel::Help,
            IntentKind::Cancel => IntentModel::Cancel,
            IntentKind::Fallback { utterance } => IntentModel::Fallback {
                utterance: chars::opt_text(*utterance),
            },
            IntentKind::Ask { utterance } => IntentModel::Ask { utterance: utterance@ },
            IntentKind::PlayMusic { query } => IntentModel::PlayMusic {
                query: chars::opt_text(*query),
            },
            IntentKind::Play => IntentModel::Play,
            IntentKind::Pause => IntentModel::Pause,
            IntentKind::Stop => IntentModel::Stop,
            IntentKind::Next => IntentModel::Next,
            IntentKind::Previous => IntentModel::Previous,
            IntentKind::Resume { offset_ms } => IntentModel::Resume {
                offset_ms: *offset_ms as int,
            },
            IntentKind::PlaybackStarted => IntentModel::PlaybackStarted,
            IntentKind::PlaybackStopped => IntentModel::PlaybackStopped,
            IntentKind::PlaybackNearlyFinished => IntentModel::PlaybackNearlyFinished,
            IntentKind::PlaybackFailed => IntentModel::PlaybackFailed,
            IntentKind::PlaybackFinished => IntentModel::PlaybackFinished,
            IntentKind::ToggleShuffle => IntentModel::ToggleShuffle,
            IntentKind::RepeatOne => IntentModel::RepeatOne,
            IntentKind::RepeatAll => IntentModel::RepeatAll,
            IntentKind::RepeatOff => IntentModel::RepeatOff,
            IntentKind::Seek { offset_ms } => IntentModel::Seek {
                offset_ms: match offset_ms {
                    Some(n) => Some(*n as int),
                    None => None,
                },
            },
            IntentKind::Unknown { name } => IntentModel::Unknown { name: name@ },
        }
    }
}

// ── Times ──────────────────────────────────────────────────────────────────

/// The seconds in one unit of an ISO-8601 time.
pub open spec fn unit_seconds(c: char) -> Option<int> {
    if c == 'H' {
        Some(3600)
    } else if c == 'M' {
        Some(60)
    } else if c == 'S' {
        Some(1)
    } else {
        None
    }
}

/// The seconds that a number before a unit stands for; a number that cannot be
/// read counts for nothing.
pub open spec fn part_seconds(num: Seq<char>, unit: int) -> int {
    match number::parsed_i64(num) {
        Some(n) => n * unit,
        None => 0,
    }
}

/// The seconds of `nH`, `nM`, `nS` parts, left to right, after `num` digits and
/// `secs` seconds already read.
pub open spec fn iso_seconds(s: Seq<char>, num: Seq<char>, secs: int) -> Option<int>
    decreases s.len(),
{
    if s.len() == 0 {
        if num.len() == 0 {
            Some(secs)
        } else {
            None
        }
    } else if chars::is_digit(s[0]) {
        iso_seconds(s.skip(1), num.push(s[0]), secs)
    } else {
        match unit_seconds(s[0]) {
            Some(unit) => iso_seconds(s.skip(1), seq![], secs + part_seconds(num, unit)),
            None => None,
        }
    }
}

/// Every number on the way to `iso_seconds`, and the milliseconds at the end,
/// is an `i64`.
pub open spec fn iso_fits(s: Seq<char>, num: Seq<char>, secs: int) -> bool
    decreases s.len(),
{
    if s.len() == 0 {
        num.len() == 0 ==> secs * 1000 <= i64::MAX
    } else if chars::is_digit(s[0]) {
        iso_fits(s.skip(1), num.push(s[0]), secs)
    } else {
        match unit_seconds(s[0]) {
            Some(unit) => {
                &&& secs + part_seconds(num, unit) <= i64::MAX
                &&& iso_fits(s.skip(1), seq![], secs + part_seconds(num, unit))
            },
            None => true,
        }
    }
}

/// The numbers among the parts, in order.
pub open spec fn readable(parts: Seq<Seq<char>>) -> Seq<int>
    decreases parts.len(),
{
    if parts.len() == 0 {
        seq![]
    } else {
        let head = readable(parts.drop_last());
        match number::parsed_i64(parts.last()) {
            Some(n) => head.push(n),
            None => head,
        }
    }
}

/// The milliseconds of minutes and seconds, of hours, minutes and seconds, or
/// of minutes alone.
pub open spec fn clock_millis(nums: Seq<int>) -> Option<int> {
    if nums.len() == 2 {
        Some(nums[0] * 60_000 + nums[1] * 1000)
    } else if nums.len() == 3 {
        Some(nums[0] * 3_600_000 + nums[1] * 60_000 + nums[2] * 1000)
    } else if nums.len() == 1 {
        Some(nums[0] * 60_000)
    } else {
        None
    }
}

/// The value is an `i64`.
pub open spec fn fits_i64(n: int) -> bool {
    i64::MIN <= n <= i64::MAX
}

/// Every number on the way to `clock_millis` is an `i64`.
pub open spec fn clock_fits(nums: Seq<int>) -> bool {
    if nums.len() == 2 {
        &&& fits_i64(nums[0] * 60_000)
        &&& fits_i64(nums[1] * 1000)
        &&& fits_i64(nums[0] * 60_000 + nums[1] * 1000)
    } else if nums.len() == 3 {
        &&& fits_i64(nums[0] * 3_600_000)
        &&& fits_i64(nums[1] * 60_000)
        &&& fits_i64(nums[2] * 1000)
        &&& fits_i64(nums[0] * 3_600_000 + nums[1] * 60_000)
        &&& fits_i64(nums[0] * 3_600_000 + nums[1] * 60_000 + nums[2] * 1000)
    } else if nums.len() == 1 {
        fits_i64(nums[0] * 60_000)
    } else {
        true
    }
}

/// The milliseconds that a time slot names.
pub open spec fn time_millis(value: Seq<char>) -> Option<int> {
    let v = trim::trimmed(value);
    if v.len() == 0 {
        None
    } else if "PT"@.is_prefix_of(v) {
        match iso_seconds(v.skip("PT"@.len() as int), seq![], 0) {
            Some(secs) => if secs > 0 {
                Some(secs * 1000)
            } else {
                None
            },
            None => None,
        }
    } else if v.contains(':') {
        clock_millis(readable(split::split_parts(v, ':')))
    } else {
        match number::parsed_i64(v) {
            Some(n) => if n >= 0 {
                Some(n * 60_000)
            } else {
                None
            },
            None => None,
        }
    }
}

/// The numbers on the way to `time_millis` are all `i64`s.
pub open spec fn time_fits(value: Seq<char>) -> bool {
    let v = trim::trimmed(value);
    if v.len() == 0 {
        true
    } else if "PT"@.is_prefix_of(v) {
        iso_fits(v.skip("PT"@.len() as int), seq![], 0)
    } else if v.contains(':') {
        clock_fits(readable(split::split_parts(v, ':')))
    } else {
        match number::parsed_i64(v) {
            Some(n) => n >= 0 ==> n * 60_000 <= i64::MAX,
            None => true,
        }
    }
}

/// The outcome of reading a time slot.
enum TimeRead {
    TooLarge,
    Nothing,
    Millis(i64),
}

spec fn reads(r: TimeRead, fits: bool, millis: Option<int>) -> bool {
    match r {
        TimeRead::TooLarge => !fits,
        TimeRead::Nothing => fits && millis is None,
        TimeRead::Millis(n) => fits && millis == Some(n as int),
    }
}

fn narrow(n: i128) -> (r: Option<i64>)
    ensures
        match r {
            Some(m) => m == n && fits_i64(n as int),
            None => !fits_i64(n as int),
        },
{
    if i64::MIN as i128 <= n && n <= i64::MAX as i128 {
        Some(n as i64)
    } else {
        None
    }
}

fn read_iso(rest: &[char]) -> (r: TimeRead)
    ensures
        reads(
            r,
            iso_fits(rest@, seq![], 0),
            match iso_seconds(rest@, seq![], 0) {
                Some(secs) => if secs > 0 {
                    Some(secs * 1000)
                } else {
                    None
                },
                None => None,
            },
        ),
{
    let mut secs: i64 = 0;
    let mut num: Vec<char> = Vec::new();
    let mut i: usize = 0;
    assert(rest@.skip(0) == rest@);
    assert(num@ == Seq::<char>::empty());
    while i < rest.len()
        invariant
            i <= rest@.len(),
            secs >= 0,
            number::all_digits(num@),
            iso_fits(rest@, seq![], 0) == iso_fits(rest@.skip(i as int), num@, secs as int),
            iso_seconds(rest@, seq![], 0) == iso_seconds(rest@.skip(i as int), num@, secs as int),
        decreases rest@.len() - i,
    {
        let c = rest[i];
        let ghost here = rest@.skip(i as int);
        assert(here[0] == c);
        assert(here.skip(1) == rest@.skip(i + 1));
        if digit(c) {
            num.push(c);
        } else {
            let unit: i128 = if c == 'H' {
                3600
            } else if c == 'M' {
                60
            } else if c == 'S' {
                1
            } else {
                return TimeRead::Nothing;
            };
            let n: i64 = match parse_i64(num.as_slice()) {
                Some(n) => n,
                None => 0,
            };
            proof {
                lemma_digits_not_negative(num@);
            }
            assert(0 <= n * unit <= n * 3600) by (nonlinear_arith)
                requires
                    0 <= n,
                    0 <= unit <= 3600,
            ;
            assert(part_seconds(num@, unit as int) == n * unit);
            let sum: i128 = secs as i128 + n as i128 * unit;
            match narrow(sum) {
                Some(m) => {
                    secs = m;
                },
                None => {
                    return TimeRead::TooLarge;
                },
            }
            num = Vec::new();
            assert(num@ == Seq::<char>::empty());
        }
        i = i + 1;
    }
    if num.len() > 0 {
        return TimeRead::Nothing;
    }
    match narrow(secs as i128 * 1000) {
        Some(m) => if secs > 0 {
            TimeRead::Millis(m)
        } else {
            TimeRead::Nothing
        },
        None => TimeRead::TooLarge,
    }
}

proof fn lemma_digits_not_negative(s: Seq<char>)
    requires
        number::all_digits(s),
    ensures
        number::parsed_i64(s) matches Some(n) ==> n >= 0,
{
    number::lemma_decimal_value_grows(s, 0);
    if s.len() > 0 {
        assert(chars::is_digit(s[0]));
    }
}

spec fn widened(nums: Seq<i64>) -> Seq<int> {
    Seq::new(nums.len(), |i: int| nums[i] as int)
}

fn read_numbers(parts: &Vec<&[char]>) -> (r: Vec<i64>)
    ensures
        widened(r@) == readable(split::texts(parts@)),
{
    let mut out: Vec<i64> = Vec::new();
    let mut i: usize = 0;
    let ghost all = split::texts(parts@);
    assert(widened(out@) =~= readable(all.take(0)));
    while i < parts.len()
        invariant
            i <= parts@.len(),
            all == split::texts(parts@),
            widened(out@) == readable(all.take(i as int)),
        decreases parts@.len() - i,
    {
        let ghost head = all.take(i + 1);
        assert(head.drop_last() == all.take(i as int));
        assert(head.last() == parts@[i as int]@);
        match parse_i64(parts[i]) {
            Some(n) => {
                assert(widened(out@.push(n)) =~= widened(out@).push(n as int));
                out.push(n);
            },
            None => {},
        }
        i = i + 1;
    }
    assert(all.take(i as int) == all);
    out
}

fn read_clock(nums: &Vec<i64>) -> (r: TimeRead)
    ensures
        reads(r, clock_fits(widened(nums@)), clock_millis(widened(nums@))),
{
    if nums.len() == 2 {
        match (
            narrow(nums[0] as i128 * 60_000),
            narrow(nums[1] as i128 * 1000),
            narrow(nums[0] as i128 * 60_000 + nums[1] as i128 * 1000),
        ) {
            (Some(_a), Some(_b), Some(n)) => TimeRead::Millis(n),
            _ => TimeRead::TooLarge,
        }
    } else if nums.len() == 3 {
        let h: i128 = nums[0] as i128 * 3_600_000;
        let m: i128 = nums[1] as i128 * 60_000;
        let s: i128 = nums[2] as i128 * 1000;
        match (narrow(h), narrow(m), narrow(s), narrow(h + m), narrow(h + m + s)) {
            (Some(_a), Some(_b), Some(_c), Some(_d), Some(n)) => TimeRead::Millis(n),
            _ => TimeRead::TooLarge,
        }
    } else if nums.len() == 1 {
        match narrow(nums[0] as i128 * 60_000) {
            Some(n) => TimeRead::Millis(n),
            None => TimeRead::TooLarge,
        }
    } else {
        TimeRead::Nothing
    }
}

fn read_time(value: &str) -> (r: TimeRead)
    ensures
        reads(r, time_fits(value@), time_millis(value@)),
{
    let cs = to_chars(value);
    let v = trim::trim(cs.as_slice());
    if v.len() == 0 {
        return TimeRead::Nothing;
    }
    proof {
        reveal_strlit("PT");
    }
    if starts_with(v, to_chars("PT").as_slice()) {
        let rest = vstd::slice::slice_subrange(v, 2, v.len());
        assert(rest@ == v@.skip(2));
        return read_iso(rest);
    }
    if has_char(v, ':') {
        let parts = split::split(v, ':');
        return read_clock(&read_numbers(&parts));
    }
    match parse_i64(v) {
        Some(n) => if n >= 0 {
            match narrow(n as i128 * 60_000) {
                Some(m) => TimeRead::Millis(m),
                None => TimeRead::TooLarge,
            }
        } else {
            TimeRead::Nothing
        },
        None => TimeRead::Nothing,
    }
}

/// Whether every number on the way to the milliseconds of a time slot fits.
pub fn time_slot_fits(value: &str) -> (r: bool)
    ensures
        r == time_fits(value@),
{
    match read_time(value) {
        TimeRead::TooLarge => false,
        _ => true,
    }
}

/// Parse an AMAZON.TIME slot value into milliseconds.
///
/// Handles ISO-8601 durations ("PT2M30S", "PT30S", "PT1H2M"), "MM:SS",
/// "H:MM:SS", and bare minutes ("3").
pub fn parse_time_slot(value: &str) -> (r: Option<i64>)
    requires
        time_fits(value@),
    ensures
        match r {
            Some(n) => time_millis(value@) == Some(n as int),
            None => time_millis(value@) is None,
        },
{
    match read_time(value) {
        TimeRead::Millis(n) => Some(n),
        _ => None,
    }
}

// ── Classification ─────────────────────────────────────────────────────────

/// The intents that their name alone determines: PlaybackController intents,
/// PlaybackNotifier requests, AMAZON built-ins and queue modes.
pub open spec fn named_intent(name: Seq<char>) -> Option<IntentModel> {
    if name == "PlayIntent"@ {
        Some(IntentModel::Play)
    } else if name == "PauseIntent"@ {
        Some(IntentModel::Pause)
    } else if name == "StopIntent"@ {
        Some(IntentModel::Stop)
    } else if name == "NextIntent"@ {
        Some(IntentModel::Next)
    } else if name == "PreviousIntent"@ {
        Some(IntentModel::Previous)
    } else if name == "PlaybackStartedRequest"@ {
        Some(IntentModel::PlaybackStarted)
    } else if name == "PlaybackStoppedRequest"@ {
        Some(IntentModel::PlaybackStopped)
    } else if name == "PlaybackNearlyFinishedRequest"@ {
        Some(IntentModel::PlaybackNearlyFinished)
    } else if name == "PlaybackFailedRequest"@ {
        Some(IntentModel::PlaybackFailed)
    } else if name == "PlaybackFinishedRequest"@ {
        Some(IntentModel::PlaybackFinished)
    } else if name == "AMAZON.HelpIntent"@ {
        Some(IntentModel::Help)
    } else if name == "AMAZON.CancelIntent"@ {
        Some(IntentModel::Cancel)
    } else if name == "AMAZON.StopIntent"@ {
        Some(IntentModel::Stop)
    } else if name == "AMAZON.NextIntent"@ {
        Some(IntentModel::Next)
    } else if name == "AMAZON.PreviousIntent"@ {
        Some(IntentModel::Previous)
    } else if name == "ToggleShuffleIntent"@ {
        Some(IntentModel::ToggleShuffle)
    } else if name == "RepeatOneIntent"@ {
        Some(IntentModel::RepeatOne)
    } else if name == "RepeatAllIntent"@ {
        Some(IntentModel::RepeatAll)
    } else if name == "RepeatOffIntent"@ {
        Some(IntentModel::RepeatOff)
    } else {
        None
    }
}

/// The first time that can be read among the values.
pub open spec fn first_time(vs: Seq<Seq<char>>) -> Option<int>
    decreases vs.len(),
{
    if vs.len() == 0 {
        None
    } else {
        match time_millis(vs[0]) {
            Some(n) => Some(n),
            None => first_time(vs.skip(1)),
        }
    }
}

/// The values up to the first time that can be read all fit.
pub open spec fn first_time_fits(vs: Seq<Seq<char>>) -> bool
    decreases vs.len(),
{
    vs.len() > 0 ==> time_fits(vs[0]) && (time_millis(vs[0]) is None ==> first_time_fits(
        vs.skip(1),
    ))
}

/// The time that a seek request names: that of the slot's value, and failing
/// that the first among its values.
pub open spec fn seek_millis(env: Envelope) -> Option<int> {
    let of_value = match env.slot_value("time"@) {
        Some(v) => time_millis(v),
        None => None,
    };
    match of_value {
        Some(n) => Some(n),
        None => first_time(env.slot_list("time"@)),
    }
}

/// The times that `seek_millis` reads fit.
pub open spec fn seek_fits(env: Envelope) -> bool {
    match env.slot_value("time"@) {
        Some(v) => time_fits(v) && (time_millis(v) is None ==> first_time_fits(
            env.slot_list("time"@),
        )),
        None => first_time_fits(env.slot_list("time"@)),
    }
}

/// The intent that an intent request with the given name stands for.
pub open spec fn intent_named(env: Envelope, name: Seq<char>) -> IntentModel {
    match named_intent(name) {
        Some(k) => k,
        None => if name == "ResumeIntent"@ {
            IntentModel::Resume {
                offset_ms: match env.player() {
                    Some(a) => match a.offset_in_milliseconds {
                        Some(n) => n as int,
                        None => 0,
                    },
                    None => 0,
                },
            }
        } else if name == "AMAZON.FallbackIntent"@ {
            IntentModel::Fallback { utterance: env.slot_value("utterance"@) }
        } else if name == "PlayMusicIntent"@ {
            IntentModel::PlayMusic { query: env.slot_value("query"@) }
        } else if name == "AskIntent"@ {
            match env.slot_value("utterance"@) {
                Some(u) => IntentModel::Ask { utterance: u },
                None => IntentModel::Fallback { utterance: None },
            }
        } else if name == "SeekIntent"@ {
            IntentModel::Seek { offset_ms: seek_millis(env) }
        } else {
            IntentModel::Unknown { name }
        },
    }
}

/// The intent that a request stands for.
pub open spec fn intent_of(env: Envelope) -> IntentModel {
    let rtype = env.request.request_type@;
    if rtype == "LaunchRequest"@ {
        IntentModel::Launch
    } else if rtype == "SessionEndedRequest"@ {
        IntentModel::SessionEnded
    } else if rtype == "SystemRequest"@ {
        IntentModel::SystemRequest
    } else if rtype == "IntentRequest"@ {
        match env.intent_text() {
            Some(name) => intent_named(env, name),
            None => intent_named(env, "Unknown"@),
        }
    } else {
        IntentModel::Unknown { name: rtype }
    }
}

/// The numbers of a seek request, where the request is one, all fit.
pub open spec fn classifiable(env: Envelope) -> bool {
    env.request.request_type@ == "IntentRequest"@ && env.intent_text() == Some("SeekIntent"@)
        ==> seek_fits(env)
}

fn intent_by_name(name: &str) -> (r: Option<IntentKind>)
    ensures
        match r {
            Some(k) => named_intent(name@) == Some(k@),
            None => named_intent(name@) is None,
        },
{
    if same_text(name, "PlayIntent") {
        Some(IntentKind::Play)
    } else if same_text(name, "PauseIntent") {
        Some(IntentKind::Pause)
    } else if same_text(name, "StopIntent") {
        Some(IntentKind::Stop)
    } else if same_text(name, "NextIntent") {
        Some(IntentKind::Next)
    } else if same_text(name, "PreviousIntent") {
        Some(IntentKind::Previous)
    } else if same_text(name, "PlaybackStartedRequest") {
        Some(IntentKind::PlaybackStarted)
    } else if same_text(name, "PlaybackStoppedRequest") {
        Some(IntentKind::PlaybackStopped)
    } else if same_text(name, "PlaybackNearlyFinishedRequest") {
        Some(IntentKind::PlaybackNearlyFinished)
    } else if same_text(name, "PlaybackFailedRequest") {
        Some(IntentKind::PlaybackFailed)
    } else if same_text(name, "PlaybackFinishedRequest") {
        Some(IntentKind::PlaybackFinished)
    } else if same_text(name, "AMAZON.HelpIntent") {
        Some(IntentKind::Help)
    } else if same_text(name, "AMAZON.CancelIntent") {
        Some(IntentKind::Cancel)
    } else if same_text(name, "AMAZON.StopIntent") {
        Some(IntentKind::Stop)
    } else if same_text(name, "AMAZON.NextIntent") {
        Some(IntentKind::Next)
    } else if same_text(name, "AMAZON.PreviousIntent") {
        Some(IntentKind::Previous)
    } else if same_text(name, "ToggleShuffleIntent") {
        Some(IntentKind::ToggleShuffle)
    } else if same_text(name, "RepeatOneIntent") {
        Some(IntentKind::RepeatOne)
    } else if same_text(name, "RepeatAllIntent") {
        Some(IntentKind::RepeatAll)
    } else if same_text(name, "RepeatOffIntent") {
        Some(IntentKind::RepeatOff)
    } else {
        None
    }
}

fn read_first_time(vs: &Vec<String>) -> (r: TimeRead)
    ensures
        reads(r, first_time_fits(chars::all_texts(vs@)), first_time(chars::all_texts(vs@))),
{
    let ghost all = chars::all_texts(vs@);
    let mut i: usize = 0;
    assert(all.skip(0) == all);
    while i < vs.len()
        invariant
            i <= vs@.len(),
            all == chars::all_texts(vs@),
            first_time_fits(all.skip(i as int)) == first_time_fits(all),
            first_time(all.skip(i as int)) == first_time(all),
        decreases vs@.len() - i,
    {
        assert(all.skip(i as int)[0] == vs@[i as int]@);
        assert(all.skip(i as int).skip(1) == all.skip(i + 1));
        match read_time(vs[i].as_str()) {
            TimeRead::TooLarge => {
                return TimeRead::TooLarge;
            },
            TimeRead::Millis(n) => {
                return TimeRead::Millis(n);
            },
            TimeRead::Nothing => {},
        }
        i = i + 1;
    }
    TimeRead::Nothing
}

fn read_seek(env: &Envelope) -> (r: TimeRead)
    ensures
        reads(r, seek_fits(*env), seek_millis(*env)),
{
    match env.slot("time") {
        Some(v) => match read_time(v) {
            TimeRead::TooLarge => TimeRead::TooLarge,
            TimeRead::Millis(n) => TimeRead::Millis(n),
            TimeRead::Nothing => read_first_time(&env.slot_values("time")),
        },
        None => read_first_time(&env.slot_values("time")),
    }
}

impl IntentKind {
    /// Whether the numbers of a seek request, where the request is one, all fit.
    pub fn can_classify(env: &Envelope) -> (r: bool)
        ensures
            r == classifiable(*env),
    {
        if !same_text(env.request.request_type.as_str(), "IntentRequest") {
            return true;
        }
        match env.intent_name() {
            Some(name) => if same_text(name, "SeekIntent") {
                match read_seek(env) {
                    TimeRead::TooLarge => false,
                    _ => true,
                }
            } else {
                true
            },
            None => true,
        }
    }

    /// The intent that a request stands for.
    pub fn from_envelope(env: &Envelope) -> (r: Self)
        requires
            classifiable(*env),
        ensures
            r@ == intent_of(*env),
    {
        let rtype = env.request.request_type.as_str();
        if same_text(rtype, "LaunchRequest") {
            return IntentKind::Launch;
        }
        if same_text(rtype, "SessionEndedRequest") {
            return IntentKind::SessionEnded;
        }
        if same_text(rtype, "SystemRequest") {
            return IntentKind::SystemRequest;
        }
        if !same_text(rtype, "IntentRequest") {
            return IntentKind::Unknown { name: owned(rtype) };
        }
        let name = match env.intent_name() {
            Some(n) => n,
            None => "Unknown",
        };
        match intent_by_name(name) {
            Some(k) => {
                return k;
            },
            None => {},
        }
        if same_text(name, "ResumeIntent") {
            let offset_ms: i64 = match env.audio_player() {
                Some(a) => match a.offset_in_milliseconds {
                    Some(n) => n,
                    None => 0,
                },
                None => 0,
            };
            IntentKind::Resume { offset_ms }
        } else if same_text(name, "AMAZON.FallbackIntent") {
            IntentKind::Fallback { utterance: owned_opt(env.slot("utterance")) }
        } else if same_text(name, "PlayMusicIntent") {
            IntentKind::PlayMusic { query: owned_opt(env.slot("query")) }
        } else if same_text(name, "AskIntent") {
            match env.slot("utterance") {
                Some(u) => IntentKind::Ask { utterance: owned(u) },
                None => IntentKind::Fallback { utterance: None },
            }
        } else if same_text(name, "SeekIntent") {
            proof {
                reveal_strlit("Unknown");
                reveal_strlit("SeekIntent");
                assert("Unknown"@.len() != "SeekIntent"@.len());
            }
            let offset_ms = match read_seek(env) {
                TimeRead::Millis(n) => Some(n),
                _ => None,
            };
            IntentKind::Seek { offset_ms }
        } else {
            IntentKind::Unknown { name: owned(name) }
        }
    }

    /// The question that an intent addresses to the agent.
    pub open spec fn question(self) -> Option<Seq<char>> {
        match self {
            IntentKind::Ask { utterance } => Some(utterance@),
            IntentKind::Fallback { utterance } => chars::opt_text(utterance),
            _ => None,
        }
    }

    /// Transcript of a user question addressed to the agent, if any.
    pub fn agent_utterance(&self) -> (r: Option<&str>)
        ensures
            chars::opt_str(r) == self.question(),
    {
        match self {
            IntentKind::Ask { utterance } => Some(utterance.as_str()),
            IntentKind::Fallback { utterance } => chars::borrow_opt(utterance),
            _ => None,
        }
    }
}

} // verus!
