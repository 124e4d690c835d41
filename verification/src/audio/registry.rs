//! Playback tokens: short-lived, unguessable handles binding a stream (file or
//! radio URL) to a device, plus the byte offset the stream should start at.
//!
//! Times are nanoseconds of one steady clock.

use vstd::prelude::*;

use crate::audio::library::Format;
use crate::audio::shuffle::random_bytes;
use crate::string_map::StringMap;
use crate::string_map;
use crate::text::chars::hex_digit;
use crate::text::chars::owned;
use crate::text::chars::to_chars;
use crate::text::chars;

verus! {

broadcast use {vstd::seq::group_seq_axioms, vstd::slice::group_slice_axioms};

/// How long a token stays valid after issuance: twelve hours.
pub const TOKEN_TTL_NS: u128 = 43_200_000_000_000;

/// The length of a token.
pub const TOKEN_LEN: usize = 48;

/// Where a playback token's bytes come from.
#[derive(Debug, Clone)]
pub enum StreamSource {
    File {
        track_id: u64,
        path: String,
        format: Format,
        /// Starting offset in ms (for resume/seek).
        offset_ms: u64,
        /// Average bitrate in kbps (ms -> byte conversion).
        avg_bitrate_kbps: u32,
        title: String,
        artist: String,
    },
    Radio { url: String, title: String },
}

/// What a stream source says.
pub enum SourceModel {
    File {
        track_id: u64,
        path: Seq<char>,
        format: Format,
        offset_ms: u64,
        avg_bitrate_kbps: u32,
        title: Seq<char>,
        artist: Seq<char>,
    },
    Radio { url: Seq<char>, title: Seq<char> },
}

impl View for StreamSource {
    type V = SourceModel;

    open spec fn view(&self) -> SourceModel {
        match *self {
            StreamSource::File {
                track_id,
                path,
                format,
                offset_ms,
                avg_bitrate_kbps,
                title,
                artist,
            } => SourceModel::File {
                track_id,
                path: path@,
                format,
                offset_ms,
                avg_bitrate_kbps,
                title: title@,
                artist: artist@,
            },
            StreamSource::Radio { url, title } => SourceModel::Radio { url: url@, title: title@ },
        }
    }
}

impl StreamSource {
    /// A copy of a stream source.
    pub fn copy(&self) -> (r: Self)
        ensures
            r@ == self@,
    {
        match self {
            StreamSource::File {
                track_id,
                path,
                format,
                offset_ms,
                avg_bitrate_kbps,
                title,
                artist,
            } => StreamSource::File {
                track_id: *track_id,
                path: path.clone(),
                format: *format,
                offset_ms: *offset_ms,
                avg_bitrate_kbps: *avg_bitrate_kbps,
                title: title.clone(),
                artist: artist.clone(),
            },
            StreamSource::Radio { url, title } => StreamSource::Radio {
                url: url.clone(),
                title: title.clone(),
            },
        }
    }
}

#[derive(Debug)]
pub struct ResolvedStream {
    pub source: StreamSource,
    pub device: String,
}

#[derive(Debug)]
struct Entry {
    source: StreamSource,
    device: String,
    issued: u128,
}

/// What a token is bound to, and when it was issued.
pub struct EntryModel {
    pub source: SourceModel,
    pub device: Seq<char>,
    pub issued: u128,
}

impl EntryModel {
    /// The token's time is over.
    pub open spec fn expired(self, now: u128) -> bool {
        now - self.issued > TOKEN_TTL_NS
    }
}

impl Entry {
    spec fn model(self) -> EntryModel {
        EntryModel { source: self.source@, device: self.device@, issued: self.issued }
    }

    fn is_expired(&self, now: u128) -> (r: bool)
        ensures
            r == self.model().expired(now),
    {
        now > self.issued && now - self.issued > TOKEN_TTL_NS
    }
}

/// The tokens whose time is not over.
pub open spec fn live_tokens(
    m: Map<Seq<char>, EntryModel>,
    now: u128,
) -> Map<Seq<char>, EntryModel> {
    Map::new(|k: Seq<char>| m.dom().contains(k) && !m[k].expired(now), |k: Seq<char>| m[k])
}

/// The tokens in use.
#[derive(Debug)]
pub struct PlaybackRegistry {
    entries: StringMap<Entry>,
}

impl View for PlaybackRegistry {
    type V = Map<Seq<char>, EntryModel>;

    closed spec fn view(&self) -> Map<Seq<char>, EntryModel> {
        Map::new(
            |k: Seq<char>| self.entries@.dom().contains(k),
            |k: Seq<char>| self.entries@[k].model(),
        )
    }
}

impl Default for PlaybackRegistry {
    fn default() -> (r: Self)
        ensures
            r@ == Map::<Seq<char>, EntryModel>::empty(),
    {
        PlaybackRegistry::new()
    }
}

impl PlaybackRegistry {
    /// The registry without tokens.
    pub fn new() -> (r: Self)
        ensures
            r@ == Map::<Seq<char>, EntryModel>::empty(),
    {
        let r = PlaybackRegistry { entries: StringMap::new() };
        assert(r@ =~= Map::<Seq<char>, EntryModel>::empty());
        r
    }

    /// Bind `token` to `source` on `device`.
    pub fn issue_with(&mut self, token: &str, device: &str, source: StreamSource, now: u128)
        ensures
            final(self)@ == old(self)@.insert(
                token@,
                EntryModel { source: source@, device: device@, issued: now },
            ),
    {
        let entry = Entry { source, device: owned(device), issued: now };
        self.entries.insert(owned(token), entry);
        assert(self@ =~= old(self)@.insert(token@, entry.model()));
    }

    /// Issue a new token for `source` on `device`.
    pub fn issue(&mut self, device: &str, source: StreamSource, now: u128) -> (r: String)
        ensures
            is_issued(r@),
            is_token(r@),
            final(self)@ == old(self)@.insert(
                r@,
                EntryModel { source: source@, device: device@, issued: now },
            ),
    {
        let token = random_token();
        self.issue_with(token.as_str(), device, source, now);
        token
    }

    /// What `token` is bound to. A token whose time is over is forgotten.
    pub fn resolve(&mut self, token: &str, now: u128) -> (r: Option<ResolvedStream>)
        ensures
            match r {
                Some(s) => {
                    &&& old(self)@.dom().contains(token@)
                    &&& !old(self)@[token@].expired(now)
                    &&& s.source@ == old(self)@[token@].source
                    &&& s.device@ == old(self)@[token@].device
                    &&& final(self)@ == old(self)@
                },
                None => {
                    &&& old(self)@.dom().contains(token@) ==> old(self)@[token@].expired(now)
                    &&& final(self)@ == old(self)@.remove(token@)
                },
            },
    {
        let expired = match self.entries.get(token) {
            Some(e) => {
                if !e.is_expired(now) {
                    return Some(
                        ResolvedStream { source: e.source.copy(), device: e.device.clone() },
                    );
                }
                true
            },
            None => false,
        };
        if expired {
            let _ = self.entries.remove(token);
        }
        assert(self@ =~= old(self)@.remove(token@));
        None
    }

    /// Drop expired tokens; returns how many were removed.
    pub fn expire_old(&mut self, now: u128) -> (r: usize)
        ensures
            final(self)@ == live_tokens(old(self)@, now),
            old(self)@.dom().finite(),
            r + final(self)@.dom().len() == old(self)@.dom().len(),
    {
        let ghost first = self.entries@;
        let total: usize = self.entries.len();
        assert(self@.dom() =~= first.dom());
        let mut removed: usize = 0;
        let mut i: usize = 0;
        while i < self.entries.len()
            invariant
                i <= self.entries.pairs().len(),
                removed + self.entries.pairs().len() == total,
                forall|k: Seq<char>| #[trigger]
                    self.entries@.dom().contains(k) ==> first.dom().contains(k)
                        && self.entries@[k] == first[k],
                forall|k: Seq<char>| #[trigger]
                    first.dom().contains(k) && !self.entries@.dom().contains(k)
                        ==> first[k].model().expired(now),
                forall|j: int|
                    0 <= j < i ==> !(#[trigger] self.entries.pairs()[j]).1.model().expired(now),
            decreases self.entries.pairs().len() - i,
        {
            let gone = {
                let (_k, e) = self.entries.entry(i);
                e.is_expired(now)
            };
            if gone {
                let ghost before = self.entries.pairs();
                let _ = self.entries.remove_at(i);
                removed = removed + 1;
                assert forall|j: int| 0 <= j < i implies !(
                #[trigger] self.entries.pairs()[j]).1.model().expired(now) by {
                    assert(self.entries.pairs()[j] == before[j]);
                }
            } else {
                i = i + 1;
            }
        }
        let _ = self.entries.len();
        proof {
            assert(self@.dom() =~= self.entries@.dom());
            assert forall|k: Seq<char>| #[trigger] self.entries@.dom().contains(k) implies !first[k].model().expired(
                now,
            ) by {
                let p = self.entries.pairs();
                assert(string_map::has_key(p, k));
                let j = choose|j: int| 0 <= j < p.len() && (#[trigger] p[j]).0 == k;
                string_map::lemma_value(p, j);
            }
            assert(self@ =~= live_tokens(old(self)@, now));
        }
        removed
    }

    /// The number of tokens.
    pub fn len(&self) -> (r: usize)
        ensures
            self@.dom().finite(),
            r == self@.dom().len(),
    {
        assert(self@.dom() =~= self.entries@.dom());
        self.entries.len()
    }

    /// Whether there are no tokens.
    pub fn is_empty(&self) -> (r: bool)
        ensures
            r == (self@.dom().len() == 0),
            r == (self@ == Map::<Seq<char>, EntryModel>::empty()),
    {
        let n: usize = self.len();
        proof {
            if n == 0 {
                assert(self@.dom() =~= Set::empty());
                assert(self@ =~= Map::<Seq<char>, EntryModel>::empty());
            }
        }
        n == 0
    }
}

// ── Tokens ─────────────────────────────────────────────────────────────────

/// Hex, of the length of a token.
pub open spec fn is_token(s: Seq<char>) -> bool {
    &&& s.len() == TOKEN_LEN
    &&& forall|i: int| 0 <= i < s.len() ==> chars::is_hex_digit(#[trigger] s[i])
}

/// A token as it is issued: the hex digits of 24 bytes, in small letters.
pub open spec fn is_issued(s: Seq<char>) -> bool {
    exists|bytes: Seq<u8>| bytes.len() == 24 && s == #[trigger] hex_text(bytes)
}

/// The hex digit of a number below 16.
pub open spec fn hex_char(n: int) -> char {
    if n < 10 {
        (48 + n) as char
    } else {
        (87 + n) as char
    }
}

/// Two hex digits for each byte.
pub open spec fn hex_text(bytes: Seq<u8>) -> Seq<char>
    decreases bytes.len(),
{
    if bytes.len() == 0 {
        seq![]
    } else {
        hex_text(bytes.drop_last()).push(hex_char(bytes.last() as int / 16)).push(
            hex_char(bytes.last() as int % 16),
        )
    }
}

fn hex_of(n: u8) -> (r: char)
    requires
        n < 16,
    ensures
        r == hex_char(n as int),
{
    if n < 10 {
        (48 + n) as char
    } else {
        (87 + n) as char
    }
}

/// Two hex digits for each byte.
pub fn hex_token(bytes: &[u8]) -> (r: String)
    ensures
        r@ == hex_text(bytes@),
{
    let mut s = String::new();
    let mut i: usize = 0;
    assert(s@ =~= hex_text(bytes@.take(0)));
    while i < bytes.len()
        invariant
            i <= bytes@.len(),
            s@ == hex_text(bytes@.take(i as int)),
        decreases bytes@.len() - i,
    {
        let b: u8 = bytes[i];
        assert(bytes@.take(i + 1).drop_last() == bytes@.take(i as int));
        assert(bytes@.take(i + 1).last() == b);
        s.push(hex_of(b / 16));
        s.push(hex_of(b % 16));
        i = i + 1;
    }
    assert(bytes@.take(i as int) == bytes@);
    s
}

/// A fresh token: the hex digits of 24 random bytes.
pub fn random_token() -> (r: String)
    ensures
        is_issued(r@),
        is_token(r@),
{
    let bytes = random_bytes();
    let token = hex_token(bytes.as_slice());
    proof {
        law_hex_token_shape(bytes@);
        assert(token@ == hex_text(bytes@));
    }
    token
}

/// True for tokens we issued (hex, 48 chars). Guards the stream endpoint.
pub fn looks_like_token(s: &str) -> (r: bool)
    ensures
        r == is_token(s@),
{
    let c = to_chars(s);
    if c.len() != TOKEN_LEN {
        return false;
    }
    let mut i: usize = 0;
    while i < c.len()
        invariant
            i <= c@.len(),
            c@ == s@,
            c@.len() == TOKEN_LEN,
            forall|k: int| 0 <= k < i ==> chars::is_hex_digit(#[trigger] c@[k]),
        decreases c@.len() - i,
    {
        if !hex_digit(c[i]) {
            return false;
        }
        i = i + 1;
    }
    true
}

// ── Laws ───────────────────────────────────────────────────────────────────

proof fn lemma_hex_text(bytes: Seq<u8>)
    ensures
        hex_text(bytes).len() == 2 * bytes.len(),
        forall|i: int|
            0 <= i < hex_text(bytes).len() ==> chars::is_hex_digit(#[trigger] hex_text(bytes)[i]),
    decreases bytes.len(),
{
    if bytes.len() > 0 {
        lemma_hex_text(bytes.drop_last());
    }
}

/// The hex digits of 24 bytes pass the guard of the stream endpoint.
pub proof fn law_hex_token_shape(bytes: Seq<u8>)
    requires
        bytes.len() == 24,
    ensures
        is_token(hex_text(bytes)),
{
    lemma_hex_text(bytes);
}

proof fn lemma_hex_text_is_small(bytes: Seq<u8>)
    ensures
        forall|i: int|
            0 <= i < hex_text(bytes).len() ==> is_small_hex(#[trigger] hex_text(bytes)[i]),
    decreases bytes.len(),
{
    if bytes.len() > 0 {
        let init = hex_text(bytes.drop_last());
        let b = bytes.last() as int;
        let all = hex_text(bytes);
        lemma_hex_text_is_small(bytes.drop_last());
        assert(is_small_hex(hex_char(b / 16)));
        assert(is_small_hex(hex_char(b % 16)));
        assert forall|i: int| 0 <= i < all.len() implies is_small_hex(#[trigger] all[i]) by {
            if i < init.len() {
                assert(all[i] == init[i]);
            } else if i == init.len() {
                assert(all[i] == hex_char(b / 16));
            } else {
                assert(all[i] == hex_char(b % 16));
            }
        }
    }
}

/// A hex digit in small letters.
pub open spec fn is_small_hex(c: char) -> bool {
    chars::is_digit(c) || 'a' <= c <= 'f'
}

/// An issued token is 48 hex digits in small letters, and passes the guard of
/// the stream endpoint.
pub proof fn law_issued_token_shape(token: Seq<char>)
    requires
        is_issued(token),
    ensures
        token.len() == TOKEN_LEN,
        forall|i: int| 0 <= i < token.len() ==> is_small_hex(#[trigger] token[i]),
        is_token(token),
{
    let bytes = choose|bytes: Seq<u8>| bytes.len() == 24 && token == #[trigger] hex_text(bytes);
    law_hex_token_shape(bytes);
    lemma_hex_text_is_small(bytes);
}

/// Issuing a token that is not held yet makes one more, and every token held
/// before keeps what it is bound to.
pub proof fn law_issuing_adds_one_token(
    m: Map<Seq<char>, EntryModel>,
    token: Seq<char>,
    e: EntryModel,
)
    requires
        m.dom().finite(),
        !m.dom().contains(token),
    ensures
        m.insert(token, e).dom().len() == m.dom().len() + 1,
        forall|k: Seq<char>| #[trigger]
            m.dom().contains(k) ==> m.insert(token, e).dom().contains(k) && m.insert(token, e)[k]
                == m[k],
{
    assert(m.insert(token, e).dom() == m.dom().insert(token));
}

/// Different bytes make different tokens.
pub proof fn law_hex_token_injective(a: Seq<u8>, b: Seq<u8>)
    requires
        hex_text(a) == hex_text(b),
    ensures
        a == b,
    decreases a.len(),
{
    lemma_hex_text(a);
    lemma_hex_text(b);
    if a.len() > 0 {
        let (x, y) = (hex_text(a), hex_text(b));
        assert(x.drop_last().drop_last() =~= hex_text(a.drop_last()));
        assert(y.drop_last().drop_last() =~= hex_text(b.drop_last()));
        law_hex_token_injective(a.drop_last(), b.drop_last());
        let (p, q) = (a.last() as int, b.last() as int);
        assert(x[x.len() - 1] == y[y.len() - 1]);
        assert(x[x.len() - 2] == y[y.len() - 2]);
        assert(hex_char(p % 16) == hex_char(q % 16));
        assert(hex_char(p / 16) == hex_char(q / 16));
        lemma_hex_char(p % 16, q % 16);
        lemma_hex_char(p / 16, q / 16);
        assert(p == q);
        assert(a =~= a.drop_last().push(a.last()));
        assert(b =~= b.drop_last().push(b.last()));
    } else {
        assert(a =~= b);
    }
}

/// Hex digits tell numbers apart.
pub proof fn lemma_hex_char(m: int, n: int)
    requires
        0 <= m < 16,
        0 <= n < 16,
        hex_char(m) == hex_char(n),
    ensures
        m == n,
{
    assert(hex_char(m) as u32 == hex_char(n) as u32);
}

/// A token leads to what it was issued for until its time is over, whatever
/// other tokens are issued meanwhile.
pub proof fn law_issued_token_resolves(
    m: Map<Seq<char>, EntryModel>,
    token: Seq<char>,
    e: EntryModel,
    other: Seq<char>,
    f: EntryModel,
    now: u128,
)
    requires
        other != token,
        e.issued <= now <= e.issued + TOKEN_TTL_NS,
    ensures
        m.insert(token, e).insert(other, f).dom().contains(token),
        m.insert(token, e).insert(other, f)[token] == e,
        !m.insert(token, e).insert(other, f)[token].expired(now),
        live_tokens(m.insert(token, e).insert(other, f), now).dom().contains(token),
{
}

/// Once a token's time is over it leads nowhere, and expiring drops it.
pub proof fn law_expired_token_is_gone(
    m: Map<Seq<char>, EntryModel>,
    token: Seq<char>,
    e: EntryModel,
    now: u128,
)
    requires
        now > e.issued + TOKEN_TTL_NS,
    ensures
        m.insert(token, e)[token].expired(now),
        !live_tokens(m.insert(token, e), now).dom().contains(token),
{
}

} // verus!
