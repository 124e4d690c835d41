//! Simple music search: word-AND matching with field-weighted scoring. Good
//! enough for voice ("play bohemian rhapsody queen") without an embedding
//! model.

use vstd::prelude::*;

use crate::audio::library::Library;
use crate::audio::library::TrackModel;
use crate::audio::library;
use crate::sort::Ranked;
use crate::sort::Sortable;
use crate::sort::stable_order;
use crate::sort;
use crate::text::chars::push_chars;
use crate::text::chars::to_chars;
use crate::text::chars::to_lower;
use crate::text::chars::to_text;
use crate::text::chars;
use crate::text::find::contains;
use crate::text::find::starts_with;
use crate::text::find;
use crate::text::split::join;
use crate::text::split::split_words;
use crate::text::split;

verus! {

broadcast use {vstd::seq::group_seq_axioms, vstd::slice::group_slice_axioms};

/// What one word of a query adds to a score at most.
pub const WORD_SCORE: u32 = 23;

/// The most words whose score is sure to fit: a score takes 32 bits.
pub const MAX_WORDS: usize = 186_737_708;

/// The longest query that is sure to have no more words than that.
pub const MAX_QUERY_CHARS: usize = 373_475_416;

/// What `char::is_alphanumeric` says of a character.
pub uninterp spec fn char_is_alphanumeric(c: char) -> bool;

/// `char::is_alphanumeric` goes by Unicode's properties Alphabetic and Numeric.
/// Of the ASCII characters exactly the letters and digits have one of them.
pub assume_specification[ char::is_alphanumeric ](c: char) -> (r: bool)
    ensures
        r == char_is_alphanumeric(c),
        c as u32 <= 0x7f ==> r == chars::is_ascii_alnum(c),
;

/// A character that a search looks at.
pub open spec fn searchable(c: char) -> bool {
    char_is_alphanumeric(c) || c == ' '
}

/// The characters of `s` that a search looks at.
pub open spec fn kept_chars(s: Seq<char>) -> Seq<char>
    decreases s.len(),
{
    if s.len() == 0 {
        seq![]
    } else if searchable(s.last()) {
        kept_chars(s.drop_last()).push(s.last())
    } else {
        kept_chars(s.drop_last())
    }
}

/// The words of a text, in small letters and without punctuation.
pub open spec fn search_words(s: Seq<char>) -> Seq<Seq<char>> {
    split::words(kept_chars(chars::lowered(s)))
}

/// The words of a text with one space between them.
pub open spec fn normalized(s: Seq<char>) -> Seq<char> {
    split::joined(search_words(s), seq![' '])
}

/// The fields of a track that a search looks at.
pub open spec fn haystack(t: TrackModel) -> Seq<char> {
    normalized(t.title) + seq![' '] + normalized(t.artist) + seq![' '] + normalized(t.album)
        + seq![' '] + normalized(t.genre)
}

/// Every word appears somewhere in the track's fields.
pub open spec fn matches_all(t: TrackModel, words: Seq<Seq<char>>) -> bool {
    forall|i: int| 0 <= i < words.len() ==> find::occurs(#[trigger] words[i], haystack(t))
}

/// `n` where the word occurs in the text.
pub open spec fn worth(word: Seq<char>, text: Seq<char>, n: nat) -> nat {
    if find::occurs(word, text) {
        n
    } else {
        0
    }
}

/// What one word of the query `q` adds to a track's score.
pub open spec fn word_score(t: TrackModel, q: Seq<char>, word: Seq<char>) -> nat {
    worth(word, normalized(t.title), 5) + worth(word, normalized(t.artist), 4) + worth(
        word,
        normalized(t.album),
        3,
    ) + worth(word, normalized(t.genre), 3) + if q.is_prefix_of(normalized(t.title)) {
        8nat
    } else {
        0
    }
}

/// The score of a track for the query `q` with the given words.
pub open spec fn track_score(t: TrackModel, q: Seq<char>, words: Seq<Seq<char>>) -> nat
    decreases words.len(),
{
    if words.len() == 0 {
        0
    } else {
        track_score(t, q, words.drop_last()) + word_score(t, q, words.last())
    }
}

/// The tracks that match, with their scores, in library order.
pub open spec fn hits(
    tracks: Seq<TrackModel>,
    q: Seq<char>,
    words: Seq<Seq<char>>,
) -> Seq<(u64, u32)>
    decreases tracks.len(),
{
    if tracks.len() == 0 {
        seq![]
    } else {
        let rest = hits(tracks.drop_last(), q, words);
        if matches_all(tracks.last(), words) {
            rest.push((tracks.last().id, track_score(tracks.last(), q, words) as u32))
        } else {
            rest
        }
    }
}

/// The tracks that match a query, best first.
pub open spec fn all_found(tracks: Seq<TrackModel>, query: Seq<char>) -> Seq<(u64, u32)> {
    if search_words(query).len() == 0 {
        seq![]
    } else {
        sort::stable_sorted(hits(tracks, normalized(query), search_words(query)))
    }
}

/// The best `limit` tracks that match a query, but at least one.
pub open spec fn found(tracks: Seq<TrackModel>, query: Seq<char>, limit: nat) -> Seq<(u64, u32)> {
    let all = all_found(tracks, query);
    let n = if limit > 0 {
        limit
    } else {
        1
    };
    if all.len() > n {
        all.take(n as int)
    } else {
        all
    }
}

/// Hits stand by falling score, and by rising id where the scores are equal.
impl Ranked for (u64, u32) {
    open spec fn at_most(&self, other: &Self) -> bool {
        self.1 > other.1 || (self.1 == other.1 && self.0 <= other.0)
    }

    proof fn at_most_total(a: &Self, b: &Self) {
    }

    proof fn at_most_transitive(a: &Self, b: &Self, c: &Self) {
    }
}

impl Sortable for (u64, u32) {
    fn is_at_most(&self, other: &Self) -> (r: bool) {
        self.1 > other.1 || (self.1 == other.1 && self.0 <= other.0)
    }
}

fn keep_chars(s: &[char]) -> (r: Vec<char>)
    ensures
        r@ == kept_chars(s@),
        r@.len() <= s@.len(),
{
    let mut out: Vec<char> = Vec::new();
    let mut i: usize = 0;
    assert(out@ =~= kept_chars(s@.take(0)));
    while i < s.len()
        invariant
            i <= s@.len(),
            out@.len() <= i,
            out@ == kept_chars(s@.take(i as int)),
        decreases s@.len() - i,
    {
        let c = s[i];
        assert(s@.take(i + 1).drop_last() == s@.take(i as int));
        assert(s@.take(i + 1).last() == c);
        if c.is_alphanumeric() || c == ' ' {
            out.push(c);
        }
        i = i + 1;
    }
    assert(s@.take(i as int) == s@);
    out
}

fn norm_chars(s: &str) -> (r: Vec<char>)
    ensures
        r@ == normalized(s@),
{
    let low = to_lower(to_chars(s).as_slice());
    let kept = keep_chars(low.as_slice());
    let words = split_words(kept.as_slice());
    let mut space: Vec<char> = Vec::new();
    space.push(' ');
    assert(space@ =~= seq![' ']);
    join(&words, space.as_slice())
}

/// The words of a text with one space between them, in small letters and
/// without punctuation.
pub fn norm(s: &str) -> (r: String)
    ensures
        r@ == normalized(s@),
{
    to_text(norm_chars(s).as_slice())
}

fn found_worth(word: &[char], text: &[char], n: u32) -> (r: u32)
    ensures
        r == worth(word@, text@, n as nat),
{
    if contains(text, word) {
        n
    } else {
        0
    }
}

/// The hit of a track, if every word appears in its fields.
fn hit_of(t: &library::Track, q: &[char], words: &Vec<&[char]>) -> (r: Option<(u64, u32)>)
    requires
        words@.len() <= MAX_WORDS,
    ensures
        r == (if matches_all(t@, split::texts(words@)) {
            Some((t.id, track_score(t@, q@, split::texts(words@)) as u32))
        } else {
            None
        }),
{
    let title = norm_chars(t.title.as_str());
    let artist = norm_chars(t.artist.as_str());
    let album = norm_chars(t.album.as_str());
    let genre = norm_chars(t.genre.as_str());
    let mut hay: Vec<char> = Vec::new();
    push_chars(&mut hay, title.as_slice());
    hay.push(' ');
    push_chars(&mut hay, artist.as_slice());
    hay.push(' ');
    push_chars(&mut hay, album.as_slice());
    hay.push(' ');
    push_chars(&mut hay, genre.as_slice());
    assert(hay@ =~= haystack(t@));
    let full: u32 = if starts_with(title.as_slice(), q) {
        8
    } else {
        0
    };
    let ghost ws = split::texts(words@);
    let mut score: u32 = 0;
    let mut i: usize = 0;
    while i < words.len()
        invariant
            i <= words@.len(),
            words@.len() <= MAX_WORDS,
            ws == split::texts(words@),
            title@ == normalized(t@.title),
            artist@ == normalized(t@.artist),
            album@ == normalized(t@.album),
            genre@ == normalized(t@.genre),
            hay@ == haystack(t@),
            full == (if q@.is_prefix_of(normalized(t@.title)) {
                8nat
            } else {
                0
            }),
            forall|k: int| 0 <= k < i ==> find::occurs(#[trigger] ws[k], haystack(t@)),
            score == track_score(t@, q@, ws.take(i as int)),
            score <= i * WORD_SCORE,
        decreases words@.len() - i,
    {
        let w = words[i];
        assert(ws[i as int] == w@);
        if !contains(hay.as_slice(), w) {
            return None;
        }
        assert(ws.take(i + 1).drop_last() == ws.take(i as int));
        assert(ws.take(i + 1).last() == w@);
        score = score + found_worth(w, title.as_slice(), 5) + found_worth(w, artist.as_slice(), 4)
            + found_worth(w, album.as_slice(), 3) + found_worth(w, genre.as_slice(), 3) + full;
        i = i + 1;
    }
    assert(ws.take(i as int) == ws);
    Some((t.id, score))
}

/// Ranked search results: (track id, score), best first.
pub fn search(lib: &Library, query: &str, limit: usize) -> (r: Vec<(u64, u32)>)
    requires
        query@.len() <= MAX_QUERY_CHARS,
    ensures
        r@ == found(lib@, query@, limit as nat),
{
    let low = to_lower(to_chars(query).as_slice());
    let kept = keep_chars(low.as_slice());
    let words = split_words(kept.as_slice());
    let ghost ws = search_words(query@);
    let mut out: Vec<(u64, u32)> = Vec::new();
    if words.len() == 0 {
        assert(ws.len() == 0);
        assert(out@ =~= found(lib@, query@, limit as nat));
        return out;
    }
    assert(ws.len() > 0);
    let q = norm_chars(query);
    let mut scored: Vec<(u64, u32)> = Vec::new();
    let mut i: usize = 0;
    let n: usize = lib.len();
    assert(scored@ =~= hits(lib@.take(0), q@, ws));
    while i < n
        invariant
            i <= n,
            n == lib@.len(),
            words@.len() <= MAX_WORDS,
            ws == split::texts(words@),
            scored@ == hits(lib@.take(i as int), q@, ws),
        decreases n - i,
    {
        assert(lib@.take(i + 1).drop_last() == lib@.take(i as int));
        let t = lib.track(i);
        assert(lib@.take(i + 1).last() == t@);
        match hit_of(t, q.as_slice(), &words) {
            Some(h) => scored.push(h),
            None => {},
        }
        i = i + 1;
    }
    assert(lib@.take(i as int) == lib@);
    let order = stable_order(&scored);
    let m: usize = if limit > 0 {
        limit
    } else {
        1
    };
    let ghost all = all_found(lib@, query@);
    let mut k: usize = 0;
    assert(out@ =~= all.take(0));
    while k < order.len() && k < m
        invariant
            k <= order@.len(),
            k <= m,
            sort::is_stable_order(scored@, order@),
            order@ == sort::stable_order_of(scored@),
            all == sort::stable_sorted(scored@),
            out@ == all.take(k as int),
        decreases order@.len() - k,
    {
        out.push(scored[order[k]]);
        k = k + 1;
        assert(out@ =~= all.take(k as int));
    }
    assert(all.take(all.len() as int) == all);
    out
}

// ── Laws ───────────────────────────────────────────────────────────────────

proof fn lemma_kept_chars(s: Seq<char>)
    ensures
        forall|i: int|
            0 <= i < kept_chars(s).len() ==> searchable(#[trigger] kept_chars(s)[i]) && s.contains(
                kept_chars(s)[i],
            ),
    decreases s.len(),
{
    if s.len() > 0 {
        let init = s.drop_last();
        lemma_kept_chars(init);
        assert forall|i: int| 0 <= i < kept_chars(s).len() implies searchable(
            #[trigger] kept_chars(s)[i],
        ) && s.contains(kept_chars(s)[i]) by {
            if i < kept_chars(init).len() {
                let c = kept_chars(init)[i];
                assert(kept_chars(s)[i] == c);
                assert(init.contains(c));
                let j = choose|j: int| 0 <= j < init.len() && init[j] == c;
                assert(s[j] == c);
            } else {
                assert(s[s.len() - 1] == kept_chars(s)[i]);
            }
        }
    }
}

proof fn lemma_all_kept(s: Seq<char>)
    requires
        forall|i: int| 0 <= i < s.len() ==> searchable(#[trigger] s[i]),
    ensures
        kept_chars(s) == s,
    decreases s.len(),
{
    if s.len() > 0 {
        lemma_all_kept(s.drop_last());
        assert(s.drop_last().push(s.last()) == s);
    } else {
        assert(kept_chars(s) =~= s);
    }
}

/// A normalized text is made of characters that a search looks at, none of
/// them a capital.
pub proof fn law_normalized_chars(s: Seq<char>)
    ensures
        forall|i: int|
            0 <= i < normalized(s).len() ==> searchable(#[trigger] normalized(s)[i]) && !('A'
                <= normalized(s)[i] <= 'Z'),
{
    let low = chars::lowered(s);
    let kept = kept_chars(low);
    let ws = split::words(kept);
    lemma_kept_chars(low);
    split::lemma_words_are_words(kept);
    split::lemma_joined_chars(ws, seq![' ']);
    assert forall|i: int| 0 <= i < normalized(s).len() implies searchable(
        #[trigger] normalized(s)[i],
    ) && !('A' <= normalized(s)[i] <= 'Z') by {
        let c = normalized(s)[i];
        if !seq![' '].contains(c) {
            let j = choose|j: int| 0 <= j < ws.len() && (#[trigger] ws[j]).contains(c);
            let k = choose|k: int| 0 <= k < ws[j].len() && ws[j][k] == c;
            assert(kept.contains(ws[j][k]));
            let m = choose|m: int| 0 <= m < kept.len() && kept[m] == c;
            assert(low.contains(kept[m]));
            let x = choose|x: int| 0 <= x < low.len() && low[x] == c;
            assert(low[x] == chars::lower_char(s[x]));
        }
    }
}

/// Capitals make no difference to a normalized text.
pub proof fn law_norm_ignores_case(s: Seq<char>)
    ensures
        normalized(chars::lowered(s)) == normalized(s),
{
    assert(chars::lowered(chars::lowered(s)) =~= chars::lowered(s));
}

/// No space at either end, and no two in a row.
pub open spec fn single_spaced(s: Seq<char>) -> bool {
    &&& s.len() > 0 ==> s[0] != ' ' && s.last() != ' '
    &&& forall|i: int| 0 <= i < s.len() - 1 && #[trigger] s[i] == ' ' ==> s[i + 1] != ' '
}

proof fn lemma_joined_words_single_spaced(ws: Seq<Seq<char>>)
    requires
        forall|i: int| 0 <= i < ws.len() ==> split::is_word(#[trigger] ws[i]),
    ensures
        single_spaced(split::joined(ws, seq![' '])),
        ws.len() > 0 ==> split::joined(ws, seq![' ']).len() > 0,
    decreases ws.len(),
{
    if ws.len() > 0 {
        let w = ws[ws.len() - 1];
        assert(split::is_word(w));
        assert forall|i: int| 0 <= i < w.len() implies #[trigger] w[i] != ' ' by {
            assert(!chars::CharClass::White.has(w[i]));
        }
        if ws.len() > 1 {
            let init = ws.drop_last();
            assert forall|i: int| 0 <= i < init.len() implies split::is_word(
                #[trigger] init[i],
            ) by {
                assert(init[i] == ws[i]);
            }
            lemma_joined_words_single_spaced(init);
            let head = split::joined(init, seq![' ']);
            let all = split::joined(ws, seq![' ']);
            let n = head.len() as int;
            assert(all == head + seq![' '] + w);
            assert(all[0] == head[0]);
            assert(all.last() == w[w.len() - 1]);
            assert forall|i: int| 0 <= i < all.len() - 1 && #[trigger] all[i] == ' ' implies all[i
                + 1] != ' ' by {
                if i < n - 1 {
                    assert(head[i] == all[i] && head[i + 1] == all[i + 1]);
                } else if i == n - 1 {
                    assert(all[i] == head.last());
                } else if i == n {
                    assert(all[i + 1] == w[0]);
                } else {
                    assert(all[i] == w[i - n - 1]);
                }
            }
        } else {
            assert(split::joined(ws, seq![' ']) == w);
        }
    }
}

/// A normalized text has no space at either end, and no two in a row.
pub proof fn law_norm_is_single_spaced(s: Seq<char>)
    ensures
        single_spaced(normalized(s)),
{
    split::lemma_words_are_words(kept_chars(chars::lowered(s)));
    lemma_joined_words_single_spaced(search_words(s));
}

/// Normalizing a normalized text changes nothing.
pub proof fn law_norm_idempotent(s: Seq<char>)
    ensures
        normalized(normalized(s)) == normalized(s),
        search_words(normalized(s)) == search_words(s),
{
    let n = normalized(s);
    law_normalized_chars(s);
    assert(chars::lowered(n) =~= n);
    lemma_all_kept(n);
    split::lemma_words_are_words(kept_chars(chars::lowered(s)));
    split::lemma_words_joined(search_words(s));
}

proof fn lemma_hits(tracks: Seq<TrackModel>, q: Seq<char>, words: Seq<Seq<char>>)
    ensures
        hits(tracks, q, words).len() <= tracks.len(),
        forall|h: (u64, u32)| #[trigger]
            hits(tracks, q, words).contains(h) <==> exists|i: int|
                {
                    &&& 0 <= i < tracks.len()
                    &&& matches_all(#[trigger] tracks[i], words)
                    &&& h == (tracks[i].id, track_score(tracks[i], q, words) as u32)
                },
    decreases tracks.len(),
{
    if tracks.len() > 0 {
        let init = tracks.drop_last();
        let all = hits(tracks, q, words);
        let rest = hits(init, q, words);
        lemma_hits(init, q, words);
        assert forall|h: (u64, u32)| #[trigger] all.contains(h) implies exists|i: int|
            {
                &&& 0 <= i < tracks.len()
                &&& matches_all(#[trigger] tracks[i], words)
                &&& h == (tracks[i].id, track_score(tracks[i], q, words) as u32)
            } by {
            if rest.contains(h) {
                let i = choose|i: int|
                    {
                        &&& 0 <= i < init.len()
                        &&& matches_all(#[trigger] init[i], words)
                        &&& h == (init[i].id, track_score(init[i], q, words) as u32)
                    };
                assert(tracks[i] == init[i]);
            } else {
                let k = choose|k: int| 0 <= k < all.len() && all[k] == h;
                if k < rest.len() {
                    assert(rest[k] == h);
                }
                assert(matches_all(tracks[tracks.len() - 1], words));
            }
        }
        assert forall|h: (u64, u32)|
            exists|i: int|
                {
                    &&& 0 <= i < tracks.len()
                    &&& matches_all(#[trigger] tracks[i], words)
                    &&& h == (tracks[i].id, track_score(tracks[i], q, words) as u32)
                } implies #[trigger] all.contains(h) by {
            let i = choose|i: int|
                {
                    &&& 0 <= i < tracks.len()
                    &&& matches_all(#[trigger] tracks[i], words)
                    &&& h == (tracks[i].id, track_score(tracks[i], q, words) as u32)
                };
            if i < init.len() {
                assert(matches_all(init[i], words));
                assert(rest.contains(h));
                let k = choose|k: int| 0 <= k < rest.len() && rest[k] == h;
                assert(all[k] == h);
            } else {
                assert(all[all.len() - 1] == h);
            }
        }
    }
}

/// With room for every track nothing is cut off.
pub proof fn lemma_found_all(tracks: Seq<TrackModel>, query: Seq<char>)
    ensures
        found(tracks, query, tracks.len()) == all_found(tracks, query),
        all_found(tracks, query).len() <= tracks.len(),
{
    lemma_hits(tracks, normalized(query), search_words(query));
}

/// What a search finds stands in order: a better score first, and of equal
/// scores the smaller id.
pub proof fn law_search_is_ranked(tracks: Seq<TrackModel>, query: Seq<char>, limit: nat)
    requires
        tracks.len() <= usize::MAX,
    ensures
        forall|i: int, j: int|
            0 <= i < j < found(tracks, query, limit).len() ==> {
                let a = #[trigger] found(tracks, query, limit)[i];
                let b = #[trigger] found(tracks, query, limit)[j];
                a.1 > b.1 || (a.1 == b.1 && a.0 <= b.0)
            },
{
    let h = hits(tracks, normalized(query), search_words(query));
    lemma_hits(tracks, normalized(query), search_words(query));
    sort::lemma_stable_order_exists(h);
    assert forall|i: int, j: int| 0 <= i < j < found(tracks, query, limit).len() implies {
        let a = #[trigger] found(tracks, query, limit)[i];
        let b = #[trigger] found(tracks, query, limit)[j];
        a.1 > b.1 || (a.1 == b.1 && a.0 <= b.0)
    } by {
        let p = sort::stable_order_of(h);
        assert(sort::precedes(h, p[i] as int, p[j] as int));
    }
}

/// `id` is the id of a track whose fields hold every word.
pub open spec fn is_match(tracks: Seq<TrackModel>, words: Seq<Seq<char>>, id: u64) -> bool {
    exists|i: int|
        0 <= i < tracks.len() && matches_all(#[trigger] tracks[i], words) && tracks[i].id == id
}

/// Every word of the query appears in the fields of each track that a search
/// finds; and a search without a limit that cuts finds every such track.
pub proof fn law_search_finds_exactly_matches(tracks: Seq<TrackModel>, query: Seq<char>, limit: nat)
    requires
        tracks.len() <= usize::MAX,
        search_words(query).len() > 0,
    ensures
        forall|k: int|
            0 <= k < found(tracks, query, limit).len() ==> is_match(
                tracks,
                search_words(query),
                (#[trigger] found(tracks, query, limit)[k]).0,
            ),
        limit >= tracks.len() && limit > 0 ==> forall|i: int|
            0 <= i < tracks.len() && matches_all(#[trigger] tracks[i], search_words(query))
                ==> found(tracks, query, limit).contains(
                (
                    tracks[i].id,
                    track_score(tracks[i], normalized(query), search_words(query)) as u32,
                ),
            ),
{
    let ws = search_words(query);
    let h = hits(tracks, normalized(query), ws);
    let p = sort::stable_order_of(h);
    lemma_hits(tracks, normalized(query), ws);
    sort::lemma_stable_order_exists(h);
    let f = found(tracks, query, limit);
    assert forall|k: int| 0 <= k < f.len() implies is_match(tracks, ws, (#[trigger] f[k]).0) by {
        assert(f[k] == h[p[k] as int]);
        assert(h.contains(f[k]));
    }
    if limit >= tracks.len() && limit > 0 {
        assert forall|i: int| 0 <= i < tracks.len() && matches_all(#[trigger] tracks[i], ws) implies f.contains(
            (tracks[i].id, track_score(tracks[i], normalized(query), ws) as u32),
        ) by {
            let x = (tracks[i].id, track_score(tracks[i], normalized(query), ws) as u32);
            assert(h.contains(x));
            let m = choose|m: int| 0 <= m < h.len() && h[m] == x;
            assert(p.contains(m as usize));
            let k = choose|k: int| 0 <= k < p.len() && p[k] == m as usize;
            assert(f[k] == x);
        }
    }
}

/// A query of punctuation alone finds nothing.
pub proof fn law_empty_query_finds_nothing(tracks: Seq<TrackModel>, query: Seq<char>, limit: nat)
    requires
        search_words(query).len() == 0,
    ensures
        found(tracks, query, limit).len() == 0,
{
}

} // verus!
