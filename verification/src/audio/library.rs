//! Music library: formats, tracks, and the index built from scanned files.

use vstd::prelude::*;
use vstd::std_specs::iter::IteratorSpec;

use crate::audio::path::extension;
use crate::audio::path::file_stem;
use crate::audio::path::folder;
use crate::audio::path;
use crate::audio::shuffle::draw_picks;
use crate::audio::shuffle::shuffle_with;
use crate::audio::shuffle;
use crate::sort::Ranked;
use crate::sort::Sortable;
use crate::sort::stable_order;
use crate::sort;
use crate::text::chars::concat2;
use crate::text::chars::concat3;
use crate::text::chars::owned;
use crate::text::chars::same_chars;
use crate::text::chars::to_chars;
use crate::text::chars::to_lower;
use crate::text::chars::to_text;
use crate::text::chars;
use crate::text::number::parse_u32;
use crate::text::number;
use crate::text::order::Rank;
use crate::text::order::rank_text;
use crate::text::order;
use crate::text::split::replace;
use crate::text::split;

verus! {

broadcast use {vstd::seq::group_seq_axioms, vstd::slice::group_slice_axioms};

/// Why a scan failed.
#[derive(Debug)]
pub enum ScanError {
    Io(String),
}

impl ScanError {
    /// The error in words.
    pub fn message(&self) -> (r: String)
        ensures
            match *self {
                ScanError::Io(e) => r@ == "io error: "@ + e@,
            },
    {
        match self {
            ScanError::Io(e) => concat2("io error: ", e.as_str()),
        }
    }
}

#[derive(Debug, Clone, Copy, PartialEq, Eq, Structural)]
pub enum Format {
    Mp3,
    Aac,
    Flac,
}

impl Format {
    /// The MIME type of the format.
    pub open spec fn mime(self) -> Seq<char> {
        match self {
            Format::Mp3 => "audio/mpeg"@,
            Format::Aac => "audio/aac"@,
            Format::Flac => "audio/flac"@,
        }
    }

    /// The MIME type of the format.
    pub fn content_type(self) -> (r: &'static str)
        ensures
            r@ == self.mime(),
    {
        match self {
            Format::Mp3 => "audio/mpeg",
            Format::Aac => "audio/aac",
            Format::Flac => "audio/flac",
        }
    }

    /// Echo AudioPlayer streams MP3 and AAC natively.
    pub fn playable(self) -> (r: bool)
        ensures
            r == (self == Format::Mp3 || self == Format::Aac),
    {
        match self {
            Format::Mp3 | Format::Aac => true,
            Format::Flac => false,
        }
    }
}

/// The format that an extension in small letters stands for.
pub open spec fn extension_format(ext: Seq<char>) -> Option<Format> {
    if ext == "mp3"@ {
        Some(Format::Mp3)
    } else if ext == "m4a"@ || ext == "aac"@ || ext == "mp4"@ || ext == "m4b"@ || ext == "m4p"@ {
        Some(Format::Aac)
    } else if ext == "flac"@ {
        Some(Format::Flac)
    } else {
        None
    }
}

/// The format that a path's extension stands for, in capitals or not.
pub open spec fn path_format(p: Seq<char>) -> Option<Format> {
    match path::extension_of(p) {
        Some(ext) => extension_format(chars::lowered(ext)),
        None => None,
    }
}

fn is_text(s: &[char], t: &str) -> (r: bool)
    ensures
        r == (s@ == t@),
{
    same_chars(s, to_chars(t).as_slice())
}

/// The format of the file at `path`, by its extension.
pub fn detect_format(path: &str) -> (r: Option<Format>)
    ensures
        r == path_format(path@),
{
    let p = to_chars(path);
    match extension(p.as_slice()) {
        Some(ext) => {
            let low = to_lower(ext);
            let e = low.as_slice();
            if is_text(e, "mp3") {
                Some(Format::Mp3)
            } else if is_text(e, "m4a") || is_text(e, "aac") || is_text(e, "mp4") || is_text(
                e,
                "m4b",
            ) || is_text(e, "m4p") {
                Some(Format::Aac)
            } else if is_text(e, "flac") {
                Some(Format::Flac)
            } else {
                None
            }
        },
        None => None,
    }
}

/// One audio file in the library.
#[derive(Debug, Clone)]
pub struct Track {
    pub id: u64,
    pub path: String,
    pub title: String,
    pub artist: String,
    pub album: String,
    pub genre: String,
    pub track_no: Option<u32>,
    pub duration_ms: u64,
    /// Average bitrate in kbps; used to translate a millisecond offset into a
    /// byte offset for MP3 stream resume.
    pub avg_bitrate_kbps: u32,
    pub format: Format,
    pub playable: bool,
}

/// What a track says.
pub struct TrackModel {
    pub id: u64,
    pub path: Seq<char>,
    pub title: Seq<char>,
    pub artist: Seq<char>,
    pub album: Seq<char>,
    pub genre: Seq<char>,
    pub track_no: Option<u32>,
    pub duration_ms: u64,
    pub avg_bitrate_kbps: u32,
    pub format: Format,
    pub playable: bool,
}

impl View for Track {
    type V = TrackModel;

    open spec fn view(&self) -> TrackModel {
        TrackModel {
            id: self.id,
            path: self.path@,
            title: self.title@,
            artist: self.artist@,
            album: self.album@,
            genre: self.genre@,
            track_no: self.track_no,
            duration_ms: self.duration_ms,
            avg_bitrate_kbps: self.avg_bitrate_kbps,
            format: self.format,
            playable: self.playable,
        }
    }
}

/// What a list of tracks says.
pub open spec fn track_models(v: Seq<Track>) -> Seq<TrackModel> {
    Seq::new(v.len(), |i: int| v[i]@)
}

impl TrackModel {
    /// The title, and the artist where one is known.
    pub open spec fn title_artist(self) -> Seq<char> {
        if self.artist.len() == 0 {
            self.title
        } else {
            self.title + " by "@ + self.artist
        }
    }

    /// The number by which the track is sorted within its album.
    pub open spec fn number(self) -> u32 {
        match self.track_no {
            Some(n) => n,
            None => u32::MAX,
        }
    }
}

impl Track {
    /// The title, and the artist where one is known.
    pub fn title_artist(&self) -> (r: String)
        ensures
            r@ == self@.title_artist(),
    {
        if to_chars(self.artist.as_str()).len() == 0 {
            self.title.clone()
        } else {
            concat3(self.title.as_str(), " by ", self.artist.as_str())
        }
    }

    fn number(&self) -> (r: u32)
        ensures
            r == self@.number(),
    {
        match self.track_no {
            Some(n) => n,
            None => u32::MAX,
        }
    }
}

/// Tracks stand by artist, album, track number and title.
impl Ranked for TrackModel {
    open spec fn at_most(&self, other: &Self) -> bool {
        if self.artist != other.artist {
            order::text_before(self.artist, other.artist)
        } else if self.album != other.album {
            order::text_before(self.album, other.album)
        } else if self.number() != other.number() {
            self.number() < other.number()
        } else {
            !order::text_before(other.title, self.title)
        }
    }

    proof fn at_most_total(a: &Self, b: &Self) {
        order::lemma_before_total(a.artist, b.artist);
        order::lemma_before_total(a.album, b.album);
        if order::text_before(a.title, b.title) {
            order::lemma_before_antisymmetric(a.title, b.title);
        }
    }

    proof fn at_most_transitive(a: &Self, b: &Self, c: &Self) {
        let (x, y, z) = (*a, *b, *c);
        if order::text_before(x.artist, y.artist) && order::text_before(y.artist, z.artist) {
            order::lemma_before_transitive(x.artist, y.artist, z.artist);
        }
        if order::text_before(x.artist, z.artist) {
            order::lemma_before_antisymmetric(x.artist, z.artist);
        }
        if order::text_before(x.artist, y.artist) {
            order::lemma_before_antisymmetric(x.artist, y.artist);
        }
        if order::text_before(x.album, y.album) && order::text_before(y.album, z.album) {
            order::lemma_before_transitive(x.album, y.album, z.album);
        }
        if order::text_before(x.album, z.album) {
            order::lemma_before_antisymmetric(x.album, z.album);
        }
        if order::text_before(x.album, y.album) {
            order::lemma_before_antisymmetric(x.album, y.album);
        }
        if order::text_before(z.title, x.title) {
            order::lemma_before_total(x.title, y.title);
            order::lemma_before_total(y.title, z.title);
            if order::text_before(x.title, y.title) {
                order::lemma_before_transitive(z.title, x.title, y.title);
            }
            if order::text_before(y.title, z.title) {
                order::lemma_before_transitive(y.title, z.title, x.title);
            }
        }
    }
}

impl Ranked for Track {
    open spec fn at_most(&self, other: &Self) -> bool {
        self@.at_most(&other@)
    }

    proof fn at_most_total(a: &Self, b: &Self) {
        TrackModel::at_most_total(&a@, &b@);
    }

    proof fn at_most_transitive(a: &Self, b: &Self, c: &Self) {
        TrackModel::at_most_transitive(&a@, &b@, &c@);
    }
}

impl Sortable for Track {
    fn is_at_most(&self, other: &Self) -> (r: bool) {
        match rank_text(self.artist.as_str(), other.artist.as_str()) {
            Rank::Before => {
                proof {
                    order::lemma_before_antisymmetric(self@.artist, other@.artist);
                }
                return true;
            },
            Rank::After => {
                proof {
                    order::lemma_before_antisymmetric(other@.artist, self@.artist);
                }
                return false;
            },
            Rank::Same => {},
        }
        match rank_text(self.album.as_str(), other.album.as_str()) {
            Rank::Before => {
                proof {
                    order::lemma_before_antisymmetric(self@.album, other@.album);
                }
                return true;
            },
            Rank::After => {
                proof {
                    order::lemma_before_antisymmetric(other@.album, self@.album);
                }
                return false;
            },
            Rank::Same => {},
        }
        let a: u32 = self.number();
        let b: u32 = other.number();
        if a != b {
            return a < b;
        }
        match rank_text(self.title.as_str(), other.title.as_str()) {
            Rank::After => false,
            _ => true,
        }
    }
}

/// Embedded cover art.
#[derive(Debug, Clone)]
pub struct Cover {
    pub data: Vec<u8>,
    pub mime: String,
}

/// The first picture of a file's tag; the tag may leave its MIME type open.
#[derive(Debug, Clone)]
pub struct Picture {
    pub data: Vec<u8>,
    pub mime: Option<String>,
}

/// The MIME type of a picture: that of its tag, else JPEG.
pub open spec fn picture_mime(p: Picture) -> Seq<char> {
    match p.mime {
        Some(m) => m@,
        None => "image/jpeg"@,
    }
}

/// What the tags of a file say of it.
#[derive(Debug)]
pub struct Meta {
    pub title: String,
    pub artist: String,
    pub album: String,
    pub genre: String,
    pub track_no: Option<u32>,
    pub duration_ms: u64,
    pub bitrate_kbps: u32,
}

/// The texts of a file's tag.
#[derive(Debug)]
pub struct TagTexts {
    pub title: Option<String>,
    pub artist: Option<String>,
    pub album: Option<String>,
    pub genre: Option<String>,
    pub track_number: Option<String>,
}

/// What an optional text says, with nothing for none.
pub open spec fn or_empty(o: Option<String>) -> Seq<char> {
    match o {
        Some(s) => s@,
        None => seq![],
    }
}

/// The average bitrate in kbps, which is bits per millisecond: the larger of what
/// the file states and what its length and duration give, the latter kept to 32
/// bits.
pub open spec fn average_bitrate(stated: Option<u32>, file_len: u64, duration_ms: u64) -> nat {
    let s: nat = match stated {
        Some(n) => n as nat,
        None => 0,
    };
    let bits: int = if file_len * 8 > u64::MAX {
        u64::MAX as int
    } else {
        file_len * 8
    };
    let ms: int = if duration_ms > 0 {
        duration_ms as int
    } else {
        1
    };
    let measured = (bits / ms) % 0x1_0000_0000;
    if measured > s {
        measured as nat
    } else {
        s
    }
}

fn text_or_empty(o: &Option<String>) -> (r: String)
    ensures
        r@ == or_empty(*o),
{
    match o {
        Some(s) => s.clone(),
        None => {
            let e = String::new();
            assert(e@ =~= seq![]);
            e
        },
    }
}

/// The average bitrate in kbps.
pub fn bitrate_kbps(stated: Option<u32>, file_len: u64, duration_ms: u64) -> (r: u32)
    ensures
        r == average_bitrate(stated, file_len, duration_ms),
{
    let s: u32 = match stated {
        Some(n) => n,
        None => 0,
    };
    let bits: u64 = match file_len.checked_mul(8) {
        Some(n) => n,
        None => u64::MAX,
    };
    let ms: u64 = if duration_ms > 0 {
        duration_ms
    } else {
        1
    };
    let measured: u32 = ((bits / ms) % 0x1_0000_0000) as u32;
    if measured > s {
        measured
    } else {
        s
    }
}

impl Meta {
    /// The metadata of a file without readable tags.
    pub fn unreadable() -> (r: Meta)
        ensures
            r.title@.len() == 0,
            r.artist@.len() == 0,
            r.album@.len() == 0,
            r.genre@.len() == 0,
            r.track_no is None,
            r.duration_ms == 0,
            r.bitrate_kbps == 0,
    {
        Meta {
            title: String::new(),
            artist: String::new(),
            album: String::new(),
            genre: String::new(),
            track_no: None,
            duration_ms: 0,
            bitrate_kbps: 0,
        }
    }

    /// The metadata of a file with the given audio properties and tag.
    pub fn from_tags(
        duration_ms: u128,
        stated_kbps: Option<u32>,
        file_len: u64,
        tag: &Option<TagTexts>,
    ) -> (r: Meta)
        ensures
            r.duration_ms == (if duration_ms <= u64::MAX {
                duration_ms as int
            } else {
                u64::MAX as int
            }),
            r.bitrate_kbps == average_bitrate(stated_kbps, file_len, r.duration_ms),
            match *tag {
                Some(t) => {
                    &&& r.title@ == or_empty(t.title)
                    &&& r.artist@ == or_empty(t.artist)
                    &&& r.album@ == or_empty(t.album)
                    &&& r.genre@ == or_empty(t.genre)
                    &&& match t.track_number {
                        Some(s) => match number::parsed_u32(s@) {
                            Some(n) => r.track_no matches Some(k) && k == n,
                            None => r.track_no is None,
                        },
                        None => r.track_no is None,
                    }
                },
                None => {
                    &&& r.title@.len() == 0
                    &&& r.artist@.len() == 0
                    &&& r.album@.len() == 0
                    &&& r.genre@.len() == 0
                    &&& r.track_no is None
                },
            },
    {
        let mut meta = Meta::unreadable();
        meta.duration_ms = if duration_ms <= u64::MAX as u128 {
            duration_ms as u64
        } else {
            u64::MAX
        };
        meta.bitrate_kbps = bitrate_kbps(stated_kbps, file_len, meta.duration_ms);
        match tag {
            Some(t) => {
                meta.title = text_or_empty(&t.title);
                meta.artist = text_or_empty(&t.artist);
                meta.album = text_or_empty(&t.album);
                meta.genre = text_or_empty(&t.genre);
                meta.track_no = match &t.track_number {
                    Some(s) => parse_u32(to_chars(s.as_str()).as_slice()),
                    None => None,
                };
            },
            None => {},
        }
        meta
    }
}

/// A file that a walk found, with what its tags say.
#[derive(Debug)]
pub struct FoundFile {
    pub path: String,
    pub meta: Meta,
}

/// One root of a scan: the files below it, in the order of the walk. What is no
/// directory is skipped.
#[derive(Debug)]
pub struct RootListing {
    pub root: String,
    pub is_dir: bool,
    pub files: Vec<FoundFile>,
}

/// A name with its underscores read as spaces.
pub open spec fn readable(o: Option<Seq<char>>) -> Seq<char> {
    match o {
        Some(s) => split::replaced(s, '_', ' '),
        None => seq![],
    }
}

/// The track of a file below `root`, before it is numbered. Without a title in
/// the tags the file name stands in, without an artist the folder.
pub open spec fn found_track(root: Seq<char>, f: FoundFile, format: Format) -> TrackModel {
    TrackModel {
        id: 0,
        path: f.path@,
        title: if f.meta.title@.len() == 0 {
            readable(path::stem_of(f.path@))
        } else {
            f.meta.title@
        },
        artist: if f.meta.artist@.len() == 0 {
            readable(path::folder_below(root, f.path@))
        } else {
            f.meta.artist@
        },
        album: f.meta.album@,
        genre: f.meta.genre@,
        track_no: f.meta.track_no,
        duration_ms: f.meta.duration_ms,
        avg_bitrate_kbps: f.meta.bitrate_kbps,
        format,
        playable: format == Format::Mp3 || format == Format::Aac,
    }
}

/// The audio files among `files`, as tracks.
pub open spec fn tracks_of_files(root: Seq<char>, files: Seq<FoundFile>) -> Seq<TrackModel>
    decreases files.len(),
{
    if files.len() == 0 {
        seq![]
    } else {
        let rest = tracks_of_files(root, files.drop_last());
        match path_format(files.last().path@) {
            Some(format) => rest.push(found_track(root, files.last(), format)),
            None => rest,
        }
    }
}

/// The audio files below the roots, as tracks.
pub open spec fn tracks_of_roots(roots: Seq<RootListing>) -> Seq<TrackModel>
    decreases roots.len(),
{
    if roots.len() == 0 {
        seq![]
    } else {
        let rest = tracks_of_roots(roots.drop_last());
        if roots.last().is_dir {
            rest + tracks_of_files(roots.last().root@, roots.last().files@)
        } else {
            rest
        }
    }
}

/// Tracks numbered from 1.
pub open spec fn numbered(tracks: Seq<TrackModel>) -> Seq<TrackModel> {
    Seq::new(tracks.len(), |i: int| TrackModel { id: (i + 1) as u64, ..tracks[i] })
}

/// The library that a scan of the roots makes: the tracks in order, those that
/// the order does not tell apart as they were found, numbered from 1.
pub open spec fn scanned(roots: Seq<RootListing>) -> Seq<TrackModel> {
    numbered(sort::stable_sorted(tracks_of_roots(roots)))
}

/// A name as names are compared: small letters, dashes and underscores as
/// spaces.
pub open spec fn normed(s: Seq<char>) -> Seq<char> {
    split::replaced(split::replaced(chars::lowered(s), '-', ' '), '_', ' ')
}

fn norm(s: &str) -> (r: Vec<char>)
    ensures
        r@ == normed(s@),
{
    let low = to_lower(to_chars(s).as_slice());
    let flat = replace(low.as_slice(), '-', ' ');
    replace(flat.as_slice(), '_', ' ')
}

/// The ids of the tracks that `f` picks, in library order.
pub open spec fn ids_where(t: Seq<TrackModel>, f: spec_fn(TrackModel) -> bool) -> Seq<u64>
    decreases t.len(),
{
    if t.len() == 0 {
        seq![]
    } else if f(t.last()) {
        ids_where(t.drop_last(), f).push(t.last().id)
    } else {
        ids_where(t.drop_last(), f)
    }
}

/// The playable tracks of an album.
pub open spec fn on_album(album: Seq<char>) -> spec_fn(TrackModel) -> bool {
    |t: TrackModel| t.playable && t.album.len() > 0 && normed(t.album) == normed(album)
}

/// The playable tracks of an artist.
pub open spec fn by_artist(artist: Seq<char>) -> spec_fn(TrackModel) -> bool {
    |t: TrackModel| t.playable && normed(t.artist) == normed(artist)
}

/// The playable tracks of a genre.
pub open spec fn of_genre(genre: Seq<char>) -> spec_fn(TrackModel) -> bool {
    |t: TrackModel| t.playable && t.genre.len() > 0 && normed(t.genre) == normed(genre)
}

/// The playable tracks.
pub open spec fn can_play() -> spec_fn(TrackModel) -> bool {
    |t: TrackModel| t.playable
}

/// Indexed set of tracks; the track with the id `n` stands at position `n - 1`.
#[derive(Debug)]
pub struct Library {
    tracks: Vec<Track>,
}

impl View for Library {
    type V = Seq<TrackModel>;

    closed spec fn view(&self) -> Seq<TrackModel> {
        track_models(self.tracks@)
    }
}

/// Every track has the number of its place.
pub open spec fn ids_in_order(t: Seq<TrackModel>) -> bool {
    forall|i: int| 0 <= i < t.len() ==> (#[trigger] t[i]).id == i + 1
}

impl Default for Library {
    fn default() -> (r: Self)
        ensures
            r@ == Seq::<TrackModel>::empty(),
    {
        let r = Library { tracks: Vec::new() };
        assert(r@ =~= seq![]);
        r
    }
}

impl Library {
    #[verifier::type_invariant]
    spec fn well_numbered(self) -> bool {
        forall|i: int| 0 <= i < self.tracks@.len() ==> (#[trigger] self.tracks@[i]).id == i + 1
    }

    /// The tracks of the library.
    pub closed spec fn items(self) -> Seq<Track> {
        self.tracks@
    }

    /// The library without tracks.
    pub fn empty() -> (r: Self)
        ensures
            r@ == Seq::<TrackModel>::empty(),
    {
        Library::default()
    }

    /// The number of tracks.
    pub fn len(&self) -> (r: usize)
        ensures
            r == self@.len(),
            ids_in_order(self@),
    {
        proof {
            use_type_invariant(self);
        }
        self.tracks.len()
    }

    /// Whether the library has no tracks.
    pub fn is_empty(&self) -> (r: bool)
        ensures
            r == (self@.len() == 0),
    {
        self.tracks.len() == 0
    }

    /// The tracks in library order.
    pub fn iter(&self) -> (r: std::slice::Iter<'_, Track>)
        ensures
            r.remaining() == self.items().as_ref(),
            track_models(self.items()) == self@,
    {
        self.tracks.as_slice().iter()
    }

    /// The track at position `i` of the library order.
    pub fn track(&self, i: usize) -> (r: &Track)
        requires
            i < self@.len(),
        ensures
            r@ == self@[i as int],
            *r == self.items()[i as int],
    {
        &self.tracks[i]
    }

    /// The number of playable tracks.
    pub fn playable_len(&self) -> (r: usize)
        ensures
            r == ids_where(self@, can_play()).len(),
    {
        self.playable_ids().len()
    }

    /// The track with the id `id`.
    pub fn get(&self, id: u64) -> (r: Option<&Track>)
        ensures
            match r {
                Some(t) => 1 <= id <= self@.len() && t@ == self@[id - 1] && t.id == id,
                None => id == 0 || id > self@.len(),
            },
    {
        proof {
            use_type_invariant(self);
        }
        let mut i: usize = 0;
        while i < self.tracks.len()
            invariant
                i <= self.tracks@.len(),
                forall|k: int|
                    0 <= k < self.tracks@.len() ==> (#[trigger] self.tracks@[k]).id == k + 1,
                id == 0 || id > i,
            decreases self.tracks@.len() - i,
        {
            if self.tracks[i].id == id {
                return Some(&self.tracks[i]);
            }
            i = i + 1;
        }
        None
    }

    /// Index the audio files below the roots by their tags.
    pub fn scan(roots: &Vec<RootListing>) -> (r: Result<Self, ScanError>)
        ensures
            r matches Ok(lib) && lib@ == scanned(roots@),
    {
        let found = collect(roots);
        let order = stable_order(&found);
        let ghost models = tracks_of_roots(roots@);
        proof {
            assert forall|i: int, j: int| 0 <= i < j < order@.len() implies sort::precedes(
                models,
                #[trigger] order@[i] as int,
                #[trigger] order@[j] as int,
            ) by {
                assert(sort::precedes(found@, order@[i] as int, order@[j] as int));
                assert(models[order@[i] as int] == found@[order@[i] as int]@);
                assert(models[order@[j] as int] == found@[order@[j] as int]@);
            }
            assert(sort::is_stable_order(models, order@));
            sort::lemma_stable_order_unique(models, order@, sort::stable_order_of(models));
        }
        let ghost want = scanned(roots@);
        // Stable, compact ids after sort.
        let mut tracks: Vec<Track> = Vec::new();
        let mut i: usize = 0;
        while i < order.len()
            invariant
                i <= order@.len(),
                tracks@.len() == i,
                sort::is_stable_order(found@, order@),
                models == track_models(found@),
                order@ == sort::stable_order_of(models),
                want == numbered(sort::stable_sorted(models)),
                track_models(tracks@) == want.take(i as int),
            decreases order@.len() - i,
        {
            let at: usize = order[i];
            let ghost before = tracks@;
            let track = copy_track(&found[at], i as u64 + 1);
            tracks.push(track);
            i = i + 1;
            assert(track_models(tracks@) =~= track_models(before).push(track@));
            assert(track_models(tracks@) =~= want.take(i as int));
        }
        assert(want.take(i as int) =~= want);
        assert forall|i: int| 0 <= i < tracks@.len() implies (#[trigger] tracks@[i]).id == i
            + 1 by {
            assert(track_models(tracks@)[i].id == tracks@[i].id);
        }
        Ok(Library { tracks })
    }

    /// The path of the file that holds a track's cover art.
    pub fn cover_path(&self, id: u64) -> (r: Option<&str>)
        ensures
            match r {
                Some(p) => 1 <= id <= self@.len() && p@ == self@[id - 1].path,
                None => id == 0 || id > self@.len(),
            },
    {
        match self.get(id) {
            Some(t) => Some(t.path.as_str()),
            None => None,
        }
    }

    /// Cover art for a track, if embedded: `picture` is what the file at its
    /// cover path holds.
    pub fn cover(&self, id: u64, picture: Option<Picture>) -> (r: Option<Cover>)
        ensures
            match picture {
                Some(p) => if 1 <= id <= self@.len() {
                    r matches Some(c) && c.data@ == p.data@ && c.mime@ == picture_mime(p)
                } else {
                    r is None
                },
                None => r is None,
            },
    {
        match (self.get(id), picture) {
            (Some(_t), Some(p)) => {
                let mime = match p.mime {
                    Some(m) => m,
                    None => owned("image/jpeg"),
                };
                Some(Cover { data: p.data, mime })
            },
            _ => None,
        }
    }

    /// The ids of the playable tracks of an album.
    pub fn tracks_in_album(&self, album: &str) -> (r: Vec<u64>)
        ensures
            r@ == ids_where(self@, on_album(album@)),
    {
        let needle = norm(album);
        let mut ids: Vec<u64> = Vec::new();
        let mut i: usize = 0;
        while i < self.tracks.len()
            invariant
                i <= self.tracks@.len(),
                needle@ == normed(album@),
                ids@ == ids_where(self@.take(i as int), on_album(album@)),
            decreases self.tracks@.len() - i,
        {
            let t = &self.tracks[i];
            assert(self@.take(i + 1).drop_last() == self@.take(i as int));
            assert(self@.take(i + 1).last() == t@);
            if t.playable && to_chars(t.album.as_str()).len() > 0 && same_chars(
                norm(t.album.as_str()).as_slice(),
                needle.as_slice(),
            ) {
                ids.push(t.id);
            }
            i = i + 1;
        }
        assert(self@.take(i as int) == self@);
        ids
    }

    /// The ids of the playable tracks of an artist.
    pub fn tracks_by_artist(&self, artist: &str) -> (r: Vec<u64>)
        ensures
            r@ == ids_where(self@, by_artist(artist@)),
    {
        let needle = norm(artist);
        let mut ids: Vec<u64> = Vec::new();
        let mut i: usize = 0;
        while i < self.tracks.len()
            invariant
                i <= self.tracks@.len(),
                needle@ == normed(artist@),
                ids@ == ids_where(self@.take(i as int), by_artist(artist@)),
            decreases self.tracks@.len() - i,
        {
            let t = &self.tracks[i];
            assert(self@.take(i + 1).drop_last() == self@.take(i as int));
            assert(self@.take(i + 1).last() == t@);
            if t.playable && same_chars(norm(t.artist.as_str()).as_slice(), needle.as_slice()) {
                ids.push(t.id);
            }
            i = i + 1;
        }
        assert(self@.take(i as int) == self@);
        ids
    }

    /// The ids of the playable tracks of a genre.
    pub fn tracks_by_genre(&self, genre: &str) -> (r: Vec<u64>)
        ensures
            r@ == ids_where(self@, of_genre(genre@)),
    {
        let needle = norm(genre);
        let mut ids: Vec<u64> = Vec::new();
        let mut i: usize = 0;
        while i < self.tracks.len()
            invariant
                i <= self.tracks@.len(),
                needle@ == normed(genre@),
                ids@ == ids_where(self@.take(i as int), of_genre(genre@)),
            decreases self.tracks@.len() - i,
        {
            let t = &self.tracks[i];
            assert(self@.take(i + 1).drop_last() == self@.take(i as int));
            assert(self@.take(i + 1).last() == t@);
            if t.playable && to_chars(t.genre.as_str()).len() > 0 && same_chars(
                norm(t.genre.as_str()).as_slice(),
                needle.as_slice(),
            ) {
                ids.push(t.id);
            }
            i = i + 1;
        }
        assert(self@.take(i as int) == self@);
        ids
    }

    fn playable_ids(&self) -> (r: Vec<u64>)
        ensures
            r@ == ids_where(self@, can_play()),
    {
        let mut ids: Vec<u64> = Vec::new();
        let mut i: usize = 0;
        while i < self.tracks.len()
            invariant
                i <= self.tracks@.len(),
                ids@ == ids_where(self@.take(i as int), can_play()),
            decreases self.tracks@.len() - i,
        {
            let t = &self.tracks[i];
            assert(self@.take(i + 1).drop_last() == self@.take(i as int));
            assert(self@.take(i + 1).last() == t@);
            if t.playable {
                ids.push(t.id);
            }
            i = i + 1;
        }
        assert(self@.take(i as int) == self@);
        ids
    }

    /// All playable track ids, shuffled by the given choices if asked for.
    pub fn all_ids_with(&self, shuffled: bool, picks: &Vec<usize>) -> (r: Vec<u64>)
        requires
            shuffled ==> shuffle::is_deck(picks@, self@.len()),
        ensures
            r@ == (if shuffled {
                shuffle::shuffled(ids_where(self@, can_play()), picks@)
            } else {
                ids_where(self@, can_play())
            }),
    {
        proof {
            lemma_ids_where(self@, can_play());
        }
        let mut ids = self.playable_ids();
        if shuffled {
            shuffle_with(ids.as_mut_slice(), picks.as_slice());
        }
        ids
    }

    /// All playable track ids, optionally shuffled.
    pub fn all_ids(&self, shuffled: bool) -> (r: Vec<u64>)
        ensures
            !shuffled ==> r@ == ids_where(self@, can_play()),
            shuffled ==> exists|picks: Seq<usize>|
                {
                    &&& shuffle::is_deck(picks, self@.len())
                    &&& r@ == #[trigger] shuffle::shuffled(ids_where(self@, can_play()), picks)
                },
            r@.to_multiset() == ids_where(self@, can_play()).to_multiset(),
    {
        if shuffled {
            let picks = draw_picks(self.tracks.len());
            proof {
                lemma_ids_where(self@, can_play());
                shuffle::law_shuffle_is_permutation(ids_where(self@, can_play()), picks@);
            }
            self.all_ids_with(true, &picks)
        } else {
            self.playable_ids()
        }
    }
}

fn readable_name(o: Option<&[char]>) -> (r: String)
    ensures
        match o {
            Some(s) => r@ == readable(Some(s@)),
            None => r@ == readable(None),
        },
{
    match o {
        Some(s) => to_text(replace(s, '_', ' ').as_slice()),
        None => {
            let e = String::new();
            assert(e@ =~= seq![]);
            e
        },
    }
}

fn track_of_file(root: &str, f: &FoundFile, format: Format) -> (r: Track)
    ensures
        r@ == found_track(root@, *f, format),
{
    let p = to_chars(f.path.as_str());
    let title = if to_chars(f.meta.title.as_str()).len() == 0 {
        readable_name(file_stem(p.as_slice()))
    } else {
        f.meta.title.clone()
    };
    let artist = if to_chars(f.meta.artist.as_str()).len() == 0 {
        readable_name(folder(to_chars(root).as_slice(), p.as_slice()))
    } else {
        f.meta.artist.clone()
    };
    Track {
        id: 0,
        path: f.path.clone(),
        title,
        artist,
        album: f.meta.album.clone(),
        genre: f.meta.genre.clone(),
        track_no: f.meta.track_no,
        duration_ms: f.meta.duration_ms,
        avg_bitrate_kbps: f.meta.bitrate_kbps,
        format,
        playable: format.playable(),
    }
}

fn copy_track(t: &Track, id: u64) -> (r: Track)
    ensures
        r@ == (TrackModel { id, ..t@ }),
{
    Track {
        id,
        path: t.path.clone(),
        title: t.title.clone(),
        artist: t.artist.clone(),
        album: t.album.clone(),
        genre: t.genre.clone(),
        track_no: t.track_no,
        duration_ms: t.duration_ms,
        avg_bitrate_kbps: t.avg_bitrate_kbps,
        format: t.format,
        playable: t.playable,
    }
}

fn collect_files(root: &str, files: &Vec<FoundFile>, out: &mut Vec<Track>)
    ensures
        track_models(final(out)@) == track_models(old(out)@) + tracks_of_files(root@, files@),
{
    let ghost before = track_models(out@);
    let mut i: usize = 0;
    assert(before + tracks_of_files(root@, files@.take(0)) =~= before);
    while i < files.len()
        invariant
            i <= files@.len(),
            track_models(out@) == before + tracks_of_files(root@, files@.take(i as int)),
        decreases files@.len() - i,
    {
        let f = &files[i];
        let ghost now = track_models(out@);
        assert(files@.take(i + 1).drop_last() == files@.take(i as int));
        assert(files@.take(i + 1).last() == *f);
        match detect_format(f.path.as_str()) {
            Some(format) => {
                let t = track_of_file(root, f, format);
                out.push(t);
                assert(track_models(out@) =~= now.push(t@));
            },
            None => {},
        }
        i = i + 1;
        assert(track_models(out@) =~= before + tracks_of_files(root@, files@.take(i as int)));
    }
    assert(files@.take(i as int) == files@);
}

fn collect(roots: &Vec<RootListing>) -> (r: Vec<Track>)
    ensures
        track_models(r@) == tracks_of_roots(roots@),
{
    let mut out: Vec<Track> = Vec::new();
    let mut i: usize = 0;
    assert(track_models(out@) =~= tracks_of_roots(roots@.take(0)));
    while i < roots.len()
        invariant
            i <= roots@.len(),
            track_models(out@) == tracks_of_roots(roots@.take(i as int)),
        decreases roots@.len() - i,
    {
        let root = &roots[i];
        assert(roots@.take(i + 1).drop_last() == roots@.take(i as int));
        assert(roots@.take(i + 1).last() == *root);
        if root.is_dir {
            collect_files(root.root.as_str(), &root.files, &mut out);
        }
        i = i + 1;
    }
    assert(roots@.take(i as int) == roots@);
    out
}

// ── Laws ───────────────────────────────────────────────────────────────────

/// Each id that a filter gives is the id of a picked track, and of every picked
/// track the id is given.
pub proof fn lemma_ids_where(t: Seq<TrackModel>, f: spec_fn(TrackModel) -> bool)
    ensures
        ids_where(t, f).len() <= t.len(),
        forall|id: u64| #[trigger]
            ids_where(t, f).contains(id) <==> exists|i: int|
                0 <= i < t.len() && f(#[trigger] t[i]) && t[i].id == id,
    decreases t.len(),
{
    if t.len() > 0 {
        let init = t.drop_last();
        lemma_ids_where(init, f);
        let ids = ids_where(t, f);
        let rest = ids_where(init, f);
        assert forall|id: u64| #[trigger] ids.contains(id) implies exists|i: int|
            0 <= i < t.len() && f(#[trigger] t[i]) && t[i].id == id by {
            if rest.contains(id) {
                let i = choose|i: int|
                    0 <= i < init.len() && f(#[trigger] init[i]) && init[i].id == id;
                assert(t[i] == init[i]);
            } else {
                let k = choose|k: int| 0 <= k < ids.len() && ids[k] == id;
                if k < rest.len() {
                    assert(rest[k] == id);
                }
                assert(f(t[t.len() - 1]));
            }
        }
        assert forall|id: u64|
            exists|i: int| 0 <= i < t.len() && f(#[trigger] t[i]) && t[i].id == id implies
            #[trigger] ids.contains(id) by {
            let i = choose|i: int| 0 <= i < t.len() && f(#[trigger] t[i]) && t[i].id == id;
            if i < init.len() {
                assert(f(init[i]) && init[i].id == id);
                assert(rest.contains(id));
                let k = choose|k: int| 0 <= k < rest.len() && rest[k] == id;
                assert(ids[k] == id);
            } else {
                assert(ids[ids.len() - 1] == id);
            }
        }
    }
}

/// Ids are found again: in a numbered library a filter gives exactly the ids
/// whose tracks it picks.
pub proof fn law_ids_lead_to_picked_tracks(t: Seq<TrackModel>, f: spec_fn(TrackModel) -> bool)
    requires
        ids_in_order(t),
        t.len() <= u64::MAX,
    ensures
        forall|id: u64| #[trigger]
            ids_where(t, f).contains(id) <==> 1 <= id <= t.len() && f(t[id - 1]),
{
    lemma_ids_where(t, f);
    assert forall|id: u64| #[trigger] ids_where(t, f).contains(id) <==> 1 <= id <= t.len() && f(
        t[id - 1],
    ) by {
        if 1 <= id <= t.len() && f(t[id - 1]) {
            assert(t[id - 1].id == id);
        }
    }
}

/// A scanned library holds each audio file that was found, and nothing else,
/// numbered from 1 without gaps.
pub proof fn law_scan_keeps_every_file(roots: Seq<RootListing>)
    requires
        tracks_of_roots(roots).len() <= usize::MAX,
    ensures
        scanned(roots).len() == tracks_of_roots(roots).len(),
        ids_in_order(scanned(roots)),
        forall|k: int|
            0 <= k < tracks_of_roots(roots).len() ==> holds_track(
                scanned(roots),
                #[trigger] tracks_of_roots(roots)[k],
            ),
        forall|i: int|
            0 <= i < scanned(roots).len() ==> tracks_of_roots(roots).contains(
                TrackModel { id: 0, ..#[trigger] scanned(roots)[i] },
            ),
{
    let found = tracks_of_roots(roots);
    let p = sort::stable_order_of(found);
    let n = scanned(roots);
    sort::lemma_stable_order_exists(found);
    lemma_found_ids(roots);
    assert forall|k: int| 0 <= k < found.len() implies holds_track(n, #[trigger] found[k]) by {
        assert(p.contains(k as usize));
        let i = choose|i: int| 0 <= i < p.len() && p[i] == k as usize;
        assert(n[i] == (TrackModel { id: (i + 1) as u64, ..found[k] }));
    }
    assert forall|i: int| 0 <= i < n.len() implies found.contains(
        TrackModel { id: 0, ..#[trigger] n[i] },
    ) by {
        let k = p[i] as int;
        assert(found[k].id == 0);
        assert(found[k] == (TrackModel { id: 0, ..n[i] }));
    }
}

/// A numbered library holds a track that was found.
pub open spec fn holds_track(lib: Seq<TrackModel>, t: TrackModel) -> bool {
    exists|i: int|
        0 <= i < lib.len() && #[trigger] lib[i] == (TrackModel { id: (i + 1) as u64, ..t })
}

proof fn lemma_file_ids(root: Seq<char>, files: Seq<FoundFile>)
    ensures
        forall|i: int|
            0 <= i < tracks_of_files(root, files).len() ==> (#[trigger] tracks_of_files(
                root,
                files,
            )[i]).id == 0,
    decreases files.len(),
{
    if files.len() > 0 {
        lemma_file_ids(root, files.drop_last());
    }
}

proof fn lemma_found_ids(roots: Seq<RootListing>)
    ensures
        forall|i: int|
            0 <= i < tracks_of_roots(roots).len() ==> (#[trigger] tracks_of_roots(roots)[i]).id
                == 0,
    decreases roots.len(),
{
    if roots.len() > 0 {
        lemma_found_ids(roots.drop_last());
        lemma_file_ids(roots.last().root@, roots.last().files@);
        let rest = tracks_of_roots(roots.drop_last());
        let more = tracks_of_files(roots.last().root@, roots.last().files@);
        assert forall|i: int| 0 <= i < tracks_of_roots(roots).len() implies (
        #[trigger] tracks_of_roots(roots)[i]).id == 0 by {
            if i < rest.len() {
                assert(tracks_of_roots(roots)[i] == rest[i]);
            } else {
                assert(tracks_of_roots(roots)[i] == more[i - rest.len()]);
            }
        }
    }
}

/// In a scanned library the tracks stand in order.
pub proof fn law_scan_is_sorted(roots: Seq<RootListing>)
    requires
        tracks_of_roots(roots).len() <= usize::MAX,
    ensures
        forall|i: int, j: int|
            #![trigger scanned(roots)[i], scanned(roots)[j]]
            0 <= i < j < scanned(roots).len() ==> scanned(roots)[i].at_most(&scanned(roots)[j]),
{
    let found = tracks_of_roots(roots);
    let p = sort::stable_order_of(found);
    sort::lemma_stable_order_exists(found);
    assert forall|i: int, j: int|
        #![trigger scanned(roots)[i], scanned(roots)[j]]
        0 <= i < j < scanned(roots).len() implies scanned(roots)[i].at_most(
        &scanned(roots)[j],
    ) by {
        assert(sort::precedes(found, p[i] as int, p[j] as int));
    }
}

/// A root that is no directory adds nothing.
pub proof fn law_missing_root_adds_nothing(roots: Seq<RootListing>)
    requires
        forall|i: int| 0 <= i < roots.len() ==> !(#[trigger] roots[i]).is_dir,
    ensures
        tracks_of_roots(roots).len() == 0,
    decreases roots.len(),
{
    if roots.len() > 0 {
        law_missing_root_adds_nothing(roots.drop_last());
    }
}

} // verus!
