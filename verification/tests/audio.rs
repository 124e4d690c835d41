use aria::audio::library::bitrate_kbps;
use aria::audio::library::detect_format;
use aria::audio::library::Format;
use aria::audio::library::FoundFile;
use aria::audio::library::Library;
use aria::audio::library::Meta;
use aria::audio::library::Picture;
use aria::audio::library::RootListing;
use aria::audio::library::ScanError;
use aria::audio::library::TagTexts;
use aria::audio::path::walk;
use aria::audio::path::DirEntry;
use aria::audio::player::PlayerState;
use aria::audio::player::Repeat;
use aria::audio::registry::hex_token;
use aria::audio::registry::looks_like_token;
use aria::audio::registry::random_token;
use aria::audio::registry::PlaybackRegistry;
use aria::audio::registry::StreamSource;
use aria::audio::registry::TOKEN_TTL_NS;
use aria::audio::search::norm;
use aria::audio::search::search;
use aria::audio::shuffle::draw_picks;
use aria::audio::shuffle::shuffle_in_place;
use aria::audio::shuffle::shuffle_with;

fn meta(title: &str, artist: &str, album: &str, genre: &str, no: Option<u32>) -> Meta {
    Meta {
        title: title.to_string(),
        artist: artist.to_string(),
        album: album.to_string(),
        genre: genre.to_string(),
        track_no: no,
        duration_ms: 1000,
        bitrate_kbps: 128,
    }
}

fn file(path: &str, meta: Meta) -> FoundFile {
    FoundFile { path: path.to_string(), meta }
}

fn library(files: Vec<FoundFile>) -> Library {
    Library::scan(&vec![RootListing { root: "/music".to_string(), is_dir: true, files }]).unwrap()
}

fn state() -> PlayerState {
    let mut s = PlayerState::default();
    s.start_queue(vec![1, 2, 3]);
    s
}

#[test]
fn advance_walks_queue_and_stops_at_end() {
    let mut s = state();
    assert_eq!(s.advance(), Some(2));
    assert_eq!(s.advance(), Some(3));
    assert_eq!(s.advance(), None);
}

#[test]
fn repeat_all_wraps() {
    let mut s = state();
    s.repeat = Repeat::All;
    assert_eq!(s.advance(), Some(2));
    assert_eq!(s.advance(), Some(3));
    assert_eq!(s.advance(), Some(1));
}

#[test]
fn repeat_one_replays() {
    let mut s = state();
    s.repeat = Repeat::One;
    assert_eq!(s.advance(), Some(1));
    assert_eq!(s.advance(), Some(1));
}

#[test]
fn go_back_uses_history() {
    let mut s = state();
    s.set_current(1, "t1".into(), 0);
    s.note_finished();
    s.advance();
    s.set_current(2, "t2".into(), 0);
    s.note_finished();
    assert_eq!(s.go_back(), Some(1));
    assert_eq!(s.current(), Some(1));
}

#[test]
fn set_current_inserts_untracked_track() {
    let mut s = state();
    s.set_current(99, "t".into(), 0);
    assert_eq!(s.current(), Some(99));
    assert!(s.queue.contains(&99));
}

#[test]
fn history_is_bounded() {
    let mut s = PlayerState::default();
    for id in 0..100 {
        s.set_current(id, "t".into(), 0);
        s.note_finished();
        s.note_finished();
        assert!(s.history.len() <= 64 && s.may_advance() && s.may_reshuffle());
    }
    assert_eq!(s.history.len(), 64);
    assert_eq!(s.history[0], 36);
    assert_eq!(s.history[63], 99);
}

#[test]
fn offsets_and_stop() {
    let mut s = state();
    assert!(!s.is_idle());
    s.set_current(2, "t".into(), 7);
    s.note_offset(-1);
    assert_eq!(s.current_offset_ms, 7);
    s.note_offset(99);
    assert_eq!(s.current_offset_ms, 99);
    s.stop();
    assert_eq!(s.current_token, None);
    assert_eq!(s.current_offset_ms, 0);
    assert!(PlayerState::default().is_idle());
    assert_eq!(Repeat::default(), Repeat::Off);
}

#[test]
fn go_back_without_history_restarts() {
    let mut s = state();
    s.set_current(2, "t".into(), 5);
    assert_eq!(s.go_back(), Some(2));
    assert_eq!(s.current_token, None);
    assert_eq!(PlayerState::default().go_back(), None);
}

#[test]
fn shuffle_keeps_what_played() {
    let mut s = PlayerState::default();
    s.start_queue((0..50).collect());
    s.set_current(9, "t".into(), 0);
    s.shuffle_remaining();
    assert_eq!(s.queue, (0..50).collect::<Vec<u64>>());
    s.shuffle = true;
    s.shuffle_remaining();
    assert_eq!(s.queue[..10], (0..10).collect::<Vec<u64>>()[..]);
    let mut rest = s.queue[10..].to_vec();
    assert_ne!(rest, (10..50).collect::<Vec<u64>>());
    rest.sort();
    assert_eq!(rest, (10..50).collect::<Vec<u64>>());
}

#[test]
fn shuffle_follows_the_choices() {
    let mut v = vec!["a", "b", "c", "d"];
    shuffle_with(&mut v, &[0, 0, 1, 0]);
    // d and a change places, then c and b, then c and d.
    assert_eq!(v, vec!["c", "d", "b", "a"]);
    let picks = draw_picks(40);
    assert_eq!(picks.len(), 40);
    for (i, p) in picks.iter().enumerate() {
        assert!(*p <= i);
    }
    let mut w: Vec<u64> = (0..100).collect();
    shuffle_in_place(&mut w);
    assert_ne!(w, (0..100).collect::<Vec<u64>>());
    w.sort();
    assert_eq!(w, (0..100).collect::<Vec<u64>>());
}

#[test]
fn issue_and_resolve() {
    let mut reg = PlaybackRegistry::new();
    let tok = reg.issue(
        "dev1",
        StreamSource::Radio {
            url: "https://r.example/stream.mp3".into(),
            title: "Rock FM".into(),
        },
        0,
    );
    assert!(looks_like_token(&tok));
    let r = reg.resolve(&tok, 1).unwrap();
    assert_eq!(r.device, "dev1");
    match r.source {
        StreamSource::Radio { url, .. } => assert_eq!(url, "https://r.example/stream.mp3"),
        _ => panic!("wrong source"),
    }
    assert!(reg.resolve("not-a-token", 1).is_none());
}

#[test]
fn token_shape() {
    let t = random_token();
    assert_eq!(t.len(), 48);
    assert!(t.bytes().all(|b| b.is_ascii_hexdigit()));
}

#[test]
fn tokens_expire() {
    let mut reg = PlaybackRegistry::default();
    assert!(reg.is_empty());
    let radio = || StreamSource::Radio { url: "u".into(), title: "t".into() };
    reg.issue_with("old", "d", radio(), 0);
    reg.issue_with("new", "d", radio(), 5);
    assert_eq!(reg.len(), 2);
    assert!(reg.resolve("old", TOKEN_TTL_NS).is_some());
    assert_eq!(reg.expire_old(TOKEN_TTL_NS + 1), 1);
    assert_eq!(reg.len(), 1);
    assert!(reg.resolve("new", TOKEN_TTL_NS + 5).is_some());
    assert!(reg.resolve("new", TOKEN_TTL_NS + 6).is_none());
    assert!(reg.is_empty());
}

#[test]
fn hex_tokens() {
    assert_eq!(hex_token(&[0, 15, 16, 171, 255]), "000f10abff");
    assert!(!looks_like_token("abc"));
    assert!(looks_like_token(&"A9".repeat(24)));
    assert!(!looks_like_token(&"g".repeat(48)));
    assert_ne!(random_token(), random_token());
}

#[test]
fn detects_formats() {
    assert_eq!(detect_format("a/b.mp3"), Some(Format::Mp3));
    assert_eq!(detect_format("a/b.M4A"), Some(Format::Aac));
    assert_eq!(detect_format("a/b.flac"), Some(Format::Flac));
    assert_eq!(detect_format("a/b.txt"), None);
}

#[test]
fn hidden_names_have_no_extension() {
    assert_eq!(detect_format("a/.mp3"), None);
    assert_eq!(detect_format("a/b.mp3/"), Some(Format::Mp3));
    assert_eq!(detect_format("a/b.mp3/."), Some(Format::Mp3));
    assert_eq!(detect_format("a.mp3/.."), None);
    assert_eq!(detect_format("mp3"), None);
    assert_eq!(detect_format("x.aac"), Some(Format::Aac));
    assert_eq!(Format::Mp3.content_type(), "audio/mpeg");
    assert_eq!(Format::Aac.content_type(), "audio/aac");
    assert_eq!(Format::Flac.content_type(), "audio/flac");
}

#[test]
fn flac_indexed_but_not_playable() {
    assert!(!Format::Flac.playable());
    assert!(Format::Mp3.playable());
    assert!(Format::Aac.playable());
}

#[test]
fn scan_missing_root_is_empty() {
    let lib = Library::scan(&vec![RootListing {
        root: "/nonexistent-eugeis-test".to_string(),
        is_dir: false,
        files: vec![],
    }])
    .unwrap();
    assert!(lib.is_empty());
}

#[test]
fn scan_sorts_and_numbers() {
    let lib = library(vec![
        file("/music/b.mp3", meta("B", "Zed", "", "", None)),
        file("/music/notes.txt", meta("x", "x", "", "", None)),
        file("/music/a2.flac", meta("A2", "Abe", "One", "Rock", Some(2))),
        file("/music/a1.m4a", meta("A1", "Abe", "One", "Rock", Some(1))),
        file("/music/Some_Artist/my_song.mp3", meta("", "", "", "", None)),
    ]);
    let titles: Vec<String> = lib.iter().map(|t| t.title.clone()).collect();
    assert_eq!(titles, vec!["A1", "A2", "my song", "B"]);
    let ids: Vec<u64> = lib.iter().map(|t| t.id).collect();
    assert_eq!(ids, vec![1, 2, 3, 4]);
    assert_eq!(lib.get(3).unwrap().artist, "Some Artist");
    assert_eq!(lib.get(3).unwrap().title_artist(), "my song by Some Artist");
    assert!(lib.get(0).is_none());
    assert!(lib.get(5).is_none());
    assert_eq!(lib.len(), 4);
    assert_eq!(lib.playable_len(), 3);
    assert_eq!(lib.all_ids(false), vec![1, 3, 4]);
    let mut all = lib.all_ids(true);
    all.sort();
    assert_eq!(all, vec![1, 3, 4]);
    assert_eq!(lib.tracks_in_album("ONE"), vec![1]);
    assert_eq!(lib.tracks_by_artist("some_artist"), vec![3]);
    assert_eq!(lib.tracks_by_genre("rock"), vec![1]);
    assert_eq!(lib.tracks_in_album(""), Vec::<u64>::new());
    assert_eq!(lib.cover_path(2), Some("/music/a2.flac"));
    assert_eq!(lib.cover_path(9), None);
}

#[test]
fn files_in_the_root_have_no_folder() {
    let lib = library(vec![file("/music/x.mp3", meta("T", "", "", "", None))]);
    assert_eq!(lib.get(1).unwrap().artist, "");
    assert_eq!(lib.get(1).unwrap().title_artist(), "T");
}

#[test]
fn covers_default_to_jpeg() {
    let lib = library(vec![file("/music/x.mp3", meta("T", "A", "", "", None))]);
    let pic = |m: Option<&str>| {
        Some(Picture { data: vec![1, 2], mime: m.map(|s| s.to_string()) })
    };
    assert_eq!(lib.cover(1, pic(None)).unwrap().mime, "image/jpeg");
    let c = lib.cover(1, pic(Some("image/png"))).unwrap();
    assert_eq!(c.mime, "image/png");
    assert_eq!(c.data, vec![1, 2]);
    assert!(lib.cover(1, None).is_none());
    assert!(lib.cover(2, pic(None)).is_none());
}

#[test]
fn metadata_from_tags() {
    // 4 MB in 100 s are 320 kbps.
    assert_eq!(bitrate_kbps(None, 4_000_000, 100_000), 320);
    assert_eq!(bitrate_kbps(Some(500), 4_000_000, 100_000), 500);
    assert_eq!(bitrate_kbps(None, 10, 0), 80);
    let tag = TagTexts {
        title: Some("T".into()),
        artist: None,
        album: Some("L".into()),
        genre: None,
        track_number: Some("7".into()),
    };
    let m = Meta::from_tags(1500, Some(9), 0, &Some(tag));
    assert_eq!((m.title.as_str(), m.artist.as_str(), m.album.as_str()), ("T", "", "L"));
    assert_eq!((m.track_no, m.duration_ms, m.bitrate_kbps), (Some(7), 1500, 9));
    let bad = TagTexts {
        title: None,
        artist: None,
        album: None,
        genre: None,
        track_number: Some("7/12".into()),
    };
    assert_eq!(Meta::from_tags(u128::MAX, None, 0, &Some(bad)).track_no, None);
    assert_eq!(Meta::from_tags(u128::MAX, None, 0, &None).duration_ms, u64::MAX);
    assert_eq!(Meta::unreadable().title, "");
    assert_eq!(ScanError::Io("gone".into()).message(), "io error: gone");
}

#[test]
fn walk_skips_hidden() {
    let tree = vec![
        DirEntry::File { name: "a.mp3".into() },
        DirEntry::Dir {
            name: ".git".into(),
            entries: vec![DirEntry::File { name: "x".into() }],
        },
        DirEntry::Dir {
            name: "sub".into(),
            entries: vec![
                DirEntry::File { name: ".hidden".into() },
                DirEntry::File { name: "b.mp3".into() },
            ],
        },
    ];
    assert_eq!(walk("/m", &tree), vec!["/m/a.mp3", "/m/sub/b.mp3"]);
    assert_eq!(walk("/m/", &tree), vec!["/m/a.mp3", "/m/sub/b.mp3"]);
}

#[test]
fn search_ranks_matches() {
    let lib = library(vec![
        file("/music/1.mp3", meta("Bohemian Rhapsody", "Queen", "A Night at the Opera", "Rock", None)),
        file("/music/2.mp3", meta("Queen Bee", "Grand Funk", "", "", None)),
        file("/music/3.flac", meta("Love of My Life", "Queen", "Opera", "Rock", None)),
    ]);
    // Sorted by artist: Grand Funk, then Queen's two titles.
    assert_eq!(search(&lib, "bohemian rhapsody queen", 5), vec![(2, 5 + 5 + 4)]);
    // Title and start of title; then artist only, smaller id first.
    assert_eq!(search(&lib, "Queen!", 5), vec![(1, 5 + 8), (2, 4), (3, 4)]);
    assert_eq!(search(&lib, "queen", 1), vec![(1, 13)]);
    assert_eq!(search(&lib, "queen", 0), vec![(1, 13)]);
    assert_eq!(search(&lib, "queen missing", 5), vec![]);
    assert_eq!(search(&lib, "?!", 5), vec![]);
    assert_eq!(search(&lib, "rock opera", 5), vec![(2, 3 + 3), (3, 3 + 3)]);
}

#[test]
fn norm_flattens() {
    assert_eq!(norm("  Don't  Stop-Me NOW! "), "dont stopme now");
    assert_eq!(norm("\u{dc}ber Stra\u{df}e 7"), "\u{dc}ber stra\u{df}e 7");
    assert_eq!(norm(&norm("A  b_C")), norm("A  b_C"));
    assert_eq!(norm("QUEEN  Live!"), norm("queen live"));
    assert_eq!(norm(" - a - b - "), "a b");
}

#[test]
fn issued_tokens_are_small_hex() {
    let mut reg = PlaybackRegistry::new();
    reg.issue_with("held", "d0", StreamSource::Radio { url: "u0".into(), title: "t".into() }, 0);
    let tok = reg.issue("d1", StreamSource::Radio { url: "u1".into(), title: "t".into() }, 0);
    assert_eq!(tok.len(), 48);
    assert!(tok.chars().all(|c| c.is_ascii_digit() || ('a'..='f').contains(&c)));
    assert_eq!(reg.len(), 2);
    assert_eq!(reg.resolve("held", 1).unwrap().device, "d0");
}
