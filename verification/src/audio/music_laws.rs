//! What holds of formats, paths, scanned tracks, names, search and tokens.

use vstd::prelude::*;

use crate::audio::library::Format;
use crate::audio::library::FoundFile;
use crate::audio::library::Picture;
use crate::audio::library::RootListing;
use crate::audio::library::TrackModel;
use crate::audio::library;
use crate::audio::path::DirEntry;
use crate::audio::path;
use crate::audio::registry::EntryModel;
use crate::audio::registry;
use crate::audio::search;
use crate::sort::Ranked;
use crate::sort;
use crate::text::chars;
use crate::text::find;
use crate::text::order;
use crate::text::split;
use crate::text::text_laws;

verus! {

broadcast use {vstd::seq::group_seq_axioms, vstd::slice::group_slice_axioms};

// ── Paths and formats ──────────────────────────────────────────────────────

/// A file name with nothing special about it.
pub open spec fn is_file_name(n: Seq<char>) -> bool {
    n.len() > 0 && !n.contains('/') && n != seq!['.'] && n != seq!['.', '.']
}

proof fn lemma_kept_push(parts: Seq<Seq<char>>, p: Seq<char>)
    requires
        parts.len() > 0,
        is_file_name(p),
    ensures
        path::kept_parts(parts.push(p)) == path::kept_parts(parts).push(p),
{
    assert(parts.push(p).drop_last() =~= parts);
}

/// The components of a path below a directory are those of the directory and the
/// name.
pub proof fn law_components_below(dir: Seq<char>, name: Seq<char>)
    requires
        is_file_name(name),
    ensures
        path::components_of(dir + seq!['/'] + name) == if dir.len() == 0 {
            seq![seq!['/'], name]
        } else {
            path::components_of(dir).push(name)
        },
        path::components_of(name) == seq![name],
{
    let p = dir + seq!['/'] + name;
    text_laws::law_join_undoes_split(dir, '/');
    let parts = split::split_parts(dir, '/');
    let all = parts.push(name);
    text_laws::law_joined_grows(parts, name, seq!['/']);
    assert forall|i: int| 0 <= i < all.len() implies !(#[trigger] all[i]).contains('/') by {
        if i < parts.len() {
            assert(all[i] == parts[i]);
        }
    }
    text_laws::law_split_undoes_join(all, '/');
    assert(split::joined(all, seq!['/']) == p);
    lemma_kept_push(parts, name);
    text_laws::law_split_undoes_join(seq![name], '/');
    text_laws::law_joined_grows(seq![], name, seq!['/']);
    assert(seq![name].drop_last() =~= seq![]);
    assert(path::kept_parts(Seq::<Seq<char>>::empty()) =~= seq![]);
    assert(path::kept_parts(seq![name]) =~= seq![name]);
    assert(name[0] != '/') by {
        assert(name.contains(name[0]));
    }
    if dir.len() == 0 {
        assert(p[0] == '/');
        text_laws::law_split_undoes_join(seq![dir], '/');
        text_laws::law_joined_grows(seq![], dir, seq!['/']);
        assert(parts =~= seq![dir]);
        assert(seq![dir].drop_last() =~= seq![]);
        assert(path::kept_parts(parts) =~= seq![]);
        assert(path::components_of(p) =~= seq![seq!['/'], name]);
    } else {
        assert(p[0] == dir[0]);
        assert(path::components_of(p) =~= path::components_of(dir).push(name));
    }
}

/// The extension of a file is what follows the last dot of its name, and its
/// stem what precedes it; a name without a dot behind its first character has
/// none.
pub proof fn law_extension(dir: Seq<char>, stem: Seq<char>, ext: Seq<char>)
    requires
        stem.len() > 0,
        !stem.contains('/'),
        !ext.contains('/'),
        !ext.contains('.'),
        is_file_name(stem + seq!['.'] + ext),
    ensures
        path::extension_of(dir + seq!['/'] + (stem + seq!['.'] + ext)) == Some(ext),
        path::stem_of(dir + seq!['/'] + (stem + seq!['.'] + ext)) == Some(stem),
        path::extension_of(stem + seq!['.'] + ext) == Some(ext),
{
    let name = stem + seq!['.'] + ext;
    law_components_below(dir, name);
    let n = stem.len() as int;
    assert(path::is_name(name)) by {
        if name == seq!['/'] {
            assert(name.contains('/'));
        }
    }
    lemma_last_dot(name, n);
    assert(name.skip(n + 1) =~= ext);
    assert(name.take(n) =~= stem);
}

proof fn lemma_last_dot(name: Seq<char>, n: int)
    requires
        0 <= n < name.len(),
        name[n] == '.',
        forall|i: int| n < i < name.len() ==> name[i] != '.',
    ensures
        find::last_of(name, seq!['.'], name.len() as int) == Some(n),
{
    find::lemma_last_of(name, seq!['.'], name.len() as int);
    assert(name.subrange(n, n + 1) =~= seq!['.']);
    assert(find::occurs_at(seq!['.'], name, n));
    let last = find::last_of(name, seq!['.'], name.len() as int);
    if last is Some && last->0 != n {
        let k = last->0;
        assert(find::occurs_at(seq!['.'], name, k));
        assert(name.subrange(k, k + 1)[0] == name[k]);
    }
}

/// A name without a dot has no extension, and is its own stem.
pub proof fn law_no_extension(dir: Seq<char>, name: Seq<char>)
    requires
        is_file_name(name),
        forall|i: int| 0 < i < name.len() ==> name[i] != '.',
    ensures
        path::extension_of(dir + seq!['/'] + name) is None,
        path::stem_of(dir + seq!['/'] + name) == Some(name),
{
    law_components_below(dir, name);
    assert(path::is_name(name)) by {
        if name == seq!['/'] {
            assert(name.contains('/'));
        }
    }
    find::lemma_last_of(name, seq!['.'], name.len() as int);
    let last = find::last_of(name, seq!['.'], name.len() as int);
    if last is Some {
        let k = last->0;
        assert(name.subrange(k, k + 1)[0] == name[k]);
    }
}

/// Which extensions stand for which format, in capitals or not, and no others.
pub proof fn law_formats(p: Seq<char>, ext: Seq<char>)
    requires
        path::extension_of(p) == Some(ext),
    ensures
        library::path_format(p) == Some(Format::Mp3) <==> chars::lowered(ext) == "mp3"@,
        library::path_format(p) == Some(Format::Flac) <==> chars::lowered(ext) == "flac"@,
        library::path_format(p) == Some(Format::Aac) <==> chars::lowered(ext) == "m4a"@
            || chars::lowered(ext) == "aac"@ || chars::lowered(ext) == "mp4"@ || chars::lowered(ext)
            == "m4b"@ || chars::lowered(ext) == "m4p"@,
{
    reveal_strlit("mp3");
    reveal_strlit("m4a");
    reveal_strlit("aac");
    reveal_strlit("mp4");
    reveal_strlit("m4b");
    reveal_strlit("m4p");
    reveal_strlit("flac");
    assert("mp3"@[2] == '3');
    assert("m4a"@[2] == 'a');
    assert("aac"@[2] == 'c');
    assert("mp4"@[2] == '4');
    assert("m4b"@[2] == 'b');
    assert("m4p"@[2] == 'p');
    assert("flac"@.len() == 4);
}

/// A file without an extension has no format.
pub proof fn law_no_format(p: Seq<char>)
    requires
        path::extension_of(p) is None,
    ensures
        library::path_format(p) is None,
{
}

/// A walk lists its entries in order: a visible file by its path, a visible
/// directory by what a walk of it lists, a hidden entry not at all.
pub proof fn law_walk_in_order(dir: Seq<char>, entries: Seq<DirEntry>, e: DirEntry)
    requires
        dir.len() > 0,
        dir.last() != '/',
    ensures
        path::walked(dir, seq![]) == Seq::<Seq<char>>::empty(),
        match e {
            DirEntry::File { name } => path::walked(dir, entries.push(e)) == if name@.len() > 0
                && name@[0] == '.' {
                path::walked(dir, entries)
            } else {
                path::walked(dir, entries).push(dir + seq!['/'] + name@)
            },
            DirEntry::Dir { name, entries: inner } => path::walked(dir, entries.push(e)) == if name@.len()
                > 0 && name@[0] == '.' {
                path::walked(dir, entries)
            } else {
                path::walked(dir, entries) + path::walked(dir + seq!['/'] + name@, inner@)
            },
        },
{
    reveal_strlit("/");
    assert("/"@ =~= seq!['/']);
    let all = entries.push(e);
    assert(all.drop_last() =~= entries);
    assert(all[all.len() - 1] == e);
    assert(path::walked(dir, all) =~= path::walked(dir, entries) + path::entry_paths(dir, e));
    match e {
        DirEntry::File { name } => {
            assert(path::walked(dir, all) =~= if path::hidden(name@) {
                path::walked(dir, entries)
            } else {
                path::walked(dir, entries).push(dir + seq!['/'] + name@)
            });
        },
        DirEntry::Dir { name, entries: inner } => {
            if path::hidden(name@) {
                assert(path::walked(dir, all) =~= path::walked(dir, entries));
            }
        },
    }
}

// ── The library ────────────────────────────────────────────────────────────

/// One more file adds its track behind the others where it is an audio file, and
/// nothing where it is not. Title and artist come from the tags, and failing that
/// from the file name and the folder, underscores read as spaces; all else comes
/// from the file.
pub proof fn law_file_becomes_track(root: Seq<char>, files: Seq<FoundFile>, f: FoundFile)
    ensures
        ({
            let before = library::tracks_of_files(root, files);
            let after = library::tracks_of_files(root, files.push(f));
            match library::path_format(f.path@) {
                None => after == before,
                Some(format) => {
                    &&& after.len() == before.len() + 1
                    &&& after.drop_last() == before
                    &&& after.last().path == f.path@
                    &&& f.meta.title@.len() > 0 ==> after.last().title == f.meta.title@
                    &&& f.meta.title@.len() == 0 && path::stem_of(f.path@) is Some
                        ==> after.last().title == split::replaced(
                        path::stem_of(f.path@)->0,
                        '_',
                        ' ',
                    )
                    &&& f.meta.artist@.len() > 0 ==> after.last().artist == f.meta.artist@
                    &&& f.meta.artist@.len() == 0 && path::folder_below(root, f.path@) is Some
                        ==> after.last().artist == split::replaced(
                        path::folder_below(root, f.path@)->0,
                        '_',
                        ' ',
                    )
                    &&& f.meta.artist@.len() == 0 && path::folder_below(root, f.path@) is None
                        ==> after.last().artist.len() == 0
                    &&& after.last().album == f.meta.album@
                    &&& after.last().genre == f.meta.genre@
                    &&& after.last().track_no == f.meta.track_no
                    &&& after.last().duration_ms == f.meta.duration_ms
                    &&& after.last().avg_bitrate_kbps == f.meta.bitrate_kbps
                    &&& after.last().format == format
                    &&& after.last().playable == (format != Format::Flac)
                },
            }
        }),
{
    assert(files.push(f).drop_last() =~= files);
    let before = library::tracks_of_files(root, files);
    let after = library::tracks_of_files(root, files.push(f));
    if library::path_format(f.path@) is Some {
        assert(after.drop_last() =~= before);
    }
}

/// The folder of a file is the name of the directory that holds it, where that
/// lies below the root; a file in the root itself has none.
pub proof fn law_folder(root: Seq<char>, folder: Seq<char>, name: Seq<char>)
    requires
        root.len() > 0,
        is_file_name(folder),
        is_file_name(name),
    ensures
        path::folder_below(root, root + seq!['/'] + folder + seq!['/'] + name) == Some(folder),
        path::folder_below(root, root + seq!['/'] + name) is None,
{
    let dir = root + seq!['/'] + folder;
    law_components_below(root, folder);
    law_components_below(dir, name);
    law_components_below(root, name);
    let r = path::components_of(root);
    let p = path::components_of(dir + seq!['/'] + name);
    assert(p =~= r.push(folder).push(name));
    assert(r =~= p.subrange(0, r.len() as int));
    assert(p.drop_last().last() == folder);
    if folder == seq!['/'] {
        assert(folder.contains('/'));
    }
}

/// One more root adds the tracks of its files behind the others, where it is a
/// directory.
pub proof fn law_roots_add_up(roots: Seq<RootListing>, r: RootListing)
    ensures
        r.is_dir ==> library::tracks_of_roots(roots.push(r)) == library::tracks_of_roots(roots)
            + library::tracks_of_files(r.root@, r.files@),
        !r.is_dir ==> library::tracks_of_roots(roots.push(r)) == library::tracks_of_roots(roots),
        library::tracks_of_roots(seq![]) == Seq::<TrackModel>::empty(),
        library::tracks_of_files(r.root@, seq![]) == Seq::<TrackModel>::empty(),
{
    assert(roots.push(r).drop_last() =~= roots);
}

/// The number by which a track stands within its album; one without a number
/// stands behind all others.
pub open spec fn place_in_album(t: TrackModel) -> u32 {
    match t.track_no {
        Some(n) => n,
        None => 0xffff_ffff,
    }
}

/// In a scanned library tracks stand by artist; those of one artist by album,
/// those of one album by number, and those of one number by title.
pub proof fn law_scan_order(roots: Seq<RootListing>, i: int, j: int)
    requires
        library::tracks_of_roots(roots).len() <= usize::MAX,
        0 <= i < j < library::scanned(roots).len(),
    ensures
        ({
            let (a, b) = (library::scanned(roots)[i], library::scanned(roots)[j]);
            &&& !order::text_before(b.artist, a.artist)
            &&& a.artist == b.artist ==> !order::text_before(b.album, a.album)
            &&& a.artist == b.artist && a.album == b.album ==> place_in_album(a) <= place_in_album(b)
            &&& a.artist == b.artist && a.album == b.album && place_in_album(a) == place_in_album(b)
                ==> !order::text_before(b.title, a.title)
        }),
{
    library::law_scan_is_sorted(roots);
    let (a, b) = (library::scanned(roots)[i], library::scanned(roots)[j]);
    assert(a.at_most(&b));
    if order::text_before(a.artist, b.artist) {
        order::lemma_before_antisymmetric(a.artist, b.artist);
    }
    order::lemma_before_irreflexive(a.artist);
    if order::text_before(a.album, b.album) {
        order::lemma_before_antisymmetric(a.album, b.album);
    }
    order::lemma_before_irreflexive(a.album);
}

/// Tracks that the order does not tell apart stay as they were found: their
/// positions among the found tracks ascend.
pub proof fn law_scan_is_stable(roots: Seq<RootListing>, i: int, j: int)
    requires
        library::tracks_of_roots(roots).len() <= usize::MAX,
        0 <= i < j < library::scanned(roots).len(),
        ({
            let (a, b) = (library::scanned(roots)[i], library::scanned(roots)[j]);
            a.artist == b.artist && a.album == b.album && a.track_no == b.track_no && a.title
                == b.title
        }),
    ensures
        exists|k: int, m: int|
            #![trigger library::tracks_of_roots(roots)[k], library::tracks_of_roots(roots)[m]]
            {
                &&& 0 <= k < m < library::tracks_of_roots(roots).len()
                &&& library::scanned(roots)[i] == (TrackModel {
                    id: (i + 1) as u64,
                    ..library::tracks_of_roots(roots)[k]
                })
                &&& library::scanned(roots)[j] == (TrackModel {
                    id: (j + 1) as u64,
                    ..library::tracks_of_roots(roots)[m]
                })
            },
{
    let found = library::tracks_of_roots(roots);
    let p = sort::stable_order_of(found);
    sort::lemma_stable_order_exists(found);
    assert(sort::precedes(found, p[i] as int, p[j] as int));
    let (k, m) = (p[i] as int, p[j] as int);
    order::lemma_before_irreflexive(found[k].title);
    assert(found[m].at_most(&found[k]));
    assert(library::scanned(roots)[i] == (TrackModel { id: (i + 1) as u64, ..found[k] }));
    assert(library::scanned(roots)[j] == (TrackModel { id: (j + 1) as u64, ..found[m] }));
}

/// Names are the same, capitals aside and with dashes and underscores read as
/// spaces.
pub open spec fn alike(a: Seq<char>, b: Seq<char>) -> bool {
    a.len() == b.len() && forall|i: int|
        0 <= i < a.len() ==> plain_letter(#[trigger] a[i]) == plain_letter(b[i])
}

/// A character as names are compared.
pub open spec fn plain_letter(c: char) -> int {
    if 'A' <= c <= 'Z' {
        c as u32 + 32
    } else if c == '-' || c == '_' {
        32
    } else {
        c as u32 as int
    }
}

proof fn lemma_normed(a: Seq<char>, b: Seq<char>)
    ensures
        library::normed(a) == library::normed(b) <==> alike(a, b),
{
    let (x, y) = (library::normed(a), library::normed(b));
    assert forall|s: Seq<char>, i: int| 0 <= i < s.len() implies (#[trigger] library::normed(
        s,
    )[i]) as u32 as int == plain_letter(s[i]) by {}
    if x == y {
        assert(a.len() == x.len() && b.len() == y.len());
        assert forall|i: int| 0 <= i < a.len() implies plain_letter(#[trigger] a[i])
            == plain_letter(b[i]) by {
            assert(x[i] as u32 as int == plain_letter(a[i]));
            assert(y[i] as u32 as int == plain_letter(b[i]));
        }
    }
    if alike(a, b) {
        assert forall|i: int| 0 <= i < x.len() implies x[i] == y[i] by {
            assert(plain_letter(a[i]) == plain_letter(b[i]));
            assert(x[i] as u32 as int == plain_letter(a[i]));
            assert(y[i] as u32 as int == plain_letter(b[i]));
        }
        assert(x =~= y);
    }
}

/// Asking for an album, an artist or a genre gives the ids of exactly the
/// playable tracks that have the name there.
pub proof fn law_named_tracks(t: Seq<TrackModel>, name: Seq<char>, id: u64)
    requires
        library::ids_in_order(t),
        t.len() <= u64::MAX,
    ensures
        library::ids_where(t, library::on_album(name)).contains(id) <==> 1 <= id <= t.len() && t[id
            - 1].playable && t[id - 1].album.len() > 0 && alike(t[id - 1].album, name),
        library::ids_where(t, library::by_artist(name)).contains(id) <==> 1 <= id <= t.len() && t[id
            - 1].playable && alike(t[id - 1].artist, name),
        library::ids_where(t, library::of_genre(name)).contains(id) <==> 1 <= id <= t.len() && t[id
            - 1].playable && t[id - 1].genre.len() > 0 && alike(t[id - 1].genre, name),
        library::ids_where(t, library::can_play()).contains(id) <==> 1 <= id <= t.len() && t[id
            - 1].playable,
{
    library::law_ids_lead_to_picked_tracks(t, library::on_album(name));
    library::law_ids_lead_to_picked_tracks(t, library::by_artist(name));
    library::law_ids_lead_to_picked_tracks(t, library::of_genre(name));
    library::law_ids_lead_to_picked_tracks(t, library::can_play());
    if 1 <= id <= t.len() {
        lemma_normed(t[id - 1].album, name);
        lemma_normed(t[id - 1].artist, name);
        lemma_normed(t[id - 1].genre, name);
    }
}

/// The ids that a filter gives ascend, so each is given once and in library
/// order.
pub proof fn law_picked_ids_ascend(t: Seq<TrackModel>, f: spec_fn(TrackModel) -> bool)
    requires
        library::ids_in_order(t),
        t.len() <= u64::MAX,
    ensures
        forall|i: int, j: int|
            0 <= i < j < library::ids_where(t, f).len() ==> #[trigger] library::ids_where(t, f)[i]
                < #[trigger] library::ids_where(t, f)[j],
        forall|i: int|
            0 <= i < library::ids_where(t, f).len() ==> #[trigger] library::ids_where(t, f)[i]
                <= t.len(),
    decreases t.len(),
{
    if t.len() > 0 {
        let init = t.drop_last();
        assert forall|i: int| 0 <= i < init.len() implies (#[trigger] init[i]).id == i + 1 by {
            assert(init[i] == t[i]);
        }
        law_picked_ids_ascend(init, f);
        assert(t[t.len() - 1].id == t.len());
        let ids = library::ids_where(t, f);
        let rest = library::ids_where(init, f);
        assert forall|i: int| 0 <= i < rest.len() implies ids[i] == #[trigger] rest[i] by {}
    }
}

/// Without a stated bitrate the measured one is the bits of the file by the
/// milliseconds it lasts, rounded down; with one, the larger of the two.
pub proof fn law_average_bitrate(stated: Option<u32>, file_len: u64, duration_ms: u64)
    requires
        duration_ms > 0,
        file_len * 8 <= u64::MAX,
        file_len * 8 < duration_ms * 0x1_0000_0000,
    ensures
        ({
            let measured = library::average_bitrate(None, file_len, duration_ms) as int;
            let given: int = match stated {
                Some(n) => n as int,
                None => 0,
            };
            let r = library::average_bitrate(stated, file_len, duration_ms);
            &&& measured * duration_ms <= file_len * 8 < (measured + 1) * duration_ms
            &&& r >= given && r >= measured
            &&& r == given || r == measured
        }),
{
    let bits = file_len * 8;
    let ms = duration_ms as int;
    let q = bits / ms;
    vstd::arithmetic::div_mod::lemma_fundamental_div_mod(bits, ms);
    assert(bits == ms * q + bits % ms);
    assert(0 <= bits % ms < ms);
    assert(q < 0x1_0000_0000) by (nonlinear_arith)
        requires
            bits == ms * q + bits % ms,
            0 <= bits % ms,
            bits < ms * 0x1_0000_0000,
            ms > 0,
    ;
    assert(q >= 0) by (nonlinear_arith)
        requires
            bits == ms * q + bits % ms,
            bits % ms < ms,
            bits >= 0,
            ms > 0,
    ;
    vstd::arithmetic::div_mod::lemma_small_mod(q as nat, 0x1_0000_0000);
    assert(q * ms <= bits < (q + 1) * ms) by (nonlinear_arith)
        requires
            bits == ms * q + bits % ms,
            0 <= bits % ms < ms,
    ;
}

/// A track is named by its title, and by its artist where one is known.
pub proof fn law_title_artist(t: TrackModel)
    ensures
        t.artist.len() == 0 ==> t.title_artist() == t.title,
        t.artist.len() > 0 ==> t.title_artist() == t.title + " by "@ + t.artist,
{
}

// ── Search ─────────────────────────────────────────────────────────────────

/// A search looks at the letters, digits and spaces of a text, in order.
pub proof fn law_kept_chars(s: Seq<char>)
    ensures
        search::kept_chars(s) == s.filter(
            |c: char| search::char_is_alphanumeric(c) || c == ' ',
        ),
    decreases s.len(),
{
    reveal(Seq::filter);
    if s.len() > 0 {
        law_kept_chars(s.drop_last());
    }
    assert(search::kept_chars(s) =~= s.filter(
        |c: char| search::char_is_alphanumeric(c) || c == ' ',
    ));
}

/// How many of the words occur in a text.
pub open spec fn words_in(words: Seq<Seq<char>>, text: Seq<char>) -> nat {
    words.filter(|w: Seq<char>| find::occurs(w, text)).len()
}

/// The score of a track: five for each word in its title, four in its artist,
/// three in its album and three in its genre, and eight for each word where the
/// title starts with the query.
pub proof fn law_score(t: TrackModel, q: Seq<char>, words: Seq<Seq<char>>)
    ensures
        search::track_score(t, q, words) == 5 * words_in(words, search::normalized(t.title)) + 4
            * words_in(words, search::normalized(t.artist)) + 3 * words_in(
            words,
            search::normalized(t.album),
        ) + 3 * words_in(words, search::normalized(t.genre)) + if q.is_prefix_of(
            search::normalized(t.title),
        ) {
            8 * words.len()
        } else {
            0
        },
    decreases words.len(),
{
    reveal(Seq::filter);
    if words.len() > 0 {
        law_score(t, q, words.drop_last());
        lemma_words_in(words, search::normalized(t.title));
        lemma_words_in(words, search::normalized(t.artist));
        lemma_words_in(words, search::normalized(t.album));
        lemma_words_in(words, search::normalized(t.genre));
    }
}

proof fn lemma_words_in(words: Seq<Seq<char>>, text: Seq<char>)
    requires
        words.len() > 0,
    ensures
        words_in(words, text) == words_in(words.drop_last(), text) + if find::occurs(
            words.last(),
            text,
        ) {
            1nat
        } else {
            0
        },
{
    reveal(Seq::filter);
}

/// A track matches a query where each of its words occurs in the title, the
/// artist, the album and the genre, written one after the other.
pub proof fn law_match(t: TrackModel, words: Seq<Seq<char>>)
    ensures
        search::matches_all(t, words) <==> forall|i: int|
            0 <= i < words.len() ==> find::occurs(
                #[trigger] words[i],
                split::joined(
                    seq![
                        search::normalized(t.title),
                        search::normalized(t.artist),
                        search::normalized(t.album),
                        search::normalized(t.genre),
                    ],
                    seq![' '],
                ),
            ),
{
    let (a, b, c, d) = (
        search::normalized(t.title),
        search::normalized(t.artist),
        search::normalized(t.album),
        search::normalized(t.genre),
    );
    let sep = seq![' '];
    text_laws::law_joined_grows(seq![a], b, sep);
    text_laws::law_joined_grows(seq![a, b], c, sep);
    text_laws::law_joined_grows(seq![a, b, c], d, sep);
    text_laws::law_joined_grows(seq![], a, sep);
    assert(seq![a].push(b) =~= seq![a, b]);
    assert(seq![a, b].push(c) =~= seq![a, b, c]);
    assert(seq![a, b, c].push(d) =~= seq![a, b, c, d]);
    assert(search::haystack(t) =~= split::joined(seq![a, b, c, d], sep));
}

/// A limit keeps the best, one at least, and changes nothing where all fit.
pub proof fn law_limit(tracks: Seq<TrackModel>, query: Seq<char>, limit: nat)
    ensures
        ({
            let all = search::all_found(tracks, query);
            let some = search::found(tracks, query, limit);
            &&& some == all.take(some.len() as int)
            &&& some.len() <= all.len()
            &&& limit > 0 && all.len() > limit ==> some.len() == limit
            &&& limit == 0 && all.len() > 0 ==> some.len() == 1
            &&& all.len() <= limit ==> some.len() == all.len()
        }),
{
    let all = search::all_found(tracks, query);
    assert(all.take(all.len() as int) =~= all);
}

/// A query is cut into words in small letters, without the characters that a
/// search does not look at; it is read as its words with a space between each
/// two.
pub proof fn law_query_words(query: Seq<char>)
    ensures
        search::search_words(query) == split::words(
            chars::lowered(query).filter(
                |c: char| search::char_is_alphanumeric(c) || c == ' ',
            ),
        ),
        search::normalized(query) == split::joined(search::search_words(query), seq![' ']),
{
    law_kept_chars(chars::lowered(query));
}

// ── Tokens ─────────────────────────────────────────────────────────────────

/// A token lasts for twelve hours: it is over exactly where more nanoseconds
/// than that have passed since it was issued.
pub proof fn law_token_lifetime(e: EntryModel, now: u128)
    ensures
        e.expired(now) <==> now > e.issued + 12 * 3600 * 1_000_000_000,
{
}

/// Expiring drops exactly the tokens whose time is over, and leaves the others
/// as they were.
pub proof fn law_expiring_keeps_live_tokens(
    m: Map<Seq<char>, EntryModel>,
    now: u128,
    k: Seq<char>,
)
    ensures
        registry::live_tokens(m, now).dom().contains(k) <==> m.dom().contains(k) && now
            <= m[k].issued + 12 * 3600 * 1_000_000_000,
        registry::live_tokens(m, now).dom().contains(k) ==> registry::live_tokens(m, now)[k] == m[k],
{
}

/// The number that a hex digit in small letters writes.
pub open spec fn hex_value(c: char) -> int {
    if '0' <= c <= '9' {
        c as u32 - 48
    } else {
        c as u32 - 87
    }
}

/// The digits of a token write its bytes, the higher half of each first.
pub proof fn law_token_writes_bytes(bytes: Seq<u8>, i: int)
    requires
        0 <= i < bytes.len(),
    ensures
        registry::hex_text(bytes).len() == 2 * bytes.len(),
        hex_value(registry::hex_text(bytes)[2 * i]) * 16 + hex_value(
            registry::hex_text(bytes)[2 * i + 1],
        ) == bytes[i],
        registry::is_small_hex(registry::hex_text(bytes)[2 * i]),
        registry::is_small_hex(registry::hex_text(bytes)[2 * i + 1]),
    decreases bytes.len(),
{
    let init = bytes.drop_last();
    lemma_hex_len(init);
    lemma_hex_len(bytes);
    let b = bytes.last() as int;
    if i < init.len() {
        law_token_writes_bytes(init, i);
        assert(registry::hex_text(bytes)[2 * i] == registry::hex_text(init)[2 * i]);
        assert(registry::hex_text(bytes)[2 * i + 1] == registry::hex_text(init)[2 * i + 1]);
    } else {
        assert(registry::hex_text(bytes)[2 * i] == registry::hex_char(b / 16));
        assert(registry::hex_text(bytes)[2 * i + 1] == registry::hex_char(b % 16));
        assert(hex_value(registry::hex_char(b / 16)) == b / 16);
        assert(hex_value(registry::hex_char(b % 16)) == b % 16);
        assert(bytes[i] == b);
    }
}

proof fn lemma_hex_len(bytes: Seq<u8>)
    ensures
        registry::hex_text(bytes).len() == 2 * bytes.len(),
    decreases bytes.len(),
{
    if bytes.len() > 0 {
        lemma_hex_len(bytes.drop_last());
    }
}

/// What passes for a token: 48 hex digits, in either case, and nothing else.
pub proof fn law_token_guard(s: Seq<char>)
    ensures
        registry::is_token(s) <==> s.len() == 48 && forall|i: int|
            0 <= i < s.len() ==> ('0' <= #[trigger] s[i] <= '9' || 'a' <= s[i] <= 'f' || 'A' <= s[i]
                <= 'F'),
{
    if registry::is_token(s) {
        assert forall|i: int| 0 <= i < s.len() implies ('0' <= #[trigger] s[i] <= '9' || 'a'
            <= s[i] <= 'f' || 'A' <= s[i] <= 'F') by {
            assert(chars::is_hex_digit(s[i]));
        }
    }
}

/// What each kind of file is passed on as, and a picture that does not say what
/// it is, as JPEG.
pub proof fn law_content_types(p: Picture)
    ensures
        Format::Mp3.mime() == "audio/mpeg"@,
        Format::Aac.mime() == "audio/aac"@,
        Format::Flac.mime() == "audio/flac"@,
        p.mime is None ==> library::picture_mime(p) == "image/jpeg"@,
        p.mime matches Some(m) ==> library::picture_mime(p) == m@,
{
}

/// A name is put below a directory with one slash between them.
pub proof fn law_joined_path(dir: Seq<char>, name: Seq<char>)
    ensures
        path::joined_path(seq![], name) == name,
        dir.len() > 0 && dir.last() == '/' ==> path::joined_path(dir, name) == dir + name,
        dir.len() > 0 && dir.last() != '/' ==> path::joined_path(dir, name) == dir + seq!['/']
            + name,
{
    reveal_strlit("/");
    assert("/"@ =~= seq!['/']);
    assert(Seq::<char>::empty() + name =~= name);
}

} // verus!
