//! Paths as text: components, file names, extensions, and the walk over a
//! directory tree.

use vstd::prelude::*;

use crate::text::chars::concat2;
use crate::text::chars::concat3;
use crate::text::chars::same_chars;
use crate::text::chars::to_chars;
use crate::text::chars;
use crate::text::find::find_last;
use crate::text::find;
use crate::text::split;

verus! {

broadcast use {vstd::seq::group_seq_axioms, vstd::slice::group_slice_axioms};

/// The parts that count: an empty part does not, nor a dot behind the first.
pub open spec fn kept_parts(parts: Seq<Seq<char>>) -> Seq<Seq<char>>
    decreases parts.len(),
{
    if parts.len() == 0 {
        seq![]
    } else {
        let rest = kept_parts(parts.drop_last());
        if parts.last().len() == 0 || (parts.last() == seq!['.'] && parts.len() > 1) {
            rest
        } else {
            rest.push(parts.last())
        }
    }
}

/// The components of a path; the root directory is the component `/`.
pub open spec fn components_of(p: Seq<char>) -> Seq<Seq<char>> {
    let kept = kept_parts(split::split_parts(p, '/'));
    if p.len() > 0 && p[0] == '/' {
        seq![seq!['/']] + kept
    } else {
        kept
    }
}

/// A component that names an entry of a directory.
pub open spec fn is_name(c: Seq<char>) -> bool {
    c != seq!['/'] && c != seq!['.'] && c != seq!['.', '.']
}

/// The name that a list of components ends with.
pub open spec fn last_name(c: Seq<Seq<char>>) -> Option<Seq<char>> {
    if c.len() > 0 && is_name(c.last()) {
        Some(c.last())
    } else {
        None
    }
}

/// The file name of a path.
pub open spec fn file_name_of(p: Seq<char>) -> Option<Seq<char>> {
    last_name(components_of(p))
}

/// The place of the dot that parts a file name's stem from its extension; a
/// leading dot does not.
pub open spec fn dot_of(name: Seq<char>) -> Option<int> {
    match find::last_of(name, seq!['.'], name.len() as int) {
        Some(i) => if i > 0 {
            Some(i)
        } else {
            None
        },
        None => None,
    }
}

/// The extension of a path.
pub open spec fn extension_of(p: Seq<char>) -> Option<Seq<char>> {
    match file_name_of(p) {
        Some(name) => match dot_of(name) {
            Some(i) => Some(name.skip(i + 1)),
            None => None,
        },
        None => None,
    }
}

/// The file name of a path without its extension.
pub open spec fn stem_of(p: Seq<char>) -> Option<Seq<char>> {
    match file_name_of(p) {
        Some(name) => match dot_of(name) {
            Some(i) => Some(name.take(i)),
            None => Some(name),
        },
        None => None,
    }
}

/// The name of the directory that holds `path`, where both lie below `root`.
pub open spec fn folder_below(root: Seq<char>, path: Seq<char>) -> Option<Seq<char>> {
    let r = components_of(root);
    let p = components_of(path);
    if r.is_prefix_of(p) && p.len() >= r.len() + 2 {
        last_name(p.drop_last())
    } else {
        None
    }
}

/// The path of the entry `name` of the directory `dir`.
pub open spec fn joined_path(dir: Seq<char>, name: Seq<char>) -> Seq<char> {
    if dir.len() == 0 || dir.last() == '/' {
        dir + name
    } else {
        dir + "/"@ + name
    }
}

fn dot() -> (r: Vec<char>)
    ensures
        r@ == seq!['.'],
{
    let mut v: Vec<char> = Vec::new();
    v.push('.');
    v
}

/// The components of a path.
pub fn components<'a>(p: &'a [char]) -> (r: Vec<&'a [char]>)
    ensures
        split::texts(r@) == components_of(p@),
{
    let parts = split::split(p, '/');
    let dot = dot();
    let mut out: Vec<&'a [char]> = Vec::new();
    let ghost mut head: Seq<Seq<char>> = seq![];
    if p.len() > 0 && p[0] == '/' {
        out.push(vstd::slice::slice_subrange(p, 0, 1));
        proof {
            assert(p@.subrange(0, 1) =~= seq!['/']);
            head = seq![seq!['/']];
        }
    }
    assert(split::texts(out@) =~= head);
    let ghost all = split::texts(parts@);
    let mut i: usize = 0;
    assert(all.take(0) =~= seq![]);
    assert(head + kept_parts(all.take(0)) =~= head);
    while i < parts.len()
        invariant
            i <= parts@.len(),
            dot@ == seq!['.'],
            all == split::texts(parts@),
            split::texts(out@) == head + kept_parts(all.take(i as int)),
        decreases parts@.len() - i,
    {
        let part = parts[i];
        let ghost before = out@;
        assert(all.take(i + 1).drop_last() == all.take(i as int));
        assert(all.take(i + 1).last() == part@);
        if part.len() > 0 && !(i > 0 && same_chars(part, dot.as_slice())) {
            out.push(part);
            assert(split::texts(out@) =~= split::texts(before).push(part@));
            assert(split::texts(out@) =~= head + kept_parts(all.take(i + 1)));
        }
        i = i + 1;
    }
    assert(all.take(i as int) == all);
    assert(head + kept_parts(all) =~= components_of(p@));
    out
}

fn names_entry(c: &[char]) -> (r: bool)
    ensures
        r == is_name(c@),
{
    let mut slash: Vec<char> = Vec::new();
    slash.push('/');
    let one = dot();
    let mut two = dot();
    two.push('.');
    assert(two@ =~= seq!['.', '.']);
    !same_chars(c, slash.as_slice()) && !same_chars(c, one.as_slice()) && !same_chars(
        c,
        two.as_slice(),
    )
}

/// The file name of a path.
pub fn file_name<'a>(p: &'a [char]) -> (r: Option<&'a [char]>)
    ensures
        match r {
            Some(n) => file_name_of(p@) == Some(n@),
            None => file_name_of(p@) is None,
        },
{
    let c = components(p);
    let n: usize = c.len();
    if n > 0 && names_entry(c[n - 1]) {
        assert(split::texts(c@).last() == c@[n - 1]@);
        Some(c[n - 1])
    } else {
        proof {
            if n > 0 {
                assert(split::texts(c@).last() == c@[n - 1]@);
            }
        }
        None
    }
}

fn find_dot(name: &[char]) -> (r: Option<usize>)
    ensures
        match r {
            Some(i) => dot_of(name@) == Some(i as int) && i < name@.len(),
            None => dot_of(name@) is None,
        },
{
    match find_last(name, dot().as_slice()) {
        Some(i) => if i > 0 {
            Some(i)
        } else {
            None
        },
        None => None,
    }
}

/// The extension of a path.
pub fn extension<'a>(p: &'a [char]) -> (r: Option<&'a [char]>)
    ensures
        match r {
            Some(e) => extension_of(p@) == Some(e@),
            None => extension_of(p@) is None,
        },
{
    match file_name(p) {
        Some(name) => match find_dot(name) {
            Some(i) => {
                let n: usize = name.len();
                let e = vstd::slice::slice_subrange(name, i + 1, n);
                assert(e@ =~= name@.skip(i + 1));
                Some(e)
            },
            None => None,
        },
        None => None,
    }
}

/// The file name of a path without its extension.
pub fn file_stem<'a>(p: &'a [char]) -> (r: Option<&'a [char]>)
    ensures
        match r {
            Some(e) => stem_of(p@) == Some(e@),
            None => stem_of(p@) is None,
        },
{
    match file_name(p) {
        Some(name) => match find_dot(name) {
            Some(i) => {
                let e = vstd::slice::slice_subrange(name, 0, i);
                assert(e@ =~= name@.take(i as int));
                Some(e)
            },
            None => Some(name),
        },
        None => None,
    }
}

/// The name of the directory that holds `path`, where both lie below `root`.
pub fn folder<'a>(root: &[char], path: &'a [char]) -> (r: Option<&'a [char]>)
    ensures
        match r {
            Some(n) => folder_below(root@, path@) == Some(n@),
            None => folder_below(root@, path@) is None,
        },
{
    let top = components(root);
    let c = components(path);
    let ghost ts = split::texts(top@);
    let ghost cs = split::texts(c@);
    let n: usize = c.len();
    let m: usize = top.len();
    if n < 2 || n - 2 < m {
        return None;
    }
    let mut i: usize = 0;
    while i < m
        invariant
            i <= m,
            m == top@.len(),
            m <= n,
            n == c@.len(),
            ts == split::texts(top@),
            cs == split::texts(c@),
            ts == components_of(root@),
            cs == components_of(path@),
            forall|k: int| 0 <= k < i ==> #[trigger] ts[k] == cs[k],
        decreases m - i,
    {
        if !same_chars(top[i], c[i]) {
            proof {
                assert(ts[i as int] != cs[i as int]);
                if ts.is_prefix_of(cs) {
                    assert(ts == cs.subrange(0, ts.len() as int));
                    assert(ts[i as int] == cs.subrange(0, ts.len() as int)[i as int]);
                }
            }
            return None;
        }
        i = i + 1;
    }
    assert(ts =~= cs.subrange(0, m as int));
    assert(cs.drop_last().last() == c@[n - 2]@);
    if names_entry(c[n - 2]) {
        Some(c[n - 2])
    } else {
        None
    }
}

/// The path of the entry `name` of the directory `dir`.
pub fn join_path(dir: &str, name: &str) -> (r: String)
    ensures
        r@ == joined_path(dir@, name@),
{
    let d = to_chars(dir);
    if d.len() == 0 || d[d.len() - 1] == '/' {
        concat2(dir, name)
    } else {
        concat3(dir, "/", name)
    }
}

// ── Directory trees ────────────────────────────────────────────────────────

/// An entry of a directory, in the order in which the directory lists them.
#[derive(Debug)]
pub enum DirEntry {
    File { name: String },
    Dir { name: String, entries: Vec<DirEntry> },
}

/// A name that starts with a dot.
pub open spec fn hidden(name: Seq<char>) -> bool {
    name.len() > 0 && name[0] == '.'
}

/// The paths of the files that an entry of `dir` stands for.
pub open spec fn entry_paths(dir: Seq<char>, e: DirEntry) -> Seq<Seq<char>>
    decreases e,
{
    match e {
        DirEntry::File { name } => if hidden(name@) {
            seq![]
        } else {
            seq![joined_path(dir, name@)]
        },
        DirEntry::Dir { name, entries } => if hidden(name@) {
            seq![]
        } else {
            walked(joined_path(dir, name@), entries@)
        },
    }
}

/// The paths of the files below `dir`, hidden entries left out.
pub open spec fn walked(dir: Seq<char>, entries: Seq<DirEntry>) -> Seq<Seq<char>>
    decreases entries,
{
    if entries.len() == 0 {
        seq![]
    } else {
        walked(dir, entries.drop_last()) + entry_paths(dir, entries[entries.len() - 1])
    }
}

/// Whether a name starts with a dot.
pub fn is_hidden(name: &str) -> (r: bool)
    ensures
        r == hidden(name@),
{
    let n = to_chars(name);
    n.len() > 0 && n[0] == '.'
}

/// Recursive directory walk; skips hidden entries.
pub fn walk(dir: &str, entries: &Vec<DirEntry>) -> (r: Vec<String>)
    ensures
        chars::all_texts(r@) == walked(dir@, entries@),
{
    let mut out: Vec<String> = Vec::new();
    walk_into(dir, entries, &mut out);
    assert(chars::all_texts(out@) =~= walked(dir@, entries@));
    out
}

fn walk_into(dir: &str, entries: &Vec<DirEntry>, out: &mut Vec<String>)
    ensures
        chars::all_texts(final(out)@) == chars::all_texts(old(out)@) + walked(dir@, entries@),
    decreases entries,
{
    let ghost before = chars::all_texts(out@);
    let mut i: usize = 0;
    assert(entries@.take(0) =~= seq![]);
    assert(before + walked(dir@, entries@.take(0)) =~= before);
    while i < entries.len()
        invariant
            i <= entries@.len(),
            chars::all_texts(out@) == before + walked(dir@, entries@.take(i as int)),
        decreases entries@.len() - i,
    {
        let ghost now = chars::all_texts(out@);
        assert(decreases_to!(entries => entries@[i as int]));
        match &entries[i] {
            DirEntry::File { name } => {
                if !is_hidden(name.as_str()) {
                    let ghost o = out@;
                    out.push(join_path(dir, name.as_str()));
                    assert(chars::all_texts(out@) =~= now.push(joined_path(dir@, name@)));
                }
            },
            DirEntry::Dir { name, entries: inner } => {
                if !is_hidden(name.as_str()) {
                    walk_into(join_path(dir, name.as_str()).as_str(), inner, out);
                }
            },
        }
        assert(chars::all_texts(out@) =~= now + entry_paths(dir@, entries@[i as int]));
        assert(entries@.take(i + 1).drop_last() == entries@.take(i as int));
        assert(entries@.take(i + 1)[i as int] == entries@[i as int]);
        assert(chars::all_texts(out@) =~= before + walked(dir@, entries@.take(i + 1)));
        i = i + 1;
    }
    assert(entries@.take(i as int) == entries@);
}

/// The walk never enters a hidden entry: where every entry of a directory is
/// hidden, it finds nothing.
pub proof fn law_walk_skips_hidden(dir: Seq<char>, entries: Seq<DirEntry>)
    requires
        forall|i: int|
            0 <= i < entries.len() ==> match #[trigger] entries[i] {
                DirEntry::File { name } => hidden(name@),
                DirEntry::Dir { name, .. } => hidden(name@),
            },
    ensures
        walked(dir, entries).len() == 0,
    decreases entries.len(),
{
    if entries.len() > 0 {
        let init = entries.drop_last();
        assert forall|i: int| 0 <= i < init.len() implies match #[trigger] init[i] {
            DirEntry::File { name } => hidden(name@),
            DirEntry::Dir { name, .. } => hidden(name@),
        } by {
            assert(init[i] == entries[i]);
        }
        law_walk_skips_hidden(dir, init);
        let last = entries[entries.len() - 1];
        assert(entry_paths(dir, last).len() == 0);
    }
}

} // verus!
