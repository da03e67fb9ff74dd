//! Filename analysis: deciding which directory entries are disc stream
//! files, and deriving the track key that groups multi-part stream files
//! into one logical track.
//!
//! Disc-extraction tools name multi-part stream files `<track>_<part>`, so
//! the key of a file is its name without directory, extension and the part
//! suffix after the last underscore.

use vstd::prelude::*;

verus! {

/// Index of the last occurrence of `c` in `s`, or -1 if `c` does not occur.
pub open spec fn last_occurrence(s: Seq<char>, c: char) -> int
    decreases s.len(),
{
    if s.len() == 0 {
        -1
    } else if s[s.len() - 1] == c {
        s.len() - 1
    } else {
        last_occurrence(s.drop_last(), c)
    }
}

/// The final path component: everything after the last `/`.
pub open spec fn base_of(p: Seq<char>) -> Seq<char> {
    p.subrange(last_occurrence(p, '/') + 1, p.len() as int)
}

/// The file name without its extension. A dot at position 0 starts a
/// hidden-file name, not an extension, so such a name is its own stem.
pub open spec fn stem_of(b: Seq<char>) -> Seq<char> {
    let d = last_occurrence(b, '.');
    if d <= 0 {
        b
    } else {
        b.subrange(0, d)
    }
}

/// Whether the file name has an extension: a last dot after a non-empty stem.
pub open spec fn has_ext(b: Seq<char>) -> bool {
    last_occurrence(b, '.') > 0
}

/// The extension of the file name: everything after the last dot.
pub open spec fn ext_of(b: Seq<char>) -> Seq<char> {
    let d = last_occurrence(b, '.');
    if d <= 0 {
        Seq::<char>::empty()
    } else {
        b.subrange(d + 1, b.len() as int)
    }
}

/// The disc stream-container extension, compared case-insensitively.
pub open spec fn is_vob(e: Seq<char>) -> bool {
    &&& e.len() == 3
    &&& (e[0] == 'v' || e[0] == 'V')
    &&& (e[1] == 'o' || e[1] == 'O')
    &&& (e[2] == 'b' || e[2] == 'B')
}

/// Whether a file name names a disc stream file.
pub open spec fn is_stream_name(b: Seq<char>) -> bool {
    has_ext(b) && is_vob(ext_of(b))
}

pub open spec fn has_underscore(s: Seq<char>) -> bool {
    last_occurrence(s, '_') >= 0
}

/// The track key of a stem: everything before the last underscore, or the
/// whole stem when it has no underscore.
pub open spec fn key_of_stem(stem: Seq<char>) -> Seq<char> {
    let u = last_occurrence(stem, '_');
    if u >= 0 {
        stem.subrange(0, u)
    } else {
        stem
    }
}

/// The track key of a full file path.
pub open spec fn track_key_of(p: Seq<char>) -> Seq<char> {
    key_of_stem(stem_of(base_of(p)))
}

/// `last_occurrence` indeed points at the last occurrence: it is a valid
/// index holding `c` with no `c` after it, or -1 and `c` does not occur.
pub proof fn lemma_last_occurrence(s: Seq<char>, c: char)
    ensures
        -1 <= last_occurrence(s, c) < s.len(),
        last_occurrence(s, c) >= 0 ==> s[last_occurrence(s, c)] == c,
        forall|j: int| last_occurrence(s, c) < j < s.len() ==> s[j] != c,
    decreases s.len(),
{
    if s.len() > 0 && s[s.len() - 1] != c {
        lemma_last_occurrence(s.drop_last(), c);
        assert forall|j: int| last_occurrence(s, c) < j < s.len() implies s[j] != c by {
            if j < s.len() - 1 {
                assert(s.drop_last()[j] == s[j]);
            }
        }
    }
}

/// An index holding `c` with no `c` after it is exactly `last_occurrence`.
pub proof fn lemma_last_occurrence_unique(s: Seq<char>, c: char, i: int)
    requires
        0 <= i < s.len(),
        s[i] == c,
        forall|j: int| i < j < s.len() ==> s[j] != c,
    ensures
        last_occurrence(s, c) == i,
    decreases s.len(),
{
    if i < s.len() - 1 {
        assert(s[s.len() - 1] != c);
        assert forall|j: int| i < j < s.drop_last().len() implies s.drop_last()[j] != c by {
            assert(s.drop_last()[j] == s[j]);
        }
        assert(s.drop_last()[i] == s[i]);
        lemma_last_occurrence_unique(s.drop_last(), c, i);
    }
}

/// Key derivation law: a stem with at least one underscore has a
/// well-defined last underscore, and its key is exactly everything before
/// it; a stem with no underscore is its own key.
pub proof fn lemma_key_derivation(stem: Seq<char>)
    ensures
        has_underscore(stem) ==> {
            let u = last_occurrence(stem, '_');
            &&& 0 <= u < stem.len()
            &&& stem[u] == '_'
            &&& forall|j: int| u < j < stem.len() ==> stem[j] != '_'
            &&& key_of_stem(stem) == stem.subrange(0, u)
        },
        !has_underscore(stem) ==> {
            &&& key_of_stem(stem) == stem
            &&& forall|j: int| 0 <= j < stem.len() ==> stem[j] != '_'
        },
{
    lemma_last_occurrence(stem, '_');
}

/// Position of the last occurrence of `c` in `s`, if any.
pub(crate) fn rfind_char(s: &str, c: char) -> (r: Option<usize>)
    ensures
        match r {
            Some(i) => i < s@.len() && last_occurrence(s@, c) == i as int,
            None => last_occurrence(s@, c) == -1,
        },
{
    let n = s.unicode_len();
    let mut i: usize = n;
    while i > 0
        invariant
            i <= n,
            n == s@.len(),
            forall|j: int| i <= j < n ==> s@[j] != c,
        decreases i,
    {
        i = i - 1;
        if s.get_char(i) == c {
            proof {
                lemma_last_occurrence_unique(s@, c, i as int);
            }
            return Some(i);
        }
    }
    proof {
        lemma_last_occurrence(s@, c);
    }
    None
}

/// The file name without its extension.
pub fn file_stem_of(name: &str) -> (r: &str)
    ensures
        r@ == stem_of(name@),
{
    match rfind_char(name, '.') {
        Some(d) => {
            if d > 0 {
                name.substring_char(0, d)
            } else {
                name
            }
        },
        None => name,
    }
}

/// Whether `name` names a disc stream file: its extension is the disc
/// stream-container extension, compared case-insensitively.
pub fn is_stream_file(name: &str) -> (b: bool)
    ensures
        b == is_stream_name(name@),
{
    match rfind_char(name, '.') {
        Some(d) => {
            if d == 0 {
                false
            } else {
                let n = name.unicode_len();
                if n - d - 1 != 3 {
                    false
                } else {
                    let c0 = name.get_char(d + 1);
                    let c1 = name.get_char(d + 2);
                    let c2 = name.get_char(d + 3);
                    (c0 == 'v' || c0 == 'V') && (c1 == 'o' || c1 == 'O') && (c2 == 'b' || c2
                        == 'B')
                }
            }
        },
        None => false,
    }
}

/// How the walker treats one directory entry.
#[derive(Clone, Copy, PartialEq, Eq, Structural, Debug)]
pub enum EntryKind {
    /// A stream file: inserted into the track registry, not copied.
    Stream,
    /// A subdirectory: mirrored and recursed into.
    Directory,
    /// Any other file: copied verbatim to the mirrored output path.
    Plain,
}

/// Classification rule for one directory entry of the staged disc tree.
pub open spec fn classify_spec(name: Seq<char>, is_dir: bool) -> EntryKind {
    if is_dir {
        EntryKind::Directory
    } else if is_stream_name(name) {
        EntryKind::Stream
    } else {
        EntryKind::Plain
    }
}

/// Classify one directory entry by its file name and kind.
pub fn classify_entry(name: &str, is_dir: bool) -> (k: EntryKind)
    ensures
        k == classify_spec(name@, is_dir),
{
    if is_dir {
        EntryKind::Directory
    } else if is_stream_file(name) {
        EntryKind::Stream
    } else {
        EntryKind::Plain
    }
}

/// Derive the track key of a stream file path, and whether its stem held an
/// underscore at all. A stem without one is grouped under the whole stem,
/// which callers report as an unusual naming convention.
pub fn track_name(path: &str) -> (r: (String, bool))
    requires
        base_of(path@).len() > 0,
    ensures
        r.0@ == track_key_of(path@),
        r.1 == has_underscore(stem_of(base_of(path@))),
{
    let n = path.unicode_len();
    let base = match rfind_char(path, '/') {
        Some(i) => path.substring_char(i + 1, n),
        None => path,
    };
    proof {
        assert(base@ =~= base_of(path@));
    }
    let stem = file_stem_of(base);
    match rfind_char(stem, '_') {
        Some(u) => (String::from_str(stem.substring_char(0, u)), true),
        None => (String::from_str(stem), false),
    }
}

} // verus!
