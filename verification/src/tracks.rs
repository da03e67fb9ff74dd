//! The track registry: stream files discovered during the walk are grouped
//! into logical tracks by their derived key, each track accumulating its
//! files in discovery order (which becomes concatenation order) together
//! with its total byte size. On finalization the track with the largest
//! byte total is selected as the disc's main title — on a video disc the
//! feature presentation is reliably the largest set of streams; menus and
//! extras are smaller. Ties go to the earliest-inserted track, so selection
//! is deterministic.

use vstd::prelude::*;

use crate::names::base_of;
use crate::names::track_key_of;
use crate::names::track_name;

verus! {

/// The sum of a sequence of byte sizes, as an unbounded integer.
pub open spec fn sum(s: Seq<u64>) -> int
    decreases s.len(),
{
    if s.len() == 0 {
        0
    } else {
        sum(s.drop_last()) + s.last()
    }
}

proof fn lemma_sum_push(s: Seq<u64>, x: u64)
    ensures
        sum(s.push(x)) == sum(s) + x,
{
    assert(s.push(x).drop_last() =~= s);
    assert(s.push(x).last() == x);
}

/// One logical track: the group of all stream files sharing one derived
/// key, in discovery order, with their total byte size. The sizes each
/// file contributed are kept as ghost data so that the size-accumulation
/// invariant can be stated exactly.
pub struct Track {
    /// The derived key this track is grouped under.
    pub key: String,
    /// The constituent stream files, in discovery order.
    pub files: Vec<String>,
    /// The sum of the constituent files' sizes at insertion time.
    pub bytes: u64,
    /// The size each constituent file contributed, in the same order.
    pub sizes: Ghost<Seq<u64>>,
}

impl Track {
    /// Well-formedness: a track holds at least one file (tracks are created
    /// on first insertion), one recorded size per file, and its byte total
    /// is exactly the sum of those sizes.
    pub open spec fn wf(self) -> bool {
        &&& self.files@.len() >= 1
        &&& self.sizes@.len() == self.files@.len()
        &&& self.bytes == sum(self.sizes@)
    }

    /// A new track grouped under `key`, holding its first file.
    pub fn new(key: String, path: String, size: u64) -> (t: Track)
        ensures
            t.wf(),
            t.key == key,
            t.files@ == seq![path],
            t.bytes == size,
            t.sizes@ == seq![size],
    {
        let ghost gpath = path;
        let mut files: Vec<String> = Vec::new();
        files.push(path);
        let ghost gsizes: Seq<u64> = seq![size];
        proof {
            assert(files@ =~= seq![gpath]);
            assert(gsizes =~= Seq::<u64>::empty().push(size));
            lemma_sum_push(Seq::<u64>::empty(), size);
        }
        Track { key, files, bytes: size, sizes: Ghost(gsizes) }
    }

    /// Append one more file of `size` bytes to the track.
    pub fn append(&mut self, path: String, size: u64)
        requires
            old(self).wf(),
            old(self).bytes + size <= u64::MAX,
        ensures
            final(self).wf(),
            final(self).key == old(self).key,
            final(self).files@ == old(self).files@.push(path),
            final(self).bytes == old(self).bytes + size,
            final(self).sizes@ == old(self).sizes@.push(size),
    {
        proof {
            lemma_sum_push(self.sizes@, size);
        }
        self.bytes = self.bytes + size;
        self.files.push(path);
        self.sizes = Ghost(self.sizes@.push(size));
    }
}

/// Size-accumulation law: a well-formed track's byte total is exactly the
/// sum of the sizes its constituent files contributed when they were
/// inserted.
pub proof fn lemma_total_is_sum(t: Track)
    requires
        t.wf(),
    ensures
        t.bytes == sum(t.sizes@),
        t.sizes@.len() == t.files@.len(),
{
}

/// The first index in `s` whose track is grouped under `k`, or -1.
pub open spec fn find_key(s: Seq<Track>, k: Seq<char>) -> int
    decreases s.len(),
{
    if s.len() == 0 {
        -1
    } else if s[0].key@ == k {
        0
    } else {
        let r = find_key(s.drop_first(), k);
        if r == -1 {
            -1
        } else {
            r + 1
        }
    }
}

/// An index holding `k` with no `k` before it is exactly `find_key`.
proof fn lemma_find_key_first(s: Seq<Track>, k: Seq<char>, i: int)
    requires
        0 <= i < s.len(),
        s[i].key@ == k,
        forall|j: int| 0 <= j < i ==> s[j].key@ != k,
    ensures
        find_key(s, k) == i,
    decreases s.len(),
{
    if i > 0 {
        assert forall|j: int| 0 <= j < i - 1 implies s.drop_first()[j].key@ != k by {
            assert(s.drop_first()[j] == s[j + 1]);
        }
        assert(s.drop_first()[i - 1] == s[i]);
        lemma_find_key_first(s.drop_first(), k, i - 1);
    }
}

/// When no track in `s` is grouped under `k`, `find_key` reports -1.
proof fn lemma_find_key_none(s: Seq<Track>, k: Seq<char>)
    requires
        forall|j: int| 0 <= j < s.len() ==> s[j].key@ != k,
    ensures
        find_key(s, k) == -1,
    decreases s.len(),
{
    if s.len() > 0 {
        assert forall|j: int| 0 <= j < s.drop_first().len() implies s.drop_first()[j].key@ != k by {
            assert(s.drop_first()[j] == s[j + 1]);
        }
        lemma_find_key_none(s.drop_first(), k);
    }
}

/// The first index of a track with a strictly maximal byte total: later
/// tracks replace the running choice only when strictly larger, so ties go
/// to the earliest-inserted track.
pub open spec fn largest_idx(s: Seq<Track>) -> int
    decreases s.len(),
{
    if s.len() <= 1 {
        0
    } else {
        let r = largest_idx(s.drop_last());
        if s.last().bytes > s[r].bytes {
            s.len() - 1
        } else {
            r
        }
    }
}

/// Main-title selection law: `largest_idx` points at a track whose byte
/// total no other track exceeds, and every earlier track is strictly
/// smaller, so the selection is deterministic under ties.
pub proof fn lemma_largest_idx(s: Seq<Track>)
    requires
        s.len() > 0,
    ensures
        0 <= largest_idx(s) < s.len(),
        forall|j: int| 0 <= j < s.len() ==> (#[trigger] s[j]).bytes <= s[largest_idx(s)].bytes,
        forall|j: int| 0 <= j < largest_idx(s) ==> (#[trigger] s[j]).bytes < s[largest_idx(s)].bytes,
    decreases s.len(),
{
    if s.len() > 1 {
        lemma_largest_idx(s.drop_last());
        assert forall|j: int| 0 <= j < s.len() - 1 implies s[j] == s.drop_last()[j] by {}
    }
}

/// What one registry insertion does: the track grouped under the path's
/// derived key gains the file and its size, a new track is created when
/// the key is unseen, and an insertion whose size would overflow the
/// track's byte total is refused and changes nothing.
pub open spec fn push_spec(
    pre: TrackMap,
    post: TrackMap,
    path: String,
    size: u64,
    ok: bool,
) -> bool {
    let k = track_key_of(path@);
    let i = find_key(pre.tracks@, k);
    if i == -1 {
        &&& ok == true
        &&& post.tracks@.len() == pre.tracks@.len() + 1
        &&& post.tracks@ == pre.tracks@.push(post.tracks@.last())
        &&& post.tracks@.last().key@ == k
        &&& post.tracks@.last().files@ == seq![path]
        &&& post.tracks@.last().bytes == size
    } else if pre.tracks@[i].bytes + size <= u64::MAX {
        &&& ok == true
        &&& post.tracks@.len() == pre.tracks@.len()
        &&& post.tracks@[i].key == pre.tracks@[i].key
        &&& post.tracks@[i].files@ == pre.tracks@[i].files@.push(path)
        &&& post.tracks@[i].bytes == pre.tracks@[i].bytes + size
        &&& forall|j: int|
            0 <= j < pre.tracks@.len() && j != i ==> post.tracks@[j] == pre.tracks@[j]
    } else {
        &&& ok == false
        &&& post.tracks@ == pre.tracks@
    }
}

/// The registry of tracks discovered on one disc: a mapping from derived
/// key to track, represented as a vector with unique keys in first-seen
/// order.
pub struct TrackMap {
    pub tracks: Vec<Track>,
}

impl TrackMap {
    /// Well-formedness: every track is well-formed and no two tracks share
    /// a key.
    pub open spec fn wf(self) -> bool {
        &&& forall|i: int| 0 <= i < self.tracks@.len() ==> (#[trigger] self.tracks@[i]).wf()
        &&& forall|i: int, j: int|
            0 <= i < j < self.tracks@.len() ==> self.tracks@[i].key@ != self.tracks@[j].key@
    }

    /// An empty registry, created at the start of a disc backup.
    pub fn new() -> (m: TrackMap)
        ensures
            m.wf(),
            m.tracks@.len() == 0,
    {
        TrackMap { tracks: Vec::new() }
    }

    /// Insert one stream file: derive its track key, create a new track
    /// when the key is unseen, else append to the existing track, adding
    /// `size` to that track's byte total. Returns whether the insertion
    /// happened; only a size that would overflow the track's byte total is
    /// refused, leaving the registry unchanged.
    pub fn push(&mut self, path: String, size: u64) -> (ok: bool)
        requires
            old(self).wf(),
            base_of(path@).len() > 0,
        ensures
            final(self).wf(),
            push_spec(*old(self), *final(self), path, size, ok),
    {
        let (key, _had_underscore) = track_name(path.as_str());
        let n = self.tracks.len();
        let mut i: usize = 0;
        while i < n
            invariant
                i <= n,
                n == self.tracks@.len(),
                *self == *old(self),
                old(self).wf(),
                key@ == track_key_of(path@),
                forall|j: int| 0 <= j < i ==> self.tracks@[j].key@ != key@,
            decreases n - i,
        {
            if self.tracks[i].key == key {
                proof {
                    lemma_find_key_first(self.tracks@, key@, i as int);
                }
                let current = self.tracks[i].bytes;
                if u64::MAX - current < size {
                    return false;
                }
                let mut t = self.tracks.remove(i);
                t.append(path, size);
                let ghost gt = t;
                self.tracks.insert(i, t);
                proof {
                    assert(self.tracks@ =~= old(self).tracks@.update(i as int, gt));
                }
                return true;
            }
            i = i + 1;
        }
        proof {
            lemma_find_key_none(self.tracks@, key@);
        }
        let t = Track::new(key, path, size);
        self.tracks.push(t);
        return true;
    }

    /// Select and remove the main title: the track with the strictly
    /// largest byte total, ties going to the earliest-inserted track,
    /// returned with its key. An empty registry yields `None` and stays
    /// empty.
    pub fn take_largest(&mut self) -> (r: Option<(String, Track)>)
        requires
            old(self).wf(),
        ensures
            final(self).wf(),
            old(self).tracks@.len() == 0 ==> r is None && final(self).tracks@
                == old(self).tracks@,
            old(self).tracks@.len() > 0 ==> {
                let i = largest_idx(old(self).tracks@);
                &&& r == Some((old(self).tracks@[i].key, old(self).tracks@[i]))
                &&& final(self).tracks@ == old(self).tracks@.remove(i)
                &&& forall|j: int|
                    0 <= j < old(self).tracks@.len() ==> (#[trigger] old(self).tracks@[j]).bytes
                        <= old(self).tracks@[i].bytes
            },
    {
        let n = self.tracks.len();
        if n == 0 {
            return None;
        }
        let mut best: usize = 0;
        let mut i: usize = 1;
        while i < n
            invariant
                1 <= i <= n,
                best < i,
                n == self.tracks@.len(),
                *self == *old(self),
                best as int == largest_idx(self.tracks@.subrange(0, i as int)),
            decreases n - i,
        {
            let ghost prefix = self.tracks@.subrange(0, i as int);
            let ghost next = self.tracks@.subrange(0, i + 1);
            proof {
                assert(next.drop_last() =~= prefix);
                assert(next.last() == self.tracks@[i as int]);
            }
            if self.tracks[i].bytes > self.tracks[best].bytes {
                best = i;
            }
            i = i + 1;
        }
        proof {
            assert(self.tracks@.subrange(0, n as int) =~= self.tracks@);
            lemma_largest_idx(self.tracks@);
        }
        let t = self.tracks.remove(best);
        let k = t.key.clone();
        Some((k, t))
    }

    /// The export plan for one disc: the main title first, exported under
    /// the disc's chosen name, then the remaining tracks in first-seen
    /// order, each under its own key. An empty registry yields an empty
    /// plan: there is nothing to export.
    pub fn export_plan(self, dvd_name: String) -> (plan: Vec<(String, Track)>)
        requires
            self.wf(),
        ensures
            self.tracks@.len() == 0 ==> plan@.len() == 0,
            self.tracks@.len() > 0 ==> {
                let i = largest_idx(self.tracks@);
                let rest = self.tracks@.remove(i);
                &&& plan@.len() == self.tracks@.len()
                &&& plan@[0] == (dvd_name, self.tracks@[i])
                &&& forall|j: int|
                    1 <= j < plan@.len() ==> plan@[j] == (rest[j - 1].key, rest[j - 1])
            },
    {
        let ghost orig = self.tracks@;
        let mut m = self;
        let main = m.take_largest();
        match main {
            None => {
                proof {
                    assert(orig.len() == 0);
                }
                Vec::new()
            },
            Some((_main_key, main_track)) => {
                proof {
                    lemma_largest_idx(orig);
                }
                let ghost gmain = main_track;
                let ghost rest = m.tracks@;
                let mut plan: Vec<(String, Track)> = Vec::new();
                plan.push((dvd_name, main_track));
                while m.tracks.len() > 0
                    invariant
                        1 <= plan@.len(),
                        plan@.len() - 1 <= rest.len(),
                        m.tracks@ =~= rest.subrange(plan@.len() - 1, rest.len() as int),
                        plan@[0] == (dvd_name, gmain),
                        forall|j: int|
                            1 <= j < plan@.len() ==> plan@[j] == (rest[j - 1].key, rest[j - 1]),
                    decreases m.tracks@.len(),
                {
                    let ghost done = plan@.len() - 1;
                    let t = m.tracks.remove(0);
                    let k = t.key.clone();
                    proof {
                        assert(t == rest[done]);
                        assert(m.tracks@ =~= rest.subrange(done + 1, rest.len() as int));
                    }
                    plan.push((k, t));
                }
                plan
            },
        }
    }
}

} // verus!
