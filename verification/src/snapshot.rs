//! Snapshots of a source tree: which file was last modified when.

use vstd::prelude::*;
use vstd::set_lib::lemma_subset_equality;

verus! {

/// One regular file as a scan saw it.
#[derive(Clone, Debug, PartialEq, Eq)]
pub struct FileTimestamp {
    /// Absolute path of the file.
    pub path: String,
    /// Last modification, in seconds since the epoch.
    pub mtime: i64,
}

/// The mapping that a list of entries stands for: each path is mapped to
/// the time of the last entry that names it.
pub open spec fn entries_map(s: Seq<FileTimestamp>) -> Map<Seq<char>, i64>
    decreases s.len(),
{
    if s.len() == 0 {
        Map::empty()
    } else {
        entries_map(s.drop_last()).insert(s.last().path@, s.last().mtime)
    }
}

/// No two entries name the same path.
pub open spec fn distinct_paths(s: Seq<FileTimestamp>) -> bool {
    forall|i: int, j: int| 0 <= i < j < s.len() ==> s[i].path@ != s[j].path@
}

/// Two snapshots call for a rebuild when they are not the same mapping.
pub open spec fn snapshots_differ(a: Map<Seq<char>, i64>, b: Map<Seq<char>, i64>) -> bool {
    a != b
}

/// A path is in the mapping of a list exactly when an entry names it.
pub proof fn lemma_entries_map_dom(s: Seq<FileTimestamp>)
    ensures
        entries_map(s).dom().finite(),
        forall|p: Seq<char>| #[trigger]
            entries_map(s).dom().contains(p) <==> exists|i: int|
                0 <= i < s.len() && #[trigger] s[i].path@ == p,
    decreases s.len(),
{
    if s.len() > 0 {
        let t = s.drop_last();
        lemma_entries_map_dom(t);
        assert forall|p: Seq<char>| #[trigger]
            entries_map(s).dom().contains(p) <==> exists|i: int|
                0 <= i < s.len() && #[trigger] s[i].path@ == p by {
            if entries_map(s).dom().contains(p) {
                if p == s.last().path@ {
                    assert(s[s.len() - 1].path@ == p);
                } else {
                    assert(entries_map(t).dom().contains(p));
                    let i = choose|i: int| 0 <= i < t.len() && #[trigger] t[i].path@ == p;
                    assert(s[i].path@ == p);
                }
            }
            if exists|i: int| 0 <= i < s.len() && #[trigger] s[i].path@ == p {
                let i = choose|i: int| 0 <= i < s.len() && #[trigger] s[i].path@ == p;
                if i < t.len() {
                    assert(t[i].path@ == p);
                }
            }
        }
    }
}

/// In a list without repeated paths every entry is found in the mapping
/// with its own time.
pub proof fn lemma_entries_map_value(s: Seq<FileTimestamp>, i: int)
    requires
        distinct_paths(s),
        0 <= i < s.len(),
    ensures
        entries_map(s).dom().contains(s[i].path@),
        entries_map(s)[s[i].path@] == s[i].mtime,
    decreases s.len(),
{
    if i < s.len() - 1 {
        lemma_entries_map_value(s.drop_last(), i);
    }
}

/// A list without repeated paths has as many entries as its mapping has
/// paths.
pub proof fn lemma_entries_map_len(s: Seq<FileTimestamp>)
    requires
        distinct_paths(s),
    ensures
        entries_map(s).dom().finite(),
        entries_map(s).dom().len() == s.len(),
    decreases s.len(),
{
    lemma_entries_map_dom(s);
    if s.len() > 0 {
        let t = s.drop_last();
        lemma_entries_map_len(t);
        lemma_entries_map_dom(t);
        if entries_map(t).dom().contains(s.last().path@) {
            let i = choose|i: int| 0 <= i < t.len() && #[trigger] t[i].path@ == s.last().path@;
            assert(s[i].path@ == s[s.len() - 1].path@);
        }
    }
}

/// Replacing the time of one entry replaces the time of its path.
pub proof fn lemma_entries_map_update(s: Seq<FileTimestamp>, i: int, e: FileTimestamp)
    requires
        distinct_paths(s),
        0 <= i < s.len(),
        e.path@ == s[i].path@,
    ensures
        distinct_paths(s.update(i, e)),
        entries_map(s.update(i, e)) == entries_map(s).insert(e.path@, e.mtime),
    decreases s.len(),
{
    let s2 = s.update(i, e);
    let t = s.drop_last();
    if i == s.len() - 1 {
        assert(s2.drop_last() =~= t);
        assert(entries_map(s2) =~= entries_map(s).insert(e.path@, e.mtime));
    } else {
        lemma_entries_map_update(t, i, e);
        assert(s2.drop_last() =~= t.update(i, e));
        assert(s2.last() == s.last());
        assert(s[i].path@ != s[s.len() - 1].path@);
        assert(entries_map(s2) =~= entries_map(s).insert(e.path@, e.mtime));
    }
}

/// A complete path-to-time mapping taken at one instant.
///
/// The entries are kept in a list in which no path occurs twice; the order
/// of the list carries no meaning.
pub struct Snapshot {
    entries: Vec<FileTimestamp>,
}

impl View for Snapshot {
    type V = Map<Seq<char>, i64>;

    closed spec fn view(&self) -> Map<Seq<char>, i64> {
        entries_map(self.entries@)
    }
}

impl Snapshot {
    /// The validity of a snapshot: no path is recorded twice.
    pub closed spec fn wf(&self) -> bool {
        distinct_paths(self.entries@)
    }

    /// The snapshot of an empty tree.
    pub fn new() -> (s: Snapshot)
        ensures
            s.wf(),
            s@ == Map::<Seq<char>, i64>::empty(),
    {
        Snapshot { entries: Vec::new() }
    }

    /// The recorded files, each once, in no particular order.
    pub fn entries(&self) -> (list: &Vec<FileTimestamp>)
        requires
            self.wf(),
        ensures
            distinct_paths(list@),
            entries_map(list@) == self@,
    {
        &self.entries
    }

    /// The number of files recorded.
    pub fn len(&self) -> (n: usize)
        requires
            self.wf(),
        ensures
            self@.dom().finite(),
            n == self@.dom().len(),
    {
        proof {
            lemma_entries_map_len(self.entries@);
        }
        self.entries.len()
    }

    /// Where in the list `path` is recorded, if it is.
    fn position(&self, path: &String) -> (r: Option<usize>)
        ensures
            match r {
                Some(i) => i < self.entries@.len() && self.entries@[i as int].path@ == path@,
                None => !self@.dom().contains(path@),
            },
    {
        let mut i: usize = 0;
        while i < self.entries.len()
            invariant
                i <= self.entries@.len(),
                forall|k: int| 0 <= k < i ==> self.entries@[k].path@ != path@,
            decreases self.entries@.len() - i,
        {
            if self.entries[i].path == *path {
                return Some(i);
            }
            i = i + 1;
        }
        proof {
            lemma_entries_map_dom(self.entries@);
        }
        None
    }

    /// The recorded time of `path`, or `None` where the snapshot has no
    /// such file.
    pub fn get(&self, path: &str) -> (r: Option<i64>)
        requires
            self.wf(),
        ensures
            r == (if self@.dom().contains(path@) {
                Some(self@[path@])
            } else {
                None
            }),
    {
        let key = path.to_owned();
        match self.position(&key) {
            Some(i) => {
                proof {
                    lemma_entries_map_value(self.entries@, i as int);
                }
                Some(self.entries[i].mtime)
            },
            None => None,
        }
    }

    /// Records `mtime` for `path`, in place of any time recorded for it
    /// before.
    pub fn insert(&mut self, path: String, mtime: i64)
        requires
            old(self).wf(),
        ensures
            final(self).wf(),
            final(self)@ == old(self)@.insert(path@, mtime),
    {
        let found = self.position(&path);
        let ghost before = self.entries@;
        let entry = FileTimestamp { path, mtime };
        match found {
            Some(i) => {
                proof {
                    lemma_entries_map_update(before, i as int, entry);
                }
                self.entries.set(i, entry);
            },
            None => {
                proof {
                    lemma_entries_map_dom(before);
                    assert(before.push(entry).drop_last() =~= before);
                }
                self.entries.push(entry);
            },
        }
    }

    /// The snapshot that a list of scanned files stands for. Where a path
    /// occurs more than once, its last time is kept.
    pub fn from_entries(list: &Vec<FileTimestamp>) -> (s: Snapshot)
        ensures
            s.wf(),
            s@ == entries_map(list@),
    {
        let mut snapshot = Snapshot::new();
        let mut i: usize = 0;
        assert(list@.subrange(0, 0) =~= Seq::<FileTimestamp>::empty());
        while i < list.len()
            invariant
                snapshot.wf(),
                i <= list@.len(),
                snapshot@ == entries_map(list@.subrange(0, i as int)),
            decreases list@.len() - i,
        {
            proof {
                assert(list@.subrange(0, i + 1).drop_last() =~= list@.subrange(0, i as int));
            }
            snapshot.insert(list[i].path.clone(), list[i].mtime);
            i = i + 1;
        }
        assert(list@.subrange(0, i as int) =~= list@);
        snapshot
    }

    /// Whether the two snapshots are different mappings: a file added,
    /// removed or modified is enough. The order in which the files were
    /// recorded plays no part.
    pub fn differs(&self, other: &Snapshot) -> (r: bool)
        requires
            self.wf(),
            other.wf(),
        ensures
            r == snapshots_differ(self@, other@),
    {
        proof {
            lemma_entries_map_len(self.entries@);
            lemma_entries_map_len(other.entries@);
        }
        if self.entries.len() != other.entries.len() {
            return true;
        }
        let mut i: usize = 0;
        while i < self.entries.len()
            invariant
                self.wf(),
                other.wf(),
                i <= self.entries@.len(),
                forall|k: int|
                    0 <= k < i ==> other@.dom().contains(#[trigger] self.entries@[k].path@)
                        && other@[self.entries@[k].path@] == self.entries@[k].mtime,
            decreases self.entries@.len() - i,
        {
            proof {
                lemma_entries_map_value(self.entries@, i as int);
            }
            match other.position(&self.entries[i].path) {
                Some(j) => {
                    proof {
                        lemma_entries_map_value(other.entries@, j as int);
                    }
                    if other.entries[j].mtime != self.entries[i].mtime {
                        return true;
                    }
                },
                None => {
                    return true;
                },
            }
            i = i + 1;
        }
        proof {
            lemma_entries_map_dom(self.entries@);
            assert forall|p: Seq<char>| self@.dom().contains(p) implies other@.dom().contains(p)
                && other@[p] == self@[p] by {
                let k = choose|k: int|
                    0 <= k < self.entries@.len() && #[trigger] self.entries@[k].path@ == p;
                lemma_entries_map_value(self.entries@, k);
            }
            assert(self@.dom().subset_of(other@.dom()));
            lemma_subset_equality(self@.dom(), other@.dom());
            assert(self@ =~= other@);
        }
        false
    }
}

/// The file at `p` is not the same in the two snapshots: it is in one and
/// not in the other, or its time has changed.
pub open spec fn file_changed(a: Map<Seq<char>, i64>, b: Map<Seq<char>, i64>, p: Seq<char>) -> bool {
    a.dom().contains(p) != b.dom().contains(p) || (a.dom().contains(p) && a[p] != b[p])
}

/// A snapshot never differs from itself: an unchanged tree causes no
/// rebuild.
pub proof fn lemma_same_snapshot_does_not_differ(a: Map<Seq<char>, i64>)
    ensures
        !snapshots_differ(a, a),
{
}

/// Two snapshots between which one file was added, removed or modified
/// differ, whichever of the two is the older.
pub proof fn lemma_changed_snapshot_differs(a: Map<Seq<char>, i64>, b: Map<Seq<char>, i64>)
    requires
        exists|p: Seq<char>| file_changed(a, b, p),
    ensures
        snapshots_differ(a, b),
        snapshots_differ(b, a),
{
    let p = choose|p: Seq<char>| file_changed(a, b, p);
    assert(file_changed(a, b, p));
}

/// Two snapshots differ only where some file was added, removed or
/// modified between them.
pub proof fn lemma_differing_snapshots_have_a_changed_file(
    a: Map<Seq<char>, i64>,
    b: Map<Seq<char>, i64>,
)
    requires
        snapshots_differ(a, b),
    ensures
        exists|p: Seq<char>| file_changed(a, b, p),
{
    if forall|p: Seq<char>| !file_changed(a, b, p) {
        assert forall|p: Seq<char>| a.dom().contains(p) == b.dom().contains(p) by {
            assert(!file_changed(a, b, p));
        }
        assert(a.dom() =~= b.dom());
        assert forall|p: Seq<char>| a.dom().contains(p) implies a[p] == b[p] by {
            assert(!file_changed(a, b, p));
        }
        assert(a =~= b);
    }
}

} // verus!
