//! The scan of a source tree, as the decisions of a depth-first walk.
//!
//! Reading a directory is the host's work. The walk tells the host which
//! directory to read next, takes the listing, and decides for each entry
//! whether to descend into it, to record it or to pass it by.

use crate::staleness::ScanError;
use crate::snapshot::Snapshot;
use vstd::prelude::*;

verus! {

/// What a directory entry is.
#[derive(Clone, Debug, PartialEq, Eq)]
pub enum EntryKind {
    /// A directory.
    Directory,
    /// A regular file, last modified at `mtime` seconds since the epoch.
    File { mtime: i64 },
    /// A regular file whose metadata could not be read.
    Unreadable { error: String },
    /// A symbolic link, or anything else.
    Other,
}

/// One entry of a directory listing.
#[derive(Clone, Debug, PartialEq, Eq)]
pub struct DirEntry {
    /// The entry's own name.
    pub name: String,
    /// The entry's absolute path.
    pub path: String,
    pub kind: EntryKind,
}

/// The texts of a list of strings.
pub open spec fn texts(list: Seq<String>) -> Seq<Seq<char>> {
    list.map_values(|s: String| s@)
}

/// The walk descends into a directory unless its name is excluded.
pub open spec fn descends(entry: DirEntry, excluded: Seq<Seq<char>>) -> bool {
    entry.kind is Directory && !excluded.contains(entry.name@)
}

/// The files found once a listing is taken in: each regular file of the
/// listing is recorded under its path, in place of what was recorded for
/// that path before.
pub open spec fn found_after(found: Map<Seq<char>, i64>, listing: Seq<DirEntry>) -> Map<
    Seq<char>,
    i64,
>
    decreases listing.len(),
{
    if listing.len() == 0 {
        found
    } else {
        let before = found_after(found, listing.drop_last());
        match listing.last().kind {
            EntryKind::File { mtime } => before.insert(listing.last().path@, mtime),
            _ => before,
        }
    }
}

/// The directories still to read once a listing is taken in: those of the
/// listing that the walk descends into are added at the end, in their
/// order.
pub open spec fn pending_after(
    pending: Seq<Seq<char>>,
    listing: Seq<DirEntry>,
    excluded: Seq<Seq<char>>,
) -> Seq<Seq<char>>
    decreases listing.len(),
{
    if listing.len() == 0 {
        pending
    } else {
        let before = pending_after(pending, listing.drop_last(), excluded);
        if descends(listing.last(), excluded) {
            before.push(listing.last().path@)
        } else {
            before
        }
    }
}

/// The entry at `i` is the first of the listing whose metadata could not be
/// read.
pub open spec fn first_unreadable(listing: Seq<DirEntry>, i: int) -> bool {
    &&& 0 <= i < listing.len()
    &&& listing[i].kind is Unreadable
    &&& forall|j: int| 0 <= j < i ==> !(#[trigger] listing[j].kind is Unreadable)
}

/// A walk between two directory reads.
pub struct Scan {
    excluded: Vec<String>,
    pending: Vec<String>,
    found: Snapshot,
}

/// What the walk asks of its host.
pub enum ScanStep {
    /// Read the directory at `path` and hand its listing to `scan`.
    ReadDir { scan: Scan, path: String },
    /// The walk is over: this is the snapshot of the tree.
    Done(Snapshot),
    /// The walk was given up: a directory could not be opened, or the
    /// metadata of a file could not be read.
    Failed(ScanError),
}

impl Scan {
    /// The validity of a walk: the files found so far are a valid
    /// snapshot.
    pub closed spec fn wf(&self) -> bool {
        self.found.wf()
    }

    /// The names of the directories that the walk does not descend into.
    pub closed spec fn excluded(&self) -> Seq<Seq<char>> {
        texts(self.excluded@)
    }

    /// The directories that are still to be read, the next one last.
    pub closed spec fn pending(&self) -> Seq<Seq<char>> {
        texts(self.pending@)
    }

    /// The files found so far.
    pub closed spec fn found(&self) -> Map<Seq<char>, i64> {
        self.found@
    }

    /// Starts a walk at `root`. Directories whose name is in `excluded` are
    /// not descended into.
    pub fn begin(root: String, excluded: Vec<String>) -> (step: ScanStep)
        ensures
            step matches ScanStep::ReadDir { scan, path } && {
                &&& path == root
                &&& scan.wf()
                &&& scan.excluded() == texts(excluded@)
                &&& scan.pending() == Seq::<Seq<char>>::empty()
                &&& scan.found() == Map::<Seq<char>, i64>::empty()
            },
    {
        let scan = Scan { excluded, pending: Vec::new(), found: Snapshot::new() };
        assert(texts(scan.pending@) =~= Seq::<Seq<char>>::empty());
        ScanStep::ReadDir { scan, path: root }
    }

    /// Whether `name` is one of the excluded directory names.
    fn is_excluded(&self, name: &String) -> (r: bool)
        ensures
            r == self.excluded().contains(name@),
    {
        let mut j: usize = 0;
        while j < self.excluded.len()
            invariant
                j <= self.excluded@.len(),
                forall|k: int| 0 <= k < j ==> self.excluded@[k]@ != name@,
            decreases self.excluded@.len() - j,
        {
            if self.excluded[j] == *name {
                assert(texts(self.excluded@)[j as int] == name@);
                return true;
            }
            j = j + 1;
        }
        assert forall|k: int| 0 <= k < texts(self.excluded@).len() implies texts(
            self.excluded@,
        )[k] != name@ by {
            assert(texts(self.excluded@)[k] == self.excluded@[k]@);
        }
        false
    }

    /// Takes in the listing of the directory that was asked for, or the
    /// failure to read it, and says how the walk goes on.
    ///
    /// A failure ends the walk. So does a listing with a regular file whose
    /// metadata could not be read; the first such file gives the error.
    /// Else every regular file of the listing is recorded and every
    /// directory that is not excluded is put down for reading. The walk
    /// then asks for the directory put down last, or is done when none is
    /// left.
    pub fn resume(self, listing: Result<Vec<DirEntry>, ScanError>) -> (step: ScanStep)
        requires
            self.wf(),
        ensures
            match listing {
                Err(error) => step == ScanStep::Failed(error),
                Ok(entries) => {
                    if exists|i: int|
                        0 <= i < entries@.len() && #[trigger] entries@[i].kind is Unreadable {
                        step matches ScanStep::Failed(error) && exists|i: int|
                            first_unreadable(entries@, i) && error.message@
                                == entries@[i].kind->error@
                    } else {
                        let found = found_after(self.found(), entries@);
                        let pending = pending_after(self.pending(), entries@, self.excluded());
                        if pending.len() == 0 {
                            step matches ScanStep::Done(snapshot) && snapshot.wf() && snapshot@
                                == found
                        } else {
                            step matches ScanStep::ReadDir { scan, path } && {
                                &&& path@ == pending.last()
                                &&& scan.wf()
                                &&& scan.excluded() == self.excluded()
                                &&& scan.pending() == pending.drop_last()
                                &&& scan.found() == found
                            }
                        }
                    }
                },
            },
    {
        let entries = match listing {
            Ok(entries) => entries,
            Err(error) => {
                return ScanStep::Failed(error);
            },
        };
        let ghost start = self;
        let mut scan = self;
        let mut i: usize = 0;
        assert(entries@.subrange(0, 0) =~= Seq::<DirEntry>::empty());
        while i < entries.len()
            invariant
                listing == Ok::<Vec<DirEntry>, ScanError>(entries),
                i <= entries@.len(),
                scan.wf(),
                scan.excluded == start.excluded,
                forall|j: int| 0 <= j < i ==> !(#[trigger] entries@[j].kind is Unreadable),
                scan.found() == found_after(start.found(), entries@.subrange(0, i as int)),
                scan.pending() == pending_after(
                    start.pending(),
                    entries@.subrange(0, i as int),
                    start.excluded(),
                ),
            decreases entries@.len() - i,
        {
            let ghost prefix = entries@.subrange(0, i + 1);
            assert(prefix.drop_last() =~= entries@.subrange(0, i as int));
            assert(prefix.last() == entries@[i as int]);
            match &entries[i].kind {
                EntryKind::Directory => {
                    if !scan.is_excluded(&entries[i].name) {
                        let ghost before = scan.pending@;
                        let path = entries[i].path.clone();
                        scan.pending.push(path);
                        assert(texts(scan.pending@) =~= texts(before).push(path@));
                    }
                },
                EntryKind::File { mtime } => {
                    scan.found.insert(entries[i].path.clone(), *mtime);
                },
                EntryKind::Unreadable { error } => {
                    let message = error.clone();
                    assert(entries@[i as int].kind is Unreadable);
                    assert(first_unreadable(entries@, i as int));
                    return ScanStep::Failed(ScanError { message });
                },
                EntryKind::Other => {},
            }
            i = i + 1;
        }
        assert(entries@.subrange(0, i as int) =~= entries@);
        let ghost before = scan.pending@;
        match scan.pending.pop() {
            Some(path) => {
                assert(texts(before).last() == path@);
                assert(texts(scan.pending@) =~= texts(before).drop_last());
                ScanStep::ReadDir { scan, path }
            },
            None => ScanStep::Done(scan.found),
        }
    }
}

/// A source tree as its host reads it: the listing of each directory, by
/// the directory's path.
pub type Tree = spec_fn(Seq<char>) -> Seq<DirEntry>;

/// The walk descends from the directory `from` into the directory `to`.
pub open spec fn child(tree: Tree, excluded: Seq<Seq<char>>, from: Seq<char>, to: Seq<char>) -> bool {
    exists|i: int|
        0 <= i < tree(from).len() && descends(#[trigger] tree(from)[i], excluded) && tree(
            from,
        )[i].path@ == to
}

/// The directory `to` lies `depth` descents below the directory `from`.
pub open spec fn reaches(
    tree: Tree,
    excluded: Seq<Seq<char>>,
    from: Seq<char>,
    to: Seq<char>,
    depth: nat,
) -> bool
    decreases depth,
{
    if depth == 0 {
        to == from
    } else {
        exists|next: Seq<char>|
            #[trigger] child(tree, excluded, from, next) && reaches(
                tree,
                excluded,
                next,
                to,
                (depth - 1) as nat,
            )
    }
}

/// The entry is a regular file at `path`, last modified at `mtime`.
pub open spec fn is_file(entry: DirEntry, path: Seq<char>, mtime: i64) -> bool {
    entry.kind == (EntryKind::File { mtime }) && entry.path@ == path
}

/// The directory `dir` lists a regular file at `path`, last modified at
/// `mtime`.
pub open spec fn lists(tree: Tree, dir: Seq<char>, path: Seq<char>, mtime: i64) -> bool {
    exists|i: int| 0 <= i < tree(dir).len() && is_file(#[trigger] tree(dir)[i], path, mtime)
}

/// A regular file at `path`, last modified at `mtime`, is listed in `from`
/// or in a directory that the walk reaches from there.
pub open spec fn under(
    tree: Tree,
    excluded: Seq<Seq<char>>,
    from: Seq<char>,
    path: Seq<char>,
    mtime: i64,
) -> bool {
    exists|dir: Seq<char>, depth: nat|
        #[trigger] reaches(tree, excluded, from, dir, depth) && lists(tree, dir, path, mtime)
}

/// What a walk of `tree` ends with, when every directory can be read and
/// the metadata of every file too: the walk reads the pending directory
/// put down last and takes its listing in, until no directory is pending.
/// `None` where the walk has not ended after `steps` reads.
pub open spec fn walk(
    tree: Tree,
    excluded: Seq<Seq<char>>,
    pending: Seq<Seq<char>>,
    found: Map<Seq<char>, i64>,
    steps: nat,
) -> Option<Map<Seq<char>, i64>>
    decreases steps,
{
    if pending.len() == 0 {
        Some(found)
    } else if steps == 0 {
        None
    } else {
        walk(
            tree,
            excluded,
            pending_after(pending.drop_last(), tree(pending.last()), excluded),
            found_after(found, tree(pending.last())),
            (steps - 1) as nat,
        )
    }
}

/// One read of a walk: a walk that is handed the listing of the directory
/// `path` while `pending` waits and `found` is recorded ends as the walk
/// does that goes on from what `resume` makes of that listing.
pub proof fn lemma_walk_step(
    tree: Tree,
    excluded: Seq<Seq<char>>,
    pending: Seq<Seq<char>>,
    path: Seq<char>,
    found: Map<Seq<char>, i64>,
    steps: nat,
)
    ensures
        walk(tree, excluded, pending.push(path), found, steps + 1) == walk(
            tree,
            excluded,
            pending_after(pending, tree(path), excluded),
            found_after(found, tree(path)),
            steps,
        ),
{
    assert(pending.push(path).drop_last() =~= pending);
}

/// Taking a listing in records its regular files and keeps the files
/// recorded before: what is recorded for a path afterwards is the time of a
/// regular file of the listing at that path, or what was recorded before.
pub proof fn lemma_found_after_holds(found: Map<Seq<char>, i64>, listing: Seq<DirEntry>)
    ensures
        forall|path: Seq<char>| #[trigger]
            found_after(found, listing).dom().contains(path) ==> (found.dom().contains(path)
                && found[path] == found_after(found, listing)[path]) || exists|i: int|
                0 <= i < listing.len() && is_file(
                    #[trigger] listing[i],
                    path,
                    found_after(found, listing)[path],
                ),
        forall|path: Seq<char>|
            found.dom().contains(path) ==> #[trigger] found_after(found, listing).dom().contains(
                path,
            ),
        forall|i: int, path: Seq<char>, mtime: i64|
            0 <= i < listing.len() && #[trigger] is_file(listing[i], path, mtime) ==> found_after(
                found,
                listing,
            ).dom().contains(path),
    decreases listing.len(),
{
    if listing.len() > 0 {
        let rest = listing.drop_last();
        let last = listing.len() - 1;
        let before = found_after(found, rest);
        let now = found_after(found, listing);
        lemma_found_after_holds(found, rest);
        assert(listing.last() == listing[last]);
        assert forall|path: Seq<char>| #[trigger] now.dom().contains(path) implies (
        found.dom().contains(path) && found[path] == now[path]) || exists|i: int|
            0 <= i < listing.len() && is_file(#[trigger] listing[i], path, now[path]) by {
            if is_file(listing[last], path, now[path]) {
            } else {
                assert(before.dom().contains(path) && before[path] == now[path]);
                if !(found.dom().contains(path) && found[path] == before[path]) {
                    let i = choose|i: int|
                        0 <= i < rest.len() && is_file(#[trigger] rest[i], path, before[path]);
                    assert(is_file(listing[i], path, now[path]));
                }
            }
        }
        assert forall|path: Seq<char>| found.dom().contains(path) implies #[trigger] now.dom().contains(
            path,
        ) by {
            assert(before.dom().contains(path));
        }
        assert forall|i: int, path: Seq<char>, mtime: i64|
            0 <= i < listing.len() && #[trigger] is_file(
                listing[i],
                path,
                mtime,
            ) implies now.dom().contains(path) by {
            if i < last {
                assert(is_file(rest[i], path, mtime));
                assert(before.dom().contains(path));
            }
        }
    }
}

/// Taking a listing in puts down the directories of the listing that the
/// walk descends into, and keeps what was pending.
pub proof fn lemma_pending_after_holds(
    pending: Seq<Seq<char>>,
    listing: Seq<DirEntry>,
    excluded: Seq<Seq<char>>,
)
    ensures
        forall|dir: Seq<char>| #[trigger]
            pending_after(pending, listing, excluded).contains(dir) <==> pending.contains(dir)
                || exists|i: int|
                0 <= i < listing.len() && descends(#[trigger] listing[i], excluded)
                    && listing[i].path@ == dir,
    decreases listing.len(),
{
    if listing.len() > 0 {
        let rest = listing.drop_last();
        let before = pending_after(pending, rest, excluded);
        let after = pending_after(pending, listing, excluded);
        let last = listing.len() - 1;
        lemma_pending_after_holds(pending, rest, excluded);
        assert forall|dir: Seq<char>| #[trigger]
            after.contains(dir) <==> pending.contains(dir) || exists|i: int|
                0 <= i < listing.len() && descends(#[trigger] listing[i], excluded)
                    && listing[i].path@ == dir by {
            if after.contains(dir) && !pending.contains(dir) {
                let k = choose|k: int| 0 <= k < after.len() && after[k] == dir;
                if k < before.len() {
                    assert(before[k] == dir);
                    assert(before.contains(dir));
                    let i = choose|i: int|
                        0 <= i < rest.len() && descends(#[trigger] rest[i], excluded)
                            && rest[i].path@ == dir;
                    assert(descends(listing[i], excluded) && listing[i].path@ == dir);
                } else {
                    assert(descends(listing[last], excluded) && listing[last].path@ == dir);
                }
            }
            if pending.contains(dir) {
                assert(before.contains(dir));
                let k = choose|k: int| 0 <= k < before.len() && before[k] == dir;
                assert(after[k] == dir);
            }
            if exists|i: int|
                0 <= i < listing.len() && descends(#[trigger] listing[i], excluded)
                    && listing[i].path@ == dir {
                let i = choose|i: int|
                    0 <= i < listing.len() && descends(#[trigger] listing[i], excluded)
                        && listing[i].path@ == dir;
                if i < last {
                    assert(descends(rest[i], excluded) && rest[i].path@ == dir);
                    assert(before.contains(dir));
                    let k = choose|k: int| 0 <= k < before.len() && before[k] == dir;
                    assert(after[k] == dir);
                } else {
                    assert(after[after.len() - 1] == dir);
                }
            }
        }
    }
}

/// A walk that ends has recorded, beside what was recorded when it was
/// taken up, exactly the regular files listed in the pending directories
/// and in the directories reached from them, each with the time of such a
/// file.
pub proof fn lemma_walk_records_files_under_pending(
    tree: Tree,
    excluded: Seq<Seq<char>>,
    pending: Seq<Seq<char>>,
    found: Map<Seq<char>, i64>,
    steps: nat,
)
    requires
        walk(tree, excluded, pending, found, steps).is_some(),
    ensures
        forall|path: Seq<char>| #[trigger]
            walk(tree, excluded, pending, found, steps).unwrap().dom().contains(path) ==> (
            found.dom().contains(path) && found[path] == walk(
                tree,
                excluded,
                pending,
                found,
                steps,
            ).unwrap()[path]) || exists|dir: Seq<char>| #[trigger]
                pending.contains(dir) && under(
                    tree,
                    excluded,
                    dir,
                    path,
                    walk(tree, excluded, pending, found, steps).unwrap()[path],
                ),
        forall|path: Seq<char>|
            found.dom().contains(path) ==> #[trigger] walk(
                tree,
                excluded,
                pending,
                found,
                steps,
            ).unwrap().dom().contains(path),
        forall|dir: Seq<char>, path: Seq<char>, mtime: i64|
            pending.contains(dir) && #[trigger] under(tree, excluded, dir, path, mtime) ==> walk(
                tree,
                excluded,
                pending,
                found,
                steps,
            ).unwrap().dom().contains(path),
    decreases steps,
{
    let result = walk(tree, excluded, pending, found, steps).unwrap();
    if pending.len() > 0 {
        let top = pending.last();
        let listing = tree(top);
        let rest = pending.drop_last();
        let pending2 = pending_after(rest, listing, excluded);
        let found2 = found_after(found, listing);
        lemma_walk_records_files_under_pending(tree, excluded, pending2, found2, (steps - 1) as nat);
        lemma_found_after_holds(found, listing);
        lemma_pending_after_holds(rest, listing, excluded);
        assert(pending[pending.len() - 1] == top);
        assert(pending.contains(top));
        assert(reaches(tree, excluded, top, top, 0));
        assert forall|path: Seq<char>| #[trigger] result.dom().contains(path) implies (
        found.dom().contains(path) && found[path] == result[path]) || exists|dir: Seq<char>| #[trigger]
            pending.contains(dir) && under(tree, excluded, dir, path, result[path]) by {
            let mtime = result[path];
            if found2.dom().contains(path) && found2[path] == mtime {
                if !(found.dom().contains(path) && found[path] == mtime) {
                    assert(lists(tree, top, path, mtime));
                    assert(pending.contains(top) && under(tree, excluded, top, path, mtime));
                }
            } else {
                let dir = choose|dir: Seq<char>| #[trigger]
                    pending2.contains(dir) && under(tree, excluded, dir, path, mtime);
                if rest.contains(dir) {
                    let k = choose|k: int| 0 <= k < rest.len() && rest[k] == dir;
                    assert(pending[k] == dir);
                    assert(pending.contains(dir) && under(tree, excluded, dir, path, mtime));
                } else {
                    assert(child(tree, excluded, top, dir));
                    let (at, depth) = choose|at: Seq<char>, depth: nat|
                        #[trigger] reaches(tree, excluded, dir, at, depth) && lists(
                            tree,
                            at,
                            path,
                            mtime,
                        );
                    let deeper: nat = depth + 1;
                    assert(reaches(tree, excluded, dir, at, (deeper - 1) as nat));
                    assert(reaches(tree, excluded, top, at, deeper));
                    assert(pending.contains(top) && under(tree, excluded, top, path, mtime));
                }
            }
        }
        assert forall|path: Seq<char>| found.dom().contains(path) implies #[trigger] result.dom().contains(
            path,
        ) by {
            assert(found2.dom().contains(path));
        }
        assert forall|dir: Seq<char>, path: Seq<char>, mtime: i64|
            pending.contains(dir) && #[trigger] under(
                tree,
                excluded,
                dir,
                path,
                mtime,
            ) implies result.dom().contains(path) by {
            let k = choose|k: int| 0 <= k < pending.len() && pending[k] == dir;
            if k < rest.len() {
                assert(rest[k] == dir);
                assert(rest.contains(dir));
                assert(pending2.contains(dir) && under(tree, excluded, dir, path, mtime));
            } else {
                assert(dir == top);
                let (at, depth) = choose|at: Seq<char>, depth: nat|
                    #[trigger] reaches(tree, excluded, top, at, depth) && lists(
                        tree,
                        at,
                        path,
                        mtime,
                    );
                if depth == 0 {
                    assert(at == top);
                    let i = choose|i: int|
                        0 <= i < listing.len() && is_file(#[trigger] listing[i], path, mtime);
                    assert(found2.dom().contains(path));
                } else {
                    let next = choose|next: Seq<char>|
                        #[trigger] child(tree, excluded, top, next) && reaches(
                            tree,
                            excluded,
                            next,
                            at,
                            (depth - 1) as nat,
                        );
                    assert(pending2.contains(next) && under(tree, excluded, next, path, mtime));
                }
            }
        }
    }
}

/// A walk from `root` that ends has recorded exactly the regular files
/// listed in the root and in the directories reached from it, each with the
/// time of such a file: a directory is not recorded, and nothing below an
/// excluded directory is.
pub proof fn lemma_walk_records_files_under_root(
    tree: Tree,
    excluded: Seq<Seq<char>>,
    root: Seq<char>,
    steps: nat,
)
    requires
        walk(tree, excluded, seq![root], Map::empty(), steps).is_some(),
    ensures
        forall|path: Seq<char>| #[trigger]
            walk(tree, excluded, seq![root], Map::empty(), steps).unwrap().dom().contains(path)
                ==> under(
                tree,
                excluded,
                root,
                path,
                walk(tree, excluded, seq![root], Map::empty(), steps).unwrap()[path],
            ),
        forall|path: Seq<char>, mtime: i64| #[trigger]
            under(tree, excluded, root, path, mtime) ==> walk(
                tree,
                excluded,
                seq![root],
                Map::empty(),
                steps,
            ).unwrap().dom().contains(path),
{
    let pending = seq![root];
    lemma_walk_records_files_under_pending(tree, excluded, pending, Map::empty(), steps);
    let result = walk(tree, excluded, pending, Map::empty(), steps).unwrap();
    assert(pending[0] == root);
    assert(pending.contains(root));
    assert forall|path: Seq<char>| #[trigger] result.dom().contains(path) implies under(
        tree,
        excluded,
        root,
        path,
        result[path],
    ) by {
        let dir = choose|dir: Seq<char>| #[trigger]
            pending.contains(dir) && under(tree, excluded, dir, path, result[path]);
        assert(dir == root);
    }
}

} // verus!
