//! The staleness stage: the stage in front of the static-file handler that
//! rebuilds the client when its sources have changed since the last
//! request.
//!
//! The host scans the source tree, takes exclusive access to the stage and
//! hands it the scan. The stage answers whether a rebuild has to run before
//! the request goes on. A request is forwarded whatever happened.

use crate::cache::{json_cache_text, load, loaded_cache, save};
use crate::log::LogRecord;
use crate::snapshot::{snapshots_differ, Snapshot};
use vstd::prelude::*;

verus! {

/// Why a scan of the source tree gave no snapshot.
#[derive(Clone, Debug, PartialEq, Eq)]
pub struct ScanError {
    pub message: String,
}

/// What the host does with a request once the stage has seen the scan.
#[derive(Clone, Debug, PartialEq, Eq)]
pub enum Decision {
    /// The sources are unchanged: forward the request.
    Forward,
    /// The scan failed: log the record, then forward the request.
    LogAndForward(LogRecord),
    /// The sources changed: run the build steps to completion while
    /// exclusive access is held, then forward the request.
    RebuildThenForward,
}

/// Whether a stage can take a request now.
#[derive(Clone, Copy, Debug, PartialEq, Eq, Structural)]
pub enum Readiness {
    Ready,
    Failed,
    NotReady,
}

/// What the stage writes on teardown.
#[derive(Clone, Debug, PartialEq, Eq)]
pub enum Persist {
    /// Another owner of the cache is still alive: it will write.
    Skip,
    /// Write this text to the cache file.
    Write(Vec<u8>),
    /// The snapshot could not be turned into text.
    Failed,
}

impl Persist {
    /// What an owner does on teardown, given whether it is the last one
    /// and, if it is, the text that its cache was turned into.
    pub fn decide(last_owner: bool, text: Option<Vec<u8>>) -> (r: Persist)
        ensures
            r == (if !last_owner {
                Persist::Skip
            } else {
                match text {
                    Some(text) => Persist::Write(text),
                    None => Persist::Failed,
                }
            }),
    {
        if !last_owner {
            Persist::Skip
        } else {
            match text {
                Some(text) => Persist::Write(text),
                None => Persist::Failed,
            }
        }
    }
}

/// The cache after a scan: a scan that differs from the cache replaces it,
/// a failed one leaves it as it is.
pub open spec fn cache_after(
    cache: Map<Seq<char>, i64>,
    scan: Option<Map<Seq<char>, i64>>,
) -> Map<Seq<char>, i64> {
    match scan {
        Some(fresh) => fresh,
        None => cache,
    }
}

/// Whether a scan makes the stage rebuild.
pub open spec fn rebuilds(cache: Map<Seq<char>, i64>, scan: Option<Map<Seq<char>, i64>>) -> bool {
    match scan {
        Some(fresh) => snapshots_differ(fresh, cache),
        None => false,
    }
}

/// The number of rebuilds that a run of requests causes, each request
/// handled to its end before the next is looked at.
pub open spec fn rebuild_count(
    cache: Map<Seq<char>, i64>,
    scans: Seq<Option<Map<Seq<char>, i64>>>,
) -> nat
    decreases scans.len(),
{
    if scans.len() == 0 {
        0
    } else {
        let first: nat = if rebuilds(cache, scans[0]) {
            1
        } else {
            0
        };
        first + rebuild_count(cache_after(cache, scans[0]), scans.subrange(1, scans.len() as int))
    }
}

/// The cache after a run of requests.
pub open spec fn cache_after_all(
    cache: Map<Seq<char>, i64>,
    scans: Seq<Option<Map<Seq<char>, i64>>>,
) -> Map<Seq<char>, i64>
    decreases scans.len(),
{
    if scans.len() == 0 {
        cache
    } else {
        cache_after_all(cache_after(cache, scans[0]), scans.subrange(1, scans.len() as int))
    }
}

/// The stage with the cache it guards.
pub struct Recompiler {
    mod_times: Snapshot,
}

impl View for Recompiler {
    type V = Map<Seq<char>, i64>;

    closed spec fn view(&self) -> Map<Seq<char>, i64> {
        self.mod_times@
    }
}

impl Recompiler {
    /// The validity of a stage: its cache is a valid snapshot.
    pub closed spec fn wf(&self) -> bool {
        self.mod_times.wf()
    }

    /// The stage at startup, with the cache that the cache file held. An
    /// absent file (`None`) and a malformed one give an empty cache, so the
    /// first request rebuilds.
    pub fn load(contents: Option<&[u8]>) -> (stage: Recompiler)
        ensures
            stage.wf(),
            stage@ == loaded_cache(
                match contents {
                    Some(text) => Some(text@),
                    None => None,
                },
            ),
    {
        Recompiler { mod_times: load(contents) }
    }

    /// The cached snapshot.
    pub fn mod_times(&self) -> (cache: &Snapshot)
        requires
            self.wf(),
        ensures
            cache.wf(),
            cache@ == self@,
    {
        &self.mod_times
    }

    /// The stage's answer to the readiness check. Where the handler behind
    /// it is taken by another request the stage is not ready, and the caller
    /// asks again later; else the handler's own answer is passed on.
    pub fn poll_ready(handler_free: bool, handler: Readiness) -> (r: Readiness)
        ensures
            r == (if handler_free {
                handler
            } else {
                Readiness::NotReady
            }),
    {
        if handler_free {
            handler
        } else {
            Readiness::NotReady
        }
    }

    /// Handles one request, given the scan made for it, under exclusive
    /// access to the stage. A scan that differs from the cache replaces the
    /// cache and calls for a rebuild; the cache is replaced whether or not
    /// the build then succeeds. A failed scan is logged and changes
    /// nothing.
    pub fn call(&mut self, scan: Result<Snapshot, ScanError>) -> (action: Decision)
        requires
            old(self).wf(),
            scan matches Ok(fresh) ==> fresh.wf(),
        ensures
            final(self).wf(),
            match scan {
                Ok(fresh) => {
                    &&& final(self)@ == cache_after(old(self)@, Some(fresh@))
                    &&& rebuilds(old(self)@, Some(fresh@)) ==> action == Decision::RebuildThenForward
                    &&& !rebuilds(old(self)@, Some(fresh@)) ==> action == Decision::Forward
                },
                Err(error) => {
                    &&& final(self)@ == cache_after(old(self)@, None)
                    &&& action matches Decision::LogAndForward(record)
                    &&& record == LogRecord::error_spec(error.message)
                },
            },
    {
        match scan {
            Ok(fresh) => {
                if fresh.differs(&self.mod_times) {
                    self.mod_times = fresh;
                    Decision::RebuildThenForward
                } else {
                    assert(fresh@ =~= self.mod_times@);
                    Decision::Forward
                }
            },
            Err(error) => Decision::LogAndForward(LogRecord::error(error.message)),
        }
    }

    /// The teardown of one owner of the stage. Only the last owner writes
    /// the cache file, so that the file is written once.
    pub fn shutdown(self, last_owner: bool) -> (r: Persist)
        requires
            self.wf(),
        ensures
            match r {
                Persist::Skip => !last_owner,
                Persist::Write(text) => last_owner && json_cache_text(self@) == Some(text@),
                Persist::Failed => last_owner && json_cache_text(self@).is_none(),
            },
    {
        if last_owner {
            Persist::decide(true, save(&self.mod_times))
        } else {
            Persist::decide(false, None)
        }
    }
}

/// A second request with the same scan causes no rebuild: of two requests
/// in a row with no change between them at most the first rebuilds.
pub proof fn lemma_second_request_does_not_rebuild(
    cache: Map<Seq<char>, i64>,
    scan: Option<Map<Seq<char>, i64>>,
)
    ensures
        !rebuilds(cache_after(cache, scan), scan),
        rebuild_count(cache, seq![scan, scan]) <= 1,
{
    let scans = seq![scan, scan];
    let rest = scans.subrange(1, 2);
    assert(rest[0] == scan);
    assert(rest.subrange(1, 1).len() == 0);
    assert(rebuild_count(cache_after(cache, scan), rest) == 0) by {
        assert(rebuild_count(cache_after(cache_after(cache, scan), scan), rest.subrange(1, 1))
            == 0);
    }
}

/// Requests that all saw the same tree cause no rebuild once the cache
/// holds that tree.
pub proof fn lemma_no_rebuild_without_change(fresh: Map<Seq<char>, i64>, n: nat)
    ensures
        rebuild_count(fresh, Seq::new(n, |i: int| Some(fresh))) == 0,
        cache_after_all(fresh, Seq::new(n, |i: int| Some(fresh))) == fresh,
    decreases n,
{
    let scans = Seq::new(n, |i: int| Some(fresh));
    if n > 0 {
        lemma_no_rebuild_without_change(fresh, (n - 1) as nat);
        assert(scans.subrange(1, n as int) =~= Seq::new((n - 1) as nat, |i: int| Some(fresh)));
    }
}

/// Any number of requests that arrive after the files changed once, and
/// that take their turns at the stage, cause exactly one rebuild, and the
/// cache then holds the changed tree.
pub proof fn lemma_one_change_rebuilds_once(
    cache: Map<Seq<char>, i64>,
    fresh: Map<Seq<char>, i64>,
    n: nat,
)
    requires
        n >= 1,
        snapshots_differ(fresh, cache),
    ensures
        rebuild_count(cache, Seq::new(n, |i: int| Some(fresh))) == 1,
        cache_after_all(cache, Seq::new(n, |i: int| Some(fresh))) == fresh,
{
    let scans = Seq::new(n, |i: int| Some(fresh));
    lemma_no_rebuild_without_change(fresh, (n - 1) as nat);
    assert(scans.subrange(1, n as int) =~= Seq::new((n - 1) as nat, |i: int| Some(fresh)));
}

} // verus!
