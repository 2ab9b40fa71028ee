use server::log::{Level, LogRecord};
use server::rebuild::{recompile, BuildOutcome, RebuildStep};
use server::snapshot::{FileTimestamp, Snapshot};
use server::staleness::{Decision, Persist, Readiness, Recompiler, ScanError};

fn snap(files: &[(&str, i64)]) -> Snapshot {
    let list: Vec<FileTimestamp> = files
        .iter()
        .map(|(path, mtime)| FileTimestamp { path: path.to_string(), mtime: *mtime })
        .collect();
    Snapshot::from_entries(&list)
}

fn three_files() -> Snapshot {
    snap(&[("/client/input.css", 1), ("/client/src/index.tsx", 2), ("/client/package.json", 3)])
}

#[test]
fn stage_loads_an_empty_cache_from_nothing() {
    assert_eq!(Recompiler::load(None).mod_times().len(), 0);
    assert_eq!(Recompiler::load(Some(b"garbage")).mod_times().len(), 0);
}

#[test]
fn stage_loads_the_cache_file() {
    let stage = Recompiler::load(Some(b"{\"/a\": 4}"));
    assert_eq!(stage.mod_times().len(), 1);
    assert_eq!(stage.mod_times().get("/a"), Some(4));
}

#[test]
fn first_request_rebuilds_and_persists_three_entries() {
    let mut stage = Recompiler::load(Some(b""));
    assert_eq!(stage.call(Ok(three_files())), Decision::RebuildThenForward);
    assert_eq!(stage.mod_times().len(), 3);
    assert_eq!(stage.call(Ok(three_files())), Decision::Forward);
    let text = match stage.shutdown(true) {
        Persist::Write(text) => text,
        other => panic!("the last owner writes, got {other:?}"),
    };
    let back = Recompiler::load(Some(&text));
    assert_eq!(back.mod_times().len(), 3);
    assert!(!back.mod_times().differs(&three_files()));
}

#[test]
fn unchanged_tree_rebuilds_at_most_once() {
    let mut stage = Recompiler::load(None);
    let mut rebuilds = 0;
    for _ in 0..2 {
        if stage.call(Ok(three_files())) == Decision::RebuildThenForward {
            rebuilds += 1;
        }
    }
    assert_eq!(rebuilds, 1);
    let mut stage = Recompiler::load(None);
    assert_eq!(stage.call(Ok(Snapshot::new())), Decision::Forward);
    assert_eq!(stage.call(Ok(Snapshot::new())), Decision::Forward);
}

#[test]
fn requests_after_one_change_rebuild_once() {
    let mut stage = Recompiler::load(None);
    assert_eq!(stage.call(Ok(three_files())), Decision::RebuildThenForward);
    let changed = snap(&[("/client/input.css", 9), ("/client/src/index.tsx", 2), ("/client/package.json", 3)]);
    let mut rebuilds = 0;
    for _ in 0..8 {
        let fresh = snap(&[("/client/package.json", 3), ("/client/input.css", 9), ("/client/src/index.tsx", 2)]);
        if stage.call(Ok(fresh)) == Decision::RebuildThenForward {
            rebuilds += 1;
        }
        assert!(!stage.mod_times().differs(&changed));
    }
    assert_eq!(rebuilds, 1);
}

#[test]
fn each_change_rebuilds() {
    let mut stage = Recompiler::load(None);
    assert_eq!(stage.call(Ok(snap(&[("/a", 1)]))), Decision::RebuildThenForward);
    assert_eq!(stage.call(Ok(snap(&[("/a", 2)]))), Decision::RebuildThenForward);
    assert_eq!(stage.call(Ok(snap(&[("/a", 2), ("/b", 1)]))), Decision::RebuildThenForward);
    assert_eq!(stage.call(Ok(snap(&[("/b", 1)]))), Decision::RebuildThenForward);
    assert_eq!(stage.call(Ok(Snapshot::new())), Decision::RebuildThenForward);
    assert_eq!(stage.call(Ok(Snapshot::new())), Decision::Forward);
}

#[test]
fn failed_scan_is_logged_and_changes_nothing() {
    let mut stage = Recompiler::load(None);
    assert_eq!(stage.call(Ok(three_files())), Decision::RebuildThenForward);
    let action = stage.call(Err(ScanError { message: "No such file or directory".to_string() }));
    assert_eq!(
        action,
        Decision::LogAndForward(LogRecord {
            level: Level::Error,
            text: "No such file or directory".to_string()
        })
    );
    assert!(!stage.mod_times().differs(&three_files()));
    assert_eq!(stage.call(Ok(three_files())), Decision::Forward);
}

#[test]
fn missing_build_command_is_logged_and_the_cache_is_still_updated() {
    let mut stage = Recompiler::load(None);
    assert_eq!(stage.call(Ok(three_files())), Decision::RebuildThenForward);
    let rebuild = match recompile() {
        RebuildStep::Run { rebuild, .. } => rebuild,
        RebuildStep::Done { .. } => panic!("a rebuild has steps"),
    };
    let failed = BuildOutcome::LaunchFailed { error: "No such file or directory (os error 2)".to_string() };
    let (rebuild, log) = match rebuild.resume(failed.clone()) {
        RebuildStep::Run { rebuild, log, .. } => (rebuild, log),
        RebuildStep::Done { .. } => panic!("the second step still runs"),
    };
    assert_eq!(
        log[0],
        LogRecord { level: Level::Error, text: "No such file or directory (os error 2)".to_string() }
    );
    match rebuild.resume(failed) {
        RebuildStep::Done { log } => assert_eq!(log.len(), 1),
        RebuildStep::Run { .. } => panic!("the plan has two steps"),
    }
    assert!(!stage.mod_times().differs(&three_files()));
    assert_eq!(stage.call(Ok(three_files())), Decision::Forward);
}

#[test]
fn stage_is_not_ready_while_its_handler_is_taken() {
    assert_eq!(Recompiler::poll_ready(false, Readiness::Ready), Readiness::NotReady);
    assert_eq!(Recompiler::poll_ready(false, Readiness::Failed), Readiness::NotReady);
    assert_eq!(Recompiler::poll_ready(false, Readiness::NotReady), Readiness::NotReady);
}

#[test]
fn stage_passes_on_the_answer_of_a_free_handler() {
    assert_eq!(Recompiler::poll_ready(true, Readiness::Ready), Readiness::Ready);
    assert_eq!(Recompiler::poll_ready(true, Readiness::Failed), Readiness::Failed);
    assert_eq!(Recompiler::poll_ready(true, Readiness::NotReady), Readiness::NotReady);
}

#[test]
fn only_the_last_owner_writes_the_cache() {
    let mut stage = Recompiler::load(None);
    stage.call(Ok(snap(&[("/a", 1)])));
    assert_eq!(stage.shutdown(false), Persist::Skip);
    let mut stage = Recompiler::load(None);
    stage.call(Ok(snap(&[("/a", 1)])));
    assert_eq!(stage.shutdown(true), Persist::Write(b"{\n  \"/a\": 1\n}".to_vec()));
}

#[test]
fn teardown_decision_goes_by_owner_and_text() {
    assert_eq!(Persist::decide(false, None), Persist::Skip);
    assert_eq!(Persist::decide(false, Some(b"{}".to_vec())), Persist::Skip);
    assert_eq!(Persist::decide(true, Some(b"{}".to_vec())), Persist::Write(b"{}".to_vec()));
    assert_eq!(Persist::decide(true, None), Persist::Failed);
}
