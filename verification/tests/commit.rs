use r2_mount::key_map::KeyMap;
use r2_mount::stage_commit::{answer_request, batch_paths, CommitState};

#[test]
fn a_failed_fsync_fails_every_later_batch_for_that_file_only() {
    let mut state = CommitState::new();
    assert!(state.admit_sync("/s/wal").is_ok());
    assert!(state.finish_sync("/s/wal", Err("disk".to_string())).is_err());
    // A plain fsync would now succeed — exactly how Linux can report success
    // after dropping dirty pages.
    for _ in 0..3 {
        let refusal = state.admit_sync("/s/wal").expect_err("a later batch acknowledged past a failed fsync");
        assert_eq!(
            refusal,
            "an earlier fsync of this file failed (disk); nothing is acknowledged until it has been rewritten"
        );
    }
    assert!(state.admit_sync("/s/other").is_ok());
    assert!(state.finish_sync("/s/other", Ok(())).is_ok());
    state.clear_poison("/s/wal");
    assert!(state.admit_sync("/s/wal").is_ok());
    assert_eq!(state.metrics().sync_failures, 1);
}

#[test]
fn the_first_failure_is_the_one_that_is_told() {
    let mut state = CommitState::new();
    state.poison("/s/wal", "first".to_string());
    state.poison("/s/wal", "second".to_string());
    assert_eq!(state.poisoned("/s/wal").as_deref(), Some("first"));
    assert_eq!(state.poisoned("/s/other"), None);
}

#[test]
fn one_wave_syncs_each_file_once_and_answers_each_request() {
    let requests = vec![
        vec!["/s/a".to_string(), "/s/b".to_string()],
        vec!["/s/b".to_string()],
        vec!["/s/c".to_string()],
    ];
    let batch = batch_paths(&requests);
    assert_eq!(batch.len(), 3);
    let mut results: KeyMap<Result<(), String>> = KeyMap::new();
    results.insert("/s/a".to_string(), Ok(()));
    results.insert("/s/b".to_string(), Err("full".to_string()));
    results.insert("/s/c".to_string(), Ok(()));
    assert!(answer_request(&requests[0], &results).is_err());
    assert_eq!(answer_request(&requests[1], &results), Err("full".to_string()));
    assert_eq!(answer_request(&requests[2], &results), Ok(()));
}

#[test]
fn what_was_synced_is_counted() {
    let mut state = CommitState::new();
    state.record_worker();
    state.record_batch();
    state.record_file_sync_bytes(100);
    state.record_file_sync_bytes(28);
    state.record_parent_sync();
    let metrics = state.metrics();
    assert_eq!((metrics.sync_batches, metrics.sync_files, metrics.sync_parents, metrics.sync_bytes), (1, 2, 1, 128));
}

#[test]
fn a_failed_attempt_tells_its_failure_and_is_counted() {
    let mut state = CommitState::new();
    assert_eq!(state.finish_sync("/s/wal", Err("disk".to_string())), Err("disk".to_string()));
    assert_eq!(state.finish_sync("/s/wal", Err("later".to_string())), Err("later".to_string()));
    assert_eq!(state.finish_sync("/s/other", Err("other".to_string())), Err("other".to_string()));
    // What refuses the file is the failure that came first, also once another
    // file is cleared.
    state.clear_poison("/s/other");
    assert_eq!(state.poisoned("/s/wal").as_deref(), Some("disk"));
    assert!(state.admit_sync("/s/other").is_ok());
    assert_eq!(state.metrics().sync_failures, 3);
    assert_eq!(state.metrics().poisoned_files, 1);
}
