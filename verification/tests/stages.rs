use r2_mount::content::ObjectHead;
use r2_mount::flush::{
    begin_upload, discard, evict, fenced_step, flush_step, is_flush_candidate, is_staged_under, is_unpublished, kept_moving,
    pause_for_replacement, paused_flush_step, pending_upload_count, publication_gate, rekey_under, reset_flush_state, resume_after_replacement, settle_failure, settle_success,
    still_pending, Drain, FenceAttempts, FencedStep, FlushStep, FENCED_KEY_ATTEMPTS,
};
use r2_mount::health::{health_snapshot, IoHealth, OpenOperations, StageHealth};
use r2_mount::journal::UploadFailure;
use r2_mount::operations::{
    adopt_guard, after_resize, after_touch, after_write, resize_reservation, truncate_guard, write_reservation, RECORD_RESERVE,
    WAITING_REPORT_STEP,
};
use r2_mount::stage::{unreadable_record, FlushState, PublicationGuard, UploadSnapshot, FLUSH_DEBOUNCE_MS, FLUSH_RETRY_COOLDOWN_MS};
use r2_mount::stage_state::{
    apply_steps, replay_steps, ChangePlan, DurableChange, FileStep, SnapshotPlan, Stage, WalSummary, MAX_WRITE_BYTES,
};
use r2_mount::status::NfsStatus;

fn stage() -> Stage {
    Stage::create("/s/7.data".to_string(), "a/x".to_string(), 5, 1_000)
}

fn snapshot(generation: u64, size: u64) -> UploadSnapshot {
    UploadSnapshot { path: "/s/7.snap".to_string(), generation, size, publication_guard: None }
}

/// What the file system does with the steps of a change.
fn applied(mut content: Vec<u8>, steps: Vec<FileStep>) -> Vec<u8> {
    for step in steps {
        match step {
            FileStep::WriteAt { offset, data } => {
                let end = offset as usize + data.len();
                if !data.is_empty() && content.len() < end {
                    content.resize(end, 0);
                }
                content[offset as usize..end].copy_from_slice(&data);
            }
            FileStep::SetLength { size } => content.resize(size as usize, 0),
        }
    }
    content
}

/// Makes one change durable and applies it.
fn change(stage: &mut Stage, change: DurableChange, size: u64, now_ms: u64) -> ChangePlan {
    let plan = stage.plan_change(&change, size, 9, 100);
    stage.change_started();
    stage.change_logged();
    stage.change_committed(&plan, plan.lsn, 64, now_ms);
    assert!(!stage.change_applied(&plan));
    plan
}

fn write(stage: &mut Stage, offset: u64, data: &[u8], now_ms: u64) -> ChangePlan {
    let size = stage.plan_write(offset, data.len()).expect("fits");
    change(stage, DurableChange::Write { offset, data: data.to_vec() }, size, now_ms)
}

#[test]
fn a_write_reads_back_and_a_gap_reads_as_zeros() {
    let steps = apply_steps(DurableChange::Write { offset: 4, data: b"xy".to_vec() }, 6);
    assert_eq!(applied(b"ab".to_vec(), steps), b"ab\0\0xy");
    let steps = apply_steps(DurableChange::Write { offset: 0, data: b"Z".to_vec() }, 2);
    assert_eq!(applied(b"ab".to_vec(), steps), b"Zb");
    let steps = apply_steps(DurableChange::Resize { size: 1 }, 1);
    assert_eq!(applied(b"ab".to_vec(), steps), b"a");
    let steps = apply_steps(DurableChange::Resize { size: 3 }, 3);
    assert_eq!(applied(b"ab".to_vec(), steps), b"ab\0");
}

#[test]
fn a_replay_completes_a_torn_write_and_may_be_repeated() {
    let torn = b"abXY".to_vec();
    let replay = || apply_steps(DurableChange::Write { offset: 2, data: b"XYZ".to_vec() }, 5);
    let once = applied(torn, replay());
    assert_eq!(once, b"abXYZ");
    assert_eq!(applied(once.clone(), replay()), once);
}

#[test]
fn a_record_replays_to_what_the_write_would_have_left() {
    let write = || DurableChange::Write { offset: 2, data: vec![7, 8] };
    assert_eq!(applied(vec![1, 2, 3, 4, 5], replay_steps(write())), vec![1, 2, 7, 8, 5]);
    assert_eq!(applied(vec![1], replay_steps(write())), applied(vec![1], apply_steps(write(), 4)));
    assert_eq!(applied(vec![1, 2, 3], replay_steps(DurableChange::Resize { size: 1 })), vec![1]);
}

#[test]
fn fetched_bytes_only_ever_lengthen_a_stage() {
    let mut stage = stage();
    stage.bytes_fetched(0, 10);
    stage.bytes_fetched(4, 2);
    assert_eq!(stage.size, 10);
    stage.bytes_fetched(8, 4);
    assert_eq!(stage.size, 12);
    assert!(!stage.dirty);
    stage.bytes_fetched(u64::MAX, 1);
    assert_eq!(stage.size, u64::MAX);
}

#[test]
fn only_dirty_stages_that_still_stand_are_unpublished() {
    let mut stage = stage();
    assert!(!is_unpublished(&stage));
    stage.dirty = true;
    assert!(is_unpublished(&stage));
    assert!(is_staged_under(&stage, "a/"));
    assert!(!is_staged_under(&stage, "b/"));
    discard(&mut stage);
    assert!(!is_unpublished(&stage));
    assert!(!is_staged_under(&stage, "a/"));
}

#[test]
fn a_write_has_to_fit() {
    let stage = stage();
    assert_eq!(stage.plan_write(10, 5), Ok(15));
    assert_eq!(stage.plan_write(0, MAX_WRITE_BYTES + 1).err().as_deref(), Some("NFS write exceeds the advertised request limit"));
    assert_eq!(stage.plan_write(u64::MAX, 1).err().as_deref(), Some("Write offset overflow"));
    assert_eq!(stage.readable_bytes(0, 10), 0);
}

#[test]
fn changes_are_numbered_and_keep_the_first_dirty_time() {
    let mut stage = stage();
    assert!(stage.needs_manifest());
    let first = write(&mut stage, 0, b"hello", 2_000);
    assert_eq!((first.lsn, first.generation, first.dirty_at_ms), (1, 1, 100));
    assert!(stage.dirty && !stage.needs_replay);
    assert_eq!((stage.size, stage.mtime_secs, stage.last_write_ms), (5, 9, 2_000));
    let second = change(&mut stage, DurableChange::Resize { size: 2 }, 2, 3_000);
    assert_eq!((second.lsn, second.generation, second.is_write), (2, 2, false));
    assert_eq!(stage.size, 2);
    assert_eq!(stage.first_dirty_at, Some(100));
    assert_eq!(stage.readable_bytes(1, 10), 1);
    stage.checkpoint_reached();
    stage.checkpoint_finished();
    assert_eq!((stage.checkpoint_lsn, stage.records_since_checkpoint), (2, 0));
}

#[test]
fn a_log_of_another_file_is_refused() {
    let mut stage = stage();
    let mut summary = WalSummary {
        key: "other".to_string(),
        resulting_size: 4,
        generation: 3,
        lsn: 3,
        next_lsn: 4,
        mtime_secs: 8,
        dirty_at_ms: 50,
    };
    assert_eq!(stage.log_replayed(&summary, 10).err().as_deref(), Some("WAL key does not match durable stage manifest"));
    summary.key = "a/x".to_string();
    assert!(stage.log_replayed(&summary, 10).is_ok());
    stage.replay_finished();
    assert_eq!((stage.size, stage.dirty_gen, stage.next_lsn, stage.dirty), (4, 3, 4, true));
}

#[test]
fn a_stage_comes_back_from_its_record() {
    let mut before = stage();
    write(&mut before, 0, b"hello", 2_000);
    let record = before.recovery_record();
    assert_eq!((record.key.as_str(), record.size, record.state.as_str()), ("a/x", 5, "waiting"));
    assert!(Stage::restore(record.clone(), 4, 0).is_err());
    let after = Stage::restore(record, 5, 7_000).ok().expect("same size");
    assert_eq!((after.size, after.dirty_gen, after.dirty), (5, 1, true));
    assert!(after.flush_requested);
    assert_eq!(after.manifest_path(), "/s/7.stage.json");
    assert_eq!(after.intent_path(), "/s/7.write.json");
}

#[test]
fn an_interrupted_write_is_taken_from_its_own_record() {
    let mut written = stage();
    write(&mut written, 0, b"hello", 2_000);
    let record = written.recovery_record();
    let mut fresh = stage();
    fresh.intent_replayed(&record, 4_000);
    assert_eq!((fresh.size, fresh.dirty_gen, fresh.applied_gen, fresh.dirty), (5, 1, 1, true));
    assert_eq!(fresh.last_write_ms, 4_000);
}

#[test]
fn a_snapshot_is_taken_once_and_named_after_its_generation() {
    let mut stage = stage();
    write(&mut stage, 0, b"hello", 2_000);
    match stage.plan_snapshot() {
        SnapshotPlan::Take { snapshot } => {
            assert_eq!(snapshot.path, "/s/7.g1.snapshot");
            assert_eq!((snapshot.generation, snapshot.size), (1, 5));
            begin_upload(&mut stage, snapshot);
        }
        SnapshotPlan::Reuse { .. } => panic!("none was taken"),
    }
    assert_eq!(stage.state, FlushState::Uploading);
    assert!(matches!(stage.plan_snapshot(), SnapshotPlan::Reuse { .. }));
    assert_eq!(stage.reservation_bytes(), 10);
}

#[test]
fn a_write_during_an_upload_is_uploaded_again() {
    let mut stage = stage();
    write(&mut stage, 0, b"hello", 2_000);
    begin_upload(&mut stage, snapshot(1, 5));
    write(&mut stage, 0, b"HELLO", 3_000);
    assert!(!settle_success(&mut stage, "t1".to_string(), 1));
    assert!(stage.dirty);
    assert!(matches!(&stage.publication_guard, Some(PublicationGuard::Match { etag }) if etag == "t1"));
    assert!(!is_flush_candidate(&stage, 3_000));
    assert!(is_flush_candidate(&stage, 3_000 + FLUSH_DEBOUNCE_MS));
    begin_upload(&mut stage, snapshot(2, 5));
    assert!(settle_success(&mut stage, "t2".to_string(), 2));
    assert!(!stage.dirty);
    assert!(evict(&mut stage));
    assert!(stage.evicted && !evict(&mut stage));
}

#[test]
fn a_failed_upload_waits_or_pauses() {
    let mut stage = stage();
    write(&mut stage, 0, b"hello", 2_000);
    let retryable = UploadFailure { message: "slow".to_string(), retryable: true, uncertain: false };
    settle_failure(&mut stage, &retryable, false, 5_000);
    assert_eq!(stage.state, FlushState::Failed { retry_after_ms: 5_000 + FLUSH_RETRY_COOLDOWN_MS });
    assert!(matches!(flush_step(&stage, 5_000, true), FlushStep::Refused(failure) if failure.message.starts_with("Retry is scheduled")));
    assert!(matches!(flush_step(&stage, 5_000 + FLUSH_RETRY_COOLDOWN_MS, false), FlushStep::Upload));
    let uncertain = UploadFailure { message: "lost".to_string(), retryable: false, uncertain: true };
    settle_failure(&mut stage, &uncertain, true, 5_000);
    assert!(matches!(stage.state, FlushState::Failed { .. }));
    settle_failure(&mut stage, &uncertain, false, 5_000);
    assert_eq!(stage.state, FlushState::Paused);
    assert!(matches!(flush_step(&stage, 9_000_000, false), FlushStep::Refused(failure) if failure.message == "lost"));
    assert!(!evict(&mut stage));
}

#[test]
fn only_an_open_publication_takes_up_a_paused_stage() {
    let mut stage = stage();
    write(&mut stage, 0, b"hello", 2_000);
    begin_upload(&mut stage, snapshot(1, 5));
    stage.state = FlushState::Paused;
    assert!(matches!(flush_step(&stage, 0, true), FlushStep::AskJournal));
    assert!(matches!(paused_flush_step(&stage, Ok(true)), FlushStep::Upload));
    assert!(matches!(paused_flush_step(&stage, Ok(false)), FlushStep::Refused(_)));
    assert!(matches!(paused_flush_step(&stage, Err("unreadable".to_string())), FlushStep::Refused(_)));
    let clean = Stage::create("/s/8.data".to_string(), "b".to_string(), 0, 0);
    assert!(matches!(flush_step(&clean, 0, true), FlushStep::Nothing));
}

#[test]
fn a_replacement_that_did_not_happen_leaves_the_stage_as_it_was() {
    let mut stage = stage();
    write(&mut stage, 0, b"hello", 2_000);
    begin_upload(&mut stage, snapshot(1, 5));
    let before = pause_for_replacement(&mut stage);
    assert_eq!(stage.state, FlushState::Paused);
    assert!(matches!(paused_flush_step(&stage, Ok(true)), FlushStep::Refused(_)));
    assert!(!is_flush_candidate(&stage, 9_000_000));
    resume_after_replacement(&mut stage, before);
    assert_eq!(stage.state, FlushState::Uploading);
    assert_eq!(stage.last_error, None);
    reset_flush_state(&mut stage);
    assert_eq!(stage.state, FlushState::Idle);
    discard(&mut stage);
    assert!(stage.evicted);
}

#[test]
fn a_stage_follows_its_directory() {
    let mut stage = stage();
    assert!(!rekey_under(&mut stage, "b/", "c/"));
    assert!(rekey_under(&mut stage, "a/", "c/d/"));
    assert_eq!(stage.key, "c/d/x");
}

#[test]
fn nothing_is_published_while_the_namespace_is_unsettled() {
    assert!(publication_gate(true, Ok(false)).is_ok());
    for (available, note) in [(false, Ok(false)), (true, Ok(true)), (true, Err("unreadable".to_string()))] {
        assert!(publication_gate(available, note).is_err());
    }
    assert_eq!(fenced_step("a", Some("a")), FencedStep::Ready);
    assert_eq!(fenced_step("a", Some("b")), FencedStep::Again);
    assert_eq!(fenced_step("a", None), FencedStep::Gone);
    let mut attempts = FenceAttempts::new();
    for _ in 0..FENCED_KEY_ATTEMPTS {
        assert!(attempts.take());
    }
    assert!(!attempts.take());
    assert!(kept_moving().retryable);
}

#[test]
fn a_drain_stops_when_nothing_is_left_or_its_rounds_are_over() {
    let mut drain = Drain::new(2);
    assert!(drain.on_round(3));
    assert!(!drain.on_round(1));
    assert_eq!(drain.pending, 1);
    let mut short = Drain::new(0);
    assert!(!short.on_round(0));
    assert_eq!(still_pending(2, 3), 3);
    assert_eq!(pending_upload_count(2, None, Some(4)), 7);
}

// ---- requests that touch a stage ----

#[test]
fn requests_reserve_room_for_content_and_records() {
    let mut stage = stage();
    assert_eq!(resize_reservation(&stage, 10), 10 + RECORD_RESERVE);
    begin_upload(&mut stage, snapshot(1, 50));
    assert_eq!(resize_reservation(&stage, 10), 50 + RECORD_RESERVE);
    let reservation = write_reservation(&stage, 100, 5).ok().expect("counted");
    assert_eq!((reservation.size, reservation.bytes), (105, 110 + RECORD_RESERVE));
    assert_eq!(write_reservation(&stage, u64::MAX, 5).err(), Some(NfsStatus::FBig));
}

#[test]
fn queued_uploads_are_reported_in_steps() {
    let mut stage = stage();
    write(&mut stage, 0, b"hello", 2_000);
    assert!(after_write(&mut stage, true));
    assert!(!after_write(&mut stage, false));
    stage.size += WAITING_REPORT_STEP;
    assert!(after_write(&mut stage, false));
    assert!(after_touch(&mut stage, true));
    assert!(stage.flush_requested);
    assert!(!after_touch(&mut stage, false));
    assert!(!after_resize(&mut stage, false, false));
    assert!(!stage.flush_requested);
}

#[test]
fn what_a_stage_may_replace_is_settled_once() {
    let mut stage = stage();
    adopt_guard(&mut stage, Some(PublicationGuard::Absent));
    adopt_guard(&mut stage, Some(PublicationGuard::Match { etag: "t".to_string() }));
    assert!(matches!(stage.publication_guard, Some(PublicationGuard::Absent)));
    let head = ObjectHead {
        etag: Some("t".to_string()),
        size: Some(1),
        version_id: None,
        modified_secs: None,
        snapshot_token: None,
        rename_token: None,
        namespace_token: None,
    };
    assert!(matches!(truncate_guard(Some(head)), Ok(PublicationGuard::Match { etag }) if etag == "t"));
    assert_eq!(truncate_guard(None).err(), Some(NfsStatus::Stale));
}

// ---- health ----

#[test]
fn health_counts_what_is_not_in_the_bucket() {
    let mut io = IoHealth::default();
    io.failed("timeout".to_string());
    io.succeeded(77);
    let mut stages = StageHealth::new();
    let mut dirty = stage();
    write(&mut dirty, 0, b"hello", 2_000);
    stages.record(7, &dirty);
    let quarantined = vec![unreadable_record("/q".to_string(), "k".to_string(), "damaged".to_string())];
    let health = health_snapshot(&io, &quarantined, &stages, OpenOperations::Counted(2, true), &Vec::new(), 1_100);
    assert_eq!(health.pending_uploads, 4);
    assert_eq!((health.dirty_bytes, health.oldest_dirty_ms), (5, 1_000));
    assert_eq!(health.last_error.as_deref(), Some("Interrupted file changes are retained for recovery"));
    assert_eq!(health.last_successful_io, Some(77));
    stages.remove(7);
    let health = health_snapshot(&io, &Vec::new(), &stages, OpenOperations::Counted(0, true), &Vec::new(), 1_100);
    assert_eq!((health.pending_uploads, health.dirty_bytes, health.last_error), (0, 0, None));
}
