use r2_mount::durable::{StageGoal, StageWork, WorkPhase};
use r2_mount::flush_run::{FlushPhase, FlushRun};
use r2_mount::health::{health_snapshot, IoHealth, OpenOperations, StageHealth};
use r2_mount::inode_table::EntryKind;
use r2_mount::inventory::{is_unreadable, set_aside};
use r2_mount::journal::UploadFailure;
use r2_mount::rename_request::{RenameRequest, RequestPhase};
use r2_mount::stage::{FlushState, PublicationGuard, StageRecovery, UploadSnapshot, FLUSH_RETRY_COOLDOWN_MS};
use r2_mount::stage_state::{DurableChange, FileStep, Stage, WalSummary, CHECKPOINT_RECORDS};
use r2_mount::status::{ensure_supported, NfsStatus};

fn stage() -> Stage {
    Stage::create("/s/7.data".to_string(), "a/x".to_string(), 5, 1_000)
}

fn write_goal(offset: u64, data: &[u8], size: u64) -> StageGoal {
    StageGoal::Change { change: DurableChange::Write { offset, data: data.to_vec() }, size, mtime_secs: 9 }
}

fn snapshot(generation: u64, size: u64) -> UploadSnapshot {
    UploadSnapshot { path: "/s/7.snap".to_string(), generation, size, publication_guard: None }
}

/// Takes a change of a stage up to where its log is made durable.
fn until_committing(stage: &mut Stage, goal: StageGoal) -> StageWork {
    let mut work = StageWork::begin(goal, stage);
    if work.phase == WorkPhase::SavingRecord {
        work.on_saved(stage, None);
    }
    if work.phase == WorkPhase::RepairingLog {
        work.on_repaired(stage, None);
    }
    assert_eq!(work.phase, WorkPhase::Reserving);
    work.on_reserved(stage, None, 100);
    let lsn = work.plan.as_ref().map(|plan| plan.lsn).unwrap_or_default();
    work.on_logged(stage, Ok((lsn, 64)));
    assert_eq!(work.phase, WorkPhase::Committing);
    work
}

/// Makes a change without any interruption.
fn changed(stage: &mut Stage, goal: StageGoal) {
    let mut work = until_committing(stage, goal);
    work.on_committed(stage, None, 2_000);
    work.on_applied(stage, None);
    assert_eq!(work.phase, WorkPhase::Done);
    assert!(work.outcome().is_ok());
}

// ---- changes of a stage ----

#[test]
fn a_change_is_logged_before_the_data_file_is_touched() {
    let mut stage = stage();
    // As after a restart: nobody has looked at the end of the log yet.
    stage.wal_tail_repaired = false;
    let mut work = StageWork::begin(write_goal(0, b"hello", 5), &stage);
    let mut phases = vec![work.phase];
    work.on_saved(&stage, None);
    phases.push(work.phase);
    work.on_repaired(&mut stage, None);
    phases.push(work.phase);
    assert_eq!(work.growth(&stage), 5);
    work.on_reserved(&mut stage, None, 100);
    phases.push(work.phase);
    assert!(stage.needs_replay && !stage.wal_tail_repaired && !stage.dirty);
    let plan = work.plan.as_ref().expect("planned");
    assert_eq!((plan.lsn, plan.generation, plan.dirty_at_ms, plan.is_write, plan.offset), (1, 1, 100, true, 0));
    work.on_logged(&mut stage, Ok((1, 64)));
    phases.push(work.phase);
    assert!(stage.wal_tail_repaired && !stage.dirty);
    work.on_committed(&mut stage, None, 2_000);
    phases.push(work.phase);
    assert!(stage.dirty && stage.needs_replay);
    assert_eq!((stage.dirty_gen, stage.applied_gen, stage.next_lsn, stage.first_dirty_at), (1, 0, 2, Some(100)));
    let steps = work.steps(&stage);
    assert!(matches!(&steps[0], FileStep::WriteAt { offset: 0, data } if data == b"hello"));
    assert!(matches!(steps[1], FileStep::SetLength { size: 5 }));
    work.on_applied(&mut stage, None);
    phases.push(work.phase);
    assert!(work.outcome().is_ok());
    assert_eq!((stage.size, stage.applied_gen, stage.mtime_secs, stage.needs_replay), (5, 1, 9, false));
    assert_eq!(
        phases,
        vec![
            WorkPhase::SavingRecord,
            WorkPhase::RepairingLog,
            WorkPhase::Reserving,
            WorkPhase::Logging,
            WorkPhase::Committing,
            WorkPhase::Applying,
            WorkPhase::Done,
        ]
    );
}

#[test]
fn a_durable_change_outlives_a_failing_data_file() {
    let mut stage = stage();
    changed(&mut stage, write_goal(0, b"old", 3));
    let mut work = until_committing(&mut stage, write_goal(0, b"complete", 8));
    work.on_committed(&mut stage, None, 3_000);
    work.on_applied(&mut stage, Some("disk full".to_string()));
    assert_eq!(work.outcome(), Err("disk full".to_string()));
    assert!(work.committed && stage.dirty && stage.needs_replay);
    assert_eq!((stage.dirty_gen, stage.applied_gen, stage.size), (2, 1, 3));

    // The next piece of work begins with a replay of the log.
    let mut level = StageWork::begin(StageGoal::Level, &stage);
    assert_eq!(level.phase, WorkPhase::ReplayingIntent);
    level.on_intent(&mut stage, Ok(None), 4_000);
    let newest = WalSummary {
        key: "a/x".to_string(),
        resulting_size: 8,
        generation: 2,
        lsn: 2,
        next_lsn: 3,
        mtime_secs: 9,
        dirty_at_ms: 100,
    };
    level.on_log(&mut stage, Ok(Some(newest)), 4_000);
    level.on_reopened(&mut stage, None);
    assert_eq!(level.phase, WorkPhase::Done);
    assert_eq!((stage.size, stage.applied_gen, stage.dirty_gen, stage.needs_replay), (8, 2, 2, false));
}

#[test]
fn a_change_that_was_not_made_durable_leaves_the_stage_clean() {
    let mut stage = stage();
    let mut work = until_committing(&mut stage, write_goal(0, b"hello", 5));
    work.on_committed(&mut stage, Some("no sync".to_string()), 2_000);
    assert_eq!(work.outcome(), Err("no sync".to_string()));
    assert!(!work.committed && !stage.dirty && stage.needs_replay);
    assert_eq!((stage.dirty_gen, stage.size), (0, 0));
}

#[test]
fn no_room_stops_a_change_before_anything_is_logged() {
    let mut stage = stage();
    let mut work = StageWork::begin(StageGoal::Change { change: DurableChange::Resize { size: 40 }, size: 40, mtime_secs: 2 }, &stage);
    work.on_saved(&stage, None);
    assert_eq!(work.phase, WorkPhase::Reserving);
    assert_eq!(work.growth(&stage), 40);
    work.on_reserved(&mut stage, Some("Not enough free disk space".to_string()), 100);
    assert_eq!(work.outcome(), Err("Not enough free disk space".to_string()));
    assert!(!stage.needs_replay && stage.wal_tail_repaired);
}

#[test]
fn a_log_of_another_key_is_not_replayed() {
    let mut stage = stage();
    let work = until_committing(&mut stage, write_goal(0, b"hello", 5));
    drop(work);
    let mut level = StageWork::begin(StageGoal::Level, &stage);
    level.on_intent(&mut stage, Ok(None), 4_000);
    let foreign = WalSummary {
        key: "b/y".to_string(),
        resulting_size: 5,
        generation: 1,
        lsn: 1,
        next_lsn: 2,
        mtime_secs: 9,
        dirty_at_ms: 100,
    };
    level.on_log(&mut stage, Ok(Some(foreign)), 4_000);
    assert_eq!(level.outcome(), Err("WAL key does not match durable stage manifest".to_string()));
    assert!(stage.needs_replay);
    assert_eq!(stage.size, 0);
}

#[test]
fn a_level_stage_needs_no_work() {
    let stage = stage();
    let work = StageWork::begin(StageGoal::Level, &stage);
    assert_eq!(work.phase, WorkPhase::Done);
    assert!(work.outcome().is_ok());
}

#[test]
fn a_checkpoint_cuts_the_log_only_after_its_record_was_saved() {
    let mut stage = stage();
    changed(&mut stage, write_goal(0, b"hello", 5));
    let mut work = StageWork::begin(StageGoal::Checkpoint, &stage);
    assert_eq!(work.phase, WorkPhase::Syncing);
    work.on_synced(&mut stage, None);
    assert_eq!((work.phase, stage.checkpoint_lsn, stage.records_since_checkpoint), (WorkPhase::SavingCheckpoint, 1, 1));
    work.on_saved(&stage, None);
    assert_eq!(work.phase, WorkPhase::CuttingLog);
    work.on_cut(&mut stage, None);
    assert!(work.outcome().is_ok());
    assert_eq!((stage.records_since_checkpoint, stage.bytes_since_checkpoint), (0, 0));

    // A stage with many logged changes is checkpointed along with the next.
    stage.records_since_checkpoint = CHECKPOINT_RECORDS - 1;
    let mut work = until_committing(&mut stage, write_goal(0, b"again", 5));
    work.on_committed(&mut stage, None, 2_000);
    work.on_applied(&mut stage, None);
    assert_eq!(work.phase, WorkPhase::Syncing);
}

#[test]
fn a_replay_begins_with_the_record_of_an_interrupted_write() {
    let mut stage = stage();
    changed(&mut stage, write_goal(0, b"old", 3));
    stage.needs_replay = true;
    let record = StageRecovery {
        key: "a/x".to_string(),
        size: 8,
        mtime_secs: 2,
        generation: 2,
        dirty: true,
        state: "waiting".to_string(),
        error: None,
        path: "/s/7.data".to_string(),
        snapshot: None,
        publication_guard: Some(PublicationGuard::Absent),
        checkpoint_lsn: 4,
        first_dirty_at: Some(50),
        wal_bytes: None,
    };
    let mut work = StageWork::begin(StageGoal::Level, &stage);
    work.on_intent(&mut stage, Ok(Some(record)), 5_000);
    assert_eq!((stage.size, stage.dirty_gen, stage.applied_gen, stage.next_lsn), (8, 2, 2, 5));
    assert_eq!((stage.first_dirty_at, stage.last_write_ms), (Some(50), 5_000));
    work.on_log(&mut stage, Ok(None), 5_000);
    work.on_reopened(&mut stage, Some("gone".to_string()));
    assert_eq!(work.outcome(), Err("gone".to_string()));
    assert!(stage.needs_replay);
}

// ---- the upload of a stage ----

/// An upload that was begun and recorded.
fn uploading(stage: &mut Stage, generation: u64, size: u64) -> FlushRun {
    let mut run = FlushRun::new(false);
    run.on_entry(true, Ok(false));
    run.on_stage(stage, 9_000);
    assert_eq!(run.phase, FlushPhase::Snapshotting);
    run.on_snapshot(stage, Ok(snapshot(generation, size)));
    assert_eq!((run.phase, stage.state), (FlushPhase::SavingStart, FlushState::Uploading));
    assert!(stage.snapshot.is_some());
    run.on_saved(None);
    assert_eq!(run.phase, FlushPhase::Uploading);
    run
}

#[test]
fn an_upload_of_the_newest_content_makes_the_stage_clean() {
    let mut stage = stage();
    changed(&mut stage, write_goal(0, b"hello", 5));
    let mut run = uploading(&mut stage, 1, 5);
    run.on_uploaded(Ok("tag".to_string()));
    assert_eq!(run.on_replayed(&mut stage, None), Some(true));
    assert!(!stage.dirty && stage.snapshot.is_none() && stage.first_dirty_at.is_none());
    assert!(matches!(&stage.publication_guard, Some(PublicationGuard::Match { etag }) if etag == "tag"));
    assert_eq!(run.phase, FlushPhase::SavingEnd);
    run.on_saved(None);
    assert_eq!(run.phase, FlushPhase::RemovingSnapshot);
    run.on_removed();
    assert_eq!(run.outcome().ok(), Some(true));
}

#[test]
fn a_write_during_an_upload_leaves_the_stage_dirty() {
    let mut stage = stage();
    changed(&mut stage, write_goal(0, b"hello", 5));
    let mut run = uploading(&mut stage, 1, 5);
    changed(&mut stage, write_goal(5, b" you", 9));
    run.on_uploaded(Ok("tag".to_string()));
    assert_eq!(run.on_replayed(&mut stage, None), Some(false));
    assert!(stage.dirty);
    assert_eq!((stage.dirty_gen, stage.state), (2, FlushState::Idle));
    run.on_saved(Some("no space".to_string()));
    assert_eq!(run.outcome().err().map(|failure| failure.message), Some("no space".to_string()));
}

#[test]
fn a_failed_upload_keeps_what_is_staged() {
    let mut stage = stage();
    changed(&mut stage, write_goal(0, b"hello", 5));
    let mut run = uploading(&mut stage, 1, 5);
    run.on_uploaded(Err(UploadFailure { message: "timeout".to_string(), retryable: true, uncertain: false }));
    assert_eq!(run.on_replayed(&mut stage, None), None);
    assert_eq!((run.phase, stage.last_error.as_deref()), (FlushPhase::AskingGuard, Some("timeout")));
    run.on_guard(&mut stage, Ok(false), 10_000);
    assert_eq!(stage.state, FlushState::Failed { retry_after_ms: 10_000 + FLUSH_RETRY_COOLDOWN_MS });
    run.on_saved(None);
    assert_eq!(run.phase, FlushPhase::Done);
    assert_eq!(run.outcome().err().map(|failure| failure.message), Some("timeout".to_string()));
    assert!(stage.dirty && stage.snapshot.is_some());
}

#[test]
fn the_error_of_an_upload_stands_even_where_its_journal_is_unreadable() {
    let mut stage = stage();
    changed(&mut stage, write_goal(0, b"hello", 5));
    let mut run = uploading(&mut stage, 1, 5);
    run.on_uploaded(Err(UploadFailure { message: "timeout".to_string(), retryable: false, uncertain: true }));
    run.on_replayed(&mut stage, None);
    run.on_guard(&mut stage, Err("torn".to_string()), 10_000);
    assert_eq!(run.outcome().err().map(|failure| failure.message), Some("torn".to_string()));
    assert_eq!((stage.last_error.as_deref(), stage.state), (Some("timeout"), FlushState::Uploading));
}

#[test]
fn a_stage_that_went_during_its_upload_is_not_settled() {
    let mut stage = stage();
    changed(&mut stage, write_goal(0, b"hello", 5));
    let mut run = uploading(&mut stage, 1, 5);
    run.on_uploaded(Ok("tag".to_string()));
    run.on_gone();
    assert_eq!(run.outcome().ok(), Some(false));
    let mut gone = FlushRun::new(true);
    gone.on_entry(true, Ok(false));
    gone.on_gone();
    assert_eq!(gone.outcome().ok(), Some(false));
}

#[test]
fn an_upload_waits_for_open_changes_of_its_key() {
    let cases = vec![
        (false, Ok(false), "Rename outcome is pending; publication paused"),
        (true, Ok(true), "Namespace mutation outcome is unknown; publication paused"),
        (true, Err("denied".to_string()), "denied"),
    ];
    for (available, note, message) in cases {
        let mut run = FlushRun::new(false);
        run.on_entry(available, note);
        assert_eq!(run.outcome().err().map(|failure| failure.message).as_deref(), Some(message));
    }
}

#[test]
fn a_paused_stage_goes_on_only_where_its_publication_is_open() {
    let mut stage = stage();
    changed(&mut stage, write_goal(0, b"hello", 5));
    stage.state = FlushState::Paused;
    stage.snapshot = Some(snapshot(1, 5));
    for (completing, phase) in [(true, FlushPhase::Snapshotting), (false, FlushPhase::Done)] {
        let mut run = FlushRun::new(true);
        run.on_entry(true, Ok(false));
        run.on_stage(&stage, 9_000);
        assert_eq!(run.phase, FlushPhase::AskingJournal);
        run.on_journal(&stage, Ok(completing));
        assert_eq!(run.phase, phase);
    }
    let mut scanned = FlushRun::new(false);
    scanned.on_entry(true, Ok(false));
    scanned.on_stage(&stage, 9_000);
    assert_eq!(scanned.outcome().err().map(|failure| failure.message).as_deref(), Some("Upload requires recovery"));
    let mut unmade = FlushRun::new(true);
    unmade.on_entry(true, Ok(false));
    stage.state = FlushState::Idle;
    unmade.on_stage(&stage, 9_000);
    unmade.on_snapshot(&mut stage, Err("no copy".to_string()));
    assert_eq!(unmade.outcome().err().map(|failure| failure.message).as_deref(), Some("no copy"));
    assert_eq!(stage.state, FlushState::Idle);
}

// ---- the request to move an entry ----

#[test]
fn a_replaced_file_is_held_back_and_dropped_after_the_move() {
    let mut stage = stage();
    changed(&mut stage, write_goal(0, b"hello", 5));
    let mut request = RenameRequest::begin(false, Some((7, EntryKind::File)), true, false);
    assert_eq!((request.phase, request.replaced), (RequestPhase::Holding, Some(7)));
    request.on_stage(&mut stage);
    assert_eq!((request.phase, stage.state), (RequestPhase::SavingHeld, FlushState::Paused));
    assert_eq!(stage.last_error.as_deref(), Some("Destination replacement pending; retained for recovery"));
    request.on_saved(true);
    assert_eq!(request.phase, RequestPhase::Moving);
    request.on_moved(Ok(()));
    assert_eq!(request.phase, RequestPhase::Dropping);
    request.on_dropped();
    assert_eq!(request.outcome(), Ok(()));
}

#[test]
fn a_move_that_never_began_lets_the_replaced_file_go_on() {
    for (journal, phase) in [(Some(false), RequestPhase::LettingOn), (Some(true), RequestPhase::Done), (None, RequestPhase::Done)] {
        let mut stage = stage();
        changed(&mut stage, write_goal(0, b"hello", 5));
        stage.last_error = Some("before".to_string());
        let mut request = RenameRequest::begin(false, Some((7, EntryKind::File)), true, false);
        request.on_stage(&mut stage);
        request.on_saved(true);
        request.on_moved(Err(NfsStatus::JukeBox));
        assert_eq!(request.phase, RequestPhase::AskingJournal);
        request.on_journal(journal);
        assert_eq!(request.phase, phase);
        if phase == RequestPhase::LettingOn {
            request.on_stage(&mut stage);
            assert_eq!((stage.state, stage.last_error.as_deref()), (FlushState::Idle, Some("before")));
            request.on_saved(true);
        } else {
            assert_eq!(stage.state, FlushState::Paused);
        }
        assert_eq!(request.outcome(), Err(NfsStatus::JukeBox));
    }
}

#[test]
fn a_move_is_refused_by_what_stands_at_its_target() {
    let refused = |source_is_dir, kind, empty, resuming| {
        let request = RenameRequest::begin(source_is_dir, Some((7, kind)), empty, resuming);
        if request.phase == RequestPhase::Done { request.outcome().err() } else { None }
    };
    assert_eq!(refused(true, EntryKind::File, true, false), Some(NfsStatus::Exist));
    assert_eq!(refused(false, EntryKind::Dir, true, false), Some(NfsStatus::Exist));
    assert_eq!(refused(true, EntryKind::Dir, false, false), Some(NfsStatus::NotEmpty));
    assert_eq!(refused(true, EntryKind::Dir, false, true), None);
    assert_eq!(refused(false, EntryKind::File, true, false), None);
    assert_eq!(RenameRequest::begin(false, None, true, false).phase, RequestPhase::Moving);
}

#[test]
fn a_stage_that_cannot_be_held_back_stops_the_move() {
    let mut stage = stage();
    let mut request = RenameRequest::begin(false, Some((7, EntryKind::File)), true, false);
    request.on_stage(&mut stage);
    request.on_saved(false);
    assert_eq!(request.outcome(), Err(NfsStatus::Io));
    let mut unstaged = RenameRequest::begin(false, Some((7, EntryKind::File)), true, false);
    unstaged.on_no_stage();
    unstaged.on_moved(Err(NfsStatus::Acces));
    assert_eq!(unstaged.outcome(), Err(NfsStatus::Acces));
}

// ---- what is set aside, and what is being written ----

#[test]
fn a_record_that_cannot_be_restored_is_set_aside_with_the_reason() {
    let record = StageRecovery {
        key: "a/x".to_string(),
        size: 8,
        mtime_secs: 2,
        generation: 2,
        dirty: true,
        state: "waiting".to_string(),
        error: None,
        path: "/s/7.data".to_string(),
        snapshot: None,
        publication_guard: None,
        checkpoint_lsn: 4,
        first_dirty_at: Some(50),
        wal_bytes: None,
    };
    assert!(!is_unreadable(&record));
    let kept = set_aside(record, "too short".to_string());
    assert!(is_unreadable(&kept));
    assert_eq!((kept.error.as_deref(), kept.size, kept.key.as_str()), (Some("too short"), 8, "a/x"));
}

#[test]
fn a_change_in_the_making_counts_as_dirty() {
    let mut stages = StageHealth::new();
    stages.record_pending(7, 12, &stage(), 400);
    let health = health_snapshot(&IoHealth::default(), &Vec::new(), &stages, OpenOperations::Counted(0, true), &Vec::new(), 1_000);
    assert_eq!((health.pending_uploads, health.dirty_bytes, health.oldest_dirty_ms), (1, 12, 600));
}

#[test]
fn a_condition_that_the_store_lacks_refuses_the_operation() {
    assert_eq!(ensure_supported(true), Ok(()));
    assert_eq!(ensure_supported(false), Err(NfsStatus::NotSupp));
}
