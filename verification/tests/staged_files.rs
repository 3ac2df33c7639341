//! Staged files on a disk that is kept in memory: what a change leaves of the
//! data file, the log and the record, and what a restart makes of them.

use r2_mount::durable::{StageGoal, StageWork, WorkPhase};
use r2_mount::flush::{discard, evict};
use r2_mount::inode_table::{attr_of, child_name, staged_attr, EntryKind, Inode, MountOwner, ROOT_ID};
use r2_mount::operations::check_writable;
use r2_mount::stage::{FlushState, StageRecovery, FLUSH_DEBOUNCE_MS};
use r2_mount::stage_state::{apply_steps, replay_steps, DurableChange, FileStep, Stage, WalSummary};
use r2_mount::status::{ensure_writable, NfsStatus};

fn take_steps(content: &mut Vec<u8>, steps: Vec<FileStep>) {
    for step in steps {
        match step {
            FileStep::WriteAt { offset, data } => {
                let end = offset as usize + data.len();
                if content.len() < end {
                    content.resize(end, 0);
                }
                content[offset as usize..end].copy_from_slice(&data);
            }
            FileStep::SetLength { size } => content.resize(size as usize, 0),
        }
    }
}

fn copied(change: &DurableChange) -> DurableChange {
    match change {
        DurableChange::Write { offset, data } => DurableChange::Write { offset: *offset, data: data.clone() },
        DurableChange::Resize { size } => DurableChange::Resize { size: *size },
    }
}

/// One change as the log keeps it.
struct Logged {
    lsn: u64,
    generation: u64,
    change: DurableChange,
    resulting_size: u64,
    mtime_secs: u32,
    dirty_at_ms: i64,
}

/// A staged file with its disk.
struct Disk {
    stage: Stage,
    data: Vec<u8>,
    log: Vec<Logged>,
    record: Option<StageRecovery>,
}

impl Disk {
    fn new(key: &str) -> Disk {
        Disk {
            stage: Stage::create("/s/record.data".to_string(), key.to_string(), 1, 1_000),
            data: Vec::new(),
            log: Vec::new(),
            record: None,
        }
    }

    /// Applies the records behind a checkpoint and a generation. Returns the
    /// newest of them.
    fn replay_log(&mut self, lsn: u64, generation: u64) -> Option<WalSummary> {
        let mut newest = None;
        for logged in &self.log {
            if logged.lsn > lsn && logged.generation > generation {
                take_steps(&mut self.data, apply_steps(copied(&logged.change), logged.resulting_size));
                newest = Some(WalSummary {
                    key: self.stage.key.clone(),
                    resulting_size: logged.resulting_size,
                    generation: logged.generation,
                    lsn: logged.lsn,
                    next_lsn: logged.lsn + 1,
                    mtime_secs: logged.mtime_secs,
                    dirty_at_ms: logged.dirty_at_ms,
                });
            }
        }
        newest
    }

    fn work(&mut self, goal: StageGoal, now_ms: u64) {
        let mut work = StageWork::begin(goal, &self.stage);
        while work.phase != WorkPhase::Done {
            self.take_step(&mut work, now_ms);
        }
        assert_eq!(work.outcome(), Ok(()));
    }

    fn take_step(&mut self, work: &mut StageWork, now_ms: u64) {
        match work.phase {
            WorkPhase::ReplayingIntent => work.on_intent(&mut self.stage, Ok(None), now_ms),
            WorkPhase::ReplayingLog => {
                let newest = self.replay_log(self.stage.checkpoint_lsn, self.stage.applied_gen);
                work.on_log(&mut self.stage, Ok(newest), now_ms);
            }
            WorkPhase::Reopening => work.on_reopened(&mut self.stage, None),
            WorkPhase::SavingRecord | WorkPhase::SavingCheckpoint => {
                self.record = Some(self.stage.recovery_record());
                work.on_saved(&self.stage, None);
            }
            WorkPhase::RepairingLog => work.on_repaired(&mut self.stage, None),
            WorkPhase::Reserving => work.on_reserved(&mut self.stage, None, 100),
            WorkPhase::Logging => {
                let lsn = match (&work.plan, &work.goal) {
                    (Some(plan), StageGoal::Change { change, .. }) => {
                        self.log.push(Logged {
                            lsn: plan.lsn,
                            generation: plan.generation,
                            change: copied(change),
                            resulting_size: plan.resulting_size,
                            mtime_secs: plan.mtime_secs,
                            dirty_at_ms: plan.dirty_at_ms,
                        });
                        plan.lsn
                    }
                    _ => 0,
                };
                work.on_logged(&mut self.stage, Ok((lsn, 64)));
            }
            WorkPhase::Committing => work.on_committed(&mut self.stage, None, now_ms),
            WorkPhase::Applying => {
                take_steps(&mut self.data, work.steps(&self.stage));
                work.on_applied(&mut self.stage, None);
            }
            WorkPhase::Syncing => work.on_synced(&mut self.stage, None),
            WorkPhase::CuttingLog => {
                let checkpoint = self.stage.checkpoint_lsn;
                self.log.retain(|logged| logged.lsn > checkpoint);
                work.on_cut(&mut self.stage, None);
            }
            WorkPhase::Done => {}
        }
    }

    fn write(&mut self, offset: u64, data: &[u8], mtime_secs: u32) {
        let size = self.stage.plan_write(offset, data.len()).expect("fits");
        self.work(StageGoal::Change { change: DurableChange::Write { offset, data: data.to_vec() }, size, mtime_secs }, 2_000);
    }

    fn truncate(&mut self, size: u64, mtime_secs: u32) {
        self.work(StageGoal::Change { change: DurableChange::Resize { size }, size, mtime_secs }, 2_000);
    }

    fn read(&self, offset: u64, count: usize) -> Vec<u8> {
        let available = self.stage.readable_bytes(offset, count);
        self.data[(offset as usize).min(self.data.len())..][..available].to_vec()
    }

    /// What a new process finds: the data file brought level with the log, and
    /// the stage restored from its record.
    fn restart(mut self) -> Disk {
        let mut record = self.record.take().expect("recorded");
        if let Some(newest) = self.replay_log(record.checkpoint_lsn, record.generation) {
            record.size = newest.resulting_size;
            record.generation = newest.generation;
            record.mtime_secs = newest.mtime_secs;
            record.dirty = true;
            record.first_dirty_at = Some(newest.dirty_at_ms);
        }
        let length = self.data.len() as u64;
        let stage = Stage::restore(record, length, 9_000).expect("restored");
        Disk { stage, data: self.data, log: self.log, record: None }
    }
}

#[test]
fn writes_land_at_their_offset_and_extend_the_file() {
    let mut disk = Disk::new("write");
    disk.write(0, b"hello", 1);
    assert_eq!(disk.stage.size, 5);
    disk.write(5, b" world", 1);
    assert_eq!(disk.stage.size, 11);
    assert_eq!(disk.read(0, 11), b"hello world");
}

#[test]
fn a_gap_between_writes_reads_back_as_zeros() {
    let mut disk = Disk::new("sparse");
    disk.write(4, b"tail", 1);
    assert_eq!(disk.stage.size, 8);
    assert_eq!(disk.read(0, 8), b"\0\0\0\0tail".to_vec());
}

#[test]
fn reads_stop_at_the_end_of_the_staged_content() {
    let mut disk = Disk::new("eof");
    disk.write(0, b"abc", 1);
    assert_eq!(disk.read(0, 100), b"abc");
    assert!(disk.read(3, 10).is_empty());
    assert!(disk.read(99, 10).is_empty());
    assert!(disk.read(0, 0).is_empty());
}

#[test]
fn truncation_shrinks_and_grows_the_staged_size() {
    let mut disk = Disk::new("truncate");
    disk.write(0, b"abcdef", 1);
    disk.truncate(3, 1);
    assert_eq!(disk.stage.size, 3);
    assert_eq!(disk.read(0, 10), b"abc");
    disk.truncate(0, 1);
    assert_eq!(disk.stage.size, 0);
    assert!(disk.read(0, 10).is_empty());
}

#[test]
fn each_change_has_the_next_generation() {
    let mut disk = Disk::new("generation");
    disk.write(0, b"x", 100);
    assert_eq!(disk.stage.dirty_gen, 1);
    assert!(disk.stage.dirty);
    assert_eq!(disk.stage.mtime_secs, 100);
    disk.truncate(0, 101);
    assert_eq!((disk.stage.dirty_gen, disk.stage.mtime_secs), (2, 101));
}

#[test]
fn a_freshly_written_stage_becomes_due_once_it_goes_quiet() {
    let mut disk = Disk::new("due");
    disk.write(0, b"x", 1);
    assert!(!disk.stage.is_due(2_000));
    assert!(disk.stage.is_due(disk.stage.last_write_ms + FLUSH_DEBOUNCE_MS));
}

#[test]
fn a_durable_resize_restores_the_exact_acknowledged_size() {
    let mut disk = Disk::new("key");
    disk.write(0, b"content", 1);
    disk.truncate(2, 2);
    let restored = disk.restart();
    assert_eq!(restored.read(0, 100), b"co");
    assert_eq!((restored.stage.mtime_secs, restored.stage.dirty_gen), (2, 2));
}

#[test]
fn a_wal_synced_before_data_recovers_the_acknowledged_write() {
    let mut disk = Disk::new("key");
    disk.record = Some(disk.stage.recovery_record());
    disk.log.push(Logged {
        lsn: 1,
        generation: 1,
        change: DurableChange::Write { offset: 0, data: b"abc".to_vec() },
        resulting_size: 3,
        mtime_secs: 1,
        dirty_at_ms: 1,
    });
    assert!(disk.data.is_empty());
    let restored = disk.restart();
    assert_eq!(restored.read(0, 10), b"abc");
}

#[test]
fn data_synced_before_manifest_still_recovers_from_wal() {
    let mut disk = Disk::new("key");
    disk.record = Some(disk.stage.recovery_record());
    disk.log.push(Logged {
        lsn: 1,
        generation: 1,
        change: DurableChange::Write { offset: 0, data: b"abc".to_vec() },
        resulting_size: 3,
        mtime_secs: 1,
        dirty_at_ms: 1,
    });
    disk.data = b"abc".to_vec();
    let restored = disk.restart();
    assert_eq!(restored.read(0, 10), b"abc");
}

#[test]
fn manifest_checkpoint_before_wal_truncate_does_not_replay_old_records() {
    let mut disk = Disk::new("key");
    disk.write(0, b"abc", 1);
    let mut work = StageWork::begin(StageGoal::Checkpoint, &disk.stage);
    while work.phase != WorkPhase::CuttingLog {
        disk.take_step(&mut work, 3_000);
    }
    // The process ends here: the record is saved, the log is not cut yet. A
    // replay of what it holds would show here.
    disk.log[0].change = DurableChange::Write { offset: 0, data: b"old".to_vec() };
    let restored = disk.restart();
    assert_eq!(restored.stage.checkpoint_lsn, 1);
    assert_eq!(restored.read(0, 10), b"abc");
    assert_eq!(restored.log.len(), 1);
}

#[test]
fn one_write_across_many_stages_does_not_checkpoint_each_stage() {
    for index in 0..100usize {
        let mut disk = Disk::new(&format!("key/{index}"));
        disk.write(0, &[index as u8], 1);
        assert_eq!(disk.stage.checkpoint_lsn, 0, "single-write stage checkpointed early");
        assert_eq!(disk.stage.records_since_checkpoint, 1);
    }
}

#[test]
fn sequential_and_random_repeated_writes_recover_exact_bytes() {
    let mut disk = Disk::new("key");
    let mut expected = vec![0u8; 8192];
    for index in 0..32usize {
        let offset = (index * 173) % 4096;
        let len = 17 + (index * 29) % 511;
        let payload = vec![(index as u8).wrapping_mul(7).wrapping_add(3); len];
        disk.write(offset as u64, &payload, index as u32 + 1);
        expected[offset..offset + len].copy_from_slice(&payload);
    }
    for index in 0..32usize {
        let offset = (8191usize.wrapping_sub(index * 197)) % 4096;
        let len = 1 + (index * 31) % 257;
        let payload = vec![(index as u8).wrapping_mul(11).wrapping_add(5); len];
        disk.write(offset as u64, &payload, index as u32 + 33);
        expected[offset..offset + len].copy_from_slice(&payload);
    }
    let size = disk.stage.size as usize;
    let expected = expected[..size].to_vec();
    // Whatever of the data file was not synced is lost.
    disk.data = Vec::new();
    let restored = disk.restart();
    assert_eq!(restored.read(0, size), expected);
    assert_eq!(restored.stage.dirty_gen, 64);
}

#[test]
fn an_interrupted_local_write_replays_before_stage_recovery() {
    let mut disk = Disk::new("original/key");
    disk.write(0, b"old", 1);
    // A crash after part of the file update.
    disk.data = b"comp".to_vec();
    disk.stage.needs_replay = true;
    let record = StageRecovery {
        key: "original/key".to_string(),
        size: 8,
        mtime_secs: 2,
        generation: 2,
        dirty: true,
        state: "waiting".to_string(),
        error: None,
        path: "/s/record.data".to_string(),
        snapshot: None,
        publication_guard: None,
        checkpoint_lsn: 0,
        first_dirty_at: None,
        wal_bytes: None,
    };
    take_steps(&mut disk.data, replay_steps(DurableChange::Write { offset: 0, data: b"complete".to_vec() }));
    let mut work = StageWork::begin(StageGoal::Level, &disk.stage);
    work.on_intent(&mut disk.stage, Ok(Some(record)), 3_000);
    while work.phase != WorkPhase::Done {
        disk.take_step(&mut work, 3_000);
    }
    assert_eq!(disk.stage.key, "original/key");
    assert_eq!(disk.stage.dirty_gen, 2);
    assert_eq!(disk.data, b"complete");
    assert_eq!(disk.read(0, 100), b"complete");
}

#[test]
fn every_mutator_refuses_on_a_read_only_mount() {
    assert_eq!(ensure_writable(true, true), Err(NfsStatus::RoFs));
    assert_eq!(ensure_writable(true, false), Err(NfsStatus::RoFs));
}

#[test]
fn a_writable_mount_gets_past_the_read_only_gate() {
    assert_eq!(ensure_writable(false, true), Ok(()));
    assert_ne!(ensure_writable(false, false), Err(NfsStatus::RoFs));
}

#[test]
fn a_name_that_would_escape_its_directory_is_refused() {
    for raw in [b"a/b".as_slice(), b"..".as_slice(), b".".as_slice(), b"".as_slice()] {
        assert_eq!(child_name(raw).err(), Some(NfsStatus::Inval), "{:?} must not compose a key", raw);
    }
}

#[test]
fn writing_to_a_directory_is_not_a_write_at_all() {
    assert_eq!(check_writable(EntryKind::Dir), Err(NfsStatus::Inval));
}

#[test]
fn a_stage_with_unsent_content_is_never_evicted() {
    let mut disk = Disk::new("note.txt");
    disk.write(0, b"unsent", 1);
    assert!(!evict(&mut disk.stage));
    assert!(disk.stage.dirty && !disk.stage.evicted);
    assert_eq!(disk.read(0, 6), b"unsent");
}

#[test]
fn a_handle_held_across_an_eviction_is_marked_stale() {
    let mut disk = Disk::new("note.txt");
    assert_eq!(disk.stage.state, FlushState::Idle);
    assert!(evict(&mut disk.stage));
    assert!(disk.stage.evicted);
    assert!(!evict(&mut disk.stage));
}

#[test]
fn discarding_a_stage_tombstones_it_even_when_it_is_dirty() {
    let mut disk = Disk::new("note.txt");
    disk.write(0, b"doomed", 1);
    discard(&mut disk.stage);
    assert!(disk.stage.evicted);
}

#[test]
fn a_directory_listing_reports_staged_sizes() {
    let mut disk = Disk::new("note.txt");
    disk.write(0, b"0123456789", 4242);
    let inode = Inode { key: "note.txt".to_string(), parent: ROOT_ID, kind: EntryKind::File, size: 0, mtime_secs: 0 };
    let shown = staged_attr(MountOwner { uid: 501, gid: 20, fsid: 1 }, 7, &inode, disk.stage.size, disk.stage.mtime_secs);
    assert_eq!(shown.size, 10);
    assert_eq!(shown.time_secs, 4242);
    // The inode still carries what the store last reported.
    assert_eq!(attr_of(MountOwner { uid: 501, gid: 20, fsid: 1 }, 7, &inode).size, 0);
}
