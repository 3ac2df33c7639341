//! One dirty file and the changes made to it.
//!
//! A change is written to a log first and made durable there; only then is it
//! applied to the data file and acknowledged. While a change is under way the
//! log may hold a record that the data file does not reflect, and the next
//! access replays it.

use vstd::prelude::*;
use crate::paths;
use crate::paths::with_extension;
use crate::stage;
use crate::stage::{copy_guard, copy_snapshot, should_flush, FlushState, PublicationGuard, StageRecovery, UploadSnapshot};
use crate::text;
use crate::text::{decimal_text, joined, same_text};

verus! {

/// Log records after which a stage is checkpointed.
pub const CHECKPOINT_RECORDS: u64 = 256;

/// Log bytes after which a stage is checkpointed.
pub const CHECKPOINT_WAL_BYTES: u64 = 32 * 1024 * 1024;

/// The most bytes that one write may carry.
pub const MAX_WRITE_BYTES: usize = 1024 * 1024;

/// A change to a staged file's content.
pub enum DurableChange {
    Write { offset: u64, data: Vec<u8> },
    Resize { size: u64 },
}

/// A change with its bytes taken as a sequence.
pub ghost enum ChangeModel {
    Write { offset: int, data: Seq<u8> },
    Resize { size: int },
}

impl View for DurableChange {
    type V = ChangeModel;

    open spec fn view(&self) -> ChangeModel {
        match self {
            DurableChange::Write { offset, data } => ChangeModel::Write { offset: *offset as int, data: data@ },
            DurableChange::Resize { size } => ChangeModel::Resize { size: *size as int },
        }
    }
}

/// Content after bytes were written at an offset. A gap between the old end
/// and the offset reads as zeros.
pub open spec fn written(content: Seq<u8>, offset: int, data: Seq<u8>) -> Seq<u8> {
    if data.len() == 0 {
        content
    } else {
        let end = offset + data.len();
        Seq::new(
            (if end > content.len() { end } else { content.len() as int }) as nat,
            |i: int|
                if offset <= i < end {
                    data[i - offset]
                } else if i < content.len() {
                    content[i]
                } else {
                    0u8
                },
        )
    }
}

/// Content cut or extended to a size. What is added reads as zeros.
pub open spec fn resized(content: Seq<u8>, size: int) -> Seq<u8> {
    Seq::new(
        size as nat,
        |i: int|
            if i < content.len() {
                content[i]
            } else {
                0u8
            },
    )
}

/// Content after a change that leaves the file `size` bytes long.
pub open spec fn changed(content: Seq<u8>, change: ChangeModel, size: int) -> Seq<u8> {
    match change {
        ChangeModel::Write { offset, data } => resized(written(content, offset, data), size),
        ChangeModel::Resize { .. } => resized(content, size),
    }
}

/// The size that a change leaves a file of `size` bytes with.
pub open spec fn size_after(size: int, change: ChangeModel) -> int {
    match change {
        ChangeModel::Write { offset, data } => if offset + data.len() > size {
            offset + data.len()
        } else {
            size
        },
        ChangeModel::Resize { size: wanted } => wanted,
    }
}

/// A read of what was written gives back the bytes that were written, and all
/// other bytes are as they were before.
pub proof fn a_write_reads_back(content: Seq<u8>, offset: int, data: Seq<u8>)
    requires
        0 <= offset,
    ensures
        ({
            let change = ChangeModel::Write { offset, data };
            let after = changed(content, change, size_after(content.len() as int, change));
            &&& after.subrange(offset, offset + data.len()) == data
            &&& forall|i: int| 0 <= i < content.len() && !(offset <= i < offset + data.len()) ==> after[i] == content[i]
            &&& forall|i: int| content.len() <= i < offset ==> after[i] == 0
            &&& after.len() == size_after(content.len() as int, change)
        }),
{
    let change = ChangeModel::Write { offset, data };
    let after = changed(content, change, size_after(content.len() as int, change));
    assert(after.subrange(offset, offset + data.len()) =~= data);
}

/// Making a file shorter keeps the bytes that stay; making it longer adds
/// zeros.
pub proof fn a_resize_keeps_what_stays(content: Seq<u8>, size: int)
    requires
        0 <= size,
    ensures
        ({
            let after = changed(content, ChangeModel::Resize { size }, size);
            &&& after.len() == size
            &&& forall|i: int| 0 <= i < size && i < content.len() ==> after[i] == content[i]
            &&& forall|i: int| content.len() <= i < size ==> after[i] == 0
        }),
{
}

/// A crash may leave any part of a write in the data file. Replaying the
/// logged change over it gives exactly what the undisturbed write would have
/// given.
pub proof fn a_replay_completes_a_torn_write(content: Seq<u8>, offset: int, data: Seq<u8>, landed: int)
    requires
        0 <= offset,
        0 <= landed <= data.len(),
    ensures
        ({
            let change = ChangeModel::Write { offset, data };
            let size = size_after(content.len() as int, change);
            changed(written(content, offset, data.take(landed)), change, size) == changed(content, change, size)
        }),
{
    let change = ChangeModel::Write { offset, data };
    let size = size_after(content.len() as int, change);
    assert(changed(written(content, offset, data.take(landed)), change, size) =~= changed(content, change, size));
}

/// Replaying a change that had been applied already changes nothing.
pub proof fn a_replay_may_be_repeated(content: Seq<u8>, change: ChangeModel)
    requires
        change matches ChangeModel::Write { offset, .. } ==> 0 <= offset,
        change matches ChangeModel::Resize { size } ==> 0 <= size,
    ensures
        ({
            let size = size_after(content.len() as int, change);
            changed(changed(content, change, size), change, size) == changed(content, change, size)
        }),
{
    let size = size_after(content.len() as int, change);
    assert(changed(changed(content, change, size), change, size) =~= changed(content, change, size));
}

/// A change as it stands in the log, with the size that it left the file with.
pub ghost struct LoggedChange {
    pub change: ChangeModel,
    pub size: int,
}

impl LoggedChange {
    /// The change can have been logged.
    pub open spec fn valid(self) -> bool {
        &&& 0 <= self.size
        &&& self.change matches ChangeModel::Write { offset, .. } ==> 0 <= offset
    }

    /// The change decides what stands at a place: it wrote there, or it left
    /// the file too short to reach there.
    pub open spec fn touches(self, place: int) -> bool {
        ||| self.size <= place
        ||| self.change matches ChangeModel::Write { offset, data } && offset <= place < offset + data.len()
    }
}

/// Content after logged changes, in order.
pub open spec fn after_log(content: Seq<u8>, log: Seq<LoggedChange>) -> Seq<u8>
    decreases log.len(),
{
    if log.len() == 0 {
        content
    } else {
        changed(after_log(content, log.drop_last()), log.last().change, log.last().size)
    }
}

/// What stands at a place; beyond the end, what would stand there if the file
/// were longer.
pub open spec fn byte_at(content: Seq<u8>, place: int) -> u8 {
    if place < content.len() {
        content[place]
    } else {
        0
    }
}

/// No logged change decides what stands at a place.
pub open spec fn is_untouched(log: Seq<LoggedChange>, place: int) -> bool {
    forall|i: int| 0 <= i < log.len() ==> !(#[trigger] log[i]).touches(place)
}

proof fn a_log_decides_what_it_touches(a: Seq<u8>, b: Seq<u8>, log: Seq<LoggedChange>, place: int)
    requires
        forall|i: int| 0 <= i < log.len() ==> (#[trigger] log[i]).valid(),
        0 <= place,
    ensures
        is_untouched(log, place) ==> byte_at(after_log(a, log), place) == byte_at(a, place),
        !is_untouched(log, place) ==> byte_at(after_log(a, log), place) == byte_at(after_log(b, log), place),
        log.len() > 0 ==> after_log(a, log).len() == log.last().size,
    decreases log.len(),
{
    if log.len() > 0 {
        let before = log.drop_last();
        assert(forall|i: int| 0 <= i < before.len() ==> before[i] == log[i]);
        a_log_decides_what_it_touches(a, b, before, place);
        assert(log.last() == log[log.len() - 1]);
        if log.last().touches(place) {
            assert(!is_untouched(log, place));
        } else if is_untouched(before, place) {
            assert(is_untouched(log, place));
        } else {
            let i = choose|i: int| 0 <= i < before.len() && (#[trigger] before[i]).touches(place);
            assert(log[i].touches(place));
        }
    }
}

/// Acknowledged writes survive a crash: whatever it has made of the bytes that
/// the changes since the last checkpoint decide, replaying the log gives back
/// exactly what the undisturbed changes would have left.
pub proof fn a_replay_of_the_log_recovers_every_byte(checkpoint: Seq<u8>, found: Seq<u8>, log: Seq<LoggedChange>)
    requires
        forall|i: int| 0 <= i < log.len() ==> (#[trigger] log[i]).valid(),
        forall|place: int| 0 <= place && #[trigger] is_untouched(log, place) ==> byte_at(found, place) == byte_at(checkpoint, place),
        log.len() == 0 ==> found.len() == checkpoint.len(),
    ensures
        after_log(found, log) == after_log(checkpoint, log),
{
    let recovered = after_log(found, log);
    let wanted = after_log(checkpoint, log);
    a_log_decides_what_it_touches(found, checkpoint, log, 0);
    a_log_decides_what_it_touches(checkpoint, found, log, 0);
    assert forall|place: int| 0 <= place < recovered.len() implies recovered[place] == wanted[place] by {
        a_log_decides_what_it_touches(found, checkpoint, log, place);
        a_log_decides_what_it_touches(checkpoint, found, log, place);
        assert(byte_at(recovered, place) == byte_at(wanted, place));
    }
    assert(recovered =~= wanted);
}

/// Content where the process stopped within the log: so many changes were
/// applied, and of a write that came next so many bytes had landed.
pub open spec fn interrupted(checkpoint: Seq<u8>, log: Seq<LoggedChange>, applied: int, landed: int) -> Seq<u8> {
    let before = after_log(checkpoint, log.take(applied));
    if applied < log.len() {
        match log[applied].change {
            ChangeModel::Write { offset, data } => written(before, offset, data.take(landed)),
            ChangeModel::Resize { .. } => before,
        }
    } else {
        before
    }
}

/// However far a process had come with its changes, replaying all of them
/// since the last checkpoint leaves what the undisturbed process would have.
pub proof fn an_interrupted_process_loses_no_change(checkpoint: Seq<u8>, log: Seq<LoggedChange>, applied: int, landed: int)
    requires
        forall|i: int| 0 <= i < log.len() ==> (#[trigger] log[i]).valid(),
        0 <= applied <= log.len(),
        0 <= landed,
        applied < log.len() ==> (log[applied].change matches ChangeModel::Write { data, .. } ==> landed <= data.len()),
    ensures
        after_log(interrupted(checkpoint, log, applied, landed), log) == after_log(checkpoint, log),
{
    let found = interrupted(checkpoint, log, applied, landed);
    let done = log.take(applied);
    assert(forall|i: int| 0 <= i < done.len() ==> done[i] == log[i]);
    assert forall|place: int| 0 <= place && #[trigger] is_untouched(log, place) implies byte_at(found, place) == byte_at(checkpoint, place) by {
        assert(is_untouched(done, place));
        a_log_decides_what_it_touches(checkpoint, checkpoint, done, place);
        if applied < log.len() {
            assert(!log[applied].touches(place));
        }
    }
    a_replay_of_the_log_recovers_every_byte(checkpoint, found, log);
}

/// A step on the data file.
pub enum FileStep {
    /// Write these bytes at this offset.
    WriteAt { offset: u64, data: Vec<u8> },
    /// Cut or extend the file to this size.
    SetLength { size: u64 },
}

/// Content after a step on the file.
pub open spec fn stepped(content: Seq<u8>, step: FileStep) -> Seq<u8> {
    match step {
        FileStep::WriteAt { offset, data } => written(content, offset as int, data@),
        FileStep::SetLength { size } => resized(content, size as int),
    }
}

/// Content after steps on the file, in order.
pub open spec fn after_steps(content: Seq<u8>, steps: Seq<FileStep>) -> Seq<u8>
    decreases steps.len(),
{
    if steps.len() == 0 {
        content
    } else {
        stepped(after_steps(content, steps.drop_last()), steps.last())
    }
}

/// The steps on the data file that apply a change leaving it `size` bytes
/// long.
pub fn apply_steps(change: DurableChange, size: u64) -> (steps: Vec<FileStep>)
    ensures
        forall|content: Seq<u8>| #[trigger] after_steps(content, steps@) == changed(content, change@, size as int),
{
    let mut steps: Vec<FileStep> = Vec::new();
    let ghost model = change@;
    match change {
        DurableChange::Write { offset, data } => {
            steps.push(FileStep::WriteAt { offset, data });
        },
        DurableChange::Resize { .. } => {},
    }
    let ghost before = steps@;
    steps.push(FileStep::SetLength { size });
    proof {
        assert(steps@.drop_last() =~= before);
        assert forall|content: Seq<u8>| #[trigger] after_steps(content, steps@) == changed(content, model, size as int) by {
            reveal_with_fuel(after_steps, 3);
            if before.len() == 1 {
                assert(before.drop_last() =~= Seq::<FileStep>::empty());
            }
        }
    }
    steps
}

/// Content after an interrupted write was replayed from its own record.
pub open spec fn replayed(content: Seq<u8>, change: ChangeModel) -> Seq<u8> {
    match change {
        ChangeModel::Write { offset, data } => written(content, offset, data),
        ChangeModel::Resize { size } => resized(content, size),
    }
}

/// The steps on the data file that replay an interrupted write from its own
/// record.
pub fn replay_steps(change: DurableChange) -> (steps: Vec<FileStep>)
    ensures
        forall|content: Seq<u8>| #[trigger] after_steps(content, steps@) == replayed(content, change@),
{
    let ghost model = change@;
    let mut steps: Vec<FileStep> = Vec::new();
    match change {
        DurableChange::Write { offset, data } => {
            steps.push(FileStep::WriteAt { offset, data });
        },
        DurableChange::Resize { size } => {
            steps.push(FileStep::SetLength { size });
        },
    }
    proof {
        assert(steps@.drop_last() =~= Seq::<FileStep>::empty());
        assert forall|content: Seq<u8>| #[trigger] after_steps(content, steps@) == replayed(content, model) by {
            reveal_with_fuel(after_steps, 2);
        }
    }
    steps
}

/// An interrupted write whose replay leaves the file as long as its record
/// says leaves it exactly as the undisturbed write would have.
pub proof fn a_replayed_record_leaves_what_the_write_would(content: Seq<u8>, change: ChangeModel, size: int)
    requires
        replayed(content, change).len() == size,
        change matches ChangeModel::Resize { size: wanted } ==> 0 <= wanted,
    ensures
        replayed(content, change) == changed(content, change, size),
{
    assert(replayed(content, change) =~= changed(content, change, size));
}

/// One dirty file.
pub struct Stage {
    pub path: String,
    /// Key this stage belongs to, so the flusher does not have to re-resolve
    /// the inode, and stays correct if the inode is re-keyed by a rename.
    pub key: String,
    pub size: u64,
    pub mtime_secs: u32,
    pub dirty: bool,
    /// Advanced by every write. Captured before an upload so a write that
    /// lands mid-upload is noticed instead of being lost.
    pub dirty_gen: u64,
    /// The generation that the data file reflects.
    pub applied_gen: u64,
    /// The log may hold a record that the data file does not reflect.
    pub needs_replay: bool,
    /// The log ends with a whole record.
    pub wal_tail_repaired: bool,
    pub checkpoint_lsn: u64,
    pub next_lsn: u64,
    pub records_since_checkpoint: u64,
    pub bytes_since_checkpoint: u64,
    pub first_dirty_at: Option<i64>,
    pub last_write_ms: u64,
    /// Set when a client sends a file time, as it does at the end of a copy,
    /// to skip the debounce.
    pub flush_requested: bool,
    /// Staged size the last queued-transfer event reported.
    pub reported_size: u64,
    pub state: FlushState,
    /// This stage has been unpublished and its backing file deleted. Whoever
    /// finds it set holds a stale handle and looks in the registry again.
    pub evicted: bool,
    pub last_error: Option<String>,
    pub snapshot: Option<UploadSnapshot>,
    pub publication_guard: Option<PublicationGuard>,
}

/// The error that a stage carries while a rename is about to replace its
/// object.
pub open spec fn rename_fence_error() -> Seq<char> {
    "Destination replacement pending; retained for recovery"@
}

/// The name of a flush state in a recovery record.
pub open spec fn state_name(state: FlushState) -> Seq<char> {
    match state {
        FlushState::Uploading => "uploading"@,
        FlushState::Paused => "paused"@,
        FlushState::Failed { .. } => "failed"@,
        FlushState::Idle => "waiting"@,
    }
}

/// What a change is logged as.
pub struct ChangePlan {
    pub lsn: u64,
    pub generation: u64,
    pub is_write: bool,
    pub offset: u64,
    pub resulting_size: u64,
    pub mtime_secs: u32,
    pub dirty_at_ms: i64,
    /// Bytes that the data file may grow by.
    pub data_growth: u64,
}

/// The bytes that a change may lengthen the data file by.
pub open spec fn growth_of(change: ChangeModel, size: u64, size_before: u64) -> int {
    match change {
        ChangeModel::Write { data, .. } => data.len() as int,
        ChangeModel::Resize { .. } => if size > size_before {
            size - size_before
        } else {
            0
        },
    }
}

impl ChangePlan {
    /// The plan for a change of a stage: under the next generation and
    /// sequence number.
    pub open spec fn is_of(self, stage: Stage, change: ChangeModel, size: u64, mtime_secs: u32, now_epoch_ms: i64) -> bool {
        &&& self.lsn == stage.next_lsn
        &&& self.generation == (if stage.dirty_gen == u64::MAX {
            u64::MAX as int
        } else {
            stage.dirty_gen + 1
        })
        &&& self.resulting_size == size
        &&& self.mtime_secs == mtime_secs
        &&& self.dirty_at_ms == (match stage.first_dirty_at {
            Some(at) => at,
            None => now_epoch_ms,
        })
        &&& self.data_growth == growth_of(change, size, stage.size)
        &&& match change {
            ChangeModel::Write { offset, .. } => self.is_write && self.offset == offset,
            ChangeModel::Resize { .. } => !self.is_write && self.offset == 0,
        }
    }
}

/// The newest log record of a stage.
pub struct WalSummary {
    pub key: String,
    pub resulting_size: u64,
    pub generation: u64,
    pub lsn: u64,
    pub next_lsn: u64,
    pub mtime_secs: u32,
    pub dirty_at_ms: i64,
}

/// The snapshot that an upload is made from.
pub enum SnapshotPlan {
    /// One was taken before and has not been settled yet.
    Reuse { snapshot: UploadSnapshot },
    /// Checkpoint the stage, copy its data file to the snapshot's path, and
    /// record it.
    Take { snapshot: UploadSnapshot },
}

impl Stage {
    /// The data file reflects every durable change, unless a replay is due.
    pub open spec fn well_formed(&self) -> bool {
        self.needs_replay || self.applied_gen == self.dirty_gen
    }

    /// The stage of a new, empty staging file.
    pub fn create(path: String, key: String, mtime_secs: u32, now_ms: u64) -> (created: Self)
        ensures
            created.well_formed(),
            created.path == path,
            created.key == key,
            created.size == 0,
            created.mtime_secs == mtime_secs,
            !created.dirty,
            created.dirty_gen == 0,
            !created.needs_replay,
            created.wal_tail_repaired,
            created.checkpoint_lsn == 0,
            created.next_lsn == 1,
            created.records_since_checkpoint == 0,
            created.bytes_since_checkpoint == 0,
            created.first_dirty_at is None,
            created.last_write_ms == now_ms,
            !created.flush_requested,
            created.reported_size == 0,
            created.state == FlushState::Idle,
            !created.evicted,
            created.last_error is None,
            created.snapshot is None,
            created.publication_guard is None,
    {
        Stage {
            path,
            key,
            size: 0,
            mtime_secs,
            dirty: false,
            dirty_gen: 0,
            applied_gen: 0,
            needs_replay: false,
            wal_tail_repaired: true,
            checkpoint_lsn: 0,
            next_lsn: 1,
            records_since_checkpoint: 0,
            bytes_since_checkpoint: 0,
            first_dirty_at: None,
            last_write_ms: now_ms,
            flush_requested: false,
            reported_size: 0,
            state: FlushState::Idle,
            evicted: false,
            last_error: None,
            snapshot: None,
            publication_guard: None,
        }
    }

    /// A stage as it is taken up from its record.
    pub open spec fn is_restored(self, record: StageRecovery, now_ms: u64) -> bool {
        &&& self.well_formed()
        &&& self.path == record.path
        &&& self.key == record.key
        &&& self.size == record.size
        &&& self.mtime_secs == record.mtime_secs
        &&& self.dirty == record.dirty
        &&& self.dirty_gen == record.generation
        &&& !self.needs_replay
        &&& !self.wal_tail_repaired
        &&& self.checkpoint_lsn == record.checkpoint_lsn
        &&& self.next_lsn == (if record.checkpoint_lsn == u64::MAX { u64::MAX as int } else { record.checkpoint_lsn + 1 })
        &&& self.records_since_checkpoint == 0
        &&& self.bytes_since_checkpoint == 0
        &&& self.first_dirty_at == record.first_dirty_at
        &&& self.last_write_ms == now_ms
        &&& self.flush_requested
        &&& self.reported_size == record.size
        &&& self.state == (if text::optional(record.error) == Some(rename_fence_error()) {
            FlushState::Paused
        } else {
            FlushState::Idle
        })
        &&& !self.evicted
        &&& self.last_error == record.error
        &&& self.snapshot == record.snapshot
        &&& self.publication_guard == record.publication_guard
    }

    /// Takes up a staged file from its record, once its log has been replayed.
    /// It is asked to be uploaded at once, except where it waits for a rename
    /// that was about to replace its object: that fence is never released
    /// here. Refused where the data file does not have the recorded size.
    pub fn restore(record: StageRecovery, file_length: u64, now_ms: u64) -> (restored: Result<Self, String>)
        ensures
            restored is Ok <==> file_length == record.size,
            restored matches Err(error) ==> error@ == "Stage size does not match its durable journal"@,
            restored matches Ok(stage) ==> stage.is_restored(record, now_ms),
    {
        if file_length != record.size {
            return Err("Stage size does not match its durable journal".to_owned());
        }
        let fenced = match &record.error {
            Some(error) => same_text(error.as_str(), "Destination replacement pending; retained for recovery"),
            None => false,
        };
        Ok(
            Stage {
                path: record.path,
                key: record.key,
                size: record.size,
                mtime_secs: record.mtime_secs,
                dirty: record.dirty,
                dirty_gen: record.generation,
                applied_gen: record.generation,
                needs_replay: false,
                wal_tail_repaired: false,
                checkpoint_lsn: record.checkpoint_lsn,
                next_lsn: record.checkpoint_lsn.saturating_add(1),
                records_since_checkpoint: 0,
                bytes_since_checkpoint: 0,
                first_dirty_at: record.first_dirty_at,
                last_write_ms: now_ms,
                flush_requested: true,
                reported_size: record.size,
                state: if fenced { FlushState::Paused } else { FlushState::Idle },
                evicted: false,
                last_error: record.error,
                snapshot: record.snapshot,
                publication_guard: record.publication_guard,
            },
        )
    }

    /// What is kept on disk of this stage.
    pub open spec fn record_model(&self) -> stage::RecoveryModel {
        stage::RecoveryModel {
            key: self.key@,
            size: self.size,
            mtime_secs: self.mtime_secs,
            generation: self.dirty_gen,
            dirty: self.dirty,
            state: state_name(self.state),
            error: text::optional(self.last_error),
            path: self.path@,
            snapshot: stage::snapshot_view(self.snapshot),
            publication_guard: stage::guard_view(self.publication_guard),
            checkpoint_lsn: self.checkpoint_lsn,
            first_dirty_at: self.first_dirty_at,
            wal_bytes: None,
        }
    }

    /// What is kept on disk of this stage.
    pub fn recovery_record(&self) -> (record: StageRecovery)
        ensures
            record@ == self.record_model(),
    {
        let state = match self.state {
            FlushState::Uploading => "uploading",
            FlushState::Paused => "paused",
            FlushState::Failed { .. } => "failed",
            FlushState::Idle => "waiting",
        };
        StageRecovery {
            key: self.key.clone(),
            size: self.size,
            mtime_secs: self.mtime_secs,
            generation: self.dirty_gen,
            dirty: self.dirty,
            state: state.to_owned(),
            error: self.last_error.clone(),
            path: self.path.clone(),
            snapshot: copy_snapshot(&self.snapshot),
            publication_guard: copy_guard(&self.publication_guard),
            checkpoint_lsn: self.checkpoint_lsn,
            first_dirty_at: self.first_dirty_at,
            wal_bytes: None,
        }
    }

    /// Where the record of this stage is kept.
    pub fn manifest_path(&self) -> (path: String)
        ensures
            path@ == paths::extended(self.path@, "stage.json"@),
    {
        with_extension(self.path.as_str(), "stage.json")
    }

    /// Where an interrupted write of this stage is kept.
    pub fn intent_path(&self) -> (path: String)
        ensures
            path@ == paths::extended(self.path@, "write.json"@),
    {
        with_extension(self.path.as_str(), "write.json")
    }

    /// The size that a write leaves the file with. A write that is larger than
    /// a request may be, or that ends past what can be counted, is refused.
    pub fn plan_write(&self, offset: u64, length: usize) -> (size: Result<u64, String>)
        ensures
            size is Ok <==> length <= MAX_WRITE_BYTES && offset + length <= u64::MAX,
            size matches Ok(bytes) ==> bytes == (if offset + length > self.size { offset + length } else { self.size as int }),
            size matches Err(error) ==> error@ == (if length > MAX_WRITE_BYTES {
                "NFS write exceeds the advertised request limit"@
            } else {
                "Write offset overflow"@
            }),
    {
        if length > MAX_WRITE_BYTES {
            return Err("NFS write exceeds the advertised request limit".to_owned());
        }
        match offset.checked_add(length as u64) {
            Some(end) => Ok(if end > self.size { end } else { self.size }),
            None => Err("Write offset overflow".to_owned()),
        }
    }

    /// Whether the stage has no durable record yet and gets one before its
    /// first change.
    pub fn needs_manifest(&self) -> (needed: bool)
        ensures
            needed <==> self.checkpoint_lsn == 0 && self.dirty_gen == 0,
    {
        self.checkpoint_lsn == 0 && self.dirty_gen == 0
    }

    /// Enough was logged for a checkpoint.
    pub open spec fn is_checkpoint_due(self) -> bool {
        self.records_since_checkpoint >= CHECKPOINT_RECORDS || self.bytes_since_checkpoint >= CHECKPOINT_WAL_BYTES
    }

    /// The stage once a change is durable in the log.
    pub open spec fn with_commit(self, plan: ChangePlan, assigned_lsn: u64, record_bytes: u64, now_ms: u64) -> Stage {
        Stage {
            dirty: true,
            dirty_gen: plan.generation,
            first_dirty_at: Some(
                match self.first_dirty_at {
                    Some(at) => at,
                    None => plan.dirty_at_ms,
                },
            ),
            last_write_ms: now_ms,
            next_lsn: (if assigned_lsn == u64::MAX {
                u64::MAX
            } else {
                (assigned_lsn + 1) as u64
            }),
            records_since_checkpoint: (if self.records_since_checkpoint == u64::MAX {
                u64::MAX
            } else {
                (self.records_since_checkpoint + 1) as u64
            }),
            bytes_since_checkpoint: (if self.bytes_since_checkpoint + record_bytes > u64::MAX {
                u64::MAX
            } else {
                (self.bytes_since_checkpoint + record_bytes) as u64
            }),
            ..self
        }
    }

    /// The stage once a change stands in the data file.
    pub open spec fn with_change(self, plan: ChangePlan) -> Stage {
        Stage {
            needs_replay: false,
            size: plan.resulting_size,
            mtime_secs: plan.mtime_secs,
            applied_gen: plan.generation,
            ..self
        }
    }

    /// The stage once an interrupted write was replayed from its own record.
    pub open spec fn is_replayed_from(self, before: Stage, record: StageRecovery, now_ms: u64) -> bool {
        &&& stage::guard_view(self.publication_guard) == stage::guard_view(record.publication_guard)
        &&& self == (Stage {
            size: record.size,
            dirty_gen: record.generation,
            applied_gen: record.generation,
            checkpoint_lsn: record.checkpoint_lsn,
            next_lsn: (if record.checkpoint_lsn == u64::MAX {
                u64::MAX
            } else {
                (record.checkpoint_lsn + 1) as u64
            }),
            records_since_checkpoint: 0,
            bytes_since_checkpoint: 0,
            dirty: record.dirty,
            mtime_secs: record.mtime_secs,
            publication_guard: self.publication_guard,
            first_dirty_at: record.first_dirty_at,
            last_write_ms: now_ms,
            ..before
        })
    }

    /// The stage once the log was replayed up to its newest change.
    pub open spec fn with_newest(self, summary: WalSummary, now_ms: u64) -> Stage {
        Stage {
            size: summary.resulting_size,
            dirty_gen: summary.generation,
            applied_gen: summary.generation,
            next_lsn: summary.next_lsn,
            records_since_checkpoint: 0,
            bytes_since_checkpoint: 0,
            dirty: true,
            mtime_secs: summary.mtime_secs,
            first_dirty_at: Some(
                match self.first_dirty_at {
                    Some(at) => at,
                    None => summary.dirty_at_ms,
                },
            ),
            last_write_ms: now_ms,
            ..self
        }
    }

    /// What a change is logged as: under the next generation and sequence
    /// number, dirty since the first change that was not uploaded yet.
    pub fn plan_change(&self, change: &DurableChange, size: u64, mtime_secs: u32, now_epoch_ms: i64) -> (plan: ChangePlan)
        ensures
            plan.is_of(*self, change@, size, mtime_secs, now_epoch_ms),
    {
        let (is_write, offset, data_growth) = match change {
            DurableChange::Write { offset, data } => (true, *offset, data.len() as u64),
            DurableChange::Resize { .. } => (false, 0u64, size.saturating_sub(self.size)),
        };
        ChangePlan {
            lsn: self.next_lsn,
            generation: self.dirty_gen.saturating_add(1),
            is_write,
            offset,
            resulting_size: size,
            mtime_secs,
            dirty_at_ms: match self.first_dirty_at {
                Some(at) => at,
                None => now_epoch_ms,
            },
            data_growth,
        }
    }

    /// The change is about to be logged: from here on an interruption leaves
    /// it to be replayed.
    pub fn change_started(&mut self)
        ensures
            final(self).well_formed(),
            *final(self) == (Stage { needs_replay: true, wal_tail_repaired: false, ..*old(self) }),
    {
        self.needs_replay = true;
        self.wal_tail_repaired = false;
    }

    /// The change stands whole in the log, but need not survive a crash yet.
    pub fn change_logged(&mut self)
        ensures
            *final(self) == (Stage { wal_tail_repaired: true, ..*old(self) }),
            old(self).well_formed() ==> final(self).well_formed(),
    {
        self.wal_tail_repaired = true;
    }

    /// The change is durable in the log. An older upload in flight can no
    /// longer mark the stage clean, even if applying the change fails now.
    pub fn change_committed(&mut self, plan: &ChangePlan, assigned_lsn: u64, record_bytes: u64, now_ms: u64)
        requires
            old(self).needs_replay,
        ensures
            final(self).well_formed(),
            *final(self) == old(self).with_commit(*plan, assigned_lsn, record_bytes, now_ms),
    {
        self.next_lsn = assigned_lsn.saturating_add(1);
        self.records_since_checkpoint = self.records_since_checkpoint.saturating_add(1);
        self.bytes_since_checkpoint = self.bytes_since_checkpoint.saturating_add(record_bytes);
        self.dirty = true;
        self.dirty_gen = plan.generation;
        if self.first_dirty_at.is_none() {
            self.first_dirty_at = Some(plan.dirty_at_ms);
        }
        self.last_write_ms = now_ms;
    }

    /// The change stands in the data file. Returns whether a checkpoint is due.
    pub fn change_applied(&mut self, plan: &ChangePlan) -> (checkpoint_due: bool)
        requires
            old(self).dirty_gen == plan.generation,
        ensures
            final(self).well_formed(),
            *final(self) == old(self).with_change(*plan),
            checkpoint_due == old(self).is_checkpoint_due(),
    {
        self.needs_replay = false;
        self.size = plan.resulting_size;
        self.mtime_secs = plan.mtime_secs;
        self.applied_gen = plan.generation;
        self.should_checkpoint()
    }

    /// Whether enough was logged for a checkpoint.
    pub fn should_checkpoint(&self) -> (due: bool)
        ensures
            due == self.is_checkpoint_due(),
    {
        self.records_since_checkpoint >= CHECKPOINT_RECORDS || self.bytes_since_checkpoint >= CHECKPOINT_WAL_BYTES
    }

    /// The data file was made durable: the log up to the last record is no
    /// longer needed.
    pub fn checkpoint_reached(&mut self)
        ensures
            *final(self) == (Stage {
                checkpoint_lsn: (if old(self).next_lsn == 0 { 0 } else { (old(self).next_lsn - 1) as u64 }),
                ..*old(self)
            }),
    {
        self.checkpoint_lsn = self.next_lsn.saturating_sub(1);
    }

    /// The checkpoint's record is durable and the log was cut.
    pub fn checkpoint_finished(&mut self)
        ensures
            *final(self) == (Stage { records_since_checkpoint: 0, bytes_since_checkpoint: 0, ..*old(self) }),
    {
        self.records_since_checkpoint = 0;
        self.bytes_since_checkpoint = 0;
    }

    /// An interrupted write was replayed from its own record.
    pub fn intent_replayed(&mut self, record: &StageRecovery, now_ms: u64)
        ensures
            final(self).well_formed(),
            final(self).is_replayed_from(*old(self), *record, now_ms),
    {
        self.size = record.size;
        self.dirty_gen = record.generation;
        self.applied_gen = record.generation;
        self.checkpoint_lsn = record.checkpoint_lsn;
        self.next_lsn = self.checkpoint_lsn.saturating_add(1);
        self.records_since_checkpoint = 0;
        self.bytes_since_checkpoint = 0;
        self.dirty = record.dirty;
        self.mtime_secs = record.mtime_secs;
        self.publication_guard = copy_guard(&record.publication_guard);
        self.first_dirty_at = record.first_dirty_at;
        self.last_write_ms = now_ms;
    }

    /// The log was replayed into the data file. Refused where its newest
    /// record belongs to another object.
    pub fn log_replayed(&mut self, summary: &WalSummary, now_ms: u64) -> (outcome: Result<(), String>)
        ensures
            outcome is Ok <==> old(self).key@ == summary.key@,
            outcome matches Err(error) ==> error@ == "WAL key does not match durable stage manifest"@ && *final(self) == *old(self),
            outcome is Ok ==> final(self).well_formed() && *final(self) == old(self).with_newest(*summary, now_ms),
    {
        if !same_text(self.key.as_str(), summary.key.as_str()) {
            return Err("WAL key does not match durable stage manifest".to_owned());
        }
        self.size = summary.resulting_size;
        self.dirty_gen = summary.generation;
        self.applied_gen = summary.generation;
        self.next_lsn = summary.next_lsn;
        self.records_since_checkpoint = 0;
        self.bytes_since_checkpoint = 0;
        self.dirty = true;
        self.mtime_secs = summary.mtime_secs;
        if self.first_dirty_at.is_none() {
            self.first_dirty_at = Some(summary.dirty_at_ms);
        }
        self.last_write_ms = now_ms;
        Ok(())
    }

    /// The data file is level with the log again.
    pub fn replay_finished(&mut self)
        ensures
            *final(self) == (Stage { needs_replay: false, ..*old(self) }),
            old(self).applied_gen == old(self).dirty_gen ==> final(self).well_formed(),
    {
        self.needs_replay = false;
    }

    /// Bytes of the object that is staged were written at an offset, before
    /// anything of it was changed.
    pub fn bytes_fetched(&mut self, offset: u64, length: u64)
        ensures
            *final(self) == (Stage {
                size: (if offset + length > u64::MAX {
                    u64::MAX
                } else if offset + length > old(self).size {
                    (offset + length) as u64
                } else {
                    old(self).size
                }),
                ..*old(self)
            }),
    {
        let end: u64 = offset.saturating_add(length);
        if end > self.size {
            self.size = end;
        }
    }

    /// How many bytes a read of `count` at `offset` can give, stopping at the
    /// end of the file.
    pub fn readable_bytes(&self, offset: u64, count: usize) -> (available: usize)
        ensures
            available == (if offset >= self.size {
                0
            } else if self.size - offset < count {
                self.size - offset
            } else {
                count as int
            }),
    {
        if offset >= self.size {
            return 0;
        }
        let left: u64 = self.size - offset;
        if left < count as u64 {
            left as usize
        } else {
            count
        }
    }

    /// The snapshot that an upload of this stage is made from: the one taken
    /// before, or a new one of the current generation beside the data file.
    pub fn plan_snapshot(&self) -> (plan: SnapshotPlan)
        ensures
            match plan {
                SnapshotPlan::Reuse { snapshot } => self.snapshot is Some && snapshot@ == (self.snapshot->0)@,
                SnapshotPlan::Take { snapshot } => self.snapshot is None && snapshot@ == (stage::SnapshotModel {
                    path: paths::extended(self.path@, "g"@ + text::decimal(self.dirty_gen as nat) + ".snapshot"@),
                    generation: self.dirty_gen,
                    size: self.size,
                    publication_guard: stage::guard_view(self.publication_guard),
                }),
            },
    {
        match &self.snapshot {
            Some(snapshot) => SnapshotPlan::Reuse { snapshot: snapshot.clone() },
            None => {
                let number = decimal_text(self.dirty_gen);
                let stem = joined("g", number.as_str());
                let extension = joined(stem.as_str(), ".snapshot");
                SnapshotPlan::Take {
                    snapshot: UploadSnapshot {
                        path: with_extension(self.path.as_str(), extension.as_str()),
                        generation: self.dirty_gen,
                        size: self.size,
                        publication_guard: copy_guard(&self.publication_guard),
                    },
                }
            },
        }
    }

    /// Whether the scanner should upload this stage now.
    pub fn is_due(&self, now_ms: u64) -> (due: bool)
        ensures
            due == stage::is_flush_due(
                self.dirty,
                self.flush_requested,
                self.state,
                (if now_ms > self.last_write_ms { (now_ms - self.last_write_ms) as u64 } else { 0 }),
                now_ms,
            ),
    {
        should_flush(self.dirty, self.flush_requested, self.state, now_ms.saturating_sub(self.last_write_ms), now_ms)
    }

    /// The bytes that this stage and its snapshot take up.
    pub fn reservation_bytes(&self) -> (bytes: u64)
        ensures
            bytes == ({
                let snapshot = if self.snapshot is Some { (self.snapshot->0).size } else { 0 };
                if self.size + snapshot > u64::MAX {
                    u64::MAX as int
                } else {
                    self.size + snapshot
                }
            }),
    {
        let snapshot: u64 = match &self.snapshot {
            Some(snapshot) => snapshot.size,
            None => 0,
        };
        self.size.saturating_add(snapshot)
    }
}

/// A stage comes back from its own record as it was: with its object, its
/// content's size and time, what it may replace, its snapshot and what went
/// wrong. If it was dirty it is due at once, unless it waits for a rename.
pub proof fn a_stage_comes_back_from_its_record(stage: Stage, record: StageRecovery, restored: Stage, now_ms: u64)
    requires
        record@ == stage.record_model(),
        restored.is_restored(record, now_ms),
    ensures
        restored.record_model() == (stage::RecoveryModel { state: restored.record_model().state, ..stage.record_model() }),
        stage.dirty && text::optional(stage.last_error) != Some(rename_fence_error()) ==> stage::is_flush_due(
            restored.dirty,
            restored.flush_requested,
            restored.state,
            0,
            now_ms,
        ),
{
    assert(restored.record_model() =~= (stage::RecoveryModel { state: restored.record_model().state, ..stage.record_model() }));
}

/// A change that has become durable keeps every earlier upload from settling
/// the stage.
pub proof fn a_durable_change_outlives_earlier_uploads(stage: Stage, plan: ChangePlan, uploaded_gen: u64)
    requires
        stage.dirty_gen < u64::MAX,
        plan.generation == stage.dirty_gen + 1,
        uploaded_gen <= stage.dirty_gen,
    ensures
        uploaded_gen != plan.generation,
{
}

/// A change leaves the file as long as it says: a write never makes it
/// shorter, and reaches exactly to its end where that lies behind the file's;
/// a resize gives it the size asked for.
pub proof fn a_change_decides_the_size(size: int, change: ChangeModel)
    requires
        0 <= size,
    ensures
        change matches ChangeModel::Resize { size: wanted } ==> size_after(size, change) == wanted,
        change matches ChangeModel::Write { offset, data } ==> {
            &&& size_after(size, change) >= size
            &&& size_after(size, change) >= offset + data.len()
            &&& size_after(size, change) == size || size_after(size, change) == offset + data.len()
        },
{
}

/// A step on the file writes its bytes at its offset and nothing else, or cuts
/// and extends it.
pub proof fn a_step_does_what_it_says(content: Seq<u8>, step: FileStep, place: int)
    requires
        0 <= place < stepped(content, step).len(),
    ensures
        step matches FileStep::WriteAt { offset, data } ==> {
            &&& offset <= place < offset + data@.len() ==> stepped(content, step)[place] == data@[place - offset]
            &&& !(offset <= place < offset + data@.len()) && place < content.len() ==> stepped(content, step)[place] == content[place]
            &&& !(offset <= place < offset + data@.len()) && place >= content.len() ==> stepped(content, step)[place] == 0
            &&& stepped(content, step).len() >= content.len()
        },
        step matches FileStep::SetLength { size } ==> {
            &&& stepped(content, step).len() == size
            &&& place < content.len() ==> stepped(content, step)[place] == content[place]
            &&& place >= content.len() ==> stepped(content, step)[place] == 0
        },
{
}

/// A replay of an interrupted write writes its bytes at its offset, and leaves
/// all others.
pub proof fn a_replay_writes_what_was_recorded(content: Seq<u8>, change: ChangeModel, place: int)
    requires
        0 <= place < replayed(content, change).len(),
        change matches ChangeModel::Write { offset, .. } ==> 0 <= offset,
        change matches ChangeModel::Resize { size } ==> 0 <= size,
    ensures
        change matches ChangeModel::Write { offset, data } ==> {
            &&& offset <= place < offset + data.len() ==> replayed(content, change)[place] == data[place - offset]
            &&& !(offset <= place < offset + data.len()) && place < content.len() ==> replayed(content, change)[place] == content[place]
            &&& replayed(content, change).len() >= content.len()
        },
        change matches ChangeModel::Resize { size } ==> {
            &&& replayed(content, change).len() == size
            &&& place < content.len() ==> replayed(content, change)[place] == content[place]
        },
{
}

/// The names of the states in a record tell them apart.
pub proof fn each_state_has_its_name(state: FlushState)
    ensures
        state_name(state) == "uploading"@ <==> state == FlushState::Uploading,
        state_name(state) == "paused"@ <==> state == FlushState::Paused,
        state_name(state) == "failed"@ <==> state is Failed,
        state_name(state) == "waiting"@ <==> state == FlushState::Idle,
{
    reveal_strlit("uploading");
    reveal_strlit("paused");
    reveal_strlit("failed");
    reveal_strlit("waiting");
    assert("paused"@[0] == 'p');
    assert("failed"@[0] == 'f');
    assert("waiting"@.len() == 7);
    assert("uploading"@.len() == 9);
}

/// A change counts up the generation and takes the next place in the log. The
/// stage is dirty since the first change that was not uploaded.
pub proof fn a_change_is_planned_behind_all_others(plan: ChangePlan, stage: Stage, change: ChangeModel, size: u64, mtime_secs: u32, now_epoch_ms: i64)
    requires
        plan.is_of(stage, change, size, mtime_secs, now_epoch_ms),
        stage.dirty_gen < u64::MAX,
    ensures
        plan.generation == stage.dirty_gen + 1,
        plan.lsn == stage.next_lsn,
        plan.resulting_size == size,
        plan.mtime_secs == mtime_secs,
        stage.first_dirty_at is Some ==> plan.dirty_at_ms == stage.first_dirty_at->0,
        stage.first_dirty_at is None ==> plan.dirty_at_ms == now_epoch_ms,
        change matches ChangeModel::Write { offset, data } ==> plan.is_write && plan.offset == offset && plan.data_growth == data.len(),
        change matches ChangeModel::Resize { .. } ==> !plan.is_write && plan.offset == 0 && (size >= stage.size ==> plan.data_growth == size
            - stage.size) && (size <= stage.size ==> plan.data_growth == 0),
{
}

/// A stage that is taken up has the content, the size and the guard of its
/// record, is uploaded at once, and goes on in the log behind its checkpoint.
/// It is paused exactly where it waits for a rename.
pub proof fn a_stage_is_taken_up_as_it_was_recorded(stage: Stage, record: StageRecovery, now_ms: u64)
    requires
        stage.is_restored(record, now_ms),
    ensures
        stage.key == record.key,
        stage.path == record.path,
        stage.size == record.size,
        stage.mtime_secs == record.mtime_secs,
        stage.dirty == record.dirty,
        stage.dirty_gen == record.generation,
        stage.snapshot == record.snapshot,
        stage.publication_guard == record.publication_guard,
        stage.first_dirty_at == record.first_dirty_at,
        stage.last_error == record.error,
        stage.checkpoint_lsn == record.checkpoint_lsn,
        record.checkpoint_lsn < u64::MAX ==> stage.next_lsn == record.checkpoint_lsn + 1,
        stage.flush_requested,
        !stage.needs_replay,
        !stage.evicted,
        stage.state == FlushState::Paused <==> record.error is Some && (record.error->0)@
            == "Destination replacement pending; retained for recovery"@,
        stage.state == FlushState::Paused || stage.state == FlushState::Idle,
{
}

/// A checkpoint is due after two hundred and fifty-six records, or thirty-two
/// mebibytes of log, and not before.
pub proof fn a_checkpoint_is_due_by_records_or_bytes(stage: Stage)
    ensures
        stage.is_checkpoint_due() <==> stage.records_since_checkpoint >= 256 || stage.bytes_since_checkpoint >= 33_554_432,
{
}

/// A durable change leaves the stage dirty under its generation, and counts
/// toward the next checkpoint. The content as it stands in the data file is
/// not touched by it.
pub proof fn a_durable_change_is_accounted(stage: Stage, plan: ChangePlan, assigned_lsn: u64, record_bytes: u64, now_ms: u64)
    requires
        assigned_lsn < u64::MAX,
        stage.records_since_checkpoint < u64::MAX,
        stage.bytes_since_checkpoint + record_bytes <= u64::MAX,
    ensures
        ({
            let after = stage.with_commit(plan, assigned_lsn, record_bytes, now_ms);
            &&& after.dirty
            &&& after.dirty_gen == plan.generation
            &&& after.next_lsn == assigned_lsn + 1
            &&& after.records_since_checkpoint == stage.records_since_checkpoint + 1
            &&& after.bytes_since_checkpoint == stage.bytes_since_checkpoint + record_bytes
            &&& after.last_write_ms == now_ms
            &&& after.first_dirty_at is Some
            &&& stage.first_dirty_at is Some ==> after.first_dirty_at == stage.first_dirty_at
            &&& stage.first_dirty_at is None ==> after.first_dirty_at == Some(plan.dirty_at_ms)
            &&& after.size == stage.size
            &&& after.applied_gen == stage.applied_gen
            &&& after.needs_replay == stage.needs_replay
            &&& after.checkpoint_lsn == stage.checkpoint_lsn
            &&& after.key == stage.key
            &&& after.snapshot == stage.snapshot
            &&& after.publication_guard == stage.publication_guard
            &&& after.state == stage.state
        }),
{
}

/// An applied change gives the stage its size and its time, and settles the
/// replay.
pub proof fn an_applied_change_settles_the_replay(stage: Stage, plan: ChangePlan)
    ensures
        !stage.with_change(plan).needs_replay,
        stage.with_change(plan).size == plan.resulting_size,
        stage.with_change(plan).mtime_secs == plan.mtime_secs,
        stage.with_change(plan).applied_gen == plan.generation,
        stage.with_change(plan).dirty == stage.dirty,
        stage.with_change(plan).dirty_gen == stage.dirty_gen,
        stage.with_change(plan).next_lsn == stage.next_lsn,
        stage.with_change(plan).publication_guard == stage.publication_guard,
        stage.with_change(plan).snapshot == stage.snapshot,
        stage.with_change(plan).key == stage.key,
{
}

/// A stage that was brought level with its log is dirty, as large as its
/// newest change left it, and goes on behind that change.
pub proof fn a_stage_is_brought_level_with_its_log(stage: Stage, summary: WalSummary, now_ms: u64)
    ensures
        ({
            let after = stage.with_newest(summary, now_ms);
            &&& after.dirty
            &&& after.size == summary.resulting_size
            &&& after.dirty_gen == summary.generation
            &&& after.applied_gen == summary.generation
            &&& after.next_lsn == summary.next_lsn
            &&& after.mtime_secs == summary.mtime_secs
            &&& after.first_dirty_at is Some
            &&& stage.first_dirty_at is Some ==> after.first_dirty_at == stage.first_dirty_at
            &&& stage.first_dirty_at is None ==> after.first_dirty_at == Some(summary.dirty_at_ms)
            &&& after.key == stage.key
            &&& after.path == stage.path
            &&& after.checkpoint_lsn == stage.checkpoint_lsn
            &&& after.publication_guard == stage.publication_guard
            &&& after.snapshot == stage.snapshot
        }),
{
}

/// A stage that was brought level with an interrupted write is what that
/// write's record says.
pub proof fn an_interrupted_write_is_taken_over(before: Stage, after: Stage, record: StageRecovery, now_ms: u64)
    requires
        after.is_replayed_from(before, record, now_ms),
    ensures
        after.size == record.size,
        after.dirty == record.dirty,
        after.dirty_gen == record.generation,
        after.applied_gen == record.generation,
        after.mtime_secs == record.mtime_secs,
        after.checkpoint_lsn == record.checkpoint_lsn,
        record.checkpoint_lsn < u64::MAX ==> after.next_lsn == record.checkpoint_lsn + 1,
        after.first_dirty_at == record.first_dirty_at,
        after.publication_guard is Some <==> record.publication_guard is Some,
        record.publication_guard is Some ==> (after.publication_guard->0)@ == (record.publication_guard->0)@,
        after.key == before.key,
        after.path == before.path,
        after.snapshot == before.snapshot,
        after.records_since_checkpoint == 0,
        after.bytes_since_checkpoint == 0,
{
}

/// The record of a stage holds everything that the stage is taken up from.
pub proof fn a_record_holds_what_the_stage_is(stage: Stage)
    ensures
        stage.record_model().key == stage.key@,
        stage.record_model().path == stage.path@,
        stage.record_model().size == stage.size,
        stage.record_model().mtime_secs == stage.mtime_secs,
        stage.record_model().generation == stage.dirty_gen,
        stage.record_model().dirty == stage.dirty,
        stage.record_model().checkpoint_lsn == stage.checkpoint_lsn,
        stage.record_model().first_dirty_at == stage.first_dirty_at,
        stage.record_model().wal_bytes is None,
        stage.record_model().error is Some <==> stage.last_error is Some,
        stage.last_error is Some ==> stage.record_model().error->0 == (stage.last_error->0)@,
        stage.record_model().snapshot is Some <==> stage.snapshot is Some,
        stage.snapshot is Some ==> stage.record_model().snapshot->0 == (stage.snapshot->0)@,
        stage.record_model().publication_guard is Some <==> stage.publication_guard is Some,
        stage.publication_guard is Some ==> stage.record_model().publication_guard->0 == (stage.publication_guard->0)@,
        stage.state == FlushState::Uploading ==> stage.record_model().state == "uploading"@,
        stage.state == FlushState::Paused ==> stage.record_model().state == "paused"@,
        stage.state is Failed ==> stage.record_model().state == "failed"@,
        stage.state == FlushState::Idle ==> stage.record_model().state == "waiting"@,
{
}

/// A new stage is empty and clean, and begins its log at one.
pub proof fn a_new_stage_is_clean(path: String, key: String, mtime_secs: u32, now_ms: u64, created: Stage)
    requires
        call_ensures(Stage::create, (path, key, mtime_secs, now_ms), created),
    ensures
        created.path == path,
        created.key == key,
        created.mtime_secs == mtime_secs,
        created.size == 0,
        !created.dirty,
        !created.evicted,
        !created.needs_replay,
        !created.flush_requested,
        created.next_lsn == 1,
        created.checkpoint_lsn == 0,
        created.dirty_gen == 0,
        created.state == FlushState::Idle,
        created.snapshot is None,
        created.publication_guard is None,
        created.last_error is None,
        created.first_dirty_at is None,
{
}

/// A stage is taken up only where its data file has the size that its record
/// says.
pub proof fn a_stage_of_another_size_is_not_taken_up(record: StageRecovery, file_length: u64, now_ms: u64, restored: Result<Stage, String>)
    requires
        call_ensures(Stage::restore, (record, file_length, now_ms), restored),
    ensures
        restored is Ok <==> file_length == record.size,
        restored is Ok ==> restored->Ok_0.size == record.size && restored->Ok_0.key == record.key && restored->Ok_0.dirty == record.dirty
            && restored->Ok_0.publication_guard == record.publication_guard && restored->Ok_0.flush_requested,
{
}

/// A write of more than a mebibyte, or past what can be counted, is refused;
/// any other leaves the file as long as it was, or as far as it reaches.
pub proof fn a_write_is_admitted_up_to_a_mebibyte(stage: Stage, offset: u64, length: usize, size: Result<u64, String>)
    requires
        call_ensures(Stage::plan_write, (&stage, offset, length), size),
    ensures
        size is Ok <==> length <= 1_048_576 && offset + length <= u64::MAX,
        size is Ok ==> size->Ok_0 >= stage.size && size->Ok_0 >= offset + length && (size->Ok_0 == stage.size || size->Ok_0 == offset + length),
        length > 1_048_576 ==> size is Err && (size->Err_0)@ == "NFS write exceeds the advertised request limit"@,
{
}

/// A stage gets its record before its first change.
pub proof fn a_stage_is_recorded_before_its_first_change(stage: Stage, needed: bool)
    requires
        call_ensures(Stage::needs_manifest, (&stage,), needed),
    ensures
        needed <==> stage.checkpoint_lsn == 0 && stage.dirty_gen == 0,
{
}

/// From the moment a change is about to be logged until it stands in the data
/// file, an interruption leaves it to be replayed. A checkpoint lies before
/// the next place in the log, and ends the count toward the next one.
pub proof fn a_change_is_replayed_until_it_is_applied()
    ensures
        forall|stage: &mut Stage| #[trigger]
            call_ensures(Stage::change_started, (stage,), ()) ==> final(stage).needs_replay && !final(stage).wal_tail_repaired
                && final(stage).size == (*stage).size && final(stage).dirty_gen == (*stage).dirty_gen && final(stage).next_lsn
                == (*stage).next_lsn,
        forall|stage: &mut Stage| #[trigger]
            call_ensures(Stage::change_logged, (stage,), ()) ==> final(stage).wal_tail_repaired && final(stage).needs_replay
                == (*stage).needs_replay && final(stage).dirty_gen == (*stage).dirty_gen,
        forall|stage: &mut Stage| #[trigger]
            call_ensures(Stage::checkpoint_reached, (stage,), ()) && (*stage).next_lsn > 0 ==> final(stage).checkpoint_lsn + 1
                == (*stage).next_lsn && final(stage).next_lsn == (*stage).next_lsn && final(stage).dirty == (*stage).dirty
                && final(stage).records_since_checkpoint == (*stage).records_since_checkpoint,
        forall|stage: &mut Stage| #[trigger]
            call_ensures(Stage::checkpoint_finished, (stage,), ()) ==> final(stage).records_since_checkpoint == 0
                && final(stage).bytes_since_checkpoint == 0 && final(stage).checkpoint_lsn == (*stage).checkpoint_lsn && final(stage).dirty
                == (*stage).dirty,
        forall|stage: &mut Stage| #[trigger]
            call_ensures(Stage::replay_finished, (stage,), ()) ==> !final(stage).needs_replay && final(stage).size == (*stage).size
                && final(stage).dirty == (*stage).dirty && final(stage).dirty_gen == (*stage).dirty_gen,
{
}

/// Content that was fetched makes the stage as long as it reaches, never
/// shorter, and not dirty.
pub proof fn fetched_content_makes_no_stage_dirty(offset: u64, length: u64)
    requires
        offset + length <= u64::MAX,
    ensures
        forall|stage: &mut Stage| #[trigger]
            call_ensures(Stage::bytes_fetched, (stage, offset, length), ()) ==> {
                &&& final(stage).size >= (*stage).size
                &&& final(stage).size >= offset + length
                &&& final(stage).size == (*stage).size || final(stage).size == offset + length
                &&& final(stage).dirty == (*stage).dirty
                &&& final(stage).dirty_gen == (*stage).dirty_gen
            },
{
}

/// A read of staged content ends with the content.
pub proof fn a_staged_read_ends_with_the_content(stage: Stage, offset: u64, count: usize, available: usize)
    requires
        call_ensures(Stage::readable_bytes, (&stage, offset, count), available),
    ensures
        available <= count,
        offset < stage.size ==> offset + available <= stage.size,
        offset >= stage.size ==> available == 0,
        offset + count <= stage.size ==> available == count,
        offset < stage.size && stage.size < offset + count ==> offset + available == stage.size,
{
}

/// A snapshot that was not settled is used again; a new one is of the content
/// as it stands, and may replace what the stage may.
pub proof fn an_unsettled_snapshot_is_used_again(stage: Stage, plan: SnapshotPlan)
    requires
        call_ensures(Stage::plan_snapshot, (&stage,), plan),
    ensures
        plan is Reuse <==> stage.snapshot is Some,
        plan matches SnapshotPlan::Reuse { snapshot } ==> snapshot@ == (stage.snapshot->0)@,
        plan matches SnapshotPlan::Take { snapshot } ==> snapshot.generation == stage.dirty_gen && snapshot.size == stage.size && (
        snapshot.publication_guard is Some <==> stage.publication_guard is Some),
        plan matches SnapshotPlan::Take { snapshot } ==> stage.publication_guard is Some ==> snapshot@.publication_guard == Some(
            (stage.publication_guard->0)@,
        ),
{
}

/// A stage holds room for its content and for the snapshot it has.
pub proof fn a_stage_holds_room_for_content_and_snapshot(stage: Stage, bytes: u64)
    requires
        call_ensures(Stage::reservation_bytes, (&stage,), bytes),
    ensures
        stage.snapshot is None ==> bytes == stage.size,
        stage.snapshot is Some && stage.size + stage.snapshot->0.size <= u64::MAX ==> bytes == stage.size + stage.snapshot->0.size,
{
}

/// A log of another key is refused and changes nothing.
pub proof fn a_log_of_another_key_is_refused(summary: WalSummary, now_ms: u64)
    ensures
        forall|stage: &mut Stage, outcome: Result<(), String>| #[trigger]
            call_ensures(Stage::log_replayed, (stage, &summary, now_ms), outcome) ==> {
                &&& outcome is Ok <==> (*stage).key@ == summary.key@
                &&& outcome is Err ==> *final(stage) == *stage
                &&& outcome is Ok ==> final(stage).size == summary.resulting_size && final(stage).dirty && final(stage).next_lsn
                    == summary.next_lsn
            },
{
}

} // verus!
