//! When staged files are uploaded, and what an upload leaves of them.

use vstd::prelude::*;
use crate::journal;
use crate::journal::UploadFailure;
use crate::keys::rewrite_key;
use crate::stage;
use crate::stage::{can_evict, upload_settles_stage, FlushState, PublicationGuard, UploadSnapshot, FLUSH_RETRY_COOLDOWN_MS};
use crate::stage_state;
use crate::stage_state::Stage;
use crate::text;
use crate::text::{has_prefix, same_text};

verus! {

/// Times an operation derives the key it has to fence anew after finding that
/// a rename moved it during the wait. Each retry follows a rename that
/// completed in between, so running out means the name is being moved
/// continuously and the client is told to try again later.
pub const FENCED_KEY_ATTEMPTS: usize = 16;

/// What an upload of a stage waits for.
pub enum FlushStep {
    /// Nothing is to be uploaded.
    Nothing,
    /// It is not uploaded now.
    Refused(UploadFailure),
    /// Its journal is to be read: only a publication whose outcome is open may
    /// go on.
    AskJournal,
    /// It is to be uploaded.
    Upload,
}

/// What keeps an upload of a key from beginning.
pub open spec fn entry_complaint(rename_available: bool, namespace_note: Result<bool, String>) -> Option<Seq<char>> {
    if !rename_available {
        Some("Rename outcome is pending; publication paused"@)
    } else {
        match namespace_note {
            Err(message) => Some(message@),
            Ok(true) => Some("Namespace mutation outcome is unknown; publication paused"@),
            Ok(false) => None,
        }
    }
}

/// Whether an upload may begin at all: not while a rename or another change of
/// the same key is open.
pub fn publication_gate(rename_available: bool, namespace_note: Result<bool, String>) -> (gate: Result<(), UploadFailure>)
    ensures
        match (gate, entry_complaint(rename_available, namespace_note)) {
            (Ok(()), complaint) => complaint is None,
            (Err(failure), complaint) => complaint is Some && failure@ == journal::local_failure(complaint->0),
        },
{
    if !rename_available {
        return Err(UploadFailure::local("Rename outcome is pending; publication paused"));
    }
    match namespace_note {
        Err(message) => Err(UploadFailure::local(message.as_str())),
        Ok(true) => Err(UploadFailure::local("Namespace mutation outcome is unknown; publication paused")),
        Ok(false) => Ok(()),
    }
}

/// The failed upload of this stage is not to be tried again yet.
pub open spec fn is_cooling_down(state: FlushState, now_ms: u64) -> bool {
    state matches FlushState::Failed { retry_after_ms } && retry_after_ms > now_ms
}

/// Why a paused stage is not uploaded.
pub open spec fn pause_reason(stage: Stage) -> Seq<char> {
    match text::optional(stage.last_error) {
        Some(error) => error,
        None => "Upload requires recovery"@,
    }
}

/// What an upload step says, as text.
pub ghost enum FlushStepModel {
    Nothing,
    Refused(journal::FailureModel),
    AskJournal,
    Upload,
}

pub open spec fn step_view(step: FlushStep) -> FlushStepModel {
    match step {
        FlushStep::Nothing => FlushStepModel::Nothing,
        FlushStep::Refused(failure) => FlushStepModel::Refused(failure@),
        FlushStep::AskJournal => FlushStepModel::AskJournal,
        FlushStep::Upload => FlushStepModel::Upload,
    }
}

/// Whether a stage is uploaded now.
pub open spec fn step_of(stage: Stage, now_ms: u64, explicit: bool) -> FlushStepModel {
    if !stage.dirty {
        FlushStepModel::Nothing
    } else if is_cooling_down(stage.state, now_ms) {
        FlushStepModel::Refused(journal::local_failure("Retry is scheduled after the current cooldown"@))
    } else if stage.state != FlushState::Paused {
        FlushStepModel::Upload
    } else if explicit && stage.snapshot is Some {
        FlushStepModel::AskJournal
    } else {
        FlushStepModel::Refused(journal::local_failure(pause_reason(stage)))
    }
}

/// Whether a stage is uploaded now. Only an explicit request takes up a paused
/// one, and only where it has a snapshot whose publication may be open.
pub fn flush_step(stage: &Stage, now_ms: u64, explicit: bool) -> (step: FlushStep)
    ensures
        step_view(step) == step_of(*stage, now_ms, explicit),
{
    if !stage.dirty {
        return FlushStep::Nothing;
    }
    match stage.state {
        FlushState::Failed { retry_after_ms } => {
            if retry_after_ms > now_ms {
                return FlushStep::Refused(UploadFailure::local("Retry is scheduled after the current cooldown"));
            }
        },
        _ => {},
    }
    if stage.state != FlushState::Paused {
        return FlushStep::Upload;
    }
    if explicit && stage.snapshot.is_some() {
        return FlushStep::AskJournal;
    }
    FlushStep::Refused(paused_failure(stage))
}

fn paused_failure(stage: &Stage) -> (failure: UploadFailure)
    ensures
        failure@ == journal::local_failure(pause_reason(*stage)),
{
    match &stage.last_error {
        Some(error) => UploadFailure::local(error.as_str()),
        None => UploadFailure::local("Upload requires recovery"),
    }
}

/// Whether a paused stage is taken up.
pub open spec fn paused_step_of(stage: Stage, completing: Result<bool, String>) -> FlushStepModel {
    match completing {
        Err(message) => FlushStepModel::Refused(journal::local_failure(message@)),
        Ok(open) => if open && text::optional(stage.last_error) != Some(stage_state::rename_fence_error()) {
            FlushStepModel::Upload
        } else {
            FlushStepModel::Refused(journal::local_failure(pause_reason(stage)))
        },
    }
}

/// Whether a paused stage is taken up, by whether its journal says that the
/// publishing request may have been sent. One that waits for a rename which
/// was about to replace its object stays as it is.
pub fn paused_flush_step(stage: &Stage, completing: Result<bool, String>) -> (step: FlushStep)
    ensures
        step_view(step) == paused_step_of(*stage, completing),
{
    match completing {
        Err(message) => FlushStep::Refused(UploadFailure::local(message.as_str())),
        Ok(open) => {
            let fenced = match &stage.last_error {
                Some(error) => same_text(error.as_str(), "Destination replacement pending; retained for recovery"),
                None => false,
            };
            if open && !fenced {
                FlushStep::Upload
            } else {
                FlushStep::Refused(paused_failure(stage))
            }
        },
    }
}

/// An upload of this snapshot begins.
pub fn begin_upload(stage: &mut Stage, snapshot: UploadSnapshot)
    ensures
        *final(stage) == (Stage { state: FlushState::Uploading, snapshot: Some(snapshot), ..*old(stage) }),
{
    stage.state = FlushState::Uploading;
    stage.snapshot = Some(snapshot);
}

/// What a successful upload of this generation leaves of a stage.
pub open spec fn is_settled(before: Stage, after: Stage, etag: Seq<char>, uploaded_gen: u64) -> bool {
    let clean = uploaded_gen == before.dirty_gen;
    &&& stage::guard_view(after.publication_guard) == Some(stage::GuardModel::Match { etag })
    &&& after == (Stage {
        publication_guard: after.publication_guard,
        state: FlushState::Idle,
        last_error: None,
        snapshot: None,
        dirty: (if clean {
            false
        } else {
            before.dirty
        }),
        first_dirty_at: (if clean {
            None
        } else {
            before.first_dirty_at
        }),
        flush_requested: (if clean {
            false
        } else {
            before.flush_requested
        }),
        ..before
    })
}

/// An upload succeeded: the object with this tag is what the stage may replace
/// next. Returns whether the stage is clean now; a write that came in the
/// meantime keeps it dirty.
pub fn settle_success(stage: &mut Stage, etag: String, uploaded_gen: u64) -> (clean: bool)
    ensures
        clean == (uploaded_gen == old(stage).dirty_gen),
        is_settled(*old(stage), *final(stage), etag@, uploaded_gen),
{
    stage.publication_guard = Some(PublicationGuard::Match { etag });
    stage.state = FlushState::Idle;
    stage.last_error = None;
    stage.snapshot = None;
    let clean = upload_settles_stage(uploaded_gen, stage.dirty_gen);
    if clean {
        stage.dirty = false;
        stage.first_dirty_at = None;
        stage.flush_requested = false;
    }
    clean
}

/// The state that a failed upload leaves: it is tried again after a while
/// where that may help, or where it may have happened and a guard keeps a
/// second try from doing harm; otherwise it waits for the user.
pub open spec fn state_after_failure(failure: journal::FailureModel, guarded: bool, now_ms: u64) -> FlushState {
    if failure.retryable || (failure.uncertain && guarded) {
        FlushState::Failed { retry_after_ms: (now_ms + FLUSH_RETRY_COOLDOWN_MS) as u64 }
    } else {
        FlushState::Paused
    }
}

/// An upload failed. Nothing of what is staged is given up.
pub fn settle_failure(stage: &mut Stage, failure: &UploadFailure, guarded: bool, now_ms: u64)
    requires
        now_ms + FLUSH_RETRY_COOLDOWN_MS <= u64::MAX,
    ensures
        text::optional(final(stage).last_error) == Some(failure@.message),
        *final(stage) == (Stage {
            last_error: final(stage).last_error,
            state: state_after_failure(failure@, guarded, now_ms),
            ..*old(stage)
        }),
{
    stage.last_error = Some(failure.message.clone());
    stage.state = if failure.retryable || (failure.uncertain && guarded) {
        FlushState::Failed { retry_after_ms: now_ms + FLUSH_RETRY_COOLDOWN_MS }
    } else {
        FlushState::Paused
    };
}

/// A write that lands while an upload is under way is never lost: the upload
/// does not make the stage clean, so that it is uploaded again.
pub proof fn a_write_during_an_upload_keeps_the_stage_dirty(before: Stage, after: Stage, etag: Seq<char>, uploaded_gen: u64)
    requires
        uploaded_gen < before.dirty_gen,
        before.dirty,
        is_settled(before, after, etag, uploaded_gen),
    ensures
        after.dirty,
        after.dirty_gen == before.dirty_gen,
        stage::is_flush_due(after.dirty, true, after.state, 0, 0),
{
}

/// A stage after a failed upload is not due before its cooldown is over.
pub proof fn a_failed_upload_cools_down(failure: journal::FailureModel, guarded: bool, failed_at_ms: u64, now_ms: u64, dirty: bool, idle_for_ms: u64)
    requires
        failed_at_ms + FLUSH_RETRY_COOLDOWN_MS <= u64::MAX,
        now_ms < failed_at_ms + FLUSH_RETRY_COOLDOWN_MS,
    ensures
        !stage::is_flush_due(dirty, true, state_after_failure(failure, guarded, failed_at_ms), idle_for_ms, now_ms),
{
}

/// Whether the scanner takes this stage up.
pub fn is_flush_candidate(stage: &Stage, now_ms: u64) -> (candidate: bool)
    ensures
        candidate == (!stage.evicted && stage::is_flush_due(
            stage.dirty,
            stage.flush_requested,
            stage.state,
            (if now_ms > stage.last_write_ms {
                (now_ms - stage.last_write_ms) as u64
            } else {
                0
            }),
            now_ms,
        )),
{
    !stage.evicted && stage.is_due(now_ms)
}

/// What is to be done after the fences of a key were waited for.
#[derive(Clone, Copy, Debug, PartialEq, Eq, Structural)]
pub enum FencedStep {
    /// The file has gone.
    Gone,
    /// The key is still the one that was fenced.
    Ready,
    /// A rename moved the file during the wait: its key is to be derived anew.
    Again,
}

/// What is to be done after the fences of `key` were waited for, by the key
/// that the file has now.
pub fn fenced_step(key: &str, current: Option<&str>) -> (step: FencedStep)
    ensures
        step == (match current {
            None => FencedStep::Gone,
            Some(now) => if now@ == key@ {
                FencedStep::Ready
            } else {
                FencedStep::Again
            },
        }),
{
    match current {
        None => FencedStep::Gone,
        Some(now) => if same_text(now, key) {
            FencedStep::Ready
        } else {
            FencedStep::Again
        },
    }
}

/// The attempts at a fence that are left.
pub struct FenceAttempts {
    pub left: usize,
}

impl FenceAttempts {
    /// All attempts are left.
    pub fn new() -> (attempts: Self)
        ensures
            attempts.left == FENCED_KEY_ATTEMPTS,
    {
        FenceAttempts { left: FENCED_KEY_ATTEMPTS }
    }

    /// Takes one attempt, if one is left.
    pub fn take(&mut self) -> (taken: bool)
        ensures
            taken == (old(self).left > 0),
            final(self).left == (if old(self).left > 0 {
                old(self).left - 1
            } else {
                0
            }),
    {
        if self.left > 0 {
            self.left = self.left - 1;
            true
        } else {
            false
        }
    }
}

/// The failure of an upload whose file kept moving.
pub fn kept_moving() -> (failure: UploadFailure)
    ensures
        failure@ == (journal::FailureModel {
            message: "Staged file kept moving; publication deferred"@,
            retryable: true,
            uncertain: false,
        }),
{
    UploadFailure { message: "Staged file kept moving; publication deferred".to_owned(), retryable: true, uncertain: false }
}

/// Drops a stage whose content is safely in the bucket. Returns whether its
/// files may be removed.
pub fn evict(stage: &mut Stage) -> (evicted: bool)
    ensures
        evicted == (!old(stage).evicted && !old(stage).dirty && old(stage).state == FlushState::Idle),
        *final(stage) == (if evicted {
            Stage { evicted: true, ..*old(stage) }
        } else {
            *old(stage)
        }),
{
    if stage.evicted || !can_evict(stage.dirty, stage.state) {
        return false;
    }
    stage.evicted = true;
    true
}

/// Drops a stage whatever it holds: its object is deleted or replaced.
pub fn discard(stage: &mut Stage)
    ensures
        *final(stage) == (Stage { evicted: true, ..*old(stage) }),
{
    stage.evicted = true;
}

/// Nothing is uploading any more, whatever the stage says: a stage left marked
/// as uploading would be skipped by the drain that follows.
pub fn reset_flush_state(stage: &mut Stage)
    ensures
        *final(stage) == (if !old(stage).evicted && old(stage).state == FlushState::Uploading {
            Stage { state: FlushState::Idle, ..*old(stage) }
        } else {
            *old(stage)
        }),
{
    if !stage.evicted && stage.state == FlushState::Uploading {
        stage.state = FlushState::Idle;
    }
}

/// Points a stage at the key that its content belongs to after a rename of the
/// directory it lies in. Returns whether it lies there.
pub fn rekey_under(stage: &mut Stage, from_prefix: &str, to_prefix: &str) -> (moved: bool)
    ensures
        moved == from_prefix@.is_prefix_of(old(stage).key@),
        final(stage).key@ == (if moved {
            to_prefix@ + old(stage).key@.skip(from_prefix@.len() as int)
        } else {
            old(stage).key@
        }),
        *final(stage) == (Stage { key: final(stage).key, ..*old(stage) }),
{
    match rewrite_key(stage.key.as_str(), from_prefix, to_prefix) {
        Some(key) => {
            stage.key = key;
            true
        },
        None => false,
    }
}

/// Whether a stage lies below a directory: a rename of the directory moves it
/// too.
pub fn is_staged_under(stage: &Stage, prefix: &str) -> (below: bool)
    ensures
        below == (!stage.evicted && prefix@.is_prefix_of(stage.key@)),
{
    !stage.evicted && has_prefix(stage.key.as_str(), prefix)
}

/// Whether what is staged is not in the bucket yet.
pub fn is_unpublished(stage: &Stage) -> (unpublished: bool)
    ensures
        unpublished == (stage.dirty && !stage.evicted),
{
    stage.dirty && !stage.evicted
}

/// What a stage is that is held back for a rename.
pub open spec fn is_held_back(before: Stage, after: Stage) -> bool {
    &&& text::optional(after.last_error) == Some(stage_state::rename_fence_error())
    &&& after == (Stage { state: FlushState::Paused, last_error: after.last_error, ..before })
}

/// Holds back the stage of a file that a rename is about to replace: its bytes
/// are kept for export until the rename is done, but never uploaded over the
/// renamed object. Returns what the stage said before.
pub fn pause_for_replacement(stage: &mut Stage) -> (before: (FlushState, Option<String>))
    ensures
        before == (old(stage).state, old(stage).last_error),
        is_held_back(*old(stage), *final(stage)),
{
    let error = stage.last_error.take();
    let before = (stage.state, error);
    stage.state = FlushState::Paused;
    stage.last_error = Some("Destination replacement pending; retained for recovery".to_owned());
    before
}

/// What a stage is that was let go on.
pub open spec fn is_let_on(held: Stage, after: Stage, before: (FlushState, Option<String>)) -> bool {
    after == (Stage { state: before.0, last_error: before.1, ..held })
}

/// Lets a stage go on that was held back for a rename which did not happen.
pub fn resume_after_replacement(stage: &mut Stage, before: (FlushState, Option<String>))
    ensures
        is_let_on(*old(stage), *final(stage), before),
{
    stage.state = before.0;
    stage.last_error = before.1;
}

/// A stage that was held back for a rename which did not happen is as it was.
pub proof fn a_replacement_that_did_not_happen_leaves_no_trace(before: Stage, held: Stage, after: Stage)
    requires
        is_held_back(before, held),
        is_let_on(held, after, (before.state, before.last_error)),
    ensures
        after == before,
{
}

/// A stage that is held back for a rename is not uploaded, neither by the
/// scanner nor on request, however its journal stands.
pub proof fn what_is_held_back_is_not_uploaded(
    before: Stage,
    held: Stage,
    now_ms: u64,
    idle_for_ms: u64,
    explicit: bool,
    completing: Result<bool, String>,
)
    requires
        is_held_back(before, held),
    ensures
        !stage::is_flush_due(held.dirty, held.flush_requested, held.state, idle_for_ms, now_ms),
        step_of(held, now_ms, explicit) != FlushStepModel::Upload,
        paused_step_of(held, completing) != FlushStepModel::Upload,
{
}

/// How many files are not in the bucket after a pass: those that are still
/// dirty, or those whose upload failed, whichever is more.
pub fn still_pending(dirty: usize, failures: usize) -> (pending: usize)
    ensures
        pending == (if dirty > failures {
            dirty
        } else {
            failures
        }),
{
    if dirty > failures {
        dirty
    } else {
        failures
    }
}

/// How many files are not in the bucket: the dirty ones, what was set aside at
/// the last start, and the changes that were interrupted. What cannot be
/// counted counts as one.
pub fn pending_upload_count(dirty: usize, quarantined: Option<usize>, operations: Option<usize>) -> (count: usize)
    requires
        dirty + (match quarantined {
            Some(n) => n as int,
            None => 1,
        }) + (match operations {
            Some(n) => n as int,
            None => 1,
        }) <= usize::MAX,
    ensures
        count == dirty + (match quarantined {
            Some(n) => n as int,
            None => 1,
        }) + (match operations {
            Some(n) => n as int,
            None => 1,
        }),
{
    let records: usize = match quarantined {
        Some(n) => n,
        None => 1,
    };
    let changes: usize = match operations {
        Some(n) => n,
        None => 1,
    };
    dirty + records + changes
}

/// The passes over everything dirty that a drain makes.
pub struct Drain {
    pub rounds_left: u32,
    pub pending: usize,
}

impl Drain {
    /// A drain of so many rounds, but at least one.
    pub fn new(rounds: u32) -> (drain: Self)
        ensures
            drain.pending == 0,
            drain.rounds_left == (if rounds == 0 {
                1
            } else {
                rounds
            }),
    {
        Drain { rounds_left: if rounds == 0 { 1 } else { rounds }, pending: 0 }
    }

    /// Takes how many files a pass has left. Returns whether another pass is
    /// to be made.
    pub fn on_round(&mut self, pending: usize) -> (again: bool)
        requires
            old(self).rounds_left > 0,
        ensures
            final(self).pending == pending,
            final(self).rounds_left == old(self).rounds_left - 1,
            again == (pending > 0 && final(self).rounds_left > 0),
    {
        self.pending = pending;
        self.rounds_left = self.rounds_left - 1;
        pending > 0 && self.rounds_left > 0
    }
}

/// An upload begins exactly where no rename and no other change of its key is
/// open, and it is known that none is.
pub proof fn an_upload_waits_for_open_changes(rename_available: bool, namespace_note: Result<bool, String>)
    ensures
        entry_complaint(rename_available, namespace_note) is None <==> rename_available && namespace_note == Ok::<bool, String>(false),
        rename_available && namespace_note is Err ==> entry_complaint(rename_available, namespace_note) == Some((namespace_note->Err_0)@),
{
}

/// A stage with something to upload is uploaded unless it is paused or cooling
/// down; a paused one is taken up only on request, and only with a snapshot
/// whose publication may be open. A stage that is uploaded already is left
/// alone. What is refused says why, and is not tried again by itself.
pub proof fn a_dirty_stage_is_uploaded_unless_it_is_held(stage: Stage, now_ms: u64, explicit: bool)
    ensures
        ({
            let step = step_of(stage, now_ms, explicit);
            let cooling = stage.state is Failed && stage.state->retry_after_ms > now_ms;
            &&& step is Nothing <==> !stage.dirty
            &&& step is Upload <==> stage.dirty && !cooling && stage.state != FlushState::Paused
            &&& step is AskJournal <==> stage.dirty && stage.state == FlushState::Paused && explicit && stage.snapshot is Some
            &&& step is Refused ==> !step->Refused_0.retryable && !step->Refused_0.uncertain
            &&& step is Refused && stage.state == FlushState::Paused && stage.last_error is Some ==> step->Refused_0.message
                == (stage.last_error->0)@
        }),
{
}

/// A paused stage is taken up exactly where its request may have been sent and
/// it does not wait for a rename.
pub proof fn a_paused_stage_is_taken_up_where_its_outcome_is_open(stage: Stage, completing: Result<bool, String>)
    ensures
        ({
            let step = paused_step_of(stage, completing);
            let fenced = stage.last_error is Some && (stage.last_error->0)@ == "Destination replacement pending; retained for recovery"@;
            &&& step is Upload <==> completing == Ok::<bool, String>(true) && !fenced
            &&& step is Upload || step is Refused
            &&& completing is Err ==> step->Refused_0.message == (completing->Err_0)@
            &&& step is Refused ==> !step->Refused_0.retryable && !step->Refused_0.uncertain
        }),
{
}

/// A successful upload leaves the stage clean exactly where nothing was written
/// since its snapshot was made; what it may replace next is the object that was
/// just made. Its content, its key, its size and its place in the log stay.
pub proof fn an_upload_settles_what_it_captured(before: Stage, after: Stage, etag: Seq<char>, uploaded_gen: u64)
    requires
        is_settled(before, after, etag, uploaded_gen),
        before.dirty,
    ensures
        after.dirty <==> uploaded_gen != before.dirty_gen,
        after.publication_guard is Some,
        (after.publication_guard->0)@ == (stage::GuardModel::Match { etag }),
        after.state == FlushState::Idle,
        after.last_error is None,
        after.snapshot is None,
        after.key == before.key,
        after.path == before.path,
        after.size == before.size,
        after.mtime_secs == before.mtime_secs,
        after.dirty_gen == before.dirty_gen,
        after.applied_gen == before.applied_gen,
        after.checkpoint_lsn == before.checkpoint_lsn,
        after.next_lsn == before.next_lsn,
        after.needs_replay == before.needs_replay,
        after.evicted == before.evicted,
        uploaded_gen != before.dirty_gen ==> after.first_dirty_at == before.first_dirty_at && after.flush_requested == before.flush_requested,
        uploaded_gen == before.dirty_gen ==> after.first_dirty_at is None && !after.flush_requested,
{
}

/// A failed upload is tried again after fifteen seconds exactly where that may
/// help, or where it may have happened and a guard keeps a second one from
/// doing harm; otherwise it waits for the user.
pub proof fn a_failed_upload_is_tried_again_where_that_is_safe(failure: journal::FailureModel, guarded: bool, now_ms: u64)
    requires
        now_ms + 15_000 <= u64::MAX,
    ensures
        failure.retryable || (failure.uncertain && guarded) ==> state_after_failure(failure, guarded, now_ms) == (FlushState::Failed {
            retry_after_ms: (now_ms + 15_000) as u64,
        }),
        !failure.retryable && !(failure.uncertain && guarded) ==> state_after_failure(failure, guarded, now_ms) == FlushState::Paused,
{
}

/// A stage that is held back for a rename keeps its content and everything
/// else; it is paused, and says why.
pub proof fn what_is_held_back_keeps_its_content(before: Stage, held: Stage)
    requires
        is_held_back(before, held),
    ensures
        held.state == FlushState::Paused,
        held.last_error is Some,
        (held.last_error->0)@ == "Destination replacement pending; retained for recovery"@,
        held.dirty == before.dirty,
        held.key == before.key,
        held.path == before.path,
        held.size == before.size,
        held.snapshot == before.snapshot,
        held.publication_guard == before.publication_guard,
        held.dirty_gen == before.dirty_gen,
{
}

/// An upload that begins is recorded with its snapshot; the content that was
/// staged stays as it is.
pub proof fn an_upload_begins_with_its_snapshot(snapshot: UploadSnapshot)
    ensures
        forall|stage: &mut Stage| #[trigger]
            call_ensures(begin_upload, (stage, snapshot), ()) ==> {
                &&& final(stage).state == FlushState::Uploading
                &&& final(stage).snapshot == Some(snapshot)
                &&& final(stage).dirty == (*stage).dirty
                &&& final(stage).dirty_gen == (*stage).dirty_gen
                &&& final(stage).size == (*stage).size
                &&& final(stage).key == (*stage).key
                &&& final(stage).publication_guard == (*stage).publication_guard
                &&& final(stage).last_error == (*stage).last_error
            },
{
}

/// A failed upload is kept with its error, dirty as before, and is tried again
/// or waits for the user.
pub proof fn a_failed_upload_keeps_its_content(failure: UploadFailure, guarded: bool, now_ms: u64)
    requires
        now_ms + 15_000 <= u64::MAX,
    ensures
        forall|stage: &mut Stage| #[trigger]
            call_ensures(settle_failure, (stage, &failure, guarded, now_ms), ()) ==> {
                &&& final(stage).last_error is Some
                &&& (final(stage).last_error->0)@ == failure.message@
                &&& failure.retryable || (failure.uncertain && guarded) ==> final(stage).state == (FlushState::Failed {
                    retry_after_ms: (now_ms + 15_000) as u64,
                })
                &&& !failure.retryable && !(failure.uncertain && guarded) ==> final(stage).state == FlushState::Paused
                &&& final(stage).dirty == (*stage).dirty
                &&& final(stage).snapshot == (*stage).snapshot
                &&& final(stage).size == (*stage).size
                &&& final(stage).dirty_gen == (*stage).dirty_gen
                &&& final(stage).publication_guard == (*stage).publication_guard
            },
{
}

/// A stage that was dropped is never uploaded; another is as soon as it is
/// asked for, or has been quiet for two seconds, unless it is held.
pub proof fn a_quiet_stage_is_a_candidate(stage: Stage, now_ms: u64, candidate: bool)
    requires
        call_ensures(is_flush_candidate, (&stage, now_ms), candidate),
    ensures
        candidate ==> !stage.evicted && stage.dirty,
        !stage.evicted && stage.dirty && stage.state == FlushState::Idle && stage.flush_requested ==> candidate,
        !stage.evicted && stage.dirty && stage.state == FlushState::Idle && now_ms >= stage.last_write_ms + 2_000 ==> candidate,
        !stage.flush_requested && now_ms < stage.last_write_ms + 2_000 && stage.state == FlushState::Idle ==> !candidate,
        stage.state == FlushState::Uploading || stage.state == FlushState::Paused ==> !candidate,
{
}

/// A key that was fenced is the stage's still, has moved, or is gone.
pub proof fn a_fenced_key_is_held_against_the_stage(key: &str, current: Option<&str>, step: FencedStep)
    requires
        call_ensures(fenced_step, (key, current), step),
    ensures
        step == FencedStep::Gone <==> current is None,
        step == FencedStep::Ready <==> current is Some && current->0@ == key@,
        step == FencedStep::Again <==> current is Some && current->0@ != key@,
{
}

/// A stage is dropped only where nothing of it waits to be uploaded and
/// nothing is under way, and only once.
pub proof fn only_a_settled_stage_is_dropped(evicted: bool)
    ensures
        forall|stage: &mut Stage| #[trigger]
            call_ensures(evict, (stage,), evicted) ==> {
                &&& evicted <==> !(*stage).evicted && !(*stage).dirty && (*stage).state == FlushState::Idle
                &&& evicted ==> final(stage).evicted
                &&& !evicted ==> *final(stage) == *stage
                &&& final(stage).dirty == (*stage).dirty
                &&& final(stage).size == (*stage).size
            },
        forall|stage: &mut Stage| #[trigger]
            call_ensures(discard, (stage,), ()) ==> final(stage).evicted && final(stage).dirty == (*stage).dirty && final(stage).key
                == (*stage).key,
{
}

/// An upload that was cut off leaves its stage to be uploaded again; any other
/// state stays.
pub proof fn a_cut_off_upload_may_begin_again()
    ensures
        forall|stage: &mut Stage| #[trigger]
            call_ensures(reset_flush_state, (stage,), ()) ==> {
                &&& !(*stage).evicted && (*stage).state == FlushState::Uploading ==> final(stage).state == FlushState::Idle
                &&& (*stage).evicted || (*stage).state != FlushState::Uploading ==> *final(stage) == *stage
                &&& final(stage).dirty == (*stage).dirty
                &&& final(stage).snapshot == (*stage).snapshot
                &&& final(stage).size == (*stage).size
            },
{
}

/// A stage under a directory that moves gets the key of its new place; any
/// other keeps its key. Nothing else of either changes.
pub proof fn a_stage_moves_with_its_directory(from_prefix: &str, to_prefix: &str, rest: Seq<char>)
    ensures
        forall|stage: &mut Stage, moved: bool| #[trigger]
            call_ensures(rekey_under, (stage, from_prefix, to_prefix), moved) ==> {
                &&& moved <==> from_prefix@.is_prefix_of((*stage).key@)
                &&& (*stage).key@ == from_prefix@ + rest ==> final(stage).key@ == to_prefix@ + rest
                &&& !moved ==> final(stage).key@ == (*stage).key@
                &&& final(stage).dirty == (*stage).dirty
                &&& final(stage).path == (*stage).path
                &&& final(stage).size == (*stage).size
                &&& final(stage).snapshot == (*stage).snapshot
                &&& final(stage).publication_guard == (*stage).publication_guard
            },
{
    assert((from_prefix@ + rest).subrange(0, from_prefix@.len() as int) =~= from_prefix@);
    assert((from_prefix@ + rest).skip(from_prefix@.len() as int) =~= rest);
}

/// A stage counts where it was not dropped: as lying under a directory by its
/// key, and as not published while it is dirty.
pub proof fn a_dropped_stage_counts_nowhere(stage: Stage, prefix: &str, below: bool, unpublished: bool)
    requires
        call_ensures(is_staged_under, (&stage, prefix), below),
        call_ensures(is_unpublished, (&stage,), unpublished),
    ensures
        stage.evicted ==> !below && !unpublished,
        !stage.evicted ==> (below <==> prefix@.is_prefix_of(stage.key@)) && (unpublished <==> stage.dirty),
{
}

/// What is pending is counted whole: what is dirty, what was set aside and
/// what was interrupted; what cannot be counted counts as one.
pub proof fn everything_pending_is_counted(dirty: usize, quarantined: usize, interrupted: usize, count: usize, unknown: usize, failures: usize, pending: usize)
    requires
        dirty + quarantined + interrupted <= usize::MAX,
        dirty + 2 <= usize::MAX,
        call_ensures(pending_upload_count, (dirty, Some(quarantined), Some(interrupted)), count),
        call_ensures(pending_upload_count, (dirty, None, None), unknown),
        call_ensures(still_pending, (dirty, failures), pending),
    ensures
        count == dirty + quarantined + interrupted,
        unknown == dirty + 2,
        pending >= dirty,
        pending >= failures,
        pending == dirty || pending == failures,
{
}

/// Uploads are drained round by round, until nothing is pending or no round is
/// left; there is one round at least.
pub proof fn a_drain_ends(rounds: u32, drain: Drain, pending: usize)
    requires
        call_ensures(Drain::new, (rounds,), drain),
    ensures
        drain.rounds_left >= 1,
        rounds >= 1 ==> drain.rounds_left == rounds,
        forall|going: &mut Drain, again: bool| #[trigger]
            call_ensures(Drain::on_round, (going, pending), again) ==> {
                &&& again <==> pending > 0 && final(going).rounds_left > 0
                &&& final(going).rounds_left == (*going).rounds_left - 1
                &&& final(going).pending == pending
            },
{
}

/// A fence is tried for sixteen times.
pub proof fn a_fence_is_tried_for_a_while(attempts: FenceAttempts)
    requires
        call_ensures(FenceAttempts::new, (), attempts),
    ensures
        attempts.left == 16,
        forall|left: &mut FenceAttempts, taken: bool| #[trigger]
            call_ensures(FenceAttempts::take, (left,), taken) ==> {
                &&& taken <==> (*left).left > 0
                &&& taken ==> final(left).left == (*left).left - 1
                &&& !taken ==> final(left).left == 0
            },
{
}

/// A stage that is let on gets back the state and the error it had, and keeps
/// everything else.
pub proof fn a_stage_is_let_on_as_it_was(held: Stage, after: Stage, before: (FlushState, Option<String>))
    requires
        is_let_on(held, after, before),
    ensures
        after.state == before.0,
        after.last_error == before.1,
        after.dirty == held.dirty,
        after.size == held.size,
        after.key == held.key,
        after.snapshot == held.snapshot,
        after.publication_guard == held.publication_guard,
{
}

/// A paused stage that is refused says why it was paused, or that it has to be
/// recovered.
pub proof fn a_paused_stage_says_why(stage: Stage, now_ms: u64)
    requires
        stage.dirty,
        stage.state == FlushState::Paused,
    ensures
        stage.last_error is Some ==> pause_reason(stage) == (stage.last_error->0)@,
        stage.last_error is None ==> pause_reason(stage) == "Upload requires recovery"@,
        step_of(stage, now_ms, false) is Refused,
        step_of(stage, now_ms, false)->Refused_0.message == pause_reason(stage),
{
}

} // verus!
