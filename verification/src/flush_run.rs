//! The upload of one staged file, from the question whether it is due to the
//! record of what came of it.
//!
//! The stage is locked while its snapshot is made and while the outcome is
//! settled, but not while the snapshot is uploaded: a write may come in
//! between, and the stage may go altogether.

use vstd::prelude::*;
use crate::flush;
use crate::flush::{begin_upload, flush_step, paused_flush_step, publication_gate, settle_failure, settle_success, FlushStep, FlushStepModel};
use crate::journal;
use crate::journal::UploadFailure;
use crate::stage;
use crate::stage::{UploadSnapshot, FLUSH_RETRY_COOLDOWN_MS};
use crate::stage_state::Stage;
use crate::text;

verus! {

/// What the upload of a stage waits for.
#[derive(Clone, Copy, Debug, PartialEq, Eq, Structural)]
pub enum FlushPhase {
    /// It is to be found out whether another change of the key is open.
    Entering,
    /// The stage is to be looked at.
    Deciding,
    /// The journal of a paused stage is to be read.
    AskingJournal,
    /// The snapshot to upload is to be made.
    Snapshotting,
    /// The record is to say that the snapshot is being uploaded.
    SavingStart,
    /// The snapshot is to be uploaded.
    Uploading,
    /// The stage is to be brought level with its log again.
    Replaying,
    /// The journal of the failed upload is to be read.
    AskingGuard,
    /// The record is to say what came of the upload.
    SavingEnd,
    /// The snapshot is to be removed.
    RemovingSnapshot,
    /// Nothing is left to do.
    Done,
}

/// The upload of a stage.
pub struct FlushRun {
    /// The user asked for it, or a rename needs it.
    pub explicit: bool,
    pub phase: FlushPhase,
    /// What is uploaded.
    pub snapshot: Option<UploadSnapshot>,
    /// The tag of the new object, or why there is none.
    pub uploaded: Option<Result<String, UploadFailure>>,
    /// The outcome was settled and saved.
    pub settled: bool,
    /// What kept the upload from beginning, or its outcome from being settled.
    pub failure: Option<UploadFailure>,
}

/// How an upload of a stage went, as text.
pub ghost enum OutcomeModel {
    /// Nothing was uploaded, or the stage has gone since.
    Nothing,
    /// The stage was uploaded, and its record says so.
    Uploaded,
    Failed(journal::FailureModel),
}

impl FlushRun {
    pub open spec fn is_after_upload(self) -> bool {
        ||| self.phase == FlushPhase::Replaying
        ||| self.phase == FlushPhase::AskingGuard
        ||| self.phase == FlushPhase::SavingEnd
        ||| self.phase == FlushPhase::RemovingSnapshot
    }

    /// What holds at every step.
    pub open spec fn valid(self) -> bool {
        &&& self.failure is Some ==> self.phase == FlushPhase::Done && !self.settled
        &&& self.phase == FlushPhase::SavingStart || self.phase == FlushPhase::Uploading || self.is_after_upload() ==> self.snapshot is Some
        &&& self.is_after_upload() ==> self.uploaded is Some
        &&& self.phase == FlushPhase::AskingGuard ==> self.uploaded->0 is Err
        &&& self.phase == FlushPhase::RemovingSnapshot ==> self.uploaded->0 is Ok
        &&& self.uploaded is Some ==> self.is_after_upload() || self.phase == FlushPhase::Done
        &&& self.settled ==> self.phase == FlushPhase::Done && self.uploaded is Some
    }

    /// The upload ends here, with a failure on this side.
    pub open spec fn is_stopped(self, before: FlushRun, message: Seq<char>) -> bool {
        &&& self == (FlushRun { phase: FlushPhase::Done, failure: self.failure, ..before })
        &&& self.failure is Some && self.failure->0@ == journal::local_failure(message)
    }

    /// The upload goes on as a step says.
    pub open spec fn follows(self, before: FlushRun, step: FlushStepModel) -> bool {
        match step {
            FlushStepModel::Nothing => self == (FlushRun { phase: FlushPhase::Done, ..before }),
            FlushStepModel::Refused(failure) => {
                &&& self == (FlushRun { phase: FlushPhase::Done, failure: self.failure, ..before })
                &&& self.failure is Some && self.failure->0@ == failure
            },
            FlushStepModel::AskJournal => self == (FlushRun { phase: FlushPhase::AskingJournal, ..before }),
            FlushStepModel::Upload => self == (FlushRun { phase: FlushPhase::Snapshotting, ..before }),
        }
    }

    /// One step may lead from here to there.
    pub open spec fn may_become(self, next: FlushRun) -> bool {
        &&& next.explicit == self.explicit
        &&& match self.phase {
            FlushPhase::Entering => next.phase == FlushPhase::Deciding || next.phase == FlushPhase::Done,
            FlushPhase::Deciding => next.phase == FlushPhase::AskingJournal || next.phase == FlushPhase::Snapshotting || next.phase
                == FlushPhase::Done,
            FlushPhase::AskingJournal => next.phase == FlushPhase::Snapshotting || next.phase == FlushPhase::Done,
            FlushPhase::Snapshotting => next.phase == FlushPhase::SavingStart || next.phase == FlushPhase::Done,
            FlushPhase::SavingStart => next.snapshot == self.snapshot && (next.phase == FlushPhase::Uploading || next.phase == FlushPhase::Done),
            FlushPhase::Uploading => next.snapshot == self.snapshot && next.phase == FlushPhase::Replaying,
            FlushPhase::Replaying => next.snapshot == self.snapshot && next.uploaded == self.uploaded && (next.phase == FlushPhase::AskingGuard
                || next.phase == FlushPhase::SavingEnd || next.phase == FlushPhase::Done),
            FlushPhase::AskingGuard => next.snapshot == self.snapshot && next.uploaded == self.uploaded && (next.phase == FlushPhase::SavingEnd
                || next.phase == FlushPhase::Done),
            FlushPhase::SavingEnd => next.snapshot == self.snapshot && next.uploaded == self.uploaded && (next.phase
                == FlushPhase::RemovingSnapshot || next.phase == FlushPhase::Done),
            FlushPhase::RemovingSnapshot => next.snapshot == self.snapshot && next.uploaded == self.uploaded && next.phase == FlushPhase::Done,
            FlushPhase::Done => false,
        }
    }

    /// How many steps are left at most.
    pub open spec fn phases_left(self) -> nat {
        match self.phase {
            FlushPhase::Entering => 10,
            FlushPhase::Deciding => 9,
            FlushPhase::AskingJournal => 8,
            FlushPhase::Snapshotting => 7,
            FlushPhase::SavingStart => 6,
            FlushPhase::Uploading => 5,
            FlushPhase::Replaying => 4,
            FlushPhase::AskingGuard => 3,
            FlushPhase::SavingEnd => 2,
            FlushPhase::RemovingSnapshot => 1,
            FlushPhase::Done => 0,
        }
    }

    /// How the upload went.
    pub open spec fn outcome_view(self) -> OutcomeModel {
        match self.failure {
            Some(failure) => OutcomeModel::Failed(failure@),
            None => match self.uploaded {
                Some(Err(failure)) => OutcomeModel::Failed(failure@),
                Some(Ok(_)) => if self.settled {
                    OutcomeModel::Uploaded
                } else {
                    OutcomeModel::Nothing
                },
                None => OutcomeModel::Nothing,
            },
        }
    }

    /// An upload that has yet to begin.
    pub fn new(explicit: bool) -> (run: Self)
        ensures
            run == (FlushRun { explicit, phase: FlushPhase::Entering, snapshot: None, uploaded: None, settled: false, failure: None }),
            run.valid(),
    {
        FlushRun { explicit, phase: FlushPhase::Entering, snapshot: None, uploaded: None, settled: false, failure: None }
    }

    fn stop(&mut self, message: &str)
        ensures
            final(self).is_stopped(*old(self), message@),
    {
        self.phase = FlushPhase::Done;
        self.failure = Some(UploadFailure::local(message));
    }

    fn follow(&mut self, step: FlushStep)
        ensures
            final(self).follows(*old(self), flush::step_view(step)),
    {
        match step {
            FlushStep::Nothing => {
                self.phase = FlushPhase::Done;
            },
            FlushStep::Refused(failure) => {
                self.phase = FlushPhase::Done;
                self.failure = Some(failure);
            },
            FlushStep::AskJournal => {
                self.phase = FlushPhase::AskingJournal;
            },
            FlushStep::Upload => {
                self.phase = FlushPhase::Snapshotting;
            },
        }
    }

    /// Takes whether a rename of the key is settled, and whether there is a
    /// note of another change of it that is not.
    pub fn on_entry(&mut self, rename_available: bool, namespace_note: Result<bool, String>)
        requires
            old(self).valid(),
            old(self).phase == FlushPhase::Entering,
        ensures
            final(self).valid(),
            old(self).may_become(*final(self)),
            match flush::entry_complaint(rename_available, namespace_note) {
                Some(complaint) => final(self).is_stopped(*old(self), complaint),
                None => *final(self) == (FlushRun { phase: FlushPhase::Deciding, ..*old(self) }),
            },
    {
        match publication_gate(rename_available, namespace_note) {
            Ok(()) => {
                self.phase = FlushPhase::Deciding;
            },
            Err(failure) => {
                self.phase = FlushPhase::Done;
                self.failure = Some(failure);
            },
        }
    }

    /// Takes that the file has no stage any more: there is nothing to upload,
    /// or nothing to settle.
    pub fn on_gone(&mut self)
        requires
            old(self).valid(),
            old(self).phase == FlushPhase::Deciding || old(self).phase == FlushPhase::Replaying,
        ensures
            final(self).valid(),
            old(self).may_become(*final(self)),
            *final(self) == (FlushRun { phase: FlushPhase::Done, ..*old(self) }),
    {
        self.phase = FlushPhase::Done;
    }

    /// Takes the stage: whether it is uploaded now.
    pub fn on_stage(&mut self, stage: &Stage, now_ms: u64)
        requires
            old(self).valid(),
            old(self).phase == FlushPhase::Deciding,
        ensures
            final(self).valid(),
            old(self).may_become(*final(self)),
            final(self).follows(*old(self), flush::step_of(*stage, now_ms, old(self).explicit)),
    {
        let step = flush_step(stage, now_ms, self.explicit);
        self.follow(step);
    }

    /// Takes whether the journal of a paused stage says that the publishing
    /// request may have been sent, or why the journal could not be read.
    pub fn on_journal(&mut self, stage: &Stage, completing: Result<bool, String>)
        requires
            old(self).valid(),
            old(self).phase == FlushPhase::AskingJournal,
        ensures
            final(self).valid(),
            old(self).may_become(*final(self)),
            final(self).follows(*old(self), flush::paused_step_of(*stage, completing)),
    {
        let step = paused_flush_step(stage, completing);
        self.follow(step);
    }

    /// Takes the snapshot that is to be uploaded, or why there is none.
    pub fn on_snapshot(&mut self, stage: &mut Stage, made: Result<UploadSnapshot, String>)
        requires
            old(self).valid(),
            old(self).phase == FlushPhase::Snapshotting,
        ensures
            final(self).valid(),
            old(self).may_become(*final(self)),
            match made {
                Err(message) => final(self).is_stopped(*old(self), message@) && *final(stage) == *old(stage),
                Ok(snapshot) => {
                    &&& *final(self) == (FlushRun { phase: FlushPhase::SavingStart, snapshot: final(self).snapshot, ..*old(self) })
                    &&& stage::snapshot_view(final(self).snapshot) == Some(snapshot@)
                    &&& *final(stage) == (Stage { state: stage::FlushState::Uploading, snapshot: Some(snapshot), ..*old(stage) })
                },
            },
    {
        match made {
            Err(message) => {
                self.stop(message.as_str());
            },
            Ok(snapshot) => {
                self.snapshot = Some(snapshot.clone());
                begin_upload(stage, snapshot);
                self.phase = FlushPhase::SavingStart;
            },
        }
    }

    /// Takes that the record of the stage was saved, or why it was not.
    pub fn on_saved(&mut self, error: Option<String>)
        requires
            old(self).valid(),
            old(self).phase == FlushPhase::SavingStart || old(self).phase == FlushPhase::SavingEnd,
        ensures
            final(self).valid(),
            old(self).may_become(*final(self)),
            match error {
                Some(message) => final(self).is_stopped(*old(self), message@),
                None => if old(self).phase == FlushPhase::SavingStart {
                    *final(self) == (FlushRun { phase: FlushPhase::Uploading, ..*old(self) })
                } else if old(self).uploaded->0 is Ok {
                    *final(self) == (FlushRun { phase: FlushPhase::RemovingSnapshot, ..*old(self) })
                } else {
                    *final(self) == (FlushRun { phase: FlushPhase::Done, settled: true, ..*old(self) })
                },
            },
    {
        match error {
            Some(message) => {
                self.stop(message.as_str());
            },
            None => {
                if self.phase == FlushPhase::SavingStart {
                    self.phase = FlushPhase::Uploading;
                } else {
                    match &self.uploaded {
                        Some(Ok(_)) => {
                            self.phase = FlushPhase::RemovingSnapshot;
                        },
                        _ => {
                            self.phase = FlushPhase::Done;
                            self.settled = true;
                        },
                    }
                }
            },
        }
    }

    /// Takes what came of the upload.
    pub fn on_uploaded(&mut self, outcome: Result<String, UploadFailure>)
        requires
            old(self).valid(),
            old(self).phase == FlushPhase::Uploading,
        ensures
            final(self).valid(),
            old(self).may_become(*final(self)),
            *final(self) == (FlushRun { phase: FlushPhase::Replaying, uploaded: Some(outcome), ..*old(self) }),
    {
        self.uploaded = Some(outcome);
        self.phase = FlushPhase::Replaying;
    }

    /// Takes that the stage is level with its log again, or why it is not. A
    /// stage that was uploaded is settled; it is clean where nothing was
    /// written since its snapshot was made. Returns whether it was found clean
    /// or not, where it was settled.
    pub fn on_replayed(&mut self, stage: &mut Stage, error: Option<String>) -> (clean: Option<bool>)
        requires
            old(self).valid(),
            old(self).phase == FlushPhase::Replaying,
        ensures
            final(self).valid(),
            old(self).may_become(*final(self)),
            match error {
                Some(message) => clean is None && final(self).is_stopped(*old(self), message@) && *final(stage) == *old(stage),
                None => match old(self).uploaded->0 {
                    Ok(etag) => {
                        &&& clean == Some(old(self).snapshot->0.generation == old(stage).dirty_gen)
                        &&& *final(self) == (FlushRun { phase: FlushPhase::SavingEnd, ..*old(self) })
                        &&& flush::is_settled(*old(stage), *final(stage), etag@, old(self).snapshot->0.generation)
                    },
                    Err(failure) => {
                        &&& clean is None
                        &&& *final(self) == (FlushRun { phase: FlushPhase::AskingGuard, ..*old(self) })
                        &&& text::optional(final(stage).last_error) == Some(failure@.message)
                        &&& *final(stage) == (Stage { last_error: final(stage).last_error, ..*old(stage) })
                    },
                },
            },
    {
        match error {
            Some(message) => {
                self.stop(message.as_str());
                None
            },
            None => match (&self.uploaded, &self.snapshot) {
                (Some(Ok(etag)), Some(snapshot)) => {
                    let clean = settle_success(stage, etag.clone(), snapshot.generation);
                    self.phase = FlushPhase::SavingEnd;
                    Some(clean)
                },
                (Some(Err(failure)), _) => {
                    stage.last_error = Some(failure.message.clone());
                    self.phase = FlushPhase::AskingGuard;
                    None
                },
                _ => None,
            },
        }
    }

    /// Takes whether the journal of the failed upload holds a guard, or why it
    /// could not be read. Nothing of what is staged is given up.
    pub fn on_guard(&mut self, stage: &mut Stage, guarded: Result<bool, String>, now_ms: u64)
        requires
            old(self).valid(),
            old(self).phase == FlushPhase::AskingGuard,
            now_ms + FLUSH_RETRY_COOLDOWN_MS <= u64::MAX,
        ensures
            final(self).valid(),
            old(self).may_become(*final(self)),
            match guarded {
                Err(message) => final(self).is_stopped(*old(self), message@) && *final(stage) == *old(stage),
                Ok(has_guard) => {
                    let failure = old(self).uploaded->0->Err_0;
                    &&& *final(self) == (FlushRun { phase: FlushPhase::SavingEnd, ..*old(self) })
                    &&& text::optional(final(stage).last_error) == Some(failure@.message)
                    &&& *final(stage) == (Stage {
                        last_error: final(stage).last_error,
                        state: flush::state_after_failure(failure@, has_guard, now_ms),
                        ..*old(stage)
                    })
                },
            },
    {
        match guarded {
            Err(message) => {
                self.stop(message.as_str());
            },
            Ok(has_guard) => {
                match &self.uploaded {
                    Some(Err(failure)) => {
                        settle_failure(stage, failure, has_guard, now_ms);
                    },
                    _ => {},
                }
                self.phase = FlushPhase::SavingEnd;
            },
        }
    }

    /// Takes that the snapshot was removed.
    pub fn on_removed(&mut self)
        requires
            old(self).valid(),
            old(self).phase == FlushPhase::RemovingSnapshot,
        ensures
            final(self).valid(),
            old(self).may_become(*final(self)),
            *final(self) == (FlushRun { phase: FlushPhase::Done, settled: true, ..*old(self) }),
    {
        self.phase = FlushPhase::Done;
        self.settled = true;
    }

    /// How the upload went: whether the stage may be dropped, or why it was
    /// not uploaded.
    pub fn outcome(&self) -> (outcome: Result<bool, UploadFailure>)
        requires
            self.phase == FlushPhase::Done,
        ensures
            self.outcome_view() == (match outcome {
                Err(failure) => OutcomeModel::Failed(failure@),
                Ok(true) => OutcomeModel::Uploaded,
                Ok(false) => OutcomeModel::Nothing,
            }),
    {
        match (&self.failure, &self.uploaded) {
            (Some(failure), _) => Err(failure.clone()),
            (None, Some(Err(failure))) => Err(failure.clone()),
            (None, Some(Ok(_))) => Ok(self.settled),
            (None, None) => Ok(false),
        }
    }
}

/// Nothing is uploaded before the record says so: a restart in the middle of
/// an upload finds the snapshot that it was made from.
pub proof fn an_upload_is_recorded_before_it_begins(before: FlushRun, after: FlushRun)
    requires
        before.valid(),
        before.may_become(after),
        after.phase == FlushPhase::Uploading,
    ensures
        before.phase == FlushPhase::SavingStart,
        after.snapshot == before.snapshot,
        after.snapshot is Some,
{
}

/// A snapshot is removed only after the upload of it succeeded and the record
/// says so.
pub proof fn a_snapshot_is_kept_until_its_upload_is_recorded(before: FlushRun, after: FlushRun)
    requires
        before.valid(),
        after.valid(),
        before.may_become(after),
        after.phase == FlushPhase::RemovingSnapshot,
    ensures
        before.phase == FlushPhase::SavingEnd,
        after.uploaded matches Some(Ok(_)),
{
}

/// An upload that the store refused is never reported as one that happened.
pub proof fn a_refused_upload_is_reported(run: FlushRun)
    requires
        run.valid(),
        run.phase == FlushPhase::Done,
        run.uploaded matches Some(Err(_)),
    ensures
        run.outcome_view() is Failed,
{
}

/// A stage may be dropped only after it was uploaded and its record says so.
pub proof fn a_stage_is_dropped_only_after_its_upload(run: FlushRun)
    requires
        run.valid(),
        run.outcome_view() is Uploaded,
    ensures
        run.phase == FlushPhase::Done,
        run.uploaded matches Some(Ok(_)),
        run.failure is None,
        run.settled,
{
}

/// Every step of an upload leads on, so that it comes to an end.
pub proof fn every_step_of_a_flush_leads_on(before: FlushRun, after: FlushRun)
    requires
        before.may_become(after),
    ensures
        after.phases_left() < before.phases_left(),
{
}

/// An upload goes on exactly as the decision says: it is over where nothing is
/// to be done, fails where it is refused, asks the journal, or makes its
/// snapshot. Nothing else of it changes.
pub proof fn a_decision_is_followed(before: FlushRun, after: FlushRun, step: FlushStepModel)
    requires
        before.valid(),
        before.failure is None,
        after.follows(before, step),
    ensures
        after.phase == FlushPhase::Snapshotting <==> step is Upload,
        after.phase == FlushPhase::AskingJournal <==> step is AskJournal,
        after.phase == FlushPhase::Done <==> step is Nothing || step is Refused,
        after.failure is Some <==> step is Refused,
        step is Refused ==> (after.failure->0)@ == step->Refused_0,
        after.snapshot == before.snapshot,
        after.uploaded == before.uploaded,
        after.explicit == before.explicit,
{
}

/// An upload counts as done exactly where the object was made and the record
/// says so; a failure of either kind is what is reported.
pub proof fn an_upload_is_reported_as_it_went(run: FlushRun)
    ensures
        run.outcome_view() is Uploaded <==> run.failure is None && run.uploaded is Some && run.uploaded->0 is Ok && run.settled,
        run.failure is Some ==> run.outcome_view() == OutcomeModel::Failed((run.failure->0)@),
        run.failure is None && run.uploaded is Some && run.uploaded->0 is Err ==> run.outcome_view() == OutcomeModel::Failed(
            (run.uploaded->0->Err_0)@,
        ),
        run.failure is None && run.uploaded is None ==> run.outcome_view() is Nothing,
{
}

/// An upload that ends on this side says why and is not tried again by itself;
/// what was uploaded and its snapshot stay as they were.
pub proof fn an_upload_that_ends_keeps_its_snapshot(before: FlushRun, after: FlushRun, message: Seq<char>)
    requires
        after.is_stopped(before, message),
    ensures
        after.phase == FlushPhase::Done,
        after.failure is Some,
        (after.failure->0)@ == (journal::FailureModel { message, retryable: false, uncertain: false }),
        after.snapshot == before.snapshot,
        after.uploaded == before.uploaded,
        after.settled == before.settled,
        after.explicit == before.explicit,
{
}

/// What goes wrong on this side ends an upload with its message; the stage is
/// not touched then.
pub proof fn a_local_failure_ends_the_run(message: String, now_ms: u64)
    ensures
        forall|run: &mut FlushRun, stage: &mut Stage| #[trigger]
            call_ensures(FlushRun::on_snapshot, (run, stage, Err(message)), ()) ==> *final(stage) == *stage && final(run).phase
                == FlushPhase::Done && final(run).failure is Some && (final(run).failure->0)@ == (journal::FailureModel {
                message: message@,
                retryable: false,
                uncertain: false,
            }) && final(run).uploaded == (*run).uploaded,
        forall|run: &mut FlushRun| #[trigger]
            call_ensures(FlushRun::on_saved, (run, Some(message)), ()) ==> final(run).phase == FlushPhase::Done && final(run).failure is Some && (
            final(run).failure->0)@.message == message@ && final(run).uploaded == (*run).uploaded && final(run).snapshot == (*run).snapshot,
        forall|run: &mut FlushRun, stage: &mut Stage, clean: Option<bool>| #[trigger]
            call_ensures(FlushRun::on_replayed, (run, stage, Some(message)), clean) ==> clean is None && *final(stage) == *stage && final(run).phase == FlushPhase::Done && final(run).failure is Some && (final(run).failure->0)@.message == message@,
        forall|run: &mut FlushRun, stage: &mut Stage| #[trigger]
            call_ensures(FlushRun::on_guard, (run, stage, Err(message), now_ms), ()) ==> *final(stage) == *stage && final(run).phase
                == FlushPhase::Done && final(run).failure is Some && (final(run).failure->0)@.message == message@,
{
}

/// A snapshot is noted in the stage before anything is sent, and sent only
/// once that is on disk.
pub proof fn a_snapshot_is_noted_before_it_is_sent(snapshot: UploadSnapshot, outcome: Result<String, UploadFailure>)
    ensures
        forall|run: &mut FlushRun, stage: &mut Stage| #[trigger]
            call_ensures(FlushRun::on_snapshot, (run, stage, Ok(snapshot)), ()) ==> {
                &&& final(stage).state == stage::FlushState::Uploading
                &&& final(stage).snapshot == Some(snapshot)
                &&& final(stage).dirty == (*stage).dirty
                &&& final(stage).dirty_gen == (*stage).dirty_gen
                &&& final(run).phase == FlushPhase::SavingStart
                &&& final(run).snapshot is Some
                &&& (final(run).snapshot->0)@ == snapshot@
                &&& final(run).uploaded == (*run).uploaded
            },
        forall|run: &mut FlushRun|
            (*run).phase == FlushPhase::SavingStart && #[trigger] call_ensures(FlushRun::on_saved, (run, None), ()) ==> final(run).phase
                == FlushPhase::Uploading && final(run).snapshot == (*run).snapshot && final(run).failure == (*run).failure,
        forall|run: &mut FlushRun| #[trigger]
            call_ensures(FlushRun::on_uploaded, (run, outcome), ()) ==> final(run).phase == FlushPhase::Replaying && final(run).uploaded == Some(
                outcome,
            ) && final(run).snapshot == (*run).snapshot && final(run).failure == (*run).failure,
{
}

/// An upload that was made settles the stage for the generation of its
/// snapshot; one that failed leaves the stage dirty, with the failure.
pub proof fn an_upload_settles_or_marks_the_stage(now_ms: u64)
    requires
        now_ms + 15_000 <= u64::MAX,
    ensures
        forall|run: &mut FlushRun, stage: &mut Stage, clean: Option<bool>|
            (*run).uploaded is Some && (*run).uploaded->0 is Ok && (*run).snapshot is Some && (*stage).dirty && #[trigger] call_ensures(
                FlushRun::on_replayed,
                (run, stage, None),
                clean,
            ) ==> {
                &&& clean == Some((*run).snapshot->0.generation == (*stage).dirty_gen)
                &&& final(stage).dirty <==> (*run).snapshot->0.generation != (*stage).dirty_gen
                &&& final(stage).publication_guard is Some
                &&& (final(stage).publication_guard->0)@ == (stage::GuardModel::Match { etag: ((*run).uploaded->0->Ok_0)@ })
                &&& final(run).phase == FlushPhase::SavingEnd
                &&& final(run).uploaded == (*run).uploaded
            },
        forall|run: &mut FlushRun, stage: &mut Stage, clean: Option<bool>|
            (*run).uploaded is Some && (*run).uploaded->0 is Err && #[trigger] call_ensures(FlushRun::on_replayed, (run, stage, None), clean)
                ==> {
                &&& clean is None
                &&& final(stage).dirty == (*stage).dirty
                &&& final(stage).state == (*stage).state
                &&& final(stage).publication_guard == (*stage).publication_guard
                &&& final(stage).last_error is Some
                &&& (final(stage).last_error->0)@ == ((*run).uploaded->0->Err_0)@.message
                &&& final(run).phase == FlushPhase::AskingGuard
            },
        forall|run: &mut FlushRun, stage: &mut Stage, has_guard: bool|
            (*run).uploaded is Some && (*run).uploaded->0 is Err && #[trigger] call_ensures(
                FlushRun::on_guard,
                (run, stage, Ok(has_guard), now_ms),
                (),
            ) ==> {
                let failure = ((*run).uploaded->0->Err_0)@;
                &&& failure.retryable || (failure.uncertain && has_guard) ==> final(stage).state == (stage::FlushState::Failed {
                    retry_after_ms: (now_ms + 15_000) as u64,
                })
                &&& !failure.retryable && !(failure.uncertain && has_guard) ==> final(stage).state == stage::FlushState::Paused
                &&& final(stage).dirty == (*stage).dirty
                &&& final(run).phase == FlushPhase::SavingEnd
            },
{
}

/// A run ends as settled once the end is on disk: after its snapshot is
/// removed where it succeeded, at once where it failed.
pub proof fn a_run_is_settled_once_its_end_is_on_disk()
    ensures
        forall|run: &mut FlushRun|
            (*run).phase == FlushPhase::SavingEnd && (*run).uploaded is Some && #[trigger] call_ensures(FlushRun::on_saved, (run, None), ()) ==> {
                &&& (*run).uploaded->0 is Ok ==> final(run).phase == FlushPhase::RemovingSnapshot && final(run).settled == (*run).settled
                &&& (*run).uploaded->0 is Err ==> final(run).phase == FlushPhase::Done && final(run).settled
                &&& final(run).uploaded == (*run).uploaded
            },
        forall|run: &mut FlushRun| #[trigger]
            call_ensures(FlushRun::on_removed, (run,), ()) ==> final(run).phase == FlushPhase::Done && final(run).settled && final(run).uploaded
                == (*run).uploaded && final(run).failure == (*run).failure,
        forall|run: &mut FlushRun| #[trigger]
            call_ensures(FlushRun::on_gone, (run,), ()) ==> final(run).phase == FlushPhase::Done && final(run).failure == (*run).failure
                && final(run).uploaded == (*run).uploaded,
{
}

/// What is reported of an upload is how it went.
pub proof fn an_outcome_is_how_the_run_went(run: FlushRun, outcome: Result<bool, UploadFailure>)
    requires
        call_ensures(FlushRun::outcome, (&run,), outcome),
    ensures
        run.failure is Some ==> outcome is Err && (outcome->Err_0)@ == (run.failure->0)@,
        outcome == Ok::<bool, UploadFailure>(true) <==> run.failure is None && run.uploaded is Some && run.uploaded->0 is Ok && run.settled,
        run.failure is None && run.uploaded is Some && run.uploaded->0 is Err ==> outcome is Err && (outcome->Err_0)@ == (
        run.uploaded->0->Err_0)@,
        run.failure is None && run.uploaded is None ==> outcome == Ok::<bool, UploadFailure>(false),
{
}

} // verus!
