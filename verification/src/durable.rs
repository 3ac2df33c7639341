//! Making the changes of a staged file durable, step by step.
//!
//! A change is appended to the log and the log is made durable before anything
//! of the change reaches the data file. Whatever interrupts the work after
//! that, the stage knows that the log holds something which the data file may
//! not reflect, and the next piece of work begins with a replay.

use vstd::prelude::*;
use crate::stage::StageRecovery;
use crate::stage_state;
use crate::stage_state::{apply_steps, ChangePlan, DurableChange, FileStep, Stage, WalSummary};

verus! {

/// What is to be done with a stage.
pub enum StageGoal {
    /// Bring the data file level with the log.
    Level,
    /// Make a change that leaves the file `size` bytes long.
    Change { change: DurableChange, size: u64, mtime_secs: u32 },
    /// Make the data file durable, so that the log can be cut.
    Checkpoint,
}

/// What the work waits for.
#[derive(Clone, Copy, Debug, PartialEq, Eq, Structural)]
pub enum WorkPhase {
    /// The record of an interrupted write is to be replayed, if there is one.
    ReplayingIntent,
    /// The log is to be replayed.
    ReplayingLog,
    /// The data file is to be opened anew.
    Reopening,
    /// The stage has no record yet: it is to be saved.
    SavingRecord,
    /// What may be a torn end of the log is to be cut off.
    RepairingLog,
    /// It is to be made sure that there is room.
    Reserving,
    /// The change is to be appended to the log.
    Logging,
    /// The log is to be made durable.
    Committing,
    /// The change is to be made in the data file.
    Applying,
    /// The data file is to be made durable.
    Syncing,
    /// The record is to be saved with its checkpoint.
    SavingCheckpoint,
    /// The log is to be cut.
    CuttingLog,
    /// Nothing is left to do.
    Done,
}

/// A piece of work on a stage.
pub struct StageWork {
    pub goal: StageGoal,
    pub phase: WorkPhase,
    /// What the change is logged as.
    pub plan: Option<ChangePlan>,
    /// The sequence number that the log gave the change, and the bytes that it
    /// takes up there.
    pub logged: Option<(u64, u64)>,
    /// The log was made durable with the change in it.
    pub committed: bool,
    pub failure: Option<String>,
}

/// Where the work goes on with a data file that is level with the log.
pub open spec fn phase_when_level(goal: StageGoal, stage: Stage) -> WorkPhase {
    match goal {
        StageGoal::Level => WorkPhase::Done,
        StageGoal::Change { .. } => if stage.checkpoint_lsn == 0 && stage.dirty_gen == 0 {
            WorkPhase::SavingRecord
        } else {
            phase_when_recorded(stage)
        },
        StageGoal::Checkpoint => WorkPhase::Syncing,
    }
}

/// Where a change goes on once the stage has a record.
pub open spec fn phase_when_recorded(stage: Stage) -> WorkPhase {
    if stage.wal_tail_repaired {
        WorkPhase::Reserving
    } else {
        WorkPhase::RepairingLog
    }
}

/// The change is one for this plan.
pub open spec fn is_planned(goal: StageGoal, plan: ChangePlan) -> bool {
    goal matches StageGoal::Change { change, size, mtime_secs } && plan.resulting_size == size && plan.mtime_secs == mtime_secs && (match change@ {
        stage_state::ChangeModel::Write { offset, .. } => plan.is_write && plan.offset == offset,
        stage_state::ChangeModel::Resize { .. } => !plan.is_write && plan.offset == 0,
    })
}

fn next_when_recorded(stage: &Stage) -> (phase: WorkPhase)
    ensures
        phase == phase_when_recorded(*stage),
{
    if stage.wal_tail_repaired {
        WorkPhase::Reserving
    } else {
        WorkPhase::RepairingLog
    }
}

fn next_when_level(goal: &StageGoal, stage: &Stage) -> (phase: WorkPhase)
    ensures
        phase == phase_when_level(*goal, *stage),
{
    match goal {
        StageGoal::Level => WorkPhase::Done,
        StageGoal::Change { .. } => if stage.needs_manifest() {
            WorkPhase::SavingRecord
        } else {
            next_when_recorded(stage)
        },
        StageGoal::Checkpoint => WorkPhase::Syncing,
    }
}

fn copy_change(change: &DurableChange) -> (copy: DurableChange)
    ensures
        copy@ == change@,
{
    match change {
        DurableChange::Write { offset, data } => {
            let bytes = data.clone();
            assert(bytes@ =~= data@);
            DurableChange::Write { offset: *offset, data: bytes }
        },
        DurableChange::Resize { size } => DurableChange::Resize { size: *size },
    }
}

impl StageWork {
    /// The change stands in the data file.
    pub open spec fn is_applied(self) -> bool {
        ||| self.phase == WorkPhase::Syncing
        ||| self.phase == WorkPhase::SavingCheckpoint
        ||| self.phase == WorkPhase::CuttingLog
        ||| self.phase == WorkPhase::Done && self.failure is None
    }

    /// What holds of a stage and the work on it at every step.
    pub open spec fn valid(self, stage: Stage) -> bool {
        &&& self.failure is Some ==> self.phase == WorkPhase::Done
        &&& self.plan matches Some(plan) ==> is_planned(self.goal, plan)
        &&& self.phase == WorkPhase::ReplayingIntent || self.phase == WorkPhase::ReplayingLog || self.phase == WorkPhase::Reopening
            ==> stage.needs_replay && !self.committed
        &&& self.phase == WorkPhase::SavingRecord || self.phase == WorkPhase::RepairingLog || self.phase == WorkPhase::Reserving ==> self.goal
            is Change && !self.committed
        &&& self.phase == WorkPhase::Logging || self.phase == WorkPhase::Committing || self.phase == WorkPhase::Applying ==> self.plan is Some
            && stage.needs_replay
        &&& self.phase == WorkPhase::Logging || self.phase == WorkPhase::Committing ==> !self.committed
        &&& self.phase == WorkPhase::Committing ==> self.logged is Some
        &&& self.phase == WorkPhase::Applying ==> self.committed
        &&& self.committed ==> self.plan is Some && stage.dirty && stage.dirty_gen == self.plan->0.generation && stage.well_formed()
        &&& self.goal is Change && self.is_applied() ==> {
            &&& self.committed
            &&& !stage.needs_replay
            &&& stage.applied_gen == self.plan->0.generation
            &&& stage.size == self.plan->0.resulting_size
            &&& stage.mtime_secs == self.plan->0.mtime_secs
        }
    }

    /// How many steps are left at most.
    pub open spec fn steps_left(self) -> nat {
        match self.phase {
            WorkPhase::ReplayingIntent => 12,
            WorkPhase::ReplayingLog => 11,
            WorkPhase::Reopening => 10,
            WorkPhase::SavingRecord => 9,
            WorkPhase::RepairingLog => 8,
            WorkPhase::Reserving => 7,
            WorkPhase::Logging => 6,
            WorkPhase::Committing => 5,
            WorkPhase::Applying => 4,
            WorkPhase::Syncing => 3,
            WorkPhase::SavingCheckpoint => 2,
            WorkPhase::CuttingLog => 1,
            WorkPhase::Done => 0,
        }
    }

    /// The work ends here.
    pub open spec fn is_stopped(self, before: StageWork, message: Seq<char>) -> bool {
        &&& self == (StageWork { phase: WorkPhase::Done, failure: self.failure, ..before })
        &&& self.failure is Some && self.failure->0@ == message
    }

    /// Begins a piece of work. A stage that an interruption left behind its
    /// log is brought level first.
    pub fn begin(goal: StageGoal, stage: &Stage) -> (work: Self)
        ensures
            work == (StageWork {
                goal,
                phase: (if stage.needs_replay {
                    WorkPhase::ReplayingIntent
                } else {
                    phase_when_level(goal, *stage)
                }),
                plan: None,
                logged: None,
                committed: false,
                failure: None,
            }),
            work.valid(*stage),
    {
        let phase = if stage.needs_replay {
            WorkPhase::ReplayingIntent
        } else {
            next_when_level(&goal, stage)
        };
        StageWork { goal, phase, plan: None, logged: None, committed: false, failure: None }
    }

    fn stop(&mut self, message: String)
        ensures
            final(self).is_stopped(*old(self), message@),
    {
        self.phase = WorkPhase::Done;
        self.failure = Some(message);
    }

    /// Takes the record of an interrupted write as it was replayed, nothing
    /// where there was none, or why it could not be.
    pub fn on_intent(&mut self, stage: &mut Stage, replayed: Result<Option<StageRecovery>, String>, now_ms: u64)
        requires
            old(self).valid(*old(stage)),
            old(self).phase == WorkPhase::ReplayingIntent,
        ensures
            final(self).valid(*final(stage)),
            final(self).steps_left() < old(self).steps_left(),
            match replayed {
                Err(message) => final(self).is_stopped(*old(self), message@) && *final(stage) == *old(stage),
                Ok(None) => *final(self) == (StageWork { phase: WorkPhase::ReplayingLog, ..*old(self) }) && *final(stage) == *old(stage),
                Ok(Some(record)) => {
                    &&& *final(self) == (StageWork { phase: WorkPhase::ReplayingLog, ..*old(self) })
                    &&& final(stage).is_replayed_from(*old(stage), record, now_ms)
                },
            },
    {
        match replayed {
            Err(message) => {
                self.stop(message);
            },
            Ok(None) => {
                self.phase = WorkPhase::ReplayingLog;
            },
            Ok(Some(record)) => {
                stage.intent_replayed(&record, now_ms);
                self.phase = WorkPhase::ReplayingLog;
            },
        }
    }

    /// Takes the newest change of the log that was replayed, nothing where the
    /// data file had them all, or why the log could not be replayed.
    pub fn on_log(&mut self, stage: &mut Stage, newest: Result<Option<WalSummary>, String>, now_ms: u64)
        requires
            old(self).valid(*old(stage)),
            old(self).phase == WorkPhase::ReplayingLog,
        ensures
            final(self).valid(*final(stage)),
            final(self).steps_left() < old(self).steps_left(),
            match newest {
                Err(message) => final(self).is_stopped(*old(self), message@) && *final(stage) == *old(stage),
                Ok(None) => *final(self) == (StageWork { phase: WorkPhase::Reopening, ..*old(self) }) && *final(stage) == *old(stage),
                Ok(Some(summary)) => if old(stage).key@ == summary.key@ {
                    &&& *final(self) == (StageWork { phase: WorkPhase::Reopening, ..*old(self) })
                    &&& *final(stage) == old(stage).with_newest(summary, now_ms)
                } else {
                    &&& final(self).is_stopped(*old(self), "WAL key does not match durable stage manifest"@)
                    &&& *final(stage) == *old(stage)
                },
            },
    {
        match newest {
            Err(message) => {
                self.stop(message);
            },
            Ok(None) => {
                self.phase = WorkPhase::Reopening;
            },
            Ok(Some(summary)) => {
                match stage.log_replayed(&summary, now_ms) {
                    Ok(()) => {
                        self.phase = WorkPhase::Reopening;
                    },
                    Err(message) => {
                        self.stop(message);
                    },
                }
            },
        }
    }

    /// Takes that the data file was opened anew, or why it was not.
    pub fn on_reopened(&mut self, stage: &mut Stage, error: Option<String>)
        requires
            old(self).valid(*old(stage)),
            old(self).phase == WorkPhase::Reopening,
        ensures
            final(self).valid(*final(stage)),
            final(self).steps_left() < old(self).steps_left(),
            match error {
                Some(message) => final(self).is_stopped(*old(self), message@) && *final(stage) == *old(stage),
                None => {
                    &&& *final(stage) == (Stage { needs_replay: false, ..*old(stage) })
                    &&& *final(self) == (StageWork { phase: phase_when_level(old(self).goal, *final(stage)), ..*old(self) })
                },
            },
    {
        match error {
            Some(message) => {
                self.stop(message);
            },
            None => {
                stage.replay_finished();
                self.phase = next_when_level(&self.goal, stage);
            },
        }
    }

    /// Takes that the record of the stage was saved, or why it was not.
    pub fn on_saved(&mut self, stage: &Stage, error: Option<String>)
        requires
            old(self).valid(*stage),
            old(self).phase == WorkPhase::SavingRecord || old(self).phase == WorkPhase::SavingCheckpoint,
        ensures
            final(self).valid(*stage),
            final(self).steps_left() < old(self).steps_left(),
            match error {
                Some(message) => final(self).is_stopped(*old(self), message@),
                None => *final(self) == (StageWork {
                    phase: (if old(self).phase == WorkPhase::SavingRecord {
                        phase_when_recorded(*stage)
                    } else {
                        WorkPhase::CuttingLog
                    }),
                    ..*old(self)
                }),
            },
    {
        match error {
            Some(message) => {
                self.stop(message);
            },
            None => {
                self.phase = if self.phase == WorkPhase::SavingRecord {
                    next_when_recorded(stage)
                } else {
                    WorkPhase::CuttingLog
                };
            },
        }
    }

    /// Takes that the log ends with a whole record again, or why it does not.
    pub fn on_repaired(&mut self, stage: &mut Stage, error: Option<String>)
        requires
            old(self).valid(*old(stage)),
            old(self).phase == WorkPhase::RepairingLog,
        ensures
            final(self).valid(*final(stage)),
            final(self).steps_left() < old(self).steps_left(),
            match error {
                Some(message) => final(self).is_stopped(*old(self), message@) && *final(stage) == *old(stage),
                None => {
                    &&& *final(self) == (StageWork { phase: WorkPhase::Reserving, ..*old(self) })
                    &&& *final(stage) == (Stage { wal_tail_repaired: true, ..*old(stage) })
                },
            },
    {
        match error {
            Some(message) => {
                self.stop(message);
            },
            None => {
                stage.change_logged();
                self.phase = WorkPhase::Reserving;
            },
        }
    }

    /// The bytes that the data file may grow by.
    pub fn growth(&self, stage: &Stage) -> (bytes: u64)
        requires
            self.valid(*stage),
            self.phase == WorkPhase::Reserving,
        ensures
            self.goal matches StageGoal::Change { change, size, .. } && bytes == stage_state::growth_of(change@, size, stage.size),
    {
        match &self.goal {
            StageGoal::Change { change, size, mtime_secs } => stage.plan_change(change, *size, *mtime_secs, 0).data_growth,
            _ => 0,
        }
    }

    /// Takes that there is room for the change, or why there is none. From
    /// here on an interruption leaves something to be replayed.
    pub fn on_reserved(&mut self, stage: &mut Stage, error: Option<String>, now_epoch_ms: i64)
        requires
            old(self).valid(*old(stage)),
            old(self).phase == WorkPhase::Reserving,
        ensures
            final(self).valid(*final(stage)),
            final(self).steps_left() < old(self).steps_left(),
            match error {
                Some(message) => final(self).is_stopped(*old(self), message@) && *final(stage) == *old(stage),
                None => {
                    &&& final(self).plan is Some
                    &&& old(self).goal matches StageGoal::Change { change, size, mtime_secs } && final(self).plan->0.is_of(
                        *old(stage),
                        change@,
                        size,
                        mtime_secs,
                        now_epoch_ms,
                    )
                    &&& *final(self) == (StageWork { phase: WorkPhase::Logging, plan: final(self).plan, ..*old(self) })
                    &&& *final(stage) == (Stage { needs_replay: true, wal_tail_repaired: false, ..*old(stage) })
                },
            },
    {
        match error {
            Some(message) => {
                self.stop(message);
            },
            None => {
                match &self.goal {
                    StageGoal::Change { change, size, mtime_secs } => {
                        self.plan = Some(stage.plan_change(change, *size, *mtime_secs, now_epoch_ms));
                    },
                    _ => {},
                }
                stage.change_started();
                self.phase = WorkPhase::Logging;
            },
        }
    }

    /// Takes that the change was appended to the log, with the number that it
    /// was given and the bytes that it takes up, or why it was not.
    pub fn on_logged(&mut self, stage: &mut Stage, appended: Result<(u64, u64), String>)
        requires
            old(self).valid(*old(stage)),
            old(self).phase == WorkPhase::Logging,
        ensures
            final(self).valid(*final(stage)),
            final(self).steps_left() < old(self).steps_left(),
            match appended {
                Err(message) => final(self).is_stopped(*old(self), message@) && *final(stage) == *old(stage),
                Ok(place) => {
                    &&& *final(self) == (StageWork { phase: WorkPhase::Committing, logged: Some(place), ..*old(self) })
                    &&& *final(stage) == (Stage { wal_tail_repaired: true, ..*old(stage) })
                },
            },
    {
        match appended {
            Err(message) => {
                self.stop(message);
            },
            Ok(place) => {
                stage.change_logged();
                self.logged = Some(place);
                self.phase = WorkPhase::Committing;
            },
        }
    }

    /// Takes that the log was made durable, or why it was not. From here on
    /// the change is never given up.
    pub fn on_committed(&mut self, stage: &mut Stage, error: Option<String>, now_ms: u64)
        requires
            old(self).valid(*old(stage)),
            old(self).phase == WorkPhase::Committing,
        ensures
            final(self).valid(*final(stage)),
            final(self).steps_left() < old(self).steps_left(),
            match error {
                Some(message) => final(self).is_stopped(*old(self), message@) && *final(stage) == *old(stage),
                None => {
                    &&& *final(self) == (StageWork { phase: WorkPhase::Applying, committed: true, ..*old(self) })
                    &&& *final(stage) == old(stage).with_commit(old(self).plan->0, (old(self).logged->0).0, (old(self).logged->0).1, now_ms)
                },
            },
    {
        match error {
            Some(message) => {
                self.stop(message);
            },
            None => {
                match (&self.plan, self.logged) {
                    (Some(plan), Some((lsn, bytes))) => {
                        stage.change_committed(plan, lsn, bytes, now_ms);
                    },
                    _ => {},
                }
                self.committed = true;
                self.phase = WorkPhase::Applying;
            },
        }
    }

    /// The steps on the data file that make the change there.
    pub fn steps(&self, stage: &Stage) -> (steps: Vec<FileStep>)
        requires
            self.valid(*stage),
            self.phase == WorkPhase::Applying,
        ensures
            self.goal matches StageGoal::Change { change, size, .. } && (forall|content: Seq<u8>| #[trigger]
                stage_state::after_steps(content, steps@) == stage_state::changed(content, change@, size as int)),
    {
        match &self.goal {
            StageGoal::Change { change, size, .. } => apply_steps(copy_change(change), *size),
            _ => Vec::new(),
        }
    }

    /// Takes that the change stands in the data file, or why it does not.
    pub fn on_applied(&mut self, stage: &mut Stage, error: Option<String>)
        requires
            old(self).valid(*old(stage)),
            old(self).phase == WorkPhase::Applying,
        ensures
            final(self).valid(*final(stage)),
            final(self).steps_left() < old(self).steps_left(),
            match error {
                Some(message) => final(self).is_stopped(*old(self), message@) && *final(stage) == *old(stage),
                None => {
                    &&& *final(stage) == old(stage).with_change(old(self).plan->0)
                    &&& *final(self) == (StageWork {
                        phase: (if old(stage).is_checkpoint_due() {
                            WorkPhase::Syncing
                        } else {
                            WorkPhase::Done
                        }),
                        ..*old(self)
                    })
                },
            },
    {
        match error {
            Some(message) => {
                self.stop(message);
            },
            None => {
                let due = match &self.plan {
                    Some(plan) => stage.change_applied(plan),
                    None => false,
                };
                self.phase = if due {
                    WorkPhase::Syncing
                } else {
                    WorkPhase::Done
                };
            },
        }
    }

    /// Takes that the data file was made durable, or why it was not.
    pub fn on_synced(&mut self, stage: &mut Stage, error: Option<String>)
        requires
            old(self).valid(*old(stage)),
            old(self).phase == WorkPhase::Syncing,
        ensures
            final(self).valid(*final(stage)),
            final(self).steps_left() < old(self).steps_left(),
            match error {
                Some(message) => final(self).is_stopped(*old(self), message@) && *final(stage) == *old(stage),
                None => {
                    &&& *final(self) == (StageWork { phase: WorkPhase::SavingCheckpoint, ..*old(self) })
                    &&& *final(stage) == (Stage {
                        checkpoint_lsn: (if old(stage).next_lsn == 0 {
                            0
                        } else {
                            (old(stage).next_lsn - 1) as u64
                        }),
                        ..*old(stage)
                    })
                },
            },
    {
        match error {
            Some(message) => {
                self.stop(message);
            },
            None => {
                stage.checkpoint_reached();
                self.phase = WorkPhase::SavingCheckpoint;
            },
        }
    }

    /// Takes that the log was cut, or why it was not.
    pub fn on_cut(&mut self, stage: &mut Stage, error: Option<String>)
        requires
            old(self).valid(*old(stage)),
            old(self).phase == WorkPhase::CuttingLog,
        ensures
            final(self).valid(*final(stage)),
            final(self).steps_left() < old(self).steps_left(),
            match error {
                Some(message) => final(self).is_stopped(*old(self), message@) && *final(stage) == *old(stage),
                None => {
                    &&& *final(self) == (StageWork { phase: WorkPhase::Done, ..*old(self) })
                    &&& *final(stage) == (Stage { records_since_checkpoint: 0, bytes_since_checkpoint: 0, ..*old(stage) })
                },
            },
    {
        match error {
            Some(message) => {
                self.stop(message);
            },
            None => {
                stage.checkpoint_finished();
                self.phase = WorkPhase::Done;
            },
        }
    }

    /// What came of the work.
    pub fn outcome(&self) -> (outcome: Result<(), String>)
        requires
            self.phase == WorkPhase::Done,
        ensures
            match outcome {
                Ok(()) => self.failure is None,
                Err(message) => self.failure is Some && message@ == self.failure->0@,
            },
    {
        match &self.failure {
            None => Ok(()),
            Some(message) => Err(message.clone()),
        }
    }
}

/// The data file is changed only after the log holds the change durably: by
/// then the stage is dirty in the change's generation, and an interruption
/// leaves the change to be replayed.
pub proof fn a_change_is_durable_before_it_is_applied(work: StageWork, stage: Stage)
    requires
        work.valid(stage),
        work.phase == WorkPhase::Applying,
    ensures
        work.committed,
        stage.dirty,
        stage.needs_replay,
        stage.dirty_gen == work.plan->0.generation,
{
}

/// A change that became durable is never given up: however the work on it
/// ends, the stage is dirty in the change's generation, and the data file
/// reflects it or a replay is due.
pub proof fn a_durable_change_is_never_given_up(work: StageWork, stage: Stage)
    requires
        work.valid(stage),
        work.phase == WorkPhase::Done,
        work.committed,
    ensures
        stage.dirty,
        stage.dirty_gen == work.plan->0.generation,
        stage.needs_replay || stage.applied_gen == stage.dirty_gen,
{
}

/// A change is acknowledged only once it is durable and stands in the data
/// file, which is as long as the change was to leave it.
pub proof fn an_acknowledged_change_is_durable_and_applied(work: StageWork, stage: Stage)
    requires
        work.valid(stage),
        work.phase == WorkPhase::Done,
        work.failure is None,
        work.goal is Change,
    ensures
        work.committed,
        stage.dirty,
        !stage.needs_replay,
        stage.applied_gen == stage.dirty_gen,
        work.goal matches StageGoal::Change { size, mtime_secs, .. } && stage.size == size && stage.mtime_secs == mtime_secs,
{
}

/// A stage that is level goes on as its goal says: it is done, it is made
/// durable for a checkpoint, or the change is prepared. A stage that was never
/// changed or recorded gets its record first, and a log that may end in a torn
/// record is cut before anything is added to it.
pub proof fn a_level_stage_goes_on_as_its_goal_says(goal: StageGoal, stage: Stage)
    ensures
        ({
            let phase = phase_when_level(goal, stage);
            let unrecorded = stage.checkpoint_lsn == 0 && stage.dirty_gen == 0;
            &&& goal is Level ==> phase == WorkPhase::Done
            &&& goal is Checkpoint ==> phase == WorkPhase::Syncing
            &&& goal is Change && unrecorded ==> phase == WorkPhase::SavingRecord
            &&& goal is Change && !unrecorded && stage.wal_tail_repaired ==> phase == WorkPhase::Reserving
            &&& goal is Change && !unrecorded && !stage.wal_tail_repaired ==> phase == WorkPhase::RepairingLog
            &&& phase_when_recorded(stage) == WorkPhase::Reserving <==> stage.wal_tail_repaired
            &&& phase_when_recorded(stage) == WorkPhase::RepairingLog <==> !stage.wal_tail_repaired
        }),
{
}

/// A change is logged as what it is: with its size and its time, as a write at
/// its offset, or as a resize.
pub proof fn a_change_is_logged_as_what_it_is(goal: StageGoal, plan: ChangePlan)
    requires
        is_planned(goal, plan),
    ensures
        goal is Change,
        plan.resulting_size == goal->size,
        plan.mtime_secs == goal->mtime_secs,
        plan.is_write <==> goal->change@ is Write,
        goal->change@ is Write ==> plan.offset == goal->change@->offset,
        goal->change@ is Resize ==> plan.offset == 0,
{
}

/// Work that ends early says why, and keeps what was planned and logged.
pub proof fn work_that_ends_says_why(before: StageWork, after: StageWork, message: Seq<char>)
    requires
        after.is_stopped(before, message),
    ensures
        after.phase == WorkPhase::Done,
        after.failure is Some,
        (after.failure->0)@ == message,
        after.plan == before.plan,
        after.logged == before.logged,
        after.committed == before.committed,
        after.goal == before.goal,
{
}

/// What goes wrong ends the work with its message, and leaves the stage as it
/// was.
pub proof fn what_goes_wrong_leaves_the_stage(message: String, now_ms: u64, now_epoch_ms: i64)
    ensures
        forall|work: &mut StageWork, stage: &mut Stage| #[trigger]
            call_ensures(StageWork::on_intent, (work, stage, Err(message), now_ms), ()) ==> *final(stage) == *stage && final(work).phase
                == WorkPhase::Done && final(work).failure is Some && (final(work).failure->0)@ == message@,
        forall|work: &mut StageWork, stage: &mut Stage| #[trigger]
            call_ensures(StageWork::on_log, (work, stage, Err(message), now_ms), ()) ==> *final(stage) == *stage && final(work).phase
                == WorkPhase::Done && final(work).failure is Some && (final(work).failure->0)@ == message@,
        forall|work: &mut StageWork, stage: &mut Stage| #[trigger]
            call_ensures(StageWork::on_reopened, (work, stage, Some(message)), ()) ==> *final(stage) == *stage && final(work).phase
                == WorkPhase::Done && final(work).failure is Some && (final(work).failure->0)@ == message@,
        forall|work: &mut StageWork, stage: &mut Stage| #[trigger]
            call_ensures(StageWork::on_repaired, (work, stage, Some(message)), ()) ==> *final(stage) == *stage && final(work).phase
                == WorkPhase::Done && final(work).failure is Some && (final(work).failure->0)@ == message@,
        forall|work: &mut StageWork, stage: &mut Stage| #[trigger]
            call_ensures(StageWork::on_reserved, (work, stage, Some(message), now_epoch_ms), ()) ==> *final(stage) == *stage && final(
                work).phase == WorkPhase::Done && final(work).failure is Some && (final(work).failure->0)@ == message@,
        forall|work: &mut StageWork, stage: &mut Stage| #[trigger]
            call_ensures(StageWork::on_logged, (work, stage, Err(message)), ()) ==> *final(stage) == *stage && final(work).phase
                == WorkPhase::Done && final(work).failure is Some && (final(work).failure->0)@ == message@,
        forall|work: &mut StageWork, stage: &mut Stage| #[trigger]
            call_ensures(StageWork::on_committed, (work, stage, Some(message), now_ms), ()) ==> *final(stage) == *stage && final(work).phase
                == WorkPhase::Done && final(work).failure is Some && (final(work).failure->0)@ == message@ && final(work).committed
                == (*work).committed,
        forall|work: &mut StageWork, stage: &mut Stage| #[trigger]
            call_ensures(StageWork::on_applied, (work, stage, Some(message)), ()) ==> *final(stage) == *stage && final(work).phase
                == WorkPhase::Done && final(work).failure is Some && (final(work).failure->0)@ == message@,
        forall|work: &mut StageWork, stage: &mut Stage| #[trigger]
            call_ensures(StageWork::on_synced, (work, stage, Some(message)), ()) ==> *final(stage) == *stage && final(work).phase
                == WorkPhase::Done && final(work).failure is Some && (final(work).failure->0)@ == message@,
        forall|work: &mut StageWork, stage: &mut Stage| #[trigger]
            call_ensures(StageWork::on_cut, (work, stage, Some(message)), ()) ==> *final(stage) == *stage && final(work).phase
                == WorkPhase::Done && final(work).failure is Some && (final(work).failure->0)@ == message@,
        forall|work: &mut StageWork, stage: &Stage| #[trigger]
            call_ensures(StageWork::on_saved, (work, stage, Some(message)), ()) ==> final(work).phase == WorkPhase::Done && final(work).failure
                is Some && (final(work).failure->0)@ == message@,
{
}

/// A change goes from the log to the data file step by step: it is logged,
/// made durable, applied, and where enough was logged a checkpoint follows.
pub proof fn a_change_goes_through_the_log(place: (u64, u64), now_ms: u64)
    ensures
        forall|work: &mut StageWork, stage: &mut Stage| #[trigger]
            call_ensures(StageWork::on_logged, (work, stage, Ok(place)), ()) ==> final(work).phase == WorkPhase::Committing && final(work).logged
                == Some(place) && !final(work).committed == !(*work).committed && final(stage).wal_tail_repaired && final(stage).dirty_gen
                == (*stage).dirty_gen && final(stage).needs_replay == (*stage).needs_replay,
        forall|work: &mut StageWork, stage: &mut Stage|
            (*work).plan is Some && #[trigger] call_ensures(StageWork::on_committed, (work, stage, None, now_ms), ()) ==> final(work).phase
                == WorkPhase::Applying && final(work).committed && final(stage).dirty && final(stage).dirty_gen == (*work).plan->0.generation
                && final(stage).applied_gen == (*stage).applied_gen && final(stage).needs_replay == (*stage).needs_replay,
        forall|work: &mut StageWork, stage: &mut Stage|
            (*work).plan is Some && #[trigger] call_ensures(StageWork::on_applied, (work, stage, None), ()) ==> {
                &&& !final(stage).needs_replay
                &&& final(stage).size == (*work).plan->0.resulting_size
                &&& final(stage).applied_gen == (*work).plan->0.generation
                &&& final(work).phase == WorkPhase::Syncing <==> (*stage).records_since_checkpoint >= 256 || (*stage).bytes_since_checkpoint
                    >= 33_554_432
                &&& final(work).phase == WorkPhase::Syncing || final(work).phase == WorkPhase::Done
                &&& final(work).failure == (*work).failure
                &&& final(work).committed == (*work).committed
            },
{
}

/// A checkpoint is saved once the content is on disk, and the log is cut only
/// once the checkpoint is.
pub proof fn the_log_is_cut_after_its_checkpoint()
    ensures
        forall|work: &mut StageWork, stage: &mut Stage|
            (*stage).next_lsn > 0 && #[trigger] call_ensures(StageWork::on_synced, (work, stage, None), ()) ==> final(work).phase
                == WorkPhase::SavingCheckpoint && final(stage).checkpoint_lsn + 1 == (*stage).next_lsn && final(stage).next_lsn
                == (*stage).next_lsn && final(stage).dirty == (*stage).dirty,
        forall|work: &mut StageWork, stage: &Stage|
            (*work).phase == WorkPhase::SavingCheckpoint && #[trigger] call_ensures(StageWork::on_saved, (work, stage, None), ()) ==> final(
                work).phase == WorkPhase::CuttingLog && final(work).failure == (*work).failure,
        forall|work: &mut StageWork, stage: &mut Stage| #[trigger]
            call_ensures(StageWork::on_cut, (work, stage, None), ()) ==> final(work).phase == WorkPhase::Done && final(work).failure
                == (*work).failure && final(stage).records_since_checkpoint == 0 && final(stage).bytes_since_checkpoint == 0 && final(
                stage).checkpoint_lsn == (*stage).checkpoint_lsn && final(stage).dirty == (*stage).dirty,
{
}

/// A stage that has to be replayed is replayed before anything else: first an
/// interrupted write of its own record, then its log.
pub proof fn a_stage_is_replayed_before_anything_else(goal: StageGoal, stage: Stage, work: StageWork, now_ms: u64)
    requires
        call_ensures(StageWork::begin, (goal, &stage), work),
    ensures
        stage.needs_replay ==> work.phase == WorkPhase::ReplayingIntent,
        !stage.needs_replay ==> work.phase != WorkPhase::ReplayingIntent && work.phase != WorkPhase::ReplayingLog,
        work.goal == goal,
        work.failure is None,
        !work.committed,
        work.plan is None,
        work.logged is None,
        forall|going: &mut StageWork, level: &mut Stage| #[trigger]
            call_ensures(StageWork::on_intent, (going, level, Ok(None), now_ms), ()) ==> final(going).phase == WorkPhase::ReplayingLog && *final(
                level) == *level,
        forall|going: &mut StageWork, level: &mut Stage| #[trigger]
            call_ensures(StageWork::on_log, (going, level, Ok(None), now_ms), ()) ==> final(going).phase == WorkPhase::Reopening && *final(level)
                == *level,
        forall|going: &mut StageWork, level: &mut Stage| #[trigger]
            call_ensures(StageWork::on_reopened, (going, level, None), ()) ==> !final(level).needs_replay && final(level).size == (*level).size
                && final(level).dirty == (*level).dirty && final(going).phase == phase_when_level((*going).goal, *final(level)),
        forall|going: &mut StageWork, level: &mut Stage| #[trigger]
            call_ensures(StageWork::on_repaired, (going, level, None), ()) ==> final(level).wal_tail_repaired && final(going).phase
                == WorkPhase::Reserving && final(level).needs_replay == (*level).needs_replay,
{
}

/// A log of another key ends the work, and a log with a newer change brings
/// the stage level with it.
pub proof fn a_log_levels_its_own_stage(summary: WalSummary, now_ms: u64)
    ensures
        forall|work: &mut StageWork, stage: &mut Stage| #[trigger]
            call_ensures(StageWork::on_log, (work, stage, Ok(Some(summary)), now_ms), ()) ==> {
                &&& (*stage).key@ == summary.key@ ==> final(work).phase == WorkPhase::Reopening && final(stage).size == summary.resulting_size
                    && final(stage).dirty && final(stage).dirty_gen == summary.generation && final(stage).next_lsn == summary.next_lsn
                &&& (*stage).key@ != summary.key@ ==> final(work).phase == WorkPhase::Done && final(work).failure is Some && *final(stage)
                    == *stage
            },
{
}

/// Work has succeeded exactly where nothing went wrong.
pub proof fn work_succeeds_where_nothing_went_wrong(work: StageWork, outcome: Result<(), String>)
    requires
        call_ensures(StageWork::outcome, (&work,), outcome),
    ensures
        outcome is Ok <==> work.failure is None,
        outcome is Err ==> (outcome->Err_0)@ == (work.failure->0)@,
{
}

} // verus!
