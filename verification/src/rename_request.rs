//! The request to move an entry to a name that something else may have.
//!
//! What is staged for a file that gets replaced is kept until the move is
//! done, but it is held back: uploaded in the meantime, it would lie over the
//! moved object. Where the move failed before anything of it was begun, the
//! stage goes on as before.

use vstd::prelude::*;
use crate::flush;
use crate::flush::{pause_for_replacement, resume_after_replacement};
use crate::inode_table::EntryKind;
use crate::rename;
use crate::rename::{classify_rename_target, rename_refusal};
use crate::stage::FlushState;
use crate::stage_state::Stage;
use crate::status::NfsStatus;

verus! {

/// What the request waits for.
#[derive(Clone, Copy, Debug, PartialEq, Eq, Structural)]
pub enum RequestPhase {
    /// What is staged for the replaced file is to be held back.
    Holding,
    /// The record of what is held back is to be saved.
    SavingHeld,
    /// The objects are to be moved.
    Moving,
    /// It is to be found out whether the failed move has a journal.
    AskingJournal,
    /// What was held back is to go on as before.
    LettingOn,
    /// The record of what goes on is to be saved.
    SavingLetOn,
    /// What is known of the replaced file is to be dropped.
    Dropping,
    /// Nothing is left to do.
    Done,
}

/// A request to move an entry.
pub struct RenameRequest {
    pub phase: RequestPhase,
    /// The file that gets replaced.
    pub replaced: Option<u64>,
    /// What its stage said before it was held back.
    pub held: Option<(FlushState, Option<String>)>,
    pub failure: Option<NfsStatus>,
}

/// The file under the target's name.
pub open spec fn replaced_file(destination: Option<(u64, EntryKind)>) -> Option<u64> {
    match destination {
        Some((id, kind)) => if kind == EntryKind::File {
            Some(id)
        } else {
            None
        },
        None => None,
    }
}

/// The kind of what is under the target's name.
pub open spec fn destination_kind(destination: Option<(u64, EntryKind)>) -> Option<EntryKind> {
    match destination {
        Some((_, kind)) => Some(kind),
        None => None,
    }
}

impl RenameRequest {
    /// What holds at every step.
    pub open spec fn valid(self) -> bool {
        &&& self.held is Some ==> self.replaced is Some
        &&& self.phase == RequestPhase::Holding || self.phase == RequestPhase::SavingHeld || self.phase == RequestPhase::Dropping
            ==> self.replaced is Some
        &&& self.phase == RequestPhase::Holding ==> self.held is None
        &&& self.phase == RequestPhase::SavingHeld || self.phase == RequestPhase::AskingJournal || self.phase == RequestPhase::LettingOn
            ==> self.held is Some
        &&& self.phase == RequestPhase::AskingJournal || self.phase == RequestPhase::LettingOn || self.phase == RequestPhase::SavingLetOn
            ==> self.failure is Some
        &&& self.phase == RequestPhase::Holding || self.phase == RequestPhase::SavingHeld || self.phase == RequestPhase::Moving || self.phase
            == RequestPhase::Dropping ==> self.failure is None
    }

    /// One step may lead from here to there.
    pub open spec fn may_become(self, next: RenameRequest) -> bool {
        &&& next.replaced == self.replaced
        &&& match self.phase {
            RequestPhase::Holding => next.phase == RequestPhase::SavingHeld || (next.phase == RequestPhase::Moving && next.held is None),
            RequestPhase::SavingHeld => next.held == self.held && (next.phase == RequestPhase::Moving || (next.phase == RequestPhase::Done
                && next.failure is Some)),
            RequestPhase::Moving => next.held == self.held && (match next.failure {
                None => next.phase == (if next.replaced is Some {
                    RequestPhase::Dropping
                } else {
                    RequestPhase::Done
                }),
                Some(_) => next.phase == RequestPhase::AskingJournal || next.phase == RequestPhase::Done,
            }),
            RequestPhase::AskingJournal => next.held == self.held && next.failure == self.failure && (next.phase == RequestPhase::LettingOn
                || next.phase == RequestPhase::Done),
            RequestPhase::LettingOn => next.failure == self.failure && (next.phase == RequestPhase::SavingLetOn || next.phase
                == RequestPhase::Done),
            RequestPhase::SavingLetOn => next.failure is Some && next.phase == RequestPhase::Done,
            RequestPhase::Dropping => next.failure is None && next.phase == RequestPhase::Done,
            RequestPhase::Done => false,
        }
    }

    /// How many steps are left at most.
    pub open spec fn phases_left(self) -> nat {
        match self.phase {
            RequestPhase::Holding => 6,
            RequestPhase::SavingHeld => 5,
            RequestPhase::Moving => 4,
            RequestPhase::AskingJournal => 3,
            RequestPhase::LettingOn => 2,
            RequestPhase::SavingLetOn => 1,
            RequestPhase::Dropping => 1,
            RequestPhase::Done => 0,
        }
    }

    /// Begins a request, by what is under the target's name. The directory
    /// there counts as empty where the same move was begun before: what lies
    /// in it may be what was moved.
    pub fn begin(
        source_is_dir: bool,
        destination: Option<(u64, EntryKind)>,
        destination_dir_is_empty: bool,
        resuming: bool,
    ) -> (request: Self)
        ensures
            request.valid(),
            request.held is None,
            request.replaced == replaced_file(destination),
            ({
                let refusal = rename::refusal_of(
                    rename::target_of(source_is_dir, destination_kind(destination), destination_dir_is_empty || resuming),
                );
                &&& request.failure == refusal
                &&& request.phase == (if refusal is Some {
                    RequestPhase::Done
                } else if replaced_file(destination) is Some {
                    RequestPhase::Holding
                } else {
                    RequestPhase::Moving
                })
            }),
    {
        let (kind, replaced) = match destination {
            Some((id, EntryKind::File)) => (Some(EntryKind::File), Some(id)),
            Some((_, EntryKind::Dir)) => (Some(EntryKind::Dir), None),
            None => (None, None),
        };
        let failure = rename_refusal(classify_rename_target(source_is_dir, kind, destination_dir_is_empty || resuming));
        let phase = if failure.is_some() {
            RequestPhase::Done
        } else if replaced.is_some() {
            RequestPhase::Holding
        } else {
            RequestPhase::Moving
        };
        RenameRequest { phase, replaced, held: None, failure }
    }

    /// Takes the stage of the replaced file: it is held back, or goes on as
    /// before.
    pub fn on_stage(&mut self, stage: &mut Stage)
        requires
            old(self).valid(),
            old(self).phase == RequestPhase::Holding || old(self).phase == RequestPhase::LettingOn,
        ensures
            final(self).valid(),
            old(self).may_become(*final(self)),
            if old(self).phase == RequestPhase::Holding {
                &&& *final(self) == (RenameRequest {
                    phase: RequestPhase::SavingHeld,
                    held: Some((old(stage).state, old(stage).last_error)),
                    ..*old(self)
                })
                &&& flush::is_held_back(*old(stage), *final(stage))
            } else {
                &&& *final(self) == (RenameRequest { phase: RequestPhase::SavingLetOn, held: None, ..*old(self) })
                &&& flush::is_let_on(*old(stage), *final(stage), old(self).held->0)
            },
    {
        if self.phase == RequestPhase::Holding {
            self.held = Some(pause_for_replacement(stage));
            self.phase = RequestPhase::SavingHeld;
        } else {
            match self.held.take() {
                Some(before) => {
                    resume_after_replacement(stage, before);
                },
                None => {},
            }
            self.phase = RequestPhase::SavingLetOn;
        }
    }

    /// Takes that nothing is staged for the replaced file.
    pub fn on_no_stage(&mut self)
        requires
            old(self).valid(),
            old(self).phase == RequestPhase::Holding || old(self).phase == RequestPhase::LettingOn,
        ensures
            final(self).valid(),
            old(self).may_become(*final(self)),
            *final(self) == (RenameRequest {
                phase: (if old(self).phase == RequestPhase::Holding {
                    RequestPhase::Moving
                } else {
                    RequestPhase::Done
                }),
                ..*old(self)
            }),
    {
        self.phase = if self.phase == RequestPhase::Holding {
            RequestPhase::Moving
        } else {
            RequestPhase::Done
        };
    }

    /// Takes whether the record of the replaced file's stage was saved.
    pub fn on_saved(&mut self, saved: bool)
        requires
            old(self).valid(),
            old(self).phase == RequestPhase::SavingHeld || old(self).phase == RequestPhase::SavingLetOn,
        ensures
            final(self).valid(),
            old(self).may_become(*final(self)),
            *final(self) == (if !saved {
                RenameRequest { phase: RequestPhase::Done, failure: Some(NfsStatus::Io), ..*old(self) }
            } else if old(self).phase == RequestPhase::SavingHeld {
                RenameRequest { phase: RequestPhase::Moving, ..*old(self) }
            } else {
                RenameRequest { phase: RequestPhase::Done, ..*old(self) }
            }),
    {
        if !saved {
            self.phase = RequestPhase::Done;
            self.failure = Some(NfsStatus::Io);
        } else if self.phase == RequestPhase::SavingHeld {
            self.phase = RequestPhase::Moving;
        } else {
            self.phase = RequestPhase::Done;
        }
    }

    /// Takes whether the objects were moved.
    pub fn on_moved(&mut self, moved: Result<(), NfsStatus>)
        requires
            old(self).valid(),
            old(self).phase == RequestPhase::Moving,
        ensures
            final(self).valid(),
            old(self).may_become(*final(self)),
            *final(self) == (match moved {
                Ok(()) => RenameRequest {
                    phase: (if old(self).replaced is Some {
                        RequestPhase::Dropping
                    } else {
                        RequestPhase::Done
                    }),
                    ..*old(self)
                },
                Err(status) => RenameRequest {
                    phase: (if old(self).held is Some {
                        RequestPhase::AskingJournal
                    } else {
                        RequestPhase::Done
                    }),
                    failure: Some(status),
                    ..*old(self)
                },
            }),
    {
        match moved {
            Ok(()) => {
                self.phase = if self.replaced.is_some() {
                    RequestPhase::Dropping
                } else {
                    RequestPhase::Done
                };
            },
            Err(status) => {
                self.phase = if self.held.is_some() {
                    RequestPhase::AskingJournal
                } else {
                    RequestPhase::Done
                };
                self.failure = Some(status);
            },
        }
    }

    /// Takes whether the failed move has a journal, or nothing where that
    /// cannot be told. Without a journal nothing of the move was begun.
    pub fn on_journal(&mut self, journal_exists: Option<bool>)
        requires
            old(self).valid(),
            old(self).phase == RequestPhase::AskingJournal,
        ensures
            final(self).valid(),
            old(self).may_become(*final(self)),
            *final(self) == (RenameRequest {
                phase: (if journal_exists == Some(false) {
                    RequestPhase::LettingOn
                } else {
                    RequestPhase::Done
                }),
                ..*old(self)
            }),
    {
        self.phase = match journal_exists {
            Some(false) => RequestPhase::LettingOn,
            _ => RequestPhase::Done,
        };
    }

    /// Takes that what was known of the replaced file was dropped.
    pub fn on_dropped(&mut self)
        requires
            old(self).valid(),
            old(self).phase == RequestPhase::Dropping,
        ensures
            final(self).valid(),
            old(self).may_become(*final(self)),
            *final(self) == (RenameRequest { phase: RequestPhase::Done, ..*old(self) }),
    {
        self.phase = RequestPhase::Done;
    }

    /// What the client is told.
    pub fn outcome(&self) -> (outcome: Result<(), NfsStatus>)
        requires
            self.phase == RequestPhase::Done,
        ensures
            outcome == (match self.failure {
                None => Ok::<(), NfsStatus>(()),
                Some(status) => Err(status),
            }),
    {
        match self.failure {
            None => Ok(()),
            Some(status) => Err(status),
        }
    }
}

/// Nothing is moved over a file before what is staged for it is held back and
/// its record says so, unless nothing is staged for it.
pub proof fn what_gets_replaced_is_held_back_first(before: RenameRequest, after: RenameRequest)
    requires
        before.valid(),
        before.may_become(after),
        after.phase == RequestPhase::Moving,
    ensures
        after.held is Some ==> before.phase == RequestPhase::SavingHeld,
        after.held is None ==> before.phase == RequestPhase::Holding,
{
}

/// What was known of a replaced file is dropped only after the move was made.
pub proof fn what_gets_replaced_is_kept_until_the_move_is_done(before: RenameRequest, after: RenameRequest)
    requires
        before.valid(),
        before.may_become(after),
        after.phase == RequestPhase::Dropping,
    ensures
        before.phase == RequestPhase::Moving,
        after.failure is None,
        after.replaced is Some,
{
}

/// A stage that was held back is let on only after the move failed, and only
/// where it has no journal.
pub proof fn what_is_held_back_goes_on_only_after_a_failed_move(before: RenameRequest, after: RenameRequest)
    requires
        before.valid(),
        before.may_become(after),
        after.phase == RequestPhase::LettingOn,
    ensures
        before.phase == RequestPhase::AskingJournal,
        after.held == before.held,
        after.failure is Some,
{
}

/// A stage that was held back for a move which failed before it began is as it
/// was, and the request fails.
pub proof fn a_move_that_never_began_leaves_the_stage_alone(before: Stage, held: Stage, after: Stage, request: RenameRequest)
    requires
        request.valid(),
        request.phase == RequestPhase::LettingOn,
        request.held == Some((before.state, before.last_error)),
        flush::is_held_back(before, held),
        flush::is_let_on(held, after, request.held->0),
    ensures
        after == before,
        request.failure is Some,
{
}

/// Every step of a request leads on, so that it comes to an end.
pub proof fn every_step_of_a_request_leads_on(before: RenameRequest, after: RenameRequest)
    requires
        before.may_become(after),
    ensures
        after.phases_left() < before.phases_left(),
{
}

/// A file under the target's name is replaced; a directory is not, and where
/// nothing is nothing is.
pub proof fn only_a_file_is_replaced(destination: Option<(u64, EntryKind)>)
    ensures
        destination is None ==> replaced_file(destination) is None && destination_kind(destination) is None,
        destination is Some ==> destination_kind(destination) == Some((destination->0).1),
        destination is Some && (destination->0).1 == EntryKind::File ==> replaced_file(destination) == Some((destination->0).0),
        destination is Some && (destination->0).1 == EntryKind::Dir ==> replaced_file(destination) is None,
{
}

/// A request is refused, holds back what it replaces, or moves at once.
pub proof fn a_request_begins_by_holding_back_what_it_replaces(
    source_is_dir: bool,
    destination: Option<(u64, EntryKind)>,
    destination_dir_is_empty: bool,
    resuming: bool,
    request: RenameRequest,
)
    requires
        call_ensures(RenameRequest::begin, (source_is_dir, destination, destination_dir_is_empty, resuming), request),
    ensures
        destination is None ==> request.phase == RequestPhase::Moving && request.failure is None && request.replaced is None,
        destination is Some && (destination->0).1 == EntryKind::File && !source_is_dir ==> request.phase == RequestPhase::Holding
            && request.failure is None && request.replaced == Some((destination->0).0),
        destination is Some && (destination->0).1 == EntryKind::File && source_is_dir ==> request.phase == RequestPhase::Done
            && request.failure is Some,
        destination is Some && (destination->0).1 == EntryKind::Dir && !source_is_dir ==> request.phase == RequestPhase::Done
            && request.failure is Some,
        destination is Some && (destination->0).1 == EntryKind::Dir && source_is_dir && (destination_dir_is_empty || resuming)
            ==> request.phase == RequestPhase::Moving && request.failure is None,
        destination is Some && (destination->0).1 == EntryKind::Dir && source_is_dir && !destination_dir_is_empty && !resuming
            ==> request.phase == RequestPhase::Done && request.failure is Some,
        request.held is None,
{
}

/// What is held back is noted before the move, is let on only where the move
/// never began, and is dropped only where the move was made.
pub proof fn what_is_held_back_follows_the_move(status: NfsStatus)
    ensures
        forall|request: &mut RenameRequest, stage: &mut Stage|
            (*request).phase == RequestPhase::Holding && #[trigger] call_ensures(RenameRequest::on_stage, (request, stage), ()) ==> final(
                request).phase == RequestPhase::SavingHeld && final(request).held == Some(((*stage).state, (*stage).last_error)) && final(
                stage).state == crate::stage::FlushState::Paused && final(stage).dirty == (*stage).dirty,
        forall|request: &mut RenameRequest, stage: &mut Stage|
            (*request).phase == RequestPhase::LettingOn && (*request).held is Some && #[trigger] call_ensures(
                RenameRequest::on_stage,
                (request, stage),
                (),
            ) ==> final(request).phase == RequestPhase::SavingLetOn && final(request).held is None && final(stage).state == ((
            *request).held->0).0 && final(stage).last_error == ((*request).held->0).1 && final(stage).dirty == (*stage).dirty,
        forall|request: &mut RenameRequest| #[trigger]
            call_ensures(RenameRequest::on_moved, (request, Ok(())), ()) ==> {
                &&& (*request).replaced is Some ==> final(request).phase == RequestPhase::Dropping
                &&& (*request).replaced is None ==> final(request).phase == RequestPhase::Done
                &&& final(request).failure == (*request).failure
            },
        forall|request: &mut RenameRequest| #[trigger]
            call_ensures(RenameRequest::on_moved, (request, Err(status)), ()) ==> {
                &&& final(request).failure == Some(status)
                &&& (*request).held is Some ==> final(request).phase == RequestPhase::AskingJournal
                &&& (*request).held is None ==> final(request).phase == RequestPhase::Done
            },
        forall|request: &mut RenameRequest, found: Option<bool>| #[trigger]
            call_ensures(RenameRequest::on_journal, (request, found), ()) ==> {
                &&& final(request).phase == RequestPhase::LettingOn <==> found == Some(false)
                &&& found != Some(false) ==> final(request).phase == RequestPhase::Done
                &&& final(request).failure == (*request).failure
                &&& final(request).held == (*request).held
            },
        forall|request: &mut RenameRequest| #[trigger]
            call_ensures(RenameRequest::on_saved, (request, false), ()) ==> final(request).phase == RequestPhase::Done && final(request).failure
                == Some(NfsStatus::Io),
        forall|request: &mut RenameRequest|
            (*request).phase == RequestPhase::SavingHeld && #[trigger] call_ensures(RenameRequest::on_saved, (request, true), ()) ==> final(
                request).phase == RequestPhase::Moving && final(request).failure == (*request).failure && final(request).held
                == (*request).held,
        forall|request: &mut RenameRequest|
            (*request).phase == RequestPhase::Holding && #[trigger] call_ensures(RenameRequest::on_no_stage, (request,), ()) ==> final(
                request).phase == RequestPhase::Moving && final(request).held == (*request).held && final(request).failure
                == (*request).failure,
        forall|request: &mut RenameRequest| #[trigger]
            call_ensures(RenameRequest::on_dropped, (request,), ()) ==> final(request).phase == RequestPhase::Done && final(request).failure
                == (*request).failure,
{
}

/// A request is answered as it went.
pub proof fn a_request_is_answered_as_it_went(request: RenameRequest, outcome: Result<(), NfsStatus>)
    requires
        call_ensures(RenameRequest::outcome, (&request,), outcome),
    ensures
        outcome is Ok <==> request.failure is None,
        outcome is Err ==> request.failure == Some(outcome->Err_0),
{
}

} // verus!
