//! Publication of one snapshot of a staged file as an object.
//!
//! The requests themselves are made elsewhere. This module decides, from what
//! came back of each, what to ask for next, what to keep in the journal before
//! a request goes out, and when the upload counts as done. An upload goes on
//! from its journal after a crash, and never replaces an object that is not
//! the one the staged file was made from.

use vstd::prelude::*;
use crate::journal;
use crate::journal::{contains_part, copy_parts, copy_text, insert_part, Condition, MultipartJournal, UploadFailure};
use crate::stage;
use crate::stage::{copy_guard, part_count, part_range, planned_part_size, PublicationGuard, UploadSnapshot, MULTIPART_THRESHOLD};
use crate::status::NfsStatus;
use crate::text;
use crate::text::{has_prefix, parse_number};

verus! {

/// The largest object that is uploaded where no provider says otherwise.
pub const MAX_OBJECT_BYTES: u64 = 5 * 1024 * 1024 * 1024 * 1024 - 5 * 1024 * 1024 * 1024;

/// The highest part number that a store can report.
pub const MAX_PART_MARKER: u64 = 10_000;

/// What an upload waits for.
#[derive(Clone, Copy, Debug, PartialEq, Eq, Structural)]
pub enum UploadPhase {
    /// The journal is to be read.
    Loading,
    /// An earlier attempt may have published: the object is to be held against
    /// the snapshot.
    CheckingPublished,
    /// Nothing says what may be replaced: the target is to be looked at.
    Identifying,
    /// The store is to be asked whether it honours the condition.
    CheckingCondition,
    /// An earlier request may have gone out: the target is to be looked at.
    CheckingTarget,
    /// The journal is to be saved with what may be replaced.
    SavingGuard,
    /// The snapshot's file is to be opened.
    Opening,
    /// The stored parts are to be listed.
    Listing,
    /// The journal is to be saved with the parts that the store has.
    SavingParts,
    /// An upload in parts is to be begun.
    Creating,
    /// The journal is to be saved with the new upload.
    SavingUpload,
    /// The parts that are missing are to be sent.
    Sending,
    /// The journal is to be saved, saying that the publishing request may have
    /// been sent.
    SavingIntent,
    /// The publishing request is to be sent.
    Publishing,
    /// The publishing request failed: the object is to be held against the
    /// snapshot.
    Reconciling,
    /// The journal is to be saved with what came of the request.
    SavingOutcome,
    /// The journal is to be read again.
    Reloading,
    /// What the object is has to be settled: it is to be held against the
    /// snapshot.
    CheckingOutcome,
    /// The journal is to be saved with the tag of the published object.
    SavingEtag,
    /// Nothing is left to do.
    Finished,
}

/// What the store said when asked about a condition.
pub enum ConditionAnswer {
    /// No store is configured.
    NoConfiguration,
    /// The question failed.
    Failed(String),
    /// Whether the condition is honoured.
    Supported(bool),
}

/// One stored part as the store lists it.
pub struct ListedPart {
    pub number: Option<i32>,
    pub etag: Option<String>,
    pub size: Option<i64>,
}

/// One page of stored parts.
pub struct PartsPage {
    pub parts: Vec<ListedPart>,
    pub truncated: bool,
    pub next_marker: Option<String>,
}

/// The condition under which a guard is enforced.
pub open spec fn condition_of(guard: stage::GuardModel, multipart: bool) -> Condition {
    match (guard, multipart) {
        (stage::GuardModel::Absent, false) => Condition::PutCreate,
        (stage::GuardModel::Match { .. }, false) => Condition::PutMatch,
        (stage::GuardModel::Absent, true) => Condition::CompleteCreate,
        (stage::GuardModel::Match { .. }, true) => Condition::CompleteMatch,
    }
}

/// The condition under which a guard is enforced.
pub fn publication_condition(guard: &PublicationGuard, multipart: bool) -> (condition: Condition)
    ensures
        condition == condition_of(guard@, multipart),
{
    match (guard, multipart) {
        (PublicationGuard::Absent, false) => Condition::PutCreate,
        (PublicationGuard::Match { .. }, false) => Condition::PutMatch,
        (PublicationGuard::Absent, true) => Condition::CompleteCreate,
        (PublicationGuard::Match { .. }, true) => Condition::CompleteMatch,
    }
}

/// A listed part is one of this upload: it has a number that the upload has,
/// and the length that this part has.
pub open spec fn is_own_part(part: ListedPart, size: u64) -> bool {
    &&& part.number matches Some(number)
    &&& part.etag is Some
    &&& part.size matches Some(length)
    &&& 0 < number <= stage::part_count_of(size as int)
    &&& length >= 0
    &&& length == stage::part_range_of(size as int, number - 1).1
}

/// The parts that were found before, with those of one page.
pub open spec fn accepted(found: Seq<(i32, Seq<char>)>, page: Seq<ListedPart>, size: u64) -> Seq<(i32, Seq<char>)>
    decreases page.len(),
{
    if page.len() == 0 {
        found
    } else {
        let before = accepted(found, page.drop_last(), size);
        if is_own_part(page.last(), size) {
            journal::with_part(before, page.last().number->0, text::optional(page.last().etag)->0)
        } else {
            before
        }
    }
}

/// Every number is one of an upload with so many parts.
pub open spec fn numbers_fit(parts: Seq<(i32, Seq<char>)>, count: int) -> bool {
    forall|i: int| 0 <= i < parts.len() ==> 1 <= (#[trigger] parts[i]).0 <= count
}

/// A journal as an upload of this size keeps it: the parts that it records are
/// the upload's own, or the store is asked which it has before one is counted.
pub open spec fn is_own_journal(journal: journal::JournalModel, size: u64) -> bool {
    journal.upload_id is Some || numbers_fit(journal.parts, stage::part_count_of(size as int))
}

proof fn one_more_number_fits(parts: Seq<(i32, Seq<char>)>, number: i32, etag: Seq<char>, count: int)
    requires
        journal::in_number_order(parts),
        numbers_fit(parts, count),
        1 <= number <= count,
    ensures
        numbers_fit(journal::with_part(parts, number, etag), count),
{
    let more = journal::with_part(parts, number, etag);
    journal::one_more_part(parts, number, etag);
    assert forall|i: int| 0 <= i < more.len() implies 1 <= (#[trigger] more[i]).0 <= count by {
        if more[i].0 != number {
            assert(journal::has_part(more, more[i].0));
            let other = more[i].0;
            assert(journal::has_part(parts, other));
            let k = choose|k: int| 0 <= k < parts.len() && parts[k].0 == other;
            assert(parts[k].0 == other);
        }
    }
}

proof fn accepted_numbers_fit(found: Seq<(i32, Seq<char>)>, page: Seq<ListedPart>, size: u64)
    requires
        journal::in_number_order(found),
        numbers_fit(found, stage::part_count_of(size as int)),
    ensures
        journal::in_number_order(accepted(found, page, size)),
        numbers_fit(accepted(found, page, size), stage::part_count_of(size as int)),
    decreases page.len(),
{
    if page.len() > 0 {
        accepted_numbers_fit(found, page.drop_last(), size);
        if is_own_part(page.last(), size) {
            let before = accepted(found, page.drop_last(), size);
            let etag = text::optional(page.last().etag)->0;
            journal::one_more_part(before, page.last().number->0, etag);
            one_more_number_fits(before, page.last().number->0, etag, stage::part_count_of(size as int));
        }
    }
}

/// A listing goes on only from a marker that is a higher part number than the
/// one before.
pub open spec fn marker_advances(previous: Option<Seq<char>>, next: Option<Seq<char>>) -> bool {
    let before = match previous {
        Some(marker) => match text::number_of(marker) {
            Some(number) => number,
            None => 0,
        },
        None => 0,
    };
    next matches Some(marker) && text::number_of(marker) matches Some(number) && before < number <= MAX_PART_MARKER
}

/// One upload, from its journal to its outcome.
pub struct Upload {
    pub snapshot: UploadSnapshot,
    pub journal: MultipartJournal,
    pub phase: UploadPhase,
    /// What went wrong so far.
    pub failure: Option<UploadFailure>,
    /// Where the listing of parts goes on.
    pub marker: Option<String>,
    /// The parts listed so far.
    pub found: Vec<(i32, String)>,
}

/// An upload with its texts taken as characters.
#[verifier::ext_equal]
pub ghost struct UploadModel {
    pub snapshot: stage::SnapshotModel,
    pub journal: journal::JournalModel,
    pub phase: UploadPhase,
    pub failure: Option<journal::FailureModel>,
    pub marker: Option<Seq<char>>,
    pub found: Seq<(i32, Seq<char>)>,
}

impl View for Upload {
    type V = UploadModel;

    open spec fn view(&self) -> UploadModel {
        UploadModel {
            snapshot: self.snapshot@,
            journal: self.journal@,
            phase: self.phase,
            failure: journal::failure_view(self.failure),
            marker: text::optional(self.marker),
            found: journal::parts_view(self.found@),
        }
    }
}

impl UploadModel {
    /// The object is too large for a single request.
    pub open spec fn multipart(self) -> bool {
        self.snapshot.size > MULTIPART_THRESHOLD
    }

    /// A request that publishes may go out in this phase, or its answer is
    /// being dealt with.
    pub open spec fn guarded_phase(self) -> bool {
        ||| self.phase == UploadPhase::CheckingCondition
        ||| self.phase == UploadPhase::CheckingTarget
        ||| self.phase == UploadPhase::SavingGuard
        ||| self.phase == UploadPhase::Opening
        ||| self.phase == UploadPhase::Listing
        ||| self.phase == UploadPhase::SavingParts
        ||| self.phase == UploadPhase::Creating
        ||| self.phase == UploadPhase::SavingUpload
        ||| self.phase == UploadPhase::Sending
        ||| self.phase == UploadPhase::SavingIntent
        ||| self.phase == UploadPhase::Publishing
        ||| self.phase == UploadPhase::Reconciling
    }

    /// The publishing request is about to be sent, or was.
    pub open spec fn committed_phase(self) -> bool {
        ||| self.phase == UploadPhase::SavingIntent
        ||| self.phase == UploadPhase::Publishing
        ||| self.phase == UploadPhase::Reconciling
    }

    /// What holds of every upload at every step.
    pub open spec fn valid(self) -> bool {
        &&& journal::in_number_order(self.journal.parts)
        &&& journal::in_number_order(self.found)
        &&& numbers_fit(self.found, stage::part_count_of(self.snapshot.size as int))
        &&& self.guarded_phase() ==> self.journal.precondition is Some && self.journal.precondition->0.is_valid()
        &&& self.committed_phase() ==> self.journal.completing && (self.multipart() ==> self.journal.upload_id is Some
            && self.journal.parts.len() == stage::part_count_of(self.snapshot.size as int))
        &&& self.phase == UploadPhase::Listing || self.phase == UploadPhase::Sending ==> self.journal.upload_id is Some
        &&& self.phase == UploadPhase::Reconciling ==> self.failure is Some && self.multipart()
        &&& self.phase == UploadPhase::Identifying ==> self.journal.precondition is None
        &&& self.phase == UploadPhase::Opening ==> !self.multipart()
        &&& self.phase == UploadPhase::Sending || self.phase == UploadPhase::SavingUpload || self.phase == UploadPhase::SavingParts || self.phase
            == UploadPhase::Creating || self.phase == UploadPhase::Listing ==> self.multipart()
        &&& self.phase == UploadPhase::SavingUpload ==> self.journal.upload_id is Some
        &&& self.phase == UploadPhase::SavingEtag ==> self.journal.published_etag is Some
        &&& self.phase == UploadPhase::Finished ==> self.failure is Some || self.journal.published_etag is Some
        &&& self.failure is Some ==> self.phase == UploadPhase::Sending || self.phase == UploadPhase::Reconciling || self.phase
            == UploadPhase::SavingOutcome || self.phase == UploadPhase::Reloading || self.phase == UploadPhase::CheckingOutcome || self.phase
            == UploadPhase::SavingEtag || self.phase == UploadPhase::Finished
    }

    /// The store was asked which parts it has, or has none: what is recorded
    /// is what is completed.
    pub open spec fn counts_parts(self) -> bool {
        ||| self.phase == UploadPhase::SavingParts
        ||| self.phase == UploadPhase::Creating
        ||| self.phase == UploadPhase::SavingUpload
        ||| self.phase == UploadPhase::Sending
        ||| self.committed_phase()
    }

    /// The parts that are recorded are the upload's own.
    pub open spec fn is_sound(self) -> bool {
        self.multipart() ==> {
            &&& is_own_journal(self.journal, self.snapshot.size)
            &&& self.counts_parts() ==> numbers_fit(self.journal.parts, stage::part_count_of(self.snapshot.size as int))
        }
    }

    /// The upload failed; what the object is stays to be settled.
    pub open spec fn failed(self, failure: journal::FailureModel) -> UploadModel {
        UploadModel { failure: Some(failure), phase: UploadPhase::Reloading, ..self }
    }

    /// Nothing is left to do.
    pub open spec fn over(self, failure: Option<journal::FailureModel>) -> UploadModel {
        UploadModel { failure, phase: UploadPhase::Finished, ..self }
    }

    /// What may be replaced is known.
    pub open spec fn guarded(self) -> UploadModel {
        if self.journal.precondition->0.is_valid() {
            UploadModel { phase: UploadPhase::CheckingCondition, ..self }
        } else {
            self.failed(journal::local_failure("Invalid publication condition; local data retained"@))
        }
    }

    /// It is to be found out what may be replaced: what the journal says, else
    /// what the snapshot says, else what stands at the target.
    pub open spec fn seeking_guard(self) -> UploadModel {
        if self.journal.precondition is Some {
            self.guarded()
        } else if self.journal.completing {
            self.failed(journal::local_failure("Legacy publication has no durable condition; retain it for manual recovery"@))
        } else {
            let journal = journal::JournalModel { precondition: self.snapshot.publication_guard, ..self.journal };
            if journal.precondition is Some {
                UploadModel { journal, ..self }.guarded()
            } else {
                UploadModel { phase: UploadPhase::Identifying, ..self }
            }
        }
    }

    /// The journal was read.
    pub open spec fn loaded(self, journal: journal::JournalModel) -> UploadModel {
        let read = UploadModel { journal, ..self };
        if self.phase == UploadPhase::Loading {
            if self.multipart() && journal.part_size != stage::part_size_of(self.snapshot.size as int) {
                read.failed(journal::local_failure("Multipart geometry does not match the persisted snapshot"@))
            } else if journal.completing {
                UploadModel { phase: UploadPhase::CheckingPublished, ..read }
            } else {
                read.seeking_guard()
            }
        } else if self.failure is None && journal.published_etag is Some {
            UploadModel { phase: UploadPhase::SavingEtag, ..read }
        } else if self.failure matches Some(failure) && !failure.uncertain && !"conflict:"@.is_prefix_of(failure.message) {
            read.over(self.failure)
        } else {
            UploadModel { phase: UploadPhase::CheckingOutcome, ..read }
        }
    }

    /// The journal could not be read.
    pub open spec fn unreadable(self, message: Seq<char>) -> UploadModel {
        if self.phase == UploadPhase::Loading {
            self.failed(journal::local_failure(message))
        } else {
            self.over(Some(journal::local_failure(message)))
        }
    }

    /// The object was held against the snapshot: where it is the snapshot's
    /// content, its tag.
    pub open spec fn verified(self, etag: Option<Seq<char>>) -> UploadModel {
        let published = journal::JournalModel { published_etag: etag, ..self.journal };
        if etag is Some {
            if self.phase == UploadPhase::CheckingOutcome {
                UploadModel { journal: published, phase: UploadPhase::SavingEtag, ..self }
            } else {
                UploadModel { journal: published, failure: None, phase: UploadPhase::SavingOutcome, ..self }
            }
        } else if self.phase == UploadPhase::CheckingPublished {
            self.seeking_guard()
        } else if self.phase == UploadPhase::Reconciling {
            self.rejected(self.failure->0)
        } else {
            self.over(
                if self.failure is Some {
                    self.failure
                } else {
                    Some(
                        journal::FailureModel {
                            message: "outcome_unknown: Publication returned no verifiable identity"@,
                            retryable: false,
                            uncertain: true,
                        },
                    )
                },
            )
        }
    }

    /// The publishing request failed for good. Only where it cannot have taken
    /// effect does the journal say again that it was not sent.
    pub open spec fn rejected(self, failure: journal::FailureModel) -> UploadModel {
        if failure.uncertain {
            self.failed(failure)
        } else {
            UploadModel {
                journal: journal::JournalModel { completing: false, ..self.journal },
                failure: Some(failure),
                phase: UploadPhase::SavingOutcome,
                ..self
            }
        }
    }

    /// The target was looked at: absent, or there with the tag it has.
    pub open spec fn observed(self, target: Option<Option<Seq<char>>>) -> UploadModel {
        if self.phase == UploadPhase::Identifying {
            if target is None {
                UploadModel {
                    journal: journal::JournalModel { precondition: Some(stage::GuardModel::Absent), ..self.journal },
                    ..self
                }.guarded()
            } else {
                self.failed(
                    journal::local_failure("Stage has no original object identity; export it before replacing an existing object"@),
                )
            }
        } else if target matches Some(etag) && !(etag matches Some(tag) && tag.len() > 0) {
            self.failed(journal::local_failure("Target identity is missing"@))
        } else if !self.journal.precondition->0.admits(
            match target {
                Some(etag) => etag,
                None => None,
            },
        ) {
            self.failed(journal::local_failure("conflict: Target changed after the staged publication; local data retained"@))
        } else {
            UploadModel { phase: UploadPhase::SavingGuard, ..self }
        }
    }

    /// The target could not be looked at.
    pub open spec fn unobserved(self, status: NfsStatus) -> UploadModel {
        self.failed(
            if self.phase == UploadPhase::Identifying {
                journal::FailureModel {
                    message: "Unable to establish publication identity: "@ + status.spelled(),
                    retryable: status == NfsStatus::Io || status == NfsStatus::JukeBox,
                    uncertain: false,
                }
            } else {
                journal::FailureModel {
                    message: "outcome_unknown: Target reconciliation failed: "@ + status.spelled(),
                    retryable: false,
                    uncertain: true,
                }
            },
        )
    }

    /// The store was asked whether it honours the condition.
    pub open spec fn answered(self, answer: ConditionAnswer) -> UploadModel {
        match answer {
            ConditionAnswer::NoConfiguration => self.failed(journal::local_failure("Missing storage configuration"@)),
            ConditionAnswer::Failed(message) => self.failed(
                journal::FailureModel {
                    message: message@,
                    retryable: "transient:"@.is_prefix_of(message@),
                    uncertain: false,
                },
            ),
            ConditionAnswer::Supported(false) => self.failed(
                journal::local_failure("This endpoint cannot safely publish the staged object with its required condition"@),
            ),
            ConditionAnswer::Supported(true) => UploadModel {
                phase: if self.journal.completing {
                    UploadPhase::CheckingTarget
                } else {
                    UploadPhase::SavingGuard
                },
                ..self
            },
        }
    }

    /// The publishing request is to be recorded before it goes out.
    pub open spec fn committing(self) -> UploadModel {
        UploadModel {
            journal: journal::JournalModel { completing: true, ..self.journal },
            phase: UploadPhase::SavingIntent,
            ..self
        }
    }

    /// The journal was saved.
    pub open spec fn saved(self) -> UploadModel {
        match self.phase {
            UploadPhase::SavingGuard => UploadModel {
                phase: if !self.multipart() {
                    UploadPhase::Opening
                } else if self.journal.upload_id is Some {
                    UploadPhase::Listing
                } else {
                    UploadPhase::Creating
                },
                marker: None,
                found: Seq::empty(),
                ..self
            },
            UploadPhase::SavingParts => UploadModel {
                phase: if self.journal.upload_id is Some {
                    UploadPhase::Sending
                } else {
                    UploadPhase::Creating
                },
                ..self
            },
            UploadPhase::SavingUpload => UploadModel { phase: UploadPhase::Sending, ..self },
            UploadPhase::SavingIntent => UploadModel { phase: UploadPhase::Publishing, ..self },
            UploadPhase::SavingEtag => self.over(None),
            _ => UploadModel { phase: UploadPhase::Reloading, ..self },
        }
    }

    /// The journal could not be saved.
    pub open spec fn unsaved(self, message: Seq<char>) -> UploadModel {
        if self.phase == UploadPhase::SavingEtag {
            self.over(Some(journal::local_failure(message)))
        } else {
            self.failed(journal::local_failure(message))
        }
    }

    /// One page of stored parts came.
    pub open spec fn listed(self, page: PartsPage) -> UploadModel {
        let found = accepted(self.found, page.parts@, self.snapshot.size);
        let next = text::optional(page.next_marker);
        if !page.truncated {
            UploadModel {
                found,
                journal: journal::JournalModel { parts: found, ..self.journal },
                phase: UploadPhase::SavingParts,
                ..self
            }
        } else if marker_advances(self.marker, next) {
            UploadModel { found, marker: next, ..self }
        } else {
            UploadModel { found, ..self }.failed(journal::local_failure("ListParts returned an invalid continuation marker"@))
        }
    }

    /// The store no longer knows the upload: it begins anew.
    pub open spec fn forgotten(self) -> UploadModel {
        UploadModel {
            journal: journal::JournalModel { upload_id: None, parts: Seq::empty(), completing: false, ..self.journal },
            phase: UploadPhase::SavingParts,
            ..self
        }
    }

    /// An upload was begun.
    pub open spec fn created(self, upload_id: Option<Seq<char>>) -> UploadModel {
        if upload_id is Some {
            UploadModel {
                journal: journal::JournalModel { upload_id, ..self.journal },
                phase: UploadPhase::SavingUpload,
                ..self
            }
        } else {
            self.failed(journal::local_failure("Storage provider returned no upload id"@))
        }
    }

    /// A part could not be stored. The first such failure counts.
    pub open spec fn part_failed(self, failure: journal::FailureModel) -> UploadModel {
        UploadModel {
            failure: if self.failure is Some {
                self.failure
            } else {
                Some(failure)
            },
            ..self
        }
    }

    /// A part was sent and answered with a tag, or without one.
    pub open spec fn part_stored(self, number: i32, etag: Option<Seq<char>>) -> UploadModel {
        match etag {
            Some(tag) => UploadModel {
                journal: journal::JournalModel { parts: journal::with_part(self.journal.parts, number, tag), ..self.journal },
                ..self
            },
            None => self.part_failed(journal::local_failure("UploadPart returned no ETag"@)),
        }
    }

    /// No part is in flight any more.
    pub open spec fn parts_sent(self) -> UploadModel {
        match self.failure {
            Some(failure) => self.failed(failure),
            None => if self.journal.parts.len() == stage::part_count_of(self.snapshot.size as int) {
                self.committing()
            } else {
                self.failed(journal::local_failure("Multipart upload is incomplete"@))
            },
        }
    }

    /// The publishing request was answered.
    pub open spec fn published(self, etag: Option<Seq<char>>) -> UploadModel {
        UploadModel {
            journal: journal::JournalModel { published_etag: etag, ..self.journal },
            phase: UploadPhase::SavingOutcome,
            ..self
        }
    }

    /// The publishing request failed. An upload in parts is held against the
    /// snapshot first.
    pub open spec fn refused(self, failure: journal::FailureModel) -> UploadModel {
        if self.multipart() {
            UploadModel { failure: Some(failure), phase: UploadPhase::Reconciling, ..self }
        } else {
            self.rejected(failure)
        }
    }
}

impl UploadModel {
    /// One step, whatever came back.
    pub open spec fn may_become(self, after: UploadModel) -> bool {
        match self.phase {
            UploadPhase::Loading | UploadPhase::Reloading => {
                ||| exists|journal: journal::JournalModel| after == #[trigger] self.loaded(journal)
                ||| exists|message: Seq<char>| after == #[trigger] self.unreadable(message)
            },
            UploadPhase::CheckingPublished | UploadPhase::Reconciling | UploadPhase::CheckingOutcome => exists|
                etag: Option<Seq<char>>,
            | after == #[trigger] self.verified(etag),
            UploadPhase::Identifying | UploadPhase::CheckingTarget => {
                ||| exists|target: Option<Option<Seq<char>>>| after == #[trigger] self.observed(target)
                ||| exists|status: NfsStatus| after == #[trigger] self.unobserved(status)
            },
            UploadPhase::CheckingCondition => exists|answer: ConditionAnswer| after == #[trigger] self.answered(answer),
            UploadPhase::Opening => {
                ||| after == self.committing()
                ||| exists|message: Seq<char>| after == self.failed(#[trigger] journal::local_failure(message))
            },
            UploadPhase::Listing => {
                ||| exists|page: PartsPage| after == #[trigger] self.listed(page)
                ||| after == self.forgotten()
                ||| exists|failure: journal::FailureModel| after == #[trigger] self.failed(failure)
            },
            UploadPhase::Creating => {
                ||| exists|upload_id: Option<Seq<char>>| after == #[trigger] self.created(upload_id)
                ||| exists|failure: journal::FailureModel| after == #[trigger] self.failed(failure)
            },
            UploadPhase::Sending => {
                ||| exists|number: i32, etag: Option<Seq<char>>|
                    1 <= number <= stage::part_count_of(self.snapshot.size as int) && after == #[trigger] self.part_stored(number, etag)
                ||| exists|failure: journal::FailureModel| after == #[trigger] self.part_failed(failure)
                ||| after == self.parts_sent()
            },
            UploadPhase::Publishing => {
                ||| exists|etag: Option<Seq<char>>| after == #[trigger] self.published(etag)
                ||| exists|failure: journal::FailureModel| after == #[trigger] self.refused(failure)
            },
            UploadPhase::Finished => false,
            _ => {
                ||| after == self.saved()
                ||| exists|message: Seq<char>| after == #[trigger] self.unsaved(message)
            },
        }
    }
}

/// The publishing request goes out only after the journal was saved with what
/// the request may replace and with the note that it may have been sent.
pub proof fn a_publication_is_recorded_before_it_is_sent(before: UploadModel, after: UploadModel)
    requires
        before.valid(),
        before.may_become(after),
        after.phase == UploadPhase::Publishing,
    ensures
        before.phase == UploadPhase::SavingIntent,
        after.journal == before.journal,
        before.journal.completing,
        before.journal.precondition is Some,
        before.journal.precondition->0.is_valid(),
{
}

/// What an upload may replace is settled once: no later step changes it.
pub proof fn what_may_be_replaced_is_settled_once(before: UploadModel, after: UploadModel)
    requires
        before.valid(),
        before.may_become(after),
        before.journal.precondition is Some,
        before.phase != UploadPhase::Loading,
        before.phase != UploadPhase::Reloading,
    ensures
        after.journal.precondition == before.journal.precondition,
{
}

/// An upload succeeds only with the tag of the object, and only after the
/// journal was saved with it.
pub proof fn a_success_has_a_recorded_tag(before: UploadModel, after: UploadModel)
    requires
        before.valid(),
        before.may_become(after),
        after.phase == UploadPhase::Finished,
        after.failure is None,
    ensures
        before.phase == UploadPhase::SavingEtag,
        after.journal == before.journal,
        after.journal.published_etag is Some,
{
}

/// A request that may have taken effect stays recorded as sent: the note goes
/// only with a failure that is certain, or with an upload that the store no
/// longer knows.
pub proof fn an_uncertain_request_stays_recorded(before: UploadModel, after: UploadModel)
    requires
        before.valid(),
        before.may_become(after),
        before.journal.completing,
        !after.journal.completing,
        before.phase != UploadPhase::Loading,
        before.phase != UploadPhase::Reloading,
    ensures
        before.phase == UploadPhase::Listing || (after.failure is Some && !after.failure->0.uncertain),
{
}

/// How far a phase is from the end.
pub open spec fn phases_left(phase: UploadPhase) -> nat {
    match phase {
        UploadPhase::Loading => 19,
        UploadPhase::CheckingPublished => 18,
        UploadPhase::Identifying => 17,
        UploadPhase::CheckingCondition => 16,
        UploadPhase::CheckingTarget => 15,
        UploadPhase::SavingGuard => 14,
        UploadPhase::Opening => 13,
        UploadPhase::Listing => 13,
        UploadPhase::SavingParts => 12,
        UploadPhase::Creating => 11,
        UploadPhase::SavingUpload => 10,
        UploadPhase::Sending => 9,
        UploadPhase::SavingIntent => 8,
        UploadPhase::Publishing => 7,
        UploadPhase::Reconciling => 6,
        UploadPhase::SavingOutcome => 5,
        UploadPhase::Reloading => 4,
        UploadPhase::CheckingOutcome => 3,
        UploadPhase::SavingEtag => 2,
        UploadPhase::Finished => 0,
    }
}

/// An upload comes to an end, whatever comes back: every step leads to a later
/// phase, but for a listing that goes on with a higher part number, and for
/// parts that are still being sent.
pub proof fn every_step_of_an_upload_leads_on(before: UploadModel, after: UploadModel)
    requires
        before.valid(),
        before.may_become(after),
    ensures
        ({
            ||| phases_left(after.phase) < phases_left(before.phase)
            ||| before.phase == UploadPhase::Listing && after.phase == UploadPhase::Listing && marker_advances(before.marker, after.marker)
            ||| before.phase == UploadPhase::Sending && after.phase == UploadPhase::Sending
        }),
{
}

/// Where the parts of an upload are as many as it has, and each is one of its
/// own, none is missing.
pub proof fn as_many_parts_as_there_are_miss_none(parts: Seq<(i32, Seq<char>)>, count: int, number: int)
    requires
        journal::in_number_order(parts),
        forall|i: int| 0 <= i < parts.len() ==> 1 <= (#[trigger] parts[i]).0 <= count,
        parts.len() == count,
        1 <= number <= count,
    ensures
        parts[number - 1].0 == number,
{
    numbers_run_ahead(parts, number - 1);
    numbers_lag_behind(parts, count, number - 1);
}

/// No step records a part that is not the upload's own, whatever comes back,
/// where the journals that it reads are such as uploads save: every journal
/// that it saves is one again.
pub proof fn the_recorded_parts_are_the_uploads_own(before: UploadModel, after: UploadModel)
    requires
        before.valid(),
        before.is_sound(),
        before.may_become(after),
        before.phase == UploadPhase::Loading || before.phase == UploadPhase::Reloading ==> is_own_journal(after.journal, after.snapshot.size),
    ensures
        after.snapshot == before.snapshot,
        after.is_sound(),
        after.multipart() ==> is_own_journal(after.journal, after.snapshot.size),
{
    let count = stage::part_count_of(before.snapshot.size as int);
    if before.phase == UploadPhase::Listing {
        if exists|page: PartsPage| after == #[trigger] before.listed(page) {
            let page = choose|page: PartsPage| after == #[trigger] before.listed(page);
            accepted_numbers_fit(before.found, page.parts@, before.snapshot.size);
        }
    }
    if before.phase == UploadPhase::Sending {
        if exists|number: i32, etag: Option<Seq<char>>| 1 <= number <= count && after == #[trigger] before.part_stored(number, etag) {
            let (number, etag) = choose|number: i32, etag: Option<Seq<char>>|
                1 <= number <= count && after == #[trigger] before.part_stored(number, etag);
            if etag is Some {
                one_more_number_fits(before.journal.parts, number, etag->0, count);
            }
        }
    }
}

/// One upload from its beginning, step by step, as far as it has come: it reads
/// only journals such as uploads save.
pub open spec fn is_run(run: Seq<UploadModel>) -> bool {
    &&& run.len() > 0
    &&& run[0].is_sound()
    &&& forall|i: int| 0 <= i < run.len() ==> (#[trigger] run[i]).valid()
    &&& forall|i: int|
        0 <= i < run.len() - 1 ==> (#[trigger] run[i]).may_become(run[i + 1]) && (run[i].phase == UploadPhase::Loading || run[i].phase
            == UploadPhase::Reloading ==> is_own_journal(run[i + 1].journal, run[i + 1].snapshot.size))
}

proof fn a_run_stays_sound(run: Seq<UploadModel>, at: int)
    requires
        is_run(run),
        0 <= at < run.len(),
    ensures
        run[at].is_sound(),
        run[at].snapshot == run[0].snapshot,
    decreases at,
{
    if at > 0 {
        a_run_stays_sound(run, at - 1);
        assert(run[at - 1].may_become(run[at - 1 + 1]));
        the_recorded_parts_are_the_uploads_own(run[at - 1], run[at]);
    }
}

/// Whenever the completion of an upload in parts is about to be asked for, or
/// was, every part of the snapshot is recorded, each once and in order.
pub proof fn a_completed_upload_misses_no_part(run: Seq<UploadModel>, at: int, number: int)
    requires
        is_run(run),
        0 <= at < run.len(),
        run[at].committed_phase(),
        run[at].multipart(),
        1 <= number <= stage::part_count_of(run[at].snapshot.size as int),
    ensures
        run[at].journal.parts.len() == stage::part_count_of(run[at].snapshot.size as int),
        run[at].journal.parts[number - 1].0 == number,
{
    a_run_stays_sound(run, at);
    as_many_parts_as_there_are_miss_none(run[at].journal.parts, stage::part_count_of(run[at].snapshot.size as int), number);
}

proof fn numbers_run_ahead(parts: Seq<(i32, Seq<char>)>, index: int)
    requires
        journal::in_number_order(parts),
        forall|i: int| 0 <= i < parts.len() ==> 1 <= (#[trigger] parts[i]).0,
        0 <= index < parts.len(),
    ensures
        parts[index].0 >= index + 1,
    decreases index,
{
    if index > 0 {
        numbers_run_ahead(parts, index - 1);
        assert(parts[index - 1].0 < parts[index].0);
    }
}

proof fn numbers_lag_behind(parts: Seq<(i32, Seq<char>)>, count: int, index: int)
    requires
        journal::in_number_order(parts),
        forall|i: int| 0 <= i < parts.len() ==> (#[trigger] parts[i]).0 <= count,
        parts.len() == count,
        0 <= index < parts.len(),
    ensures
        parts[index].0 <= index + 1,
    decreases count - index,
{
    if index + 1 < parts.len() {
        numbers_lag_behind(parts, count, index + 1);
        assert(parts[index].0 < parts[index + 1].0);
    }
}

/// What is wrong with the size of an object before anything is sent.
pub open spec fn size_complaint(size: u64, configured: bool, plan_error: Option<Seq<char>>) -> Option<Seq<char>> {
    if size == 0 {
        None
    } else if configured {
        plan_error
    } else if size > MAX_OBJECT_BYTES {
        Some("Staged object exceeds the supported object size limit"@)
    } else {
        None
    }
}

fn accept_part(found: &mut Vec<(i32, String)>, part: &ListedPart, size: u64)
    requires
        journal::in_number_order(journal::parts_view(old(found)@)),
    ensures
        journal::in_number_order(journal::parts_view(final(found)@)),
        journal::parts_view(final(found)@) == (if is_own_part(*part, size) {
            journal::with_part(journal::parts_view(old(found)@), part.number->0, text::optional(part.etag)->0)
        } else {
            journal::parts_view(old(found)@)
        }),
{
    match (part.number, &part.etag, part.size) {
        (Some(number), Some(etag), Some(length)) => {
            if number > 0 && (number as u64) <= part_count(size) && length >= 0 && length as u64 == part_range(size, number as u64 - 1).1 {
                proof {
                    journal::one_more_part(journal::parts_view(found@), number, etag@);
                }
                insert_part(found, number, etag.clone());
            }
        },
        _ => {},
    }
}

fn advances(previous: &Option<String>, next: &Option<String>) -> (yes: bool)
    ensures
        yes == marker_advances(text::optional(*previous), text::optional(*next)),
{
    let before: u64 = match previous {
        Some(marker) => match parse_number(marker.as_str()) {
            Some(number) => number,
            None => 0,
        },
        None => 0,
    };
    match next {
        Some(marker) => match parse_number(marker.as_str()) {
            Some(number) => before < number && number <= MAX_PART_MARKER,
            None => false,
        },
        None => false,
    }
}

impl Upload {
    /// Begins the upload of one snapshot. A provider that is configured has
    /// checked the size against its own limits.
    pub fn begin(snapshot: UploadSnapshot, configured: bool, plan_error: Option<String>) -> (upload: Self)
        ensures
            upload@.valid(),
            upload@.is_sound(),
            upload@.snapshot == snapshot@,
            upload@.journal == journal::fresh_journal(snapshot@),
            upload@.marker is None,
            upload@.found == Seq::<(i32, Seq<char>)>::empty(),
            match size_complaint(snapshot.size, configured, text::optional(plan_error)) {
                Some(message) => upload@.phase == UploadPhase::Reloading && upload@.failure == Some(journal::local_failure(message)),
                None => upload@.phase == UploadPhase::Loading && upload@.failure is None,
            },
    {
        let journal = journal::journal_of(&snapshot, None);
        let complaint: Option<UploadFailure> = if snapshot.size == 0 {
            None
        } else if configured {
            match plan_error {
                Some(message) => Some(UploadFailure::local(message.as_str())),
                None => None,
            }
        } else if snapshot.size > MAX_OBJECT_BYTES {
            Some(UploadFailure::local("Staged object exceeds the supported object size limit"))
        } else {
            None
        };
        let phase = match &complaint {
            Some(_) => UploadPhase::Reloading,
            None => UploadPhase::Loading,
        };
        let upload = Upload { snapshot, journal, phase, failure: complaint, marker: None, found: Vec::new() };
        assert(upload@.found =~= Seq::empty());
        upload
    }

    fn fail(&mut self, failure: UploadFailure)
        requires
            old(self)@.valid(),
        ensures
            final(self)@ == old(self)@.failed(failure@),
            final(self)@.valid(),
    {
        self.failure = Some(failure);
        self.phase = UploadPhase::Reloading;
    }

    fn finish(&mut self, failure: UploadFailure)
        requires
            old(self)@.valid(),
        ensures
            final(self)@ == old(self)@.over(Some(failure@)),
            final(self)@.valid(),
    {
        self.failure = Some(failure);
        self.phase = UploadPhase::Finished;
    }

    /// Whether the object is too large for a single request.
    pub fn is_multipart(&self) -> (multipart: bool)
        ensures
            multipart == self@.multipart(),
    {
        self.snapshot.size > MULTIPART_THRESHOLD
    }

    fn guard_known(&mut self)
        requires
            old(self)@.journal.precondition is Some,
            old(self)@.failure is None,
            journal::in_number_order(old(self)@.journal.parts),
            journal::in_number_order(old(self)@.found),
            numbers_fit(old(self)@.found, stage::part_count_of(old(self)@.snapshot.size as int)),
        ensures
            final(self)@ == old(self)@.guarded(),
            final(self)@.valid(),
    {
        let valid = match &self.journal.precondition {
            Some(guard) => guard.is_valid(),
            None => false,
        };
        if valid {
            self.phase = UploadPhase::CheckingCondition;
        } else {
            self.failure = Some(UploadFailure::local("Invalid publication condition; local data retained"));
            self.phase = UploadPhase::Reloading;
        }
    }

    fn seek_guard(&mut self)
        requires
            old(self)@.failure is None,
            journal::in_number_order(old(self)@.journal.parts),
            journal::in_number_order(old(self)@.found),
            numbers_fit(old(self)@.found, stage::part_count_of(old(self)@.snapshot.size as int)),
        ensures
            final(self)@ == old(self)@.seeking_guard(),
            final(self)@.valid(),
    {
        if self.journal.precondition.is_some() {
            self.guard_known();
        } else if self.journal.completing {
            self.failure = Some(UploadFailure::local("Legacy publication has no durable condition; retain it for manual recovery"));
            self.phase = UploadPhase::Reloading;
        } else {
            self.journal.precondition = copy_guard(&self.snapshot.publication_guard);
            if self.journal.precondition.is_some() {
                self.guard_known();
            } else {
                self.phase = UploadPhase::Identifying;
            }
        }
    }

    /// Takes the journal as it was read, or why it could not be.
    pub fn on_journal(&mut self, kept: Result<MultipartJournal, String>)
        requires
            old(self)@.valid(),
            old(self)@.phase == UploadPhase::Loading || old(self)@.phase == UploadPhase::Reloading,
            kept matches Ok(journal) ==> journal::in_number_order(journal@.parts),
        ensures
            final(self)@ == (match kept {
                Ok(journal) => old(self)@.loaded(journal@),
                Err(message) => old(self)@.unreadable(message@),
            }),
            final(self)@.valid(),
            old(self)@.may_become(final(self)@),
    {
        match kept {
            Err(message) => {
                let failure = UploadFailure::local(message.as_str());
                if self.phase == UploadPhase::Loading {
                    self.fail(failure);
                } else {
                    self.finish(failure);
                }
            },
            Ok(journal) => {
                self.journal = journal;
                if self.phase == UploadPhase::Loading {
                    if self.is_multipart() && self.journal.part_size != planned_part_size(self.snapshot.size) {
                        self.fail(UploadFailure::local("Multipart geometry does not match the persisted snapshot"));
                    } else if self.journal.completing {
                        self.phase = UploadPhase::CheckingPublished;
                    } else {
                        self.seek_guard();
                    }
                } else {
                    let settled = match &self.failure {
                        None => self.journal.published_etag.is_some(),
                        Some(_) => false,
                    };
                    let final_failure = match &self.failure {
                        Some(failure) => !failure.uncertain && !failure.is_conflict(),
                        None => false,
                    };
                    if settled {
                        self.phase = UploadPhase::SavingEtag;
                    } else if final_failure {
                        self.phase = UploadPhase::Finished;
                    } else {
                        self.phase = UploadPhase::CheckingOutcome;
                    }
                }
            },
        }
    }

    fn reject(&mut self, failure: UploadFailure)
        requires
            old(self)@.valid(),
        ensures
            final(self)@ == old(self)@.rejected(failure@),
            final(self)@.valid(),
    {
        if failure.uncertain {
            self.fail(failure);
        } else {
            self.journal.completing = false;
            self.failure = Some(failure);
            self.phase = UploadPhase::SavingOutcome;
        }
    }

    /// Takes what came of holding the object against the snapshot: its tag,
    /// where it is the snapshot's content.
    pub fn on_verified(&mut self, etag: Option<String>)
        requires
            old(self)@.valid(),
            old(self)@.phase == UploadPhase::CheckingPublished || old(self)@.phase == UploadPhase::Reconciling || old(self)@.phase
                == UploadPhase::CheckingOutcome,
        ensures
            final(self)@ == old(self)@.verified(text::optional(etag)),
            final(self)@.valid(),
            old(self)@.may_become(final(self)@),
    {
        let found = etag.is_some();
        if found {
            self.journal.published_etag = etag;
            if self.phase == UploadPhase::CheckingOutcome {
                self.phase = UploadPhase::SavingEtag;
            } else {
                self.failure = None;
                self.phase = UploadPhase::SavingOutcome;
            }
        } else if self.phase == UploadPhase::CheckingPublished {
            self.seek_guard();
        } else if self.phase == UploadPhase::Reconciling {
            let failure = match &self.failure {
                Some(failure) => failure.clone(),
                None => UploadFailure::local(""),
            };
            self.reject(failure);
        } else {
            if self.failure.is_none() {
                self.failure = Some(
                    UploadFailure {
                        message: "outcome_unknown: Publication returned no verifiable identity".to_owned(),
                        retryable: false,
                        uncertain: true,
                    },
                );
            }
            self.phase = UploadPhase::Finished;
        }
    }

    /// Takes what stands at the target: nothing, or an object with the tag it
    /// has; or why it could not be looked at.
    pub fn on_target(&mut self, target: Result<Option<Option<String>>, NfsStatus>)
        requires
            old(self)@.valid(),
            old(self)@.phase == UploadPhase::Identifying || old(self)@.phase == UploadPhase::CheckingTarget,
        ensures
            final(self)@ == (match target {
                Ok(Some(etag)) => old(self)@.observed(Some(text::optional(etag))),
                Ok(None) => old(self)@.observed(None),
                Err(status) => old(self)@.unobserved(status),
            }),
            final(self)@.valid(),
            old(self)@.may_become(final(self)@),
    {
        let identifying = self.phase == UploadPhase::Identifying;
        match target {
            Err(status) => {
                if identifying {
                    let mut message = "Unable to establish publication identity: ".to_owned();
                    message.append(status.name());
                    self.fail(
                        UploadFailure {
                            message,
                            retryable: status == NfsStatus::Io || status == NfsStatus::JukeBox,
                            uncertain: false,
                        },
                    );
                } else {
                    let mut message = "outcome_unknown: Target reconciliation failed: ".to_owned();
                    message.append(status.name());
                    self.fail(UploadFailure { message, retryable: false, uncertain: true });
                }
            },
            Ok(head) => {
                if identifying {
                    if head.is_none() {
                        self.journal.precondition = Some(PublicationGuard::Absent);
                        self.guard_known();
                    } else {
                        self.fail(
                            UploadFailure::local("Stage has no original object identity; export it before replacing an existing object"),
                        );
                    }
                    return;
                }
                let present = head.is_some();
                let etag: Option<String> = match head {
                    Some(etag) => etag,
                    None => None,
                };
                let named = match &etag {
                    Some(tag) => tag.as_str().unicode_len() > 0,
                    None => false,
                };
                if present && !named {
                    self.fail(UploadFailure::local("Target identity is missing"));
                    return;
                }
                let current: Option<&str> = match &etag {
                    Some(tag) => Some(tag.as_str()),
                    None => None,
                };
                let admitted = match &self.journal.precondition {
                    Some(guard) => guard.matches(current),
                    None => false,
                };
                if admitted {
                    self.phase = UploadPhase::SavingGuard;
                } else {
                    self.fail(UploadFailure::local("conflict: Target changed after the staged publication; local data retained"));
                }
            },
        }
    }

    /// The condition that the store has to honour.
    pub fn condition(&self) -> (condition: Condition)
        requires
            self@.valid(),
            self@.guarded_phase(),
        ensures
            condition == condition_of(self@.journal.precondition->0, self@.multipart()),
    {
        match &self.journal.precondition {
            Some(guard) => publication_condition(guard, self.is_multipart()),
            None => Condition::PutCreate,
        }
    }

    /// Takes what the store said when asked about the condition.
    pub fn on_condition(&mut self, answer: ConditionAnswer)
        requires
            old(self)@.valid(),
            old(self)@.phase == UploadPhase::CheckingCondition,
        ensures
            final(self)@ == old(self)@.answered(answer),
            final(self)@.valid(),
            old(self)@.may_become(final(self)@),
    {
        match answer {
            ConditionAnswer::NoConfiguration => {
                self.fail(UploadFailure::local("Missing storage configuration"));
            },
            ConditionAnswer::Failed(message) => {
                let retryable = has_prefix(message.as_str(), "transient:");
                self.fail(UploadFailure { message, retryable, uncertain: false });
            },
            ConditionAnswer::Supported(supported) => {
                if !supported {
                    self.fail(
                        UploadFailure::local("This endpoint cannot safely publish the staged object with its required condition"),
                    );
                } else if self.journal.completing {
                    self.phase = UploadPhase::CheckingTarget;
                } else {
                    self.phase = UploadPhase::SavingGuard;
                }
            },
        }
    }

    /// Takes that the journal was saved, or why it was not.
    pub fn on_saved(&mut self, error: Option<String>)
        requires
            old(self)@.valid(),
            old(self)@.phase == UploadPhase::SavingGuard || old(self)@.phase == UploadPhase::SavingParts || old(self)@.phase
                == UploadPhase::SavingUpload || old(self)@.phase == UploadPhase::SavingIntent || old(self)@.phase == UploadPhase::SavingOutcome
                || old(self)@.phase == UploadPhase::SavingEtag,
        ensures
            final(self)@ == (match error {
                Some(message) => old(self)@.unsaved(message@),
                None => old(self)@.saved(),
            }),
            final(self)@.valid(),
            old(self)@.may_become(final(self)@),
    {
        match error {
            Some(message) => {
                let failure = UploadFailure::local(message.as_str());
                if self.phase == UploadPhase::SavingEtag {
                    self.finish(failure);
                } else {
                    self.fail(failure);
                }
            },
            None => match self.phase {
                UploadPhase::SavingGuard => {
                    self.marker = None;
                    self.found = Vec::new();
                    assert(self@.found =~= Seq::empty());
                    if !self.is_multipart() {
                        self.phase = UploadPhase::Opening;
                    } else if self.journal.upload_id.is_some() {
                        self.phase = UploadPhase::Listing;
                    } else {
                        self.phase = UploadPhase::Creating;
                    }
                },
                UploadPhase::SavingParts => {
                    if self.journal.upload_id.is_some() {
                        self.phase = UploadPhase::Sending;
                    } else {
                        self.phase = UploadPhase::Creating;
                    }
                },
                UploadPhase::SavingUpload => {
                    self.phase = UploadPhase::Sending;
                },
                UploadPhase::SavingIntent => {
                    self.phase = UploadPhase::Publishing;
                },
                UploadPhase::SavingEtag => {
                    self.failure = None;
                    self.phase = UploadPhase::Finished;
                },
                _ => {
                    self.phase = UploadPhase::Reloading;
                },
            },
        }
    }

    /// Takes that the snapshot's file was opened, or why it was not.
    pub fn on_body(&mut self, error: Option<String>)
        requires
            old(self)@.valid(),
            old(self)@.phase == UploadPhase::Opening,
        ensures
            final(self)@ == (match error {
                Some(message) => old(self)@.failed(journal::local_failure(message@)),
                None => old(self)@.committing(),
            }),
            final(self)@.valid(),
            old(self)@.may_become(final(self)@),
    {
        match error {
            Some(message) => {
                self.fail(UploadFailure::local(message.as_str()));
            },
            None => {
                self.journal.completing = true;
                self.phase = UploadPhase::SavingIntent;
            },
        }
    }

    /// Takes one page of the parts that the store has.
    pub fn on_parts_page(&mut self, page: PartsPage)
        requires
            old(self)@.valid(),
            old(self)@.phase == UploadPhase::Listing,
        ensures
            final(self)@ == old(self)@.listed(page),
            final(self)@.valid(),
            old(self)@.may_become(final(self)@),
    {
        let ghost before = self@;
        let size: u64 = self.snapshot.size;
        let mut i: usize = 0;
        assert(page.parts@.take(0) =~= Seq::empty());
        while i < page.parts.len()
            invariant
                i <= page.parts.len(),
                size == before.snapshot.size,
                before.valid(),
                self@ == (UploadModel { found: accepted(before.found, page.parts@.take(i as int), size), ..before }),
                journal::in_number_order(self@.found),
                numbers_fit(self@.found, stage::part_count_of(size as int)),
            decreases page.parts.len() - i,
        {
            proof {
                assert(page.parts@.take(i + 1).drop_last() =~= page.parts@.take(i as int));
                assert(page.parts@.take(i + 1).last() == page.parts@[i as int]);
            }
            let ghost now = self@;
            accept_part(&mut self.found, &page.parts[i], size);
            proof {
                accepted_numbers_fit(before.found, page.parts@.take(i + 1), size);
            }
            assert(self@ =~= (UploadModel { found: self@.found, ..now }));
            i = i + 1;
        }
        assert(page.parts@.take(i as int) =~= page.parts@);
        if !page.truncated {
            self.journal.parts = copy_parts(&self.found);
            self.phase = UploadPhase::SavingParts;
        } else if advances(&self.marker, &page.next_marker) {
            self.marker = page.next_marker;
        } else {
            self.fail(UploadFailure::local("ListParts returned an invalid continuation marker"));
        }
        assert(self@ =~= before.listed(page));
    }

    /// Takes that the store no longer knows the upload.
    pub fn on_parts_missing(&mut self)
        requires
            old(self)@.valid(),
            old(self)@.phase == UploadPhase::Listing,
        ensures
            final(self)@ == old(self)@.forgotten(),
            final(self)@.valid(),
            old(self)@.may_become(final(self)@),
    {
        self.journal.upload_id = None;
        self.journal.parts = Vec::new();
        self.journal.completing = false;
        self.phase = UploadPhase::SavingParts;
        assert(self@.journal.parts =~= Seq::empty());
        assert(self@ =~= old(self)@.forgotten());
    }

    /// Takes that the stored parts could not be listed.
    pub fn on_parts_failed(&mut self, message: String, transient: bool)
        requires
            old(self)@.valid(),
            old(self)@.phase == UploadPhase::Listing,
        ensures
            final(self)@ == old(self)@.failed(
                journal::FailureModel { message: message@, retryable: transient, uncertain: false },
            ),
            final(self)@.valid(),
            old(self)@.may_become(final(self)@),
    {
        self.fail(UploadFailure { message, retryable: transient, uncertain: false });
    }

    /// Takes the upload that was begun, or why it was not.
    pub fn on_created(&mut self, created: Result<Option<String>, UploadFailure>)
        requires
            old(self)@.valid(),
            old(self)@.phase == UploadPhase::Creating,
        ensures
            final(self)@ == (match created {
                Ok(upload_id) => old(self)@.created(text::optional(upload_id)),
                Err(failure) => old(self)@.failed(failure@),
            }),
            final(self)@.valid(),
            old(self)@.may_become(final(self)@),
    {
        match created {
            Err(failure) => {
                self.fail(failure);
            },
            Ok(Some(upload_id)) => {
                self.journal.upload_id = Some(upload_id);
                self.phase = UploadPhase::SavingUpload;
            },
            Ok(None) => {
                self.fail(UploadFailure::local("Storage provider returned no upload id"));
            },
        }
    }

    /// The part at `index` as it is to be sent: its number, where it starts
    /// and how long it is. None where the part was stored before, or where
    /// another part failed: nothing new is started then.
    pub fn part_to_send(&self, index: u64) -> (part: Option<(i32, u64, u64)>)
        requires
            self@.valid(),
            self@.phase == UploadPhase::Sending,
            index < stage::part_count_of(self@.snapshot.size as int),
        ensures
            match part {
                Some((number, offset, length)) => {
                    &&& self@.failure is None
                    &&& !journal::has_part(self@.journal.parts, (index + 1) as i32)
                    &&& number == index + 1
                    &&& (offset as int, length as int) == stage::part_range_of(self@.snapshot.size as int, index as int)
                },
                None => self@.failure is Some || journal::has_part(self@.journal.parts, (index + 1) as i32),
            },
    {
        proof {
            stage::parts_stay_within_the_limit(self@.snapshot.size as int);
            stage::parts_cover_the_file_exactly_once(self@.snapshot.size as int, index as int);
        }
        if self.failure.is_some() {
            return None;
        }
        let number: i32 = (index + 1) as i32;
        if contains_part(&self.journal.parts, number) {
            return None;
        }
        let range = part_range(self.snapshot.size, index);
        Some((number, range.0, range.1))
    }

    /// Takes what came of sending one part.
    pub fn on_part(&mut self, number: i32, sent: Result<Option<String>, UploadFailure>)
        requires
            old(self)@.valid(),
            old(self)@.phase == UploadPhase::Sending,
            1 <= number <= stage::part_count_of(old(self)@.snapshot.size as int),
        ensures
            final(self)@ == (match sent {
                Ok(etag) => old(self)@.part_stored(number, text::optional(etag)),
                Err(failure) => old(self)@.part_failed(failure@),
            }),
            final(self)@.valid(),
            old(self)@.may_become(final(self)@),
    {
        let ghost before = self@;
        match sent {
            Ok(Some(etag)) => {
                proof {
                    journal::one_more_part(self@.journal.parts, number, etag@);
                }
                insert_part(&mut self.journal.parts, number, etag);
                assert(self@ =~= before.part_stored(number, Some(etag@)));
            },
            Ok(None) => {
                if self.failure.is_none() {
                    self.failure = Some(UploadFailure::local("UploadPart returned no ETag"));
                }
            },
            Err(failure) => {
                if self.failure.is_none() {
                    self.failure = Some(failure);
                }
            },
        }
    }

    /// Takes that the journal could not be saved with a part.
    pub fn on_part_unsaved(&mut self, message: String)
        requires
            old(self)@.valid(),
            old(self)@.phase == UploadPhase::Sending,
        ensures
            final(self)@ == old(self)@.part_failed(journal::local_failure(message@)),
            final(self)@.valid(),
            old(self)@.may_become(final(self)@),
    {
        if self.failure.is_none() {
            self.failure = Some(UploadFailure::local(message.as_str()));
        }
    }

    /// Takes that no part is in flight any more.
    pub fn on_parts_sent(&mut self)
        requires
            old(self)@.valid(),
            old(self)@.phase == UploadPhase::Sending,
        ensures
            final(self)@ == old(self)@.parts_sent(),
            final(self)@.valid(),
            old(self)@.may_become(final(self)@),
    {
        match &self.failure {
            Some(failure) => {
                let first = failure.clone();
                self.fail(first);
            },
            None => {
                if self.journal.parts.len() as u64 == part_count(self.snapshot.size) {
                    self.journal.completing = true;
                    self.phase = UploadPhase::SavingIntent;
                } else {
                    self.fail(UploadFailure::local("Multipart upload is incomplete"));
                }
            },
        }
    }

    /// Takes what came of the publishing request.
    pub fn on_published(&mut self, answer: Result<Option<String>, UploadFailure>)
        requires
            old(self)@.valid(),
            old(self)@.phase == UploadPhase::Publishing,
        ensures
            final(self)@ == (match answer {
                Ok(etag) => old(self)@.published(text::optional(etag)),
                Err(failure) => old(self)@.refused(failure@),
            }),
            final(self)@.valid(),
            old(self)@.may_become(final(self)@),
    {
        match answer {
            Ok(etag) => {
                self.journal.published_etag = etag;
                self.phase = UploadPhase::SavingOutcome;
            },
            Err(failure) => {
                if self.is_multipart() {
                    self.failure = Some(failure);
                    self.phase = UploadPhase::Reconciling;
                } else {
                    self.reject(failure);
                }
            },
        }
    }

    /// What came of the upload: the tag of the object, or why there is none.
    pub fn outcome(&self) -> (outcome: Result<String, UploadFailure>)
        requires
            self@.valid(),
            self@.phase == UploadPhase::Finished,
        ensures
            match outcome {
                Ok(etag) => self@.failure is None && self@.journal.published_etag == Some(etag@),
                Err(failure) => self@.failure == Some(failure@),
            },
    {
        match &self.failure {
            Some(failure) => Err(failure.clone()),
            None => match copy_text(&self.journal.published_etag) {
                Some(etag) => Ok(etag),
                None => Err(UploadFailure::local("")),
            },
        }
    }
}

/// An upload whose request may have gone out sends its content again exactly
/// where the target is still what the recorded precondition names: nothing
/// where nothing was to be replaced, or the very object that was to be. Only a
/// target that differs is a conflict, and one without an identity is neither.
/// Nothing of the journal changes.
pub proof fn a_target_that_did_not_change_is_published_over(upload: UploadModel, target: Option<Option<Seq<char>>>)
    requires
        upload.valid(),
        upload.phase == UploadPhase::CheckingTarget,
    ensures
        ({
            let after = upload.observed(target);
            let nameless = target is Some && (target->0 is None || target->0->0.len() == 0);
            let unchanged = match upload.journal.precondition->0 {
                stage::GuardModel::Absent => target is None,
                stage::GuardModel::Match { etag } => target == Some(Some(etag)),
            };
            &&& after.journal == upload.journal
            &&& after.snapshot == upload.snapshot
            &&& !nameless ==> (unchanged <==> after.phase == UploadPhase::SavingGuard)
            &&& !nameless && unchanged ==> after.failure is None
            &&& !nameless && !unchanged ==> after.phase == UploadPhase::Reloading && after.failure == Some(
                journal::FailureModel {
                    message: "conflict: Target changed after the staged publication; local data retained"@,
                    retryable: false,
                    uncertain: false,
                },
            )
            &&& nameless ==> after.phase == UploadPhase::Reloading && after.failure == Some(
                journal::FailureModel { message: "Target identity is missing"@, retryable: false, uncertain: false },
            )
        }),
{
}

/// A stage of which nobody knows what it may replace creates an object where
/// none stands, and replaces none.
pub proof fn a_stage_without_identity_only_creates(upload: UploadModel, etag: Option<Seq<char>>)
    requires
        upload.valid(),
        upload.phase == UploadPhase::Identifying,
    ensures
        upload.observed(None).phase == UploadPhase::CheckingCondition,
        upload.observed(None).journal == (journal::JournalModel { precondition: Some(stage::GuardModel::Absent), ..upload.journal }),
        upload.observed(None).failure is None,
        upload.observed(Some(etag)).phase == UploadPhase::Reloading,
        upload.observed(Some(etag)).failure is Some,
        !upload.observed(Some(etag)).failure->0.retryable,
        upload.observed(Some(etag)).journal == upload.journal,
{
}

/// A target that could not be looked at fails the upload with the journal as
/// it is. Where a request may have gone out, what came of it stays unknown;
/// where none has, only a failure that may pass is worth another try.
pub proof fn a_target_that_cannot_be_seen_stays_open(upload: UploadModel, status: NfsStatus)
    requires
        upload.valid(),
        upload.phase == UploadPhase::Identifying || upload.phase == UploadPhase::CheckingTarget,
    ensures
        ({
            let after = upload.unobserved(status);
            &&& after.phase == UploadPhase::Reloading
            &&& after.journal == upload.journal
            &&& after.failure is Some
            &&& after.failure->0.uncertain <==> upload.phase == UploadPhase::CheckingTarget
            &&& after.failure->0.retryable <==> upload.phase == UploadPhase::Identifying && (status == NfsStatus::Io || status
                == NfsStatus::JukeBox)
        }),
{
}

/// What an upload may replace comes from its journal; where that says nothing,
/// from the snapshot; where that says nothing either, the target is looked at.
/// A request that may have been sent without such a record is not repeated,
/// and a guard that names nothing is not sent.
pub proof fn the_guard_comes_from_the_journal_first(upload: UploadModel)
    ensures
        ({
            let after = upload.seeking_guard();
            let kept = upload.journal.precondition;
            let staged = upload.snapshot.publication_guard;
            let names = |guard: stage::GuardModel| match guard {
                stage::GuardModel::Absent => true,
                stage::GuardModel::Match { etag } => exists|i: int| 0 <= i < etag.len() && !text::is_blank(#[trigger] etag[i]),
            };
            &&& kept is Some ==> after.journal == upload.journal
            &&& kept is Some ==> (after.phase == UploadPhase::CheckingCondition <==> names(kept->0))
            &&& kept is None && upload.journal.completing ==> after.phase == UploadPhase::Reloading && after.failure is Some && after.journal
                == upload.journal
            &&& kept is None && !upload.journal.completing && staged is Some ==> after.journal == (journal::JournalModel {
                precondition: staged,
                ..upload.journal
            }) && (after.phase == UploadPhase::CheckingCondition <==> names(staged->0))
            &&& kept is None && !upload.journal.completing && staged is None ==> after.phase == UploadPhase::Identifying && after.journal
                == upload.journal && after.failure == upload.failure
            &&& after.phase == UploadPhase::CheckingCondition || after.phase == UploadPhase::Identifying || (after.phase
                == UploadPhase::Reloading && after.failure is Some && !after.failure->0.retryable && !after.failure->0.uncertain)
            &&& after.snapshot == upload.snapshot
        }),
{
}

/// The journal that an upload begins with decides: parts of another size than
/// the snapshot is cut into fail it; a request that may have gone out is
/// looked for first; otherwise it is found out what may be replaced.
pub proof fn an_upload_goes_on_from_its_journal(upload: UploadModel, journal: journal::JournalModel)
    requires
        upload.valid(),
        upload.phase == UploadPhase::Loading,
    ensures
        ({
            let after = upload.loaded(journal);
            let cut_otherwise = upload.snapshot.size > 104_857_600 && journal.part_size != stage::part_size_of(upload.snapshot.size as int);
            &&& cut_otherwise ==> after.phase == UploadPhase::Reloading && after.failure is Some && after.journal == journal
            &&& !cut_otherwise && journal.completing ==> after == (UploadModel { journal, phase: UploadPhase::CheckingPublished, ..upload })
            &&& !cut_otherwise && !journal.completing && journal.precondition is Some && journal.precondition->0.is_valid() ==> after
                == (UploadModel { journal, phase: UploadPhase::CheckingCondition, ..upload })
            &&& !cut_otherwise && !journal.completing && journal.precondition is None && upload.snapshot.publication_guard is None ==> after
                == (UploadModel { journal, phase: UploadPhase::Identifying, ..upload })
        }),
{
}

/// When an attempt is over, its journal says what came of it: a recorded tag
/// without a failure is a success; a failure that is certain and no conflict
/// is the outcome; everything else is held against the object first.
pub proof fn an_attempt_ends_as_its_journal_says(upload: UploadModel, journal: journal::JournalModel)
    requires
        upload.valid(),
        upload.phase == UploadPhase::Reloading,
    ensures
        ({
            let after = upload.loaded(journal);
            let recorded = upload.failure is None && journal.published_etag is Some;
            let final_failure = upload.failure is Some && !upload.failure->0.uncertain && !"conflict:"@.is_prefix_of(upload.failure->0.message);
            &&& after.journal == journal
            &&& after.failure == upload.failure
            &&& after.phase == UploadPhase::SavingEtag <==> recorded
            &&& after.phase == UploadPhase::Finished <==> final_failure
            &&& after.phase == UploadPhase::CheckingOutcome <==> !recorded && !final_failure
        }),
{
}

/// A journal that cannot be read ends the upload as a failure, at once where
/// the attempt is over.
pub proof fn an_unreadable_journal_fails_the_upload(upload: UploadModel, message: Seq<char>)
    requires
        upload.valid(),
        upload.phase == UploadPhase::Loading || upload.phase == UploadPhase::Reloading,
    ensures
        upload.unreadable(message).failure == Some(journal::FailureModel { message, retryable: false, uncertain: false }),
        upload.unreadable(message).journal == upload.journal,
        upload.unreadable(message).phase == UploadPhase::Finished <==> upload.phase == UploadPhase::Reloading,
        upload.unreadable(message).phase == UploadPhase::Reloading <==> upload.phase == UploadPhase::Loading,
{
}

/// An object that holds the snapshot's content is the upload's, whatever went
/// wrong before: its tag is recorded and saved. An object that does not leaves
/// the upload to go on: before anything was sent, with what may be replaced;
/// after a refused request, as refused; at the end, as failed, and as
/// undecided where nothing says why.
pub proof fn an_object_with_the_snapshots_content_is_the_upload(upload: UploadModel, etag: Seq<char>)
    requires
        upload.valid(),
        upload.phase == UploadPhase::CheckingPublished || upload.phase == UploadPhase::Reconciling || upload.phase
            == UploadPhase::CheckingOutcome,
    ensures
        ({
            let found = upload.verified(Some(etag));
            let missing = upload.verified(None);
            &&& found.journal == (journal::JournalModel { published_etag: Some(etag), ..upload.journal })
            &&& upload.phase == UploadPhase::CheckingOutcome ==> found.phase == UploadPhase::SavingEtag
            &&& upload.phase != UploadPhase::CheckingOutcome ==> found.phase == UploadPhase::SavingOutcome && found.failure is None
            &&& upload.phase == UploadPhase::CheckingPublished ==> missing == upload.seeking_guard()
            &&& upload.phase == UploadPhase::Reconciling ==> missing.failure == upload.failure && (missing.phase == UploadPhase::Reloading
                || missing.phase == UploadPhase::SavingOutcome)
            &&& upload.phase == UploadPhase::CheckingOutcome ==> missing.phase == UploadPhase::Finished && missing.failure is Some
                && missing.journal == upload.journal
            &&& upload.phase == UploadPhase::CheckingOutcome && upload.failure is Some ==> missing.failure == upload.failure
            &&& upload.phase == UploadPhase::CheckingOutcome && upload.failure is None ==> missing.failure->0.uncertain
                && !missing.failure->0.retryable
        }),
{
}

/// A refused request stays recorded as sent exactly where it may have taken
/// effect; where it cannot have, the journal says again that none was sent. The
/// refusal is what the upload fails with.
pub proof fn a_refused_request_is_forgotten_only_where_it_had_no_effect(upload: UploadModel, failure: journal::FailureModel)
    requires
        upload.valid(),
        upload.phase == UploadPhase::Publishing,
    ensures
        ({
            let after = upload.refused(failure);
            &&& after.failure == Some(failure)
            &&& upload.snapshot.size > 104_857_600 ==> after.phase == UploadPhase::Reconciling && after.journal == upload.journal
            &&& upload.snapshot.size <= 104_857_600 && failure.uncertain ==> after.phase == UploadPhase::Reloading && after.journal
                == upload.journal
            &&& upload.snapshot.size <= 104_857_600 && !failure.uncertain ==> after.phase == UploadPhase::SavingOutcome && after.journal
                == (journal::JournalModel { completing: false, ..upload.journal })
            &&& upload.rejected(failure).journal.completing <==> upload.journal.completing && failure.uncertain
        }),
{
}

/// An answered request is recorded with the tag it came back with, and with
/// nothing else.
pub proof fn an_answered_request_is_recorded(upload: UploadModel, etag: Option<Seq<char>>)
    ensures
        upload.published(etag).journal == (journal::JournalModel { published_etag: etag, ..upload.journal }),
        upload.published(etag).phase == UploadPhase::SavingOutcome,
        upload.published(etag).failure == upload.failure,
        upload.published(etag).snapshot == upload.snapshot,
{
}

/// Nothing is sent to a store that does not honour the condition, or that
/// could not be asked. Where it does, the target is looked at once more if an
/// earlier request may have gone out.
pub proof fn nothing_is_sent_without_its_condition(upload: UploadModel, answer: ConditionAnswer)
    requires
        upload.valid(),
        upload.phase == UploadPhase::CheckingCondition,
    ensures
        ({
            let after = upload.answered(answer);
            let honoured = answer matches ConditionAnswer::Supported(supported) && supported;
            &&& after.journal == upload.journal
            &&& honoured && upload.journal.completing ==> after.phase == UploadPhase::CheckingTarget
            &&& honoured && !upload.journal.completing ==> after.phase == UploadPhase::SavingGuard
            &&& honoured ==> after.failure is None
            &&& !honoured ==> after.phase == UploadPhase::Reloading && after.failure is Some && !after.failure->0.uncertain
            &&& !honoured ==> (after.failure->0.retryable <==> (answer matches ConditionAnswer::Failed(message)
                && "transient:"@.is_prefix_of(message@)))
        }),
{
}

/// The condition that goes with a request is that of its guard: create only
/// where nothing may be replaced, match where one object may, in the form that
/// the request takes.
pub proof fn each_guard_has_its_condition(guard: stage::GuardModel, multipart: bool)
    ensures
        condition_of(guard, multipart) == Condition::PutCreate <==> guard is Absent && !multipart,
        condition_of(guard, multipart) == Condition::PutMatch <==> guard is Match && !multipart,
        condition_of(guard, multipart) == Condition::CompleteCreate <==> guard is Absent && multipart,
        condition_of(guard, multipart) == Condition::CompleteMatch <==> guard is Match && multipart,
{
}

/// What follows a saved journal. None of it changes what was saved.
pub proof fn a_saved_journal_leads_an_upload_on(upload: UploadModel)
    requires
        upload.valid(),
    ensures
        upload.saved().journal == upload.journal,
        upload.saved().snapshot == upload.snapshot,
        upload.phase == UploadPhase::SavingGuard ==> {
            &&& upload.saved().phase == UploadPhase::Opening <==> upload.snapshot.size <= 104_857_600
            &&& upload.saved().phase == UploadPhase::Listing <==> upload.snapshot.size > 104_857_600 && upload.journal.upload_id is Some
            &&& upload.saved().phase == UploadPhase::Creating <==> upload.snapshot.size > 104_857_600 && upload.journal.upload_id is None
            &&& upload.saved().marker is None
            &&& upload.saved().found.len() == 0
        },
        upload.phase == UploadPhase::SavingParts ==> {
            &&& upload.saved().phase == UploadPhase::Sending <==> upload.journal.upload_id is Some
            &&& upload.saved().phase == UploadPhase::Creating <==> upload.journal.upload_id is None
        },
        upload.phase == UploadPhase::SavingUpload ==> upload.saved().phase == UploadPhase::Sending,
        upload.phase == UploadPhase::SavingIntent ==> upload.saved().phase == UploadPhase::Publishing,
        upload.phase == UploadPhase::SavingOutcome ==> upload.saved().phase == UploadPhase::Reloading && upload.saved().failure
            == upload.failure,
        upload.phase == UploadPhase::SavingEtag ==> upload.saved().phase == UploadPhase::Finished && upload.saved().failure is None,
{
}

/// A journal that could not be saved fails the upload: nothing goes out that
/// is not recorded.
pub proof fn an_unsaved_journal_stops_the_upload(upload: UploadModel, message: Seq<char>)
    ensures
        upload.unsaved(message).failure == Some(journal::FailureModel { message, retryable: false, uncertain: false }),
        upload.unsaved(message).journal == upload.journal,
        upload.unsaved(message).phase == UploadPhase::Finished || upload.unsaved(message).phase == UploadPhase::Reloading,
        upload.unsaved(message).phase == UploadPhase::Finished <==> upload.phase == UploadPhase::SavingEtag,
{
}

/// A request is recorded as sent before it is, and nothing else of the journal
/// changes with that.
pub proof fn a_request_is_recorded_as_sent(upload: UploadModel)
    ensures
        upload.committing().journal == (journal::JournalModel { completing: true, ..upload.journal }),
        upload.committing().phase == UploadPhase::SavingIntent,
        upload.committing().failure == upload.failure,
{
}

/// A stored part is taken up exactly where it is one of the upload: by its
/// number, with a tag, and as long as that part of the snapshot is.
pub proof fn a_stored_part_is_taken_up_where_it_fits(part: ListedPart, size: u64)
    ensures
        is_own_part(part, size) <==> {
            &&& part.etag is Some
            &&& part.number is Some
            &&& 1 <= part.number->0 <= stage::part_count_of(size as int)
            &&& part.size is Some
            &&& part.size->0 >= 0
            &&& part.size->0 == stage::part_range_of(size as int, part.number->0 - 1).1
        },
{
}

/// What a page of stored parts adds: every part of it that is the upload's own
/// is known afterwards, and no other number than was known before.
pub proof fn a_page_adds_the_parts_that_fit(found: Seq<(i32, Seq<char>)>, page: Seq<ListedPart>, size: u64, number: i32)
    requires
        journal::in_number_order(found),
    ensures
        journal::in_number_order(accepted(found, page, size)),
        journal::has_part(accepted(found, page, size), number) <==> journal::has_part(found, number) || exists|i: int|
            0 <= i < page.len() && is_own_part(#[trigger] page[i], size) && page[i].number == Some(number),
    decreases page.len(),
{
    if page.len() > 0 {
        let fewer = page.drop_last();
        a_page_adds_the_parts_that_fit(found, fewer, size, number);
        let before = accepted(found, fewer, size);
        if exists|i: int| 0 <= i < fewer.len() && is_own_part(#[trigger] fewer[i], size) && fewer[i].number == Some(number) {
            let i = choose|i: int| 0 <= i < fewer.len() && is_own_part(#[trigger] fewer[i], size) && fewer[i].number == Some(number);
            assert(page[i] == fewer[i]);
        }
        if exists|i: int| 0 <= i < page.len() && is_own_part(#[trigger] page[i], size) && page[i].number == Some(number) {
            let i = choose|i: int| 0 <= i < page.len() && is_own_part(#[trigger] page[i], size) && page[i].number == Some(number);
            if i < fewer.len() {
                assert(fewer[i] == page[i]);
            }
        }
        if is_own_part(page.last(), size) {
            assert(page[page.len() - 1] == page.last());
            let etag = text::optional(page.last().etag)->0;
            let last = page.last().number->0;
            journal::one_more_part(before, last, etag);
            let more = journal::with_part(before, last, etag);
            if number == last {
                let k = choose|k: int| 0 <= k < more.len() && more[k] == (last, etag);
                assert(more[k].0 == number);
            }
        }
    }
}

/// A listing of parts ends with what was found recorded, goes on from a marker
/// that advances, and fails where it would not.
pub proof fn a_listing_of_parts_ends_or_advances(upload: UploadModel, page: PartsPage)
    requires
        upload.valid(),
        upload.phase == UploadPhase::Listing,
    ensures
        ({
            let after = upload.listed(page);
            let found = accepted(upload.found, page.parts@, upload.snapshot.size);
            &&& after.found == found
            &&& !page.truncated ==> after.phase == UploadPhase::SavingParts && after.journal == (journal::JournalModel {
                parts: found,
                ..upload.journal
            }) && after.failure is None
            &&& page.truncated ==> after.journal == upload.journal
            &&& page.truncated ==> (after.phase == UploadPhase::Listing <==> marker_advances(upload.marker, text::optional(page.next_marker)))
            &&& page.truncated && after.phase == UploadPhase::Listing ==> after.marker == text::optional(page.next_marker) && after.failure is None
            &&& page.truncated && after.phase != UploadPhase::Listing ==> after.phase == UploadPhase::Reloading && after.failure is Some
        }),
{
}

/// A marker advances exactly where it is a part number beyond the one before,
/// and no higher than there can be.
pub proof fn a_marker_advances_by_its_number(previous: Option<Seq<char>>, next: Option<Seq<char>>)
    ensures
        marker_advances(previous, next) ==> next is Some && text::number_of(next->0) is Some && 0 < text::number_of(next->0)->0 <= 10_000,
        previous is None && next is Some && text::number_of(next->0) is Some ==> (marker_advances(previous, next) <==> 0 < text::number_of(
            next->0,
        )->0 <= 10_000),
        previous is Some && text::number_of(previous->0) is Some && next is Some && text::number_of(next->0) is Some ==> (marker_advances(
            previous,
            next,
        ) <==> text::number_of(previous->0)->0 < text::number_of(next->0)->0 <= 10_000),
{
    if previous is Some && text::number_of(previous->0) is Some {
        text::numbers_are_not_negative(previous->0);
    }
}

/// An upload that the store no longer knows begins anew: without its id and
/// its parts, and as one of which nothing was sent. What it may replace stays.
pub proof fn a_forgotten_upload_begins_anew(upload: UploadModel)
    ensures
        upload.forgotten().journal.upload_id is None,
        upload.forgotten().journal.parts.len() == 0,
        !upload.forgotten().journal.completing,
        upload.forgotten().journal.precondition == upload.journal.precondition,
        upload.forgotten().journal.part_size == upload.journal.part_size,
        upload.forgotten().journal.published_etag == upload.journal.published_etag,
        upload.forgotten().phase == UploadPhase::SavingParts,
        upload.forgotten().failure == upload.failure,
{
}

/// An upload in parts goes on under the id that the store gave it, and fails
/// where it gave none.
pub proof fn an_upload_in_parts_needs_its_id(upload: UploadModel, upload_id: Seq<char>)
    ensures
        upload.created(Some(upload_id)).journal == (journal::JournalModel { upload_id: Some(upload_id), ..upload.journal }),
        upload.created(Some(upload_id)).phase == UploadPhase::SavingUpload,
        upload.created(Some(upload_id)).failure == upload.failure,
        upload.created(None).phase == UploadPhase::Reloading,
        upload.created(None).failure is Some,
        upload.created(None).journal == upload.journal,
{
}

/// A part that was stored is recorded under its number with its tag, and the
/// others stay. One without a tag fails the upload. The failure that came
/// first is kept, and the parts that are recorded stay so.
pub proof fn a_sent_part_is_recorded(upload: UploadModel, number: i32, etag: Seq<char>, failure: journal::FailureModel, other: i32)
    requires
        journal::in_number_order(upload.journal.parts),
    ensures
        ({
            let stored = upload.part_stored(number, Some(etag));
            let untagged = upload.part_stored(number, None);
            let failed = upload.part_failed(failure);
            &&& stored.journal.parts.contains((number, etag))
            &&& other != number ==> (journal::has_part(stored.journal.parts, other) <==> journal::has_part(upload.journal.parts, other))
            &&& stored == (UploadModel { journal: journal::JournalModel { parts: stored.journal.parts, ..upload.journal }, ..upload })
            &&& untagged.journal == upload.journal
            &&& untagged.failure is Some
            &&& untagged.phase == upload.phase
            &&& failed.journal == upload.journal
            &&& failed.phase == upload.phase
            &&& failed.failure == (if upload.failure is Some {
                upload.failure
            } else {
                Some(failure)
            })
            &&& upload.failure is Some ==> untagged.failure == upload.failure
        }),
{
    journal::one_more_part(upload.journal.parts, number, etag);
}

/// The parts are completed exactly where none failed and as many are recorded
/// as the snapshot has.
pub proof fn parts_are_completed_only_where_none_is_missing(upload: UploadModel)
    requires
        upload.valid(),
        upload.phase == UploadPhase::Sending,
    ensures
        ({
            let after = upload.parts_sent();
            let all = upload.journal.parts.len() == stage::part_count_of(upload.snapshot.size as int);
            &&& after.phase == UploadPhase::SavingIntent <==> upload.failure is None && all
            &&& after.phase == UploadPhase::SavingIntent ==> after.failure is None && after.journal == (journal::JournalModel {
                completing: true,
                ..upload.journal
            })
            &&& after.phase != UploadPhase::SavingIntent ==> after.phase == UploadPhase::Reloading && after.failure is Some && after.journal
                == upload.journal
            &&& upload.failure is Some ==> after.failure == upload.failure
        }),
{
}

/// An upload that failed keeps its journal and its snapshot, and the failure is
/// what it ends with until the object says otherwise.
pub proof fn a_failed_upload_keeps_its_journal(upload: UploadModel, failure: journal::FailureModel)
    ensures
        upload.failed(failure) == (UploadModel { failure: Some(failure), phase: UploadPhase::Reloading, ..upload }),
        upload.over(Some(failure)) == (UploadModel { failure: Some(failure), phase: UploadPhase::Finished, ..upload }),
        journal::local_failure(failure.message) == (journal::FailureModel { message: failure.message, retryable: false, uncertain: false }),
{
}

/// A size is complained of exactly where somebody refuses it: the provider that
/// is configured, or the limit where none is. An empty object is never refused.
pub proof fn a_size_is_refused_where_it_is_too_large(size: u64, configured: bool, plan_error: Option<Seq<char>>)
    ensures
        size_complaint(size, configured, plan_error) is Some <==> size > 0 && (if configured {
            plan_error is Some
        } else {
            size > 5_492_189_429_760
        }),
        configured && size > 0 ==> size_complaint(size, configured, plan_error) == plan_error,
{
}

/// An upload whose outcome is open goes on exactly where the target is still
/// what it may replace, and is a conflict exactly where it is not; where the
/// target cannot be looked at the outcome stays open.
pub proof fn a_look_at_the_target_decides_an_open_upload(etag: String, status: NfsStatus)
    requires
        etag@.len() > 0,
    ensures
        forall|upload: &mut Upload|
            (*upload)@.valid() && (*upload)@.phase == UploadPhase::CheckingTarget && #[trigger] call_ensures(
                Upload::on_target,
                (upload, Ok(None)),
                (),
            ) ==> {
                &&& (*upload)@.journal.precondition->0 is Absent ==> final(upload)@.phase == UploadPhase::SavingGuard && final(upload)@.failure is None
                &&& !((*upload)@.journal.precondition->0 is Absent) ==> final(upload)@.phase == UploadPhase::Reloading && final(upload)@.failure is Some && !final(upload)@.failure->0.retryable
                &&& final(upload)@.journal == (*upload)@.journal
            },
        forall|upload: &mut Upload|
            (*upload)@.valid() && (*upload)@.phase == UploadPhase::CheckingTarget && #[trigger] call_ensures(
                Upload::on_target,
                (upload, Ok(Some(Some(etag)))),
                (),
            ) ==> {
                let unchanged = (*upload)@.journal.precondition == Some(stage::GuardModel::Match { etag: etag@ });
                &&& unchanged ==> final(upload)@.phase == UploadPhase::SavingGuard && final(upload)@.failure is None
                &&& !unchanged ==> final(upload)@.phase == UploadPhase::Reloading && final(upload)@.failure is Some && !final(upload)@.failure->0.retryable
                &&& final(upload)@.journal == (*upload)@.journal
            },
        forall|upload: &mut Upload|
            (*upload)@.valid() && (*upload)@.phase == UploadPhase::CheckingTarget && #[trigger] call_ensures(
                Upload::on_target,
                (upload, Err(status)),
                (),
            ) ==> {
                &&& final(upload)@.phase == UploadPhase::Reloading
                &&& final(upload)@.failure is Some
                &&& final(upload)@.failure->0.uncertain
                &&& !final(upload)@.failure->0.retryable
                &&& final(upload)@.journal == (*upload)@.journal
            },
{
    assert forall|upload: &mut Upload|
        (*upload)@.valid() && (*upload)@.phase == UploadPhase::CheckingTarget && #[trigger] call_ensures(
            Upload::on_target,
            (upload, Ok(None)),
            (),
        ) implies {
        &&& (*upload)@.journal.precondition->0 is Absent ==> final(upload)@.phase == UploadPhase::SavingGuard && final(upload)@.failure is None
        &&& !((*upload)@.journal.precondition->0 is Absent) ==> final(upload)@.phase == UploadPhase::Reloading && final(upload)@.failure is Some && !final(upload)@.failure->0.retryable
        &&& final(upload)@.journal == (*upload)@.journal
    } by {
        a_target_that_did_not_change_is_published_over((*upload)@, None);
    }
    assert forall|upload: &mut Upload|
        (*upload)@.valid() && (*upload)@.phase == UploadPhase::CheckingTarget && #[trigger] call_ensures(
            Upload::on_target,
            (upload, Ok(Some(Some(etag)))),
            (),
        ) implies {
        let unchanged = (*upload)@.journal.precondition == Some(stage::GuardModel::Match { etag: etag@ });
        &&& unchanged ==> final(upload)@.phase == UploadPhase::SavingGuard && final(upload)@.failure is None
        &&& !unchanged ==> final(upload)@.phase == UploadPhase::Reloading && final(upload)@.failure is Some && !final(upload)@.failure->0.retryable
        &&& final(upload)@.journal == (*upload)@.journal
    } by {
        a_target_that_did_not_change_is_published_over((*upload)@, Some(Some(etag@)));
    }
}

/// What fails on this side fails the upload with its message, is not tried
/// again by itself, and leaves the journal as it was.
pub proof fn a_local_failure_fails_the_upload(message: String, transient: bool)
    ensures
        forall|upload: &mut Upload| #[trigger]
            call_ensures(Upload::on_body, (upload, Some(message)), ()) ==> final(upload)@.phase == UploadPhase::Reloading && final(upload)@.failure == Some(journal::FailureModel { message: message@, retryable: false, uncertain: false }) && final(upload)@.journal
                == (*upload)@.journal,
        forall|upload: &mut Upload| #[trigger]
            call_ensures(Upload::on_parts_failed, (upload, message, transient), ()) ==> final(upload)@.phase == UploadPhase::Reloading && final(upload)@.failure == Some(journal::FailureModel { message: message@, retryable: transient, uncertain: false }) && final(upload)@.journal
                == (*upload)@.journal,
        forall|upload: &mut Upload| #[trigger]
            call_ensures(Upload::on_saved, (upload, Some(message)), ()) ==> final(upload)@.failure == Some(
                journal::FailureModel { message: message@, retryable: false, uncertain: false },
            ) && final(upload)@.journal == (*upload)@.journal && (final(upload)@.phase == UploadPhase::Reloading || final(upload)@.phase
                == UploadPhase::Finished),
        forall|upload: &mut Upload| #[trigger]
            call_ensures(Upload::on_part_unsaved, (upload, message), ()) ==> final(upload)@.failure is Some && final(upload)@.journal
                == (*upload)@.journal && final(upload)@.phase == (*upload)@.phase,
{
}

/// What the store refuses fails the upload as the store said, and what it
/// grants is noted.
pub proof fn an_answer_of_the_store_is_noted(failure: UploadFailure, number: i32, etag: String)
    ensures
        forall|upload: &mut Upload| #[trigger]
            call_ensures(Upload::on_created, (upload, Err(failure)), ()) ==> final(upload)@.phase == UploadPhase::Reloading && final(upload)@.failure == Some(failure@) && final(upload)@.journal == (*upload)@.journal,
        forall|upload: &mut Upload| #[trigger]
            call_ensures(Upload::on_part, (upload, number, Err(failure)), ()) ==> final(upload)@.journal == (*upload)@.journal && final(upload)@.phase == (*upload)@.phase && ((*upload)@.failure is None ==> final(upload)@.failure == Some(failure@)) && (
            (*upload)@.failure is Some ==> final(upload)@.failure == (*upload)@.failure),
        forall|upload: &mut Upload|
            (*upload)@.valid() && #[trigger] call_ensures(Upload::on_part, (upload, number, Ok(Some(etag))), ()) ==> final(upload)@.journal.parts.contains((number, etag@)) && final(upload)@.failure == (*upload)@.failure && final(upload)@.phase
                == (*upload)@.phase,
        forall|upload: &mut Upload| #[trigger]
            call_ensures(Upload::on_published, (upload, Ok(Some(etag))), ()) ==> final(upload)@.journal.published_etag == Some(etag@) && final(upload)@.phase == UploadPhase::SavingOutcome && final(upload)@.failure == (*upload)@.failure,
{
    assert forall|upload: &mut Upload|
        (*upload)@.valid() && #[trigger] call_ensures(Upload::on_part, (upload, number, Ok(Some(etag))), ()) implies final(upload)@.journal.parts.contains((number, etag@)) && final(upload)@.failure == (*upload)@.failure && final(upload)@.phase == (*upload)@.phase by {
        journal::one_more_part((*upload)@.journal.parts, number, etag@);
    }
}

/// An upload has succeeded only where an object was made and noted.
pub proof fn an_upload_succeeds_with_the_tag_it_noted(upload: Upload, outcome: Result<String, UploadFailure>)
    requires
        call_ensures(Upload::outcome, (&upload,), outcome),
    ensures
        outcome is Ok ==> upload@.journal.published_etag == Some((outcome->Ok_0)@),
        outcome is Ok ==> upload@.failure is None,
        outcome is Err ==> upload@.failure == Some((outcome->Err_0)@),
{
}

/// A part is sent exactly where it is missing and nothing has failed, with its
/// own number and its own bytes.
pub proof fn only_a_missing_part_is_sent(upload: Upload, index: u64, part: Option<(i32, u64, u64)>)
    requires
        index < 10_000,
        call_ensures(Upload::part_to_send, (&upload, index), part),
    ensures
        part is Some <==> upload@.failure is None && !journal::has_part(upload@.journal.parts, (index + 1) as i32),
        part is Some ==> (part->0).0 == index + 1,
{
}

/// An upload begins with what may be replaced by its snapshot, and nothing of
/// it has happened; one that is too large fails before anything is asked for.
pub proof fn an_upload_begins_with_nothing_done(snapshot: UploadSnapshot, configured: bool, plan_error: Option<String>, upload: Upload)
    requires
        call_ensures(Upload::begin, (snapshot, configured, plan_error), upload),
    ensures
        upload@.snapshot == snapshot@,
        upload@.journal.published_etag is None,
        upload@.journal.upload_id is None,
        !upload@.journal.completing,
        upload@.journal.parts.len() == 0,
        upload@.phase == UploadPhase::Loading <==> upload@.failure is None,
        upload@.phase == UploadPhase::Loading || upload@.phase == UploadPhase::Reloading,
{
}

} // verus!
