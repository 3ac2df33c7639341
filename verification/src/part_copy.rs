//! Copies of objects that are too large for a single request.
//!
//! Such an object is copied part by part into an upload of its own. A journal
//! keeps the upload and its stored parts, so that an interrupted copy goes on
//! where it stopped, and says before the upload is completed that this may
//! have happened.

use vstd::prelude::*;
use crate::content::ObjectHead;
use crate::content;
use crate::journal;
use crate::journal::{contains_part, copy_parts, insert_part, Condition, MultipartJournal};
use crate::keys;
use crate::keys::{encode_copy_source, encode_segment};
use crate::publish;
use crate::publish::PartsPage;
use crate::read;
use crate::read::range_header;
use crate::rename;
use crate::rename::RenameObject;
use crate::rename_plan;
use crate::rename_plan::check_source;
use crate::stage;
use crate::stage::PublicationGuard;
use crate::status::NfsStatus;
use crate::text;
use crate::text::holds_text;

verus! {

/// Parts of one copy that are under way at once.
pub const COPY_CONCURRENCY: usize = 4;

/// How a copy is split into parts.
#[derive(Clone, Copy, Debug, PartialEq, Eq, Structural)]
pub struct CopyParts {
    pub part_size: u64,
    pub total_parts: i32,
}

impl CopyParts {
    /// The parts make up an object of this size, and the last is not empty.
    pub open spec fn fits(self, size: u64) -> bool {
        &&& self.part_size > 0
        &&& self.total_parts >= 1
        &&& (self.total_parts - 1) * self.part_size < size
        &&& size <= self.total_parts * self.part_size
    }

    /// The first and the last byte of a part.
    pub open spec fn range_of(self, number: int, size: int) -> (int, int) {
        let start = (number - 1) * self.part_size;
        (
            start,
            if start + self.part_size < size {
                start + self.part_size - 1
            } else {
                size - 1
            },
        )
    }

    /// How long a part is.
    pub open spec fn length_of(self, number: int, size: int) -> int {
        self.range_of(number, size).1 - self.range_of(number, size).0 + 1
    }

    /// The first and the last byte of a part.
    pub fn range(self, number: i32, size: u64) -> (range: (u64, u64))
        requires
            self.fits(size),
            1 <= number <= self.total_parts,
        ensures
            (range.0 as int, range.1 as int) == self.range_of(number as int, size as int),
            range.0 <= range.1 < size,
    {
        let before: u64 = (number - 1) as u64;
        let ghost part_size = self.part_size as int;
        let ghost total = self.total_parts as int;
        assert(before * part_size <= (total - 1) * part_size) by (nonlinear_arith)
            requires
                before <= total - 1,
                part_size > 0,
        ;
        let start: u64 = before * self.part_size;
        let left: u64 = size - start;
        let end: u64 = if self.part_size < left { start + self.part_size - 1 } else { size - 1 };
        (start, end)
    }
}

/// The parts cover the object exactly once: each begins where the one before
/// it ended, the first at the start and the last at the end of the object.
pub proof fn copied_parts_cover_the_object(parts: CopyParts, size: u64, number: int)
    requires
        parts.fits(size),
        1 <= number <= parts.total_parts,
    ensures
        parts.range_of(1, size as int).0 == 0,
        number < parts.total_parts ==> parts.range_of(number + 1, size as int).0 == parts.range_of(number, size as int).1 + 1,
        parts.range_of(parts.total_parts as int, size as int).1 == size - 1,
        0 < parts.length_of(number, size as int) <= parts.part_size,
{
    let part_size = parts.part_size as int;
    let total = parts.total_parts as int;
    assert((number - 1) * part_size + part_size == number * part_size) by (nonlinear_arith);
    assert((total - 1) * part_size + part_size == total * part_size) by (nonlinear_arith);
    assert((number - 1) * part_size <= (total - 1) * part_size) by (nonlinear_arith)
        requires
            number <= total,
            part_size > 0,
    ;
    if number < total {
        assert(number * part_size <= (total - 1) * part_size) by (nonlinear_arith)
            requires
                number <= total - 1,
                part_size > 0,
        ;
    }
}

/// What a copy in parts waits for.
#[derive(Clone, Copy, Debug, PartialEq, Eq, Structural)]
pub enum PartCopyPhase {
    /// The store is to be asked whether it honours a conditional completion.
    AskingCompletion,
    /// The store is to be asked whether it honours a condition on the source
    /// of a part.
    AskingPartSource,
    /// The journal is to be read.
    Loading,
    /// The parts are to be planned.
    Planning,
    /// The completion may have happened: the target is to be looked at.
    CheckingTarget,
    /// The journal is to be saved with what may be replaced.
    SavingGuard,
    /// The source is to be looked at.
    CheckingSource,
    /// The stored parts are to be listed.
    Listing,
    /// The journal is to be saved with the parts that the store has.
    SavingParts,
    /// An upload is to be begun.
    Creating,
    /// The journal is to be saved with the new upload.
    SavingUpload,
    /// The parts that are missing are to be copied.
    Copying,
    /// The journal is to be saved, saying that the completion may have been
    /// asked for.
    SavingIntent,
    /// The completion is to be asked for.
    Completing,
    /// The journal is to be saved: the completion did not happen.
    SavingRefusal,
    /// Nothing is left to do.
    Done,
}

/// A copy in parts under way.
pub struct PartCopy {
    pub object: RenameObject,
    pub journal: MultipartJournal,
    pub parts: CopyParts,
    pub phase: PartCopyPhase,
    /// The store copies the parts itself; otherwise they pass through here.
    pub server_parts: bool,
    pub failure: Option<NfsStatus>,
    /// The tag of the finished copy.
    pub etag: Option<String>,
    /// The parts listed so far, and the continuations that were followed.
    pub found: Vec<(i32, String)>,
    pub marker: Option<String>,
    pub seen: Vec<String>,
}

/// A copy in parts, its texts taken as characters.
#[verifier::ext_equal]
pub ghost struct PartCopyModel {
    pub object: rename::ObjectModel,
    pub journal: journal::JournalModel,
    pub parts: CopyParts,
    pub phase: PartCopyPhase,
    pub server_parts: bool,
    pub failure: Option<NfsStatus>,
    pub etag: Option<Seq<char>>,
    pub found: Seq<(i32, Seq<char>)>,
    pub marker: Option<Seq<char>>,
    pub seen: Seq<Seq<char>>,
}

impl View for PartCopy {
    type V = PartCopyModel;

    open spec fn view(&self) -> PartCopyModel {
        PartCopyModel {
            object: self.object@,
            journal: self.journal@,
            parts: self.parts,
            phase: self.phase,
            server_parts: self.server_parts,
            failure: self.failure,
            etag: text::optional(self.etag),
            found: journal::parts_view(self.found@),
            marker: text::optional(self.marker),
            seen: text::texts(self.seen@),
        }
    }
}

/// A stored part is one of this copy, and as long as that part is.
pub open spec fn is_part_of(part: publish::ListedPart, parts: CopyParts, size: u64) -> bool {
    &&& part.number is Some
    &&& part.size is Some
    &&& part.etag is Some
    &&& 1 <= part.number->0 <= parts.total_parts
    &&& part.size->0 >= 0
    &&& part.size->0 == parts.length_of(part.number->0 as int, size as int)
}

/// Every stored part of a page is one of this copy.
pub open spec fn all_are_parts(page: Seq<publish::ListedPart>, parts: CopyParts, size: u64) -> bool {
    forall|i: int| 0 <= i < page.len() ==> is_part_of(#[trigger] page[i], parts, size)
}

/// The parts that were found before, with those of one page.
pub open spec fn with_page(found: Seq<(i32, Seq<char>)>, page: Seq<publish::ListedPart>) -> Seq<(i32, Seq<char>)>
    decreases page.len(),
{
    if page.len() == 0 {
        found
    } else {
        journal::with_part(
            with_page(found, page.drop_last()),
            page.last().number->0,
            text::optional(page.last().etag)->0,
        )
    }
}

/// Every number is one of the copy's parts.
pub open spec fn numbers_fit(parts: Seq<(i32, Seq<char>)>, total: i32) -> bool {
    forall|i: int| 0 <= i < parts.len() ==> 1 <= (#[trigger] parts[i]).0 <= total
}

impl PartCopyModel {
    pub open spec fn is_planned(self) -> bool {
        self.phase != PartCopyPhase::AskingCompletion && self.phase != PartCopyPhase::AskingPartSource && self.phase != PartCopyPhase::Loading
            && self.phase != PartCopyPhase::Planning && self.phase != PartCopyPhase::Done
    }

    /// What holds of every copy at every step.
    pub open spec fn valid(self) -> bool {
        &&& journal::in_number_order(self.journal.parts)
        &&& journal::in_number_order(self.found)
        &&& self.is_planned() ==> self.parts.fits(self.object.size) && self.journal.precondition is Some
            && self.journal.precondition->0.is_valid()
        &&& self.phase == PartCopyPhase::Listing || self.phase == PartCopyPhase::SavingUpload || self.phase == PartCopyPhase::Copying || self.phase
            == PartCopyPhase::SavingIntent || self.phase == PartCopyPhase::Completing ==> self.journal.upload_id is Some
        &&& self.phase == PartCopyPhase::SavingIntent || self.phase == PartCopyPhase::Completing ==> self.journal.completing
        &&& self.phase == PartCopyPhase::Completing ==> self.journal.parts.len() == self.parts.total_parts && numbers_fit(
            self.journal.parts,
            self.parts.total_parts,
        )
        &&& self.phase == PartCopyPhase::SavingRefusal ==> self.failure is Some
        &&& self.phase == PartCopyPhase::Done ==> self.failure is Some || self.etag is Some
        &&& self.phase != PartCopyPhase::Done && self.phase != PartCopyPhase::SavingRefusal && self.phase != PartCopyPhase::Copying ==> self.failure
            is None
    }

    pub open spec fn stopped(self, status: NfsStatus) -> PartCopyModel {
        PartCopyModel { phase: PartCopyPhase::Done, failure: Some(status), ..self }
    }

    /// The condition under which the copy is completed.
    pub open spec fn completion(self) -> Condition {
        if self.object.replaced_etag is Some {
            Condition::CompleteMatch
        } else {
            Condition::CompleteCreate
        }
    }

    /// The store was asked about a condition.
    pub open spec fn answered(self, supported: bool) -> PartCopyModel {
        if self.phase == PartCopyPhase::AskingPartSource {
            PartCopyModel { server_parts: supported, phase: PartCopyPhase::Loading, ..self }
        } else if !supported {
            self.stopped(NfsStatus::NotSupp)
        } else if self.object.source_version is Some {
            PartCopyModel { server_parts: true, phase: PartCopyPhase::Loading, ..self }
        } else {
            PartCopyModel { phase: PartCopyPhase::AskingPartSource, ..self }
        }
    }

    /// The parts were planned.
    pub open spec fn planned(self, parts: CopyParts) -> PartCopyModel {
        let guard = if self.journal.precondition is Some {
            self.journal.precondition->0
        } else {
            match self.object.replaced_etag {
                Some(etag) => stage::GuardModel::Match { etag },
                None => stage::GuardModel::Absent,
            }
        };
        let read = PartCopyModel {
            parts,
            journal: journal::JournalModel { part_size: parts.part_size, precondition: Some(guard), ..self.journal },
            ..self
        };
        if self.journal.precondition is None && self.journal.completing {
            self.stopped(NfsStatus::Io)
        } else if !guard.is_valid() {
            read.stopped(NfsStatus::Io)
        } else {
            PartCopyModel {
                phase: if self.journal.completing {
                    PartCopyPhase::CheckingTarget
                } else {
                    PartCopyPhase::SavingGuard
                },
                ..read
            }
        }
    }

    /// The target was looked at: absent, or there with the tag it has.
    pub open spec fn target_seen(self, target: Option<Option<Seq<char>>>) -> PartCopyModel {
        let named = target is Some ==> target->0 is Some && target->0->0.len() > 0;
        let current = match target {
            Some(etag) => etag,
            None => None,
        };
        if named && self.journal.precondition->0.admits(current) {
            PartCopyModel { phase: PartCopyPhase::SavingGuard, ..self }
        } else {
            self.stopped(NfsStatus::Io)
        }
    }

    /// The source was looked at.
    pub open spec fn source_seen(self, head: content::HeadModel) -> PartCopyModel {
        if !rename_plan::is_planned_source(self.object, head) {
            self.stopped(NfsStatus::Io)
        } else if self.journal.upload_id is None {
            PartCopyModel { phase: PartCopyPhase::Creating, ..self }
        } else if numbers_fit(self.journal.parts, self.parts.total_parts) {
            PartCopyModel { phase: PartCopyPhase::Listing, found: Seq::empty(), marker: None, seen: Seq::empty(), ..self }
        } else {
            self.stopped(NfsStatus::Io)
        }
    }

    /// One page of stored parts came. A part that is none of this copy's, or
    /// a listing that leads nowhere or back, ends the copy.
    pub open spec fn listed(self, page: PartsPage) -> PartCopyModel {
        let next = text::optional(page.next_marker);
        if !all_are_parts(page.parts@, self.parts, self.object.size) {
            self.stopped(NfsStatus::Io)
        } else {
            let found = with_page(self.found, page.parts@);
            if !page.truncated {
                PartCopyModel {
                    found,
                    journal: journal::JournalModel { parts: found, ..self.journal },
                    phase: PartCopyPhase::SavingParts,
                    ..self
                }
            } else if next is Some && next->0.len() > 0 && !self.seen.contains(next->0) {
                PartCopyModel { found, marker: next, seen: self.seen.push(next->0), ..self }
            } else {
                PartCopyModel { found, ..self }.stopped(NfsStatus::Io)
            }
        }
    }

    /// The store no longer knows the upload: it begins anew.
    pub open spec fn forgotten(self) -> PartCopyModel {
        PartCopyModel {
            journal: journal::JournalModel { upload_id: None, parts: Seq::empty(), completing: false, ..self.journal },
            phase: PartCopyPhase::SavingParts,
            ..self
        }
    }

    /// An upload was begun.
    pub open spec fn created(self, upload_id: Option<Seq<char>>) -> PartCopyModel {
        if upload_id is Some {
            PartCopyModel {
                journal: journal::JournalModel { upload_id, ..self.journal },
                phase: PartCopyPhase::SavingUpload,
                ..self
            }
        } else {
            self.stopped(NfsStatus::Io)
        }
    }

    /// A part was copied.
    pub open spec fn part_copied(self, number: i32, etag: Seq<char>) -> PartCopyModel {
        PartCopyModel {
            journal: journal::JournalModel { parts: journal::with_part(self.journal.parts, number, etag), ..self.journal },
            ..self
        }
    }

    /// A part could not be copied. The first such failure counts.
    pub open spec fn part_failed(self, status: NfsStatus) -> PartCopyModel {
        PartCopyModel {
            failure: if self.failure is Some {
                self.failure
            } else {
                Some(status)
            },
            ..self
        }
    }

    /// No part is under way any more.
    pub open spec fn parts_done(self) -> PartCopyModel {
        match self.failure {
            Some(status) => self.stopped(status),
            None => PartCopyModel {
                journal: journal::JournalModel { completing: true, ..self.journal },
                phase: PartCopyPhase::SavingIntent,
                ..self
            },
        }
    }

    /// The journal was saved.
    pub open spec fn saved(self) -> PartCopyModel {
        match self.phase {
            PartCopyPhase::SavingGuard => PartCopyModel { phase: PartCopyPhase::CheckingSource, ..self },
            PartCopyPhase::SavingParts => PartCopyModel {
                phase: if self.journal.upload_id is Some {
                    PartCopyPhase::Copying
                } else {
                    PartCopyPhase::Creating
                },
                ..self
            },
            PartCopyPhase::SavingUpload => PartCopyModel { phase: PartCopyPhase::Copying, ..self },
            PartCopyPhase::SavingIntent => if self.journal.parts.len() == self.parts.total_parts && numbers_fit(
                self.journal.parts,
                self.parts.total_parts,
            ) {
                PartCopyModel { phase: PartCopyPhase::Completing, ..self }
            } else {
                self.stopped(NfsStatus::Io)
            },
            _ => PartCopyModel { phase: PartCopyPhase::Done, ..self },
        }
    }

    /// The completion was answered.
    pub open spec fn completed(self, etag: Option<Seq<char>>) -> PartCopyModel {
        if etag is Some {
            PartCopyModel { phase: PartCopyPhase::Done, etag, ..self }
        } else {
            self.stopped(NfsStatus::Io)
        }
    }

    /// The completion failed. Only where it cannot have taken effect does the
    /// journal say again that it was not asked for.
    pub open spec fn refused(self, status: NfsStatus, uncertain: bool) -> PartCopyModel {
        if uncertain {
            self.stopped(status)
        } else {
            PartCopyModel {
                journal: journal::JournalModel { completing: false, ..self.journal },
                failure: Some(status),
                phase: PartCopyPhase::SavingRefusal,
                ..self
            }
        }
    }
}

impl PartCopyModel {
    /// The journal was read.
    pub open spec fn loaded(self, journal: journal::JournalModel) -> PartCopyModel {
        PartCopyModel { journal, phase: PartCopyPhase::Planning, ..self }
    }

    /// One step, whatever came back.
    pub open spec fn may_become(self, after: PartCopyModel) -> bool {
        let stops = exists|status: NfsStatus| after == #[trigger] self.stopped(status);
        match self.phase {
            PartCopyPhase::AskingCompletion | PartCopyPhase::AskingPartSource => {
                ||| exists|supported: bool| after == #[trigger] self.answered(supported)
                ||| stops
            },
            PartCopyPhase::Loading => {
                ||| exists|journal: journal::JournalModel| after == #[trigger] self.loaded(journal)
                ||| stops
            },
            PartCopyPhase::Planning => {
                ||| exists|parts: CopyParts| after == #[trigger] self.planned(parts)
                ||| stops
            },
            PartCopyPhase::CheckingTarget => {
                ||| exists|target: Option<Option<Seq<char>>>| after == #[trigger] self.target_seen(target)
                ||| stops
            },
            PartCopyPhase::CheckingSource => {
                ||| exists|head: content::HeadModel| after == #[trigger] self.source_seen(head)
                ||| stops
            },
            PartCopyPhase::Listing => {
                ||| exists|page: PartsPage| after == #[trigger] self.listed(page)
                ||| after == self.forgotten()
                ||| stops
            },
            PartCopyPhase::Creating => {
                ||| exists|upload_id: Option<Seq<char>>| after == #[trigger] self.created(upload_id)
                ||| stops
            },
            PartCopyPhase::Copying => {
                ||| exists|number: i32, etag: Seq<char>| after == #[trigger] self.part_copied(number, etag)
                ||| exists|status: NfsStatus| after == #[trigger] self.part_failed(status)
                ||| after == self.parts_done()
                ||| stops
            },
            PartCopyPhase::Completing => {
                ||| exists|etag: Option<Seq<char>>| after == #[trigger] self.completed(etag)
                ||| exists|status: NfsStatus, uncertain: bool| after == #[trigger] self.refused(status, uncertain)
            },
            PartCopyPhase::Done => false,
            _ => {
                ||| after == self.saved()
                ||| stops
            },
        }
    }
}

fn is_listed_part(part: &publish::ListedPart, parts: CopyParts, size: u64) -> (yes: bool)
    requires
        parts.fits(size),
    ensures
        yes == is_part_of(*part, parts, size),
{
    match (part.number, part.size, &part.etag) {
        (Some(number), Some(length), Some(_)) => {
            if number < 1 || number > parts.total_parts || length < 0 {
                return false;
            }
            let (start, end) = parts.range(number, size);
            length as u64 == end - start + 1
        },
        _ => false,
    }
}

fn all_listed_are_parts(page: &Vec<publish::ListedPart>, parts: CopyParts, size: u64) -> (yes: bool)
    requires
        parts.fits(size),
    ensures
        yes == all_are_parts(page@, parts, size),
{
    let mut i: usize = 0;
    while i < page.len()
        invariant
            i <= page.len(),
            parts.fits(size),
            forall|j: int| 0 <= j < i ==> is_part_of(#[trigger] page@[j], parts, size),
        decreases page.len() - i,
    {
        if !is_listed_part(&page[i], parts, size) {
            return false;
        }
        i = i + 1;
    }
    true
}

fn do_numbers_fit(parts: &Vec<(i32, String)>, total: i32) -> (yes: bool)
    ensures
        yes == numbers_fit(journal::parts_view(parts@), total),
{
    let mut i: usize = 0;
    while i < parts.len()
        invariant
            i <= parts.len(),
            forall|j: int| 0 <= j < i ==> 1 <= (#[trigger] journal::parts_view(parts@)[j]).0 <= total,
        decreases parts.len() - i,
    {
        assert(journal::parts_view(parts@)[i as int].0 == parts@[i as int].0);
        if parts[i].0 < 1 || parts[i].0 > total {
            return false;
        }
        i = i + 1;
    }
    true
}

/// How one part is copied.
pub struct PartRequest {
    pub number: i32,
    pub start: u64,
    pub end: u64,
    /// The bytes pass through here: read from the source, and sent as a part.
    pub relayed: bool,
    /// The range of the source, where the store copies it itself.
    pub range: String,
    /// The source has to have this tag, where no version says which it is.
    pub if_match: Option<String>,
}

/// The source of a copy, as the store wants it named.
pub fn copy_source(object: &RenameObject, bucket: &str) -> (source: String)
    ensures
        source@ == (match object@.source_version {
            Some(version) => bucket@ + keys::encoded_path(object@.from) + "?versionId="@ + keys::encoded_segment(version),
            None => bucket@ + keys::encoded_path(object@.from),
        }),
{
    let mut source = encode_copy_source(bucket, object.from.as_str());
    match &object.source_version {
        Some(version) => {
            source.append("?versionId=");
            source.append(encode_segment(version.as_str()).as_str());
        },
        None => {},
    }
    source
}

/// The tag of a stored part, if the store gave one.
pub fn part_etag(etag: Option<String>) -> (named: Option<String>)
    ensures
        text::optional(named) == (match etag {
            Some(tag) => if tag@.len() > 0 {
                Some(tag@)
            } else {
                None
            },
            None => None,
        }),
{
    match etag {
        Some(tag) => {
            if tag.as_str().unicode_len() > 0 {
                Some(tag)
            } else {
                None
            }
        },
        None => None,
    }
}

impl PartCopy {
    /// Begins a copy. Without a configured store there is nobody to ask what
    /// it honours.
    pub fn begin(object: RenameObject, configured: bool) -> (copy: Self)
        ensures
            copy@.valid(),
            copy@ == (PartCopyModel {
                object: object@,
                journal: journal::empty_journal(),
                parts: CopyParts { part_size: 1, total_parts: 1 },
                phase: if configured {
                    PartCopyPhase::AskingCompletion
                } else {
                    PartCopyPhase::Done
                },
                server_parts: false,
                failure: if configured {
                    None
                } else {
                    Some(NfsStatus::NotSupp)
                },
                etag: None,
                found: Seq::empty(),
                marker: None,
                seen: Seq::empty(),
            }),
    {
        let copy = PartCopy {
            object,
            journal: MultipartJournal::default(),
            parts: CopyParts { part_size: 1, total_parts: 1 },
            phase: if configured { PartCopyPhase::AskingCompletion } else { PartCopyPhase::Done },
            server_parts: false,
            failure: if configured { None } else { Some(NfsStatus::NotSupp) },
            etag: None,
            found: Vec::new(),
            marker: None,
            seen: Vec::new(),
        };
        assert(copy@.found =~= Seq::empty());
        assert(copy@.seen =~= Seq::empty());
        copy
    }

    fn stop(&mut self, status: NfsStatus)
        requires
            old(self)@.valid(),
        ensures
            final(self)@ == old(self)@.stopped(status),
            final(self)@.valid(),
    {
        self.phase = PartCopyPhase::Done;
        self.failure = Some(status);
    }

    /// The condition that the store is asked about.
    pub fn condition(&self) -> (condition: Condition)
        requires
            self@.phase == PartCopyPhase::AskingCompletion || self@.phase == PartCopyPhase::AskingPartSource,
        ensures
            condition == (if self@.phase == PartCopyPhase::AskingPartSource {
                Condition::PartCopySource
            } else {
                self@.completion()
            }),
    {
        if self.phase == PartCopyPhase::AskingPartSource {
            Condition::PartCopySource
        } else if self.object.replaced_etag.is_some() {
            Condition::CompleteMatch
        } else {
            Condition::CompleteCreate
        }
    }

    /// Takes what the store said when asked about a condition.
    pub fn on_condition(&mut self, answer: Result<bool, NfsStatus>)
        requires
            old(self)@.valid(),
            old(self)@.phase == PartCopyPhase::AskingCompletion || old(self)@.phase == PartCopyPhase::AskingPartSource,
        ensures
            final(self)@ == (match answer {
                Ok(supported) => old(self)@.answered(supported),
                Err(status) => old(self)@.stopped(status),
            }),
            final(self)@.valid(),
            old(self)@.may_become(final(self)@),
    {
        match answer {
            Err(status) => {
                self.stop(status);
            },
            Ok(supported) => {
                if self.phase == PartCopyPhase::AskingPartSource {
                    self.server_parts = supported;
                    self.phase = PartCopyPhase::Loading;
                } else if !supported {
                    self.stop(NfsStatus::NotSupp);
                } else if self.object.source_version.is_some() {
                    self.server_parts = true;
                    self.phase = PartCopyPhase::Loading;
                } else {
                    self.phase = PartCopyPhase::AskingPartSource;
                }
            },
        }
    }

    /// Takes the journal as it was kept, nothing where none was, or that it
    /// could not be read.
    pub fn on_journal(&mut self, kept: Result<Option<MultipartJournal>, NfsStatus>)
        requires
            old(self)@.valid(),
            old(self)@.phase == PartCopyPhase::Loading,
            kept matches Ok(Some(journal)) ==> journal::in_number_order(journal@.parts),
        ensures
            final(self)@ == (match kept {
                Ok(Some(journal)) => old(self)@.loaded(journal@),
                Ok(None) => old(self)@.loaded(journal::empty_journal()),
                Err(status) => old(self)@.stopped(status),
            }),
            final(self)@.valid(),
            old(self)@.may_become(final(self)@),
    {
        match kept {
            Err(status) => {
                self.stop(status);
            },
            Ok(Some(journal)) => {
                self.journal = journal;
                self.phase = PartCopyPhase::Planning;
            },
            Ok(None) => {
                self.journal = MultipartJournal::default();
                self.phase = PartCopyPhase::Planning;
            },
        }
    }

    /// Takes how the copy is split, or that it is too large to be.
    pub fn on_plan(&mut self, parts: Option<CopyParts>)
        requires
            old(self)@.valid(),
            old(self)@.phase == PartCopyPhase::Planning,
            parts matches Some(plan) ==> plan.fits(old(self)@.object.size),
        ensures
            final(self)@ == (match parts {
                Some(plan) => old(self)@.planned(plan),
                None => old(self)@.stopped(NfsStatus::FBig),
            }),
            final(self)@.valid(),
            old(self)@.may_become(final(self)@),
    {
        let ghost before = self@;
        let plan = match parts {
            Some(plan) => plan,
            None => {
                self.stop(NfsStatus::FBig);
                return;
            },
        };
        if self.journal.precondition.is_none() && self.journal.completing {
            self.stop(NfsStatus::Io);
            return;
        }
        self.parts = plan;
        self.journal.part_size = plan.part_size;
        if self.journal.precondition.is_none() {
            self.journal.precondition = Some(
                match &self.object.replaced_etag {
                    Some(etag) => PublicationGuard::Match { etag: etag.clone() },
                    None => PublicationGuard::Absent,
                },
            );
        }
        let valid = match &self.journal.precondition {
            Some(guard) => guard.is_valid(),
            None => false,
        };
        if !valid {
            self.phase = PartCopyPhase::Done;
            self.failure = Some(NfsStatus::Io);
        } else if self.journal.completing {
            self.phase = PartCopyPhase::CheckingTarget;
        } else {
            self.phase = PartCopyPhase::SavingGuard;
        }
        assert(self@ =~= before.planned(plan));
    }

    /// Takes what stands at the target.
    pub fn on_target(&mut self, target: Result<Option<Option<String>>, NfsStatus>)
        requires
            old(self)@.valid(),
            old(self)@.phase == PartCopyPhase::CheckingTarget,
        ensures
            final(self)@ == (match target {
                Ok(Some(etag)) => old(self)@.target_seen(Some(text::optional(etag))),
                Ok(None) => old(self)@.target_seen(None),
                Err(status) => old(self)@.stopped(status),
            }),
            final(self)@.valid(),
            old(self)@.may_become(final(self)@),
    {
        match target {
            Err(status) => {
                self.stop(status);
            },
            Ok(head) => {
                let present = head.is_some();
                let etag: Option<String> = match head {
                    Some(etag) => etag,
                    None => None,
                };
                let named = match &etag {
                    Some(tag) => tag.as_str().unicode_len() > 0,
                    None => false,
                };
                let current: Option<&str> = match &etag {
                    Some(tag) => Some(tag.as_str()),
                    None => None,
                };
                let admitted = match &self.journal.precondition {
                    Some(guard) => guard.matches(current),
                    None => false,
                };
                if (!present || named) && admitted {
                    self.phase = PartCopyPhase::SavingGuard;
                } else {
                    self.stop(NfsStatus::Io);
                }
            },
        }
    }

    /// Takes what stands at the source.
    pub fn on_source(&mut self, source: Result<ObjectHead, NfsStatus>)
        requires
            old(self)@.valid(),
            old(self)@.phase == PartCopyPhase::CheckingSource,
        ensures
            final(self)@ == (match source {
                Ok(head) => old(self)@.source_seen(head@),
                Err(status) => old(self)@.stopped(status),
            }),
            final(self)@.valid(),
            old(self)@.may_become(final(self)@),
    {
        let ghost before = self@;
        match source {
            Err(status) => {
                self.stop(status);
            },
            Ok(head) => {
                if check_source(&self.object, &head).is_err() {
                    self.stop(NfsStatus::Io);
                } else if self.journal.upload_id.is_none() {
                    self.phase = PartCopyPhase::Creating;
                } else if do_numbers_fit(&self.journal.parts, self.parts.total_parts) {
                    self.found = Vec::new();
                    self.marker = None;
                    self.seen = Vec::new();
                    self.phase = PartCopyPhase::Listing;
                    assert(self@.found =~= Seq::empty());
                    assert(self@.seen =~= Seq::empty());
                    assert(self@ =~= before.source_seen(head@));
                } else {
                    self.stop(NfsStatus::Io);
                }
            },
        }
    }

    /// Takes one page of the parts that the store has.
    pub fn on_parts_page(&mut self, page: PartsPage)
        requires
            old(self)@.valid(),
            old(self)@.phase == PartCopyPhase::Listing,
        ensures
            final(self)@ == old(self)@.listed(page),
            final(self)@.valid(),
            old(self)@.may_become(final(self)@),
    {
        let ghost before = self@;
        if !all_listed_are_parts(&page.parts, self.parts, self.object.size) {
            self.stop(NfsStatus::Io);
            return;
        }
        let mut i: usize = 0;
        assert(page.parts@.take(0) =~= Seq::empty());
        while i < page.parts.len()
            invariant
                i <= page.parts.len(),
                before.valid(),
                all_are_parts(page.parts@, before.parts, before.object.size),
                self@ == (PartCopyModel { found: with_page(before.found, page.parts@.take(i as int)), ..before }),
                journal::in_number_order(self@.found),
            decreases page.parts.len() - i,
        {
            let ghost now = self@;
            proof {
                assert(page.parts@.take(i + 1).drop_last() =~= page.parts@.take(i as int));
                assert(page.parts@.take(i + 1).last() == page.parts@[i as int]);
                assert(is_part_of(page.parts@[i as int], before.parts, before.object.size));
            }
            match (page.parts[i].number, &page.parts[i].etag) {
                (Some(number), Some(etag)) => {
                    proof {
                        journal::one_more_part(self@.found, number, etag@);
                    }
                    insert_part(&mut self.found, number, etag.clone());
                },
                _ => {},
            }
            assert(self@ =~= (PartCopyModel { found: self@.found, ..now }));
            i = i + 1;
        }
        assert(page.parts@.take(i as int) =~= page.parts@);
        if !page.truncated {
            self.journal.parts = copy_parts(&self.found);
            self.phase = PartCopyPhase::SavingParts;
            assert(self@ =~= before.listed(page));
            return;
        }
        match page.next_marker {
            None => {
                self.stop(NfsStatus::Io);
            },
            Some(next) => {
                if next.as_str().unicode_len() == 0 || holds_text(&self.seen, next.as_str()) {
                    self.stop(NfsStatus::Io);
                } else {
                    let ghost seen = self.seen@;
                    self.seen.push(next.clone());
                    assert(text::texts(self.seen@) =~= text::texts(seen).push(next@));
                    self.marker = Some(next);
                    assert(self@ =~= before.listed(page));
                }
            },
        }
    }

    /// Takes that the store no longer knows the upload.
    pub fn on_parts_missing(&mut self)
        requires
            old(self)@.valid(),
            old(self)@.phase == PartCopyPhase::Listing,
        ensures
            final(self)@ == old(self)@.forgotten(),
            final(self)@.valid(),
            old(self)@.may_become(final(self)@),
    {
        self.journal.upload_id = None;
        self.journal.parts = Vec::new();
        self.journal.completing = false;
        self.phase = PartCopyPhase::SavingParts;
        assert(self@.journal.parts =~= Seq::empty());
        assert(self@ =~= old(self)@.forgotten());
    }

    /// Takes that the stored parts could not be listed.
    pub fn on_parts_failed(&mut self, status: NfsStatus)
        requires
            old(self)@.valid(),
            old(self)@.phase == PartCopyPhase::Listing,
        ensures
            final(self)@ == old(self)@.stopped(status),
            final(self)@.valid(),
            old(self)@.may_become(final(self)@),
    {
        self.stop(status);
    }

    /// Takes the upload that was begun, or why it was not.
    pub fn on_created(&mut self, created: Result<Option<String>, NfsStatus>)
        requires
            old(self)@.valid(),
            old(self)@.phase == PartCopyPhase::Creating,
        ensures
            final(self)@ == (match created {
                Ok(upload_id) => old(self)@.created(text::optional(upload_id)),
                Err(status) => old(self)@.stopped(status),
            }),
            final(self)@.valid(),
            old(self)@.may_become(final(self)@),
    {
        match created {
            Err(status) => {
                self.stop(status);
            },
            Ok(Some(upload_id)) => {
                self.journal.upload_id = Some(upload_id);
                self.phase = PartCopyPhase::SavingUpload;
            },
            Ok(None) => {
                self.stop(NfsStatus::Io);
            },
        }
    }

    /// The part with this number as it is to be copied. None where it was
    /// copied before, or where another part failed: nothing new is started
    /// then.
    pub fn part_to_copy(&self, number: i32) -> (request: Option<PartRequest>)
        requires
            self@.valid(),
            self@.phase == PartCopyPhase::Copying,
            1 <= number <= self@.parts.total_parts,
        ensures
            match request {
                None => self@.failure is Some || journal::has_part(self@.journal.parts, number),
                Some(part) => {
                    &&& self@.failure is None
                    &&& !journal::has_part(self@.journal.parts, number)
                    &&& part.number == number
                    &&& (part.start as int, part.end as int) == self@.parts.range_of(number as int, self@.object.size as int)
                    &&& part.relayed == !self@.server_parts
                    &&& part.range@ == read::range_of(part.start as int, part.end - part.start + 1)
                    &&& text::optional(part.if_match) == (if self@.object.source_version is Some {
                        None
                    } else {
                        Some(self@.object.source_etag)
                    })
                },
            },
    {
        if self.failure.is_some() || contains_part(&self.journal.parts, number) {
            return None;
        }
        let (start, end) = self.parts.range(number, self.object.size);
        let if_match: Option<String> = if self.object.source_version.is_some() {
            None
        } else {
            Some(self.object.source_etag.clone())
        };
        Some(
            PartRequest {
                number,
                start,
                end,
                relayed: !self.server_parts,
                range: range_header(start, end - start + 1),
                if_match,
            },
        )
    }

    /// Takes what came of copying one part.
    pub fn on_part(&mut self, number: i32, copied: Result<String, NfsStatus>)
        requires
            old(self)@.valid(),
            old(self)@.phase == PartCopyPhase::Copying,
        ensures
            final(self)@ == (match copied {
                Ok(etag) => old(self)@.part_copied(number, etag@),
                Err(status) => old(self)@.part_failed(status),
            }),
            final(self)@.valid(),
            old(self)@.may_become(final(self)@),
    {
        let ghost before = self@;
        match copied {
            Ok(etag) => {
                proof {
                    journal::one_more_part(self@.journal.parts, number, etag@);
                }
                insert_part(&mut self.journal.parts, number, etag);
                assert(self@ =~= before.part_copied(number, etag@));
            },
            Err(status) => {
                if self.failure.is_none() {
                    self.failure = Some(status);
                }
            },
        }
    }

    /// Takes that no part is under way any more.
    pub fn on_parts_done(&mut self)
        requires
            old(self)@.valid(),
            old(self)@.phase == PartCopyPhase::Copying,
        ensures
            final(self)@ == old(self)@.parts_done(),
            final(self)@.valid(),
            old(self)@.may_become(final(self)@),
    {
        match self.failure {
            Some(status) => {
                self.stop(status);
            },
            None => {
                self.journal.completing = true;
                self.phase = PartCopyPhase::SavingIntent;
            },
        }
    }

    /// Takes whether the journal was saved. Also a journal that could not be
    /// saved beside a part ends the copy.
    pub fn on_saved(&mut self, saved: bool)
        requires
            old(self)@.valid(),
            old(self)@.phase == PartCopyPhase::SavingGuard || old(self)@.phase == PartCopyPhase::SavingParts || old(self)@.phase
                == PartCopyPhase::SavingUpload || old(self)@.phase == PartCopyPhase::SavingIntent || old(self)@.phase
                == PartCopyPhase::SavingRefusal || (old(self)@.phase == PartCopyPhase::Copying && !saved),
        ensures
            final(self)@ == (if saved {
                old(self)@.saved()
            } else {
                old(self)@.stopped(NfsStatus::Io)
            }),
            final(self)@.valid(),
            old(self)@.may_become(final(self)@),
    {
        if !saved {
            self.stop(NfsStatus::Io);
            return;
        }
        match self.phase {
            PartCopyPhase::SavingGuard => {
                self.phase = PartCopyPhase::CheckingSource;
            },
            PartCopyPhase::SavingParts => {
                if self.journal.upload_id.is_some() {
                    self.phase = PartCopyPhase::Copying;
                } else {
                    self.phase = PartCopyPhase::Creating;
                }
            },
            PartCopyPhase::SavingUpload => {
                self.phase = PartCopyPhase::Copying;
            },
            PartCopyPhase::SavingIntent => {
                if self.journal.parts.len() as u64 == self.parts.total_parts as u64 && do_numbers_fit(
                    &self.journal.parts,
                    self.parts.total_parts,
                ) {
                    self.phase = PartCopyPhase::Completing;
                } else {
                    self.stop(NfsStatus::Io);
                }
            },
            _ => {
                self.phase = PartCopyPhase::Done;
            },
        }
    }

    /// Takes what came of the completion: the tag of the copy; or the status
    /// that the failure is answered with, and whether it may have taken effect
    /// all the same.
    pub fn on_completed(&mut self, answer: Result<Option<String>, (NfsStatus, bool)>)
        requires
            old(self)@.valid(),
            old(self)@.phase == PartCopyPhase::Completing,
        ensures
            final(self)@ == (match answer {
                Ok(etag) => old(self)@.completed(text::optional(etag)),
                Err((status, uncertain)) => old(self)@.refused(status, uncertain),
            }),
            final(self)@.valid(),
            old(self)@.may_become(final(self)@),
    {
        match answer {
            Ok(Some(etag)) => {
                self.etag = Some(etag);
                self.phase = PartCopyPhase::Done;
            },
            Ok(None) => {
                self.stop(NfsStatus::Io);
            },
            Err((status, uncertain)) => {
                if uncertain {
                    self.stop(status);
                } else {
                    self.journal.completing = false;
                    self.failure = Some(status);
                    self.phase = PartCopyPhase::SavingRefusal;
                }
            },
        }
    }

    /// What came of the copy: its tag, or why there is none.
    pub fn outcome(&self) -> (outcome: Result<String, NfsStatus>)
        requires
            self@.valid(),
            self@.phase == PartCopyPhase::Done,
        ensures
            match self@.failure {
                Some(status) => outcome is Err && outcome->Err_0 == status,
                None => outcome is Ok && Some(outcome->Ok_0@) == self@.etag,
            },
    {
        match self.failure {
            Some(status) => Err(status),
            None => match &self.etag {
                Some(etag) => Ok(etag.clone()),
                None => Err(NfsStatus::Io),
            },
        }
    }
}

/// When a copy is completed, every part of the object was copied.
pub proof fn a_completed_copy_misses_no_part(copy: PartCopyModel, number: int)
    requires
        copy.valid(),
        copy.phase == PartCopyPhase::Completing,
        1 <= number <= copy.parts.total_parts,
    ensures
        copy.journal.parts[number - 1].0 == number,
{
    publish::as_many_parts_as_there_are_miss_none(copy.journal.parts, copy.parts.total_parts as int, number);
}

/// The completion is asked for only after the journal was saved with what it
/// may replace and with the note that it may have been asked for.
pub proof fn a_completion_is_recorded_before_it_is_asked_for(before: PartCopyModel, after: PartCopyModel)
    requires
        before.valid(),
        before.may_become(after),
        after.phase == PartCopyPhase::Completing,
    ensures
        before.phase == PartCopyPhase::SavingIntent,
        after.journal == before.journal,
        before.journal.completing,
        before.journal.precondition is Some,
        before.journal.precondition->0.is_valid(),
{
}

/// What a copy may replace is settled once: no later step changes it.
pub proof fn what_a_copy_may_replace_is_settled_once(before: PartCopyModel, after: PartCopyModel)
    requires
        before.valid(),
        before.may_become(after),
        before.journal.precondition is Some,
        before.phase != PartCopyPhase::Loading,
    ensures
        after.journal.precondition == before.journal.precondition,
{
}

/// How far a phase is from the end.
pub open spec fn phases_left(phase: PartCopyPhase) -> nat {
    match phase {
        PartCopyPhase::AskingCompletion => 15,
        PartCopyPhase::AskingPartSource => 14,
        PartCopyPhase::Loading => 13,
        PartCopyPhase::Planning => 12,
        PartCopyPhase::CheckingTarget => 11,
        PartCopyPhase::SavingGuard => 10,
        PartCopyPhase::CheckingSource => 9,
        PartCopyPhase::Listing => 8,
        PartCopyPhase::SavingParts => 7,
        PartCopyPhase::Creating => 6,
        PartCopyPhase::SavingUpload => 5,
        PartCopyPhase::Copying => 4,
        PartCopyPhase::SavingIntent => 3,
        PartCopyPhase::Completing => 2,
        PartCopyPhase::SavingRefusal => 1,
        PartCopyPhase::Done => 0,
    }
}

/// A copy leads on, whatever comes back: every step leads to a later phase,
/// but for a listing that goes on from a place where it has not been, and for
/// parts that are still under way.
pub proof fn every_step_of_a_copy_leads_on(before: PartCopyModel, after: PartCopyModel)
    requires
        before.valid(),
        before.may_become(after),
    ensures
        ({
            ||| phases_left(after.phase) < phases_left(before.phase)
            ||| before.phase == PartCopyPhase::Listing && after.phase == PartCopyPhase::Listing && after.marker is Some && !before.seen.contains(
                after.marker->0,
            ) && after.seen == before.seen.push(after.marker->0)
            ||| before.phase == PartCopyPhase::Copying && after.phase == PartCopyPhase::Copying
        }),
{
}

/// A completion that may have taken effect stays recorded as asked for.
pub proof fn an_uncertain_completion_stays_recorded(copy: PartCopyModel, status: NfsStatus, uncertain: bool)
    requires
        copy.valid(),
        copy.phase == PartCopyPhase::Completing,
    ensures
        copy.refused(status, uncertain).journal.completing == uncertain,
{
}

/// A copy is made only where the store honours the condition of its
/// completion. A source that is named by its version needs no condition of its
/// own; for another the store is asked, and where it honours none the parts
/// pass through here.
pub proof fn a_copy_needs_a_conditional_completion(copy: PartCopyModel, supported: bool)
    requires
        copy.phase == PartCopyPhase::AskingCompletion || copy.phase == PartCopyPhase::AskingPartSource,
    ensures
        ({
            let next = copy.answered(supported);
            &&& copy.phase == PartCopyPhase::AskingCompletion && !supported ==> next.phase == PartCopyPhase::Done && next.failure == Some(
                NfsStatus::NotSupp,
            )
            &&& copy.phase == PartCopyPhase::AskingCompletion && supported && copy.object.source_version is None ==> next.phase
                == PartCopyPhase::AskingPartSource && next.failure == copy.failure
            &&& copy.phase == PartCopyPhase::AskingCompletion && supported && copy.object.source_version is Some ==> next.phase
                == PartCopyPhase::Loading && next.server_parts
            &&& copy.phase == PartCopyPhase::AskingPartSource ==> next.phase == PartCopyPhase::Loading && next.server_parts == supported
                && next.failure == copy.failure
            &&& next.object == copy.object && next.journal == copy.journal
        }),
{
}

/// A copy that replaces an object is completed only over that object, and one
/// that creates only where nothing stands.
pub proof fn a_copy_is_completed_under_its_condition(copy: PartCopyModel)
    ensures
        copy.object.replaced_etag is Some ==> copy.completion() == Condition::CompleteMatch,
        copy.object.replaced_etag is None ==> copy.completion() == Condition::CompleteCreate,
{
}

/// A copy that is taken up keeps what it may replace. One that begins may
/// replace what the rename was planned with. One whose completion may have
/// been asked for, but that does not say what it may replace, ends; so does
/// one whose guard names nothing. The target is looked at exactly where the
/// completion may have been asked for.
pub proof fn a_copy_may_replace_what_it_began_with(copy: PartCopyModel, parts: CopyParts)
    requires
        copy.phase == PartCopyPhase::Planning,
        copy.failure is None,
    ensures
        ({
            let next = copy.planned(parts);
            let unknown = copy.journal.precondition is None && copy.journal.completing;
            &&& unknown ==> next.phase == PartCopyPhase::Done && next.failure == Some(NfsStatus::Io) && next.journal == copy.journal
            &&& !unknown ==> next.parts == parts && next.journal.part_size == parts.part_size && next.journal.upload_id
                == copy.journal.upload_id && next.journal.parts == copy.journal.parts && next.journal.completing == copy.journal.completing
            &&& copy.journal.precondition is Some ==> next.journal.precondition == copy.journal.precondition
            &&& !unknown && copy.journal.precondition is None && copy.object.replaced_etag is None ==> next.journal.precondition == Some(
                stage::GuardModel::Absent,
            ) && next.phase == PartCopyPhase::SavingGuard
            &&& !unknown && copy.journal.precondition is None && copy.object.replaced_etag is Some ==> next.journal.precondition == Some(
                stage::GuardModel::Match { etag: copy.object.replaced_etag->0 },
            )
            &&& next.phase == PartCopyPhase::CheckingTarget ==> copy.journal.completing && next.failure is None
            &&& next.phase == PartCopyPhase::SavingGuard ==> !copy.journal.completing && next.failure is None
            &&& next.phase == PartCopyPhase::CheckingTarget || next.phase == PartCopyPhase::SavingGuard || (next.phase == PartCopyPhase::Done
                && next.failure == Some(NfsStatus::Io))
            &&& copy.journal.precondition is Some && copy.journal.precondition->0.is_valid() ==> next.phase != PartCopyPhase::Done
        }),
{
}

/// A copy whose completion may have happened goes on exactly where the target
/// is still what it may replace: nothing, or the object with its tag.
pub proof fn an_open_completion_goes_on_over_its_target(copy: PartCopyModel, target: Option<Option<Seq<char>>>)
    requires
        copy.phase == PartCopyPhase::CheckingTarget,
        copy.failure is None,
        copy.journal.precondition is Some,
        copy.journal.precondition->0.is_valid(),
    ensures
        ({
            let next = copy.target_seen(target);
            let absent = copy.journal.precondition->0 is Absent;
            &&& absent && target is None ==> next.phase == PartCopyPhase::SavingGuard && next.failure is None
            &&& absent && target is Some ==> next.phase == PartCopyPhase::Done && next.failure == Some(NfsStatus::Io)
            &&& !absent && target is Some && target->0 == Some(copy.journal.precondition->0->etag) ==> next.phase == PartCopyPhase::SavingGuard
                && next.failure is None
            &&& !absent && (target is None || target->0 != Some(copy.journal.precondition->0->etag)) ==> next.phase == PartCopyPhase::Done
                && next.failure == Some(NfsStatus::Io)
            &&& next.journal == copy.journal
        }),
{
}

/// Only the very object that the rename was planned with is copied. An upload
/// that was begun is listed from the start; otherwise one is begun.
pub proof fn only_the_planned_source_is_copied(copy: PartCopyModel, head: content::HeadModel)
    requires
        copy.phase == PartCopyPhase::CheckingSource,
        copy.failure is None,
    ensures
        ({
            let next = copy.source_seen(head);
            let planned = head.etag == Some(copy.object.source_etag) && head.size == Some(copy.object.size as i64);
            &&& !planned ==> next.phase == PartCopyPhase::Done && next.failure == Some(NfsStatus::Io)
            &&& planned && copy.journal.upload_id is None ==> next == (PartCopyModel { phase: PartCopyPhase::Creating, ..copy })
            &&& next.phase == PartCopyPhase::Listing ==> planned && copy.journal.upload_id is Some && next.found.len() == 0
                && next.marker is None && next.seen.len() == 0
            &&& planned && copy.journal.upload_id is Some ==> (next.phase == PartCopyPhase::Listing <==> forall|i: int|
                0 <= i < copy.journal.parts.len() ==> 1 <= (#[trigger] copy.journal.parts[i]).0 <= copy.parts.total_parts)
            &&& next.phase == PartCopyPhase::Done <==> next.failure is Some
            &&& next.journal == copy.journal
        }),
{
}

/// A listing of stored parts either ends, with what was found in the journal,
/// or goes on behind a continuation that was not followed before, or ends the
/// copy. One that ends or goes on holds no part that is not the copy's own.
pub proof fn stored_parts_are_taken_up_whole(copy: PartCopyModel, page: PartsPage)
    requires
        copy.phase == PartCopyPhase::Listing,
        copy.failure is None,
    ensures
        ({
            let next = copy.listed(page);
            &&& next.phase == PartCopyPhase::SavingParts ==> !page.truncated && next.journal.parts == next.found && next.failure is None
                && next.journal.upload_id == copy.journal.upload_id && next.journal.completing == copy.journal.completing
            &&& next.phase == PartCopyPhase::Listing ==> page.truncated && page.next_marker is Some && (page.next_marker->0)@.len() > 0
                && next.marker == Some((page.next_marker->0)@) && !copy.seen.contains((page.next_marker->0)@) && next.seen.contains(
                (page.next_marker->0)@,
            ) && next.journal == copy.journal && next.failure is None
            &&& next.phase == PartCopyPhase::Done ==> next.failure == Some(NfsStatus::Io) && next.journal == copy.journal
            &&& next.phase == PartCopyPhase::SavingParts || next.phase == PartCopyPhase::Listing || next.phase == PartCopyPhase::Done
            &&& next.phase != PartCopyPhase::Done ==> forall|i: int|
                0 <= i < page.parts@.len() ==> {
                    let part = #[trigger] page.parts@[i];
                    &&& part.number is Some
                    &&& part.etag is Some
                    &&& part.size is Some
                    &&& 1 <= part.number->0 <= copy.parts.total_parts
                }
            &&& page.parts@.len() == 0 && !page.truncated ==> next.phase == PartCopyPhase::SavingParts && next.found == copy.found
        }),
{
    if page.truncated && page.next_marker is Some {
        let marker = (page.next_marker->0)@;
        assert(copy.seen.push(marker).last() == marker);
        assert(copy.seen.push(marker).contains(marker)) by {
            assert(copy.seen.push(marker)[copy.seen.len() as int] == marker);
        }
    }
    if all_are_parts(page.parts@, copy.parts, copy.object.size) {
        assert forall|i: int| 0 <= i < page.parts@.len() implies {
            let part = #[trigger] page.parts@[i];
            &&& part.number is Some
            &&& part.etag is Some
            &&& part.size is Some
            &&& 1 <= part.number->0 <= copy.parts.total_parts
        } by {
            assert(is_part_of(page.parts@[i], copy.parts, copy.object.size));
        }
    }
}

/// A page of the copy's own parts that ends the listing ends it; one that goes
/// on behind a new continuation is followed.
pub proof fn a_page_of_its_own_parts_is_followed(copy: PartCopyModel, page: PartsPage)
    requires
        copy.phase == PartCopyPhase::Listing,
        copy.failure is None,
        copy.parts.fits(copy.object.size),
        forall|i: int|
            0 <= i < page.parts@.len() ==> {
                let part = #[trigger] page.parts@[i];
                &&& part.number is Some
                &&& part.etag is Some
                &&& part.size is Some
                &&& 1 <= part.number->0 <= copy.parts.total_parts
                &&& part.size->0 == copy.parts.length_of(part.number->0 as int, copy.object.size as int)
            },
    ensures
        !page.truncated ==> copy.listed(page).phase == PartCopyPhase::SavingParts,
        page.truncated && page.next_marker is Some && (page.next_marker->0)@.len() > 0 && !copy.seen.contains((page.next_marker->0)@)
            ==> copy.listed(page).phase == PartCopyPhase::Listing,
{
    assert forall|i: int| 0 <= i < page.parts@.len() implies is_part_of(#[trigger] page.parts@[i], copy.parts, copy.object.size) by {
        copied_parts_cover_the_object(copy.parts, copy.object.size, page.parts@[i].number->0 as int);
    }
}

/// An upload that the store has forgotten is begun anew: nothing of it is
/// kept but what the copy may replace.
pub proof fn a_forgotten_copy_begins_anew(copy: PartCopyModel)
    ensures
        copy.forgotten().journal.upload_id is None,
        copy.forgotten().journal.parts.len() == 0,
        !copy.forgotten().journal.completing,
        copy.forgotten().journal.precondition == copy.journal.precondition,
        copy.forgotten().phase == PartCopyPhase::SavingParts,
        copy.forgotten().failure == copy.failure,
        copy.forgotten().saved().phase == PartCopyPhase::Creating,
{
}

/// An upload is gone on with exactly where the store names it.
pub proof fn a_copy_goes_on_with_a_named_upload(copy: PartCopyModel, upload_id: Option<Seq<char>>)
    requires
        copy.phase == PartCopyPhase::Creating,
        copy.failure is None,
    ensures
        upload_id is Some ==> copy.created(upload_id).phase == PartCopyPhase::SavingUpload && copy.created(upload_id).journal.upload_id
            == upload_id && copy.created(upload_id).failure is None && copy.created(upload_id).journal.parts == copy.journal.parts,
        upload_id is None ==> copy.created(upload_id).phase == PartCopyPhase::Done && copy.created(upload_id).failure == Some(
            NfsStatus::Io,
        ),
{
}

/// A part that was copied stands in the journal with its tag; the copy goes on
/// with the others. Of the parts that fail the first one counts, and the copy
/// is not completed then.
pub proof fn copied_and_failed_parts_are_noted(copy: PartCopyModel, number: i32, etag: Seq<char>, status: NfsStatus)
    requires
        copy.phase == PartCopyPhase::Copying,
        journal::in_number_order(copy.journal.parts),
    ensures
        copy.part_copied(number, etag).journal.parts.contains((number, etag)),
        copy.part_copied(number, etag).phase == PartCopyPhase::Copying,
        copy.part_copied(number, etag).failure == copy.failure,
        copy.part_copied(number, etag).journal.upload_id == copy.journal.upload_id,
        copy.failure is None ==> copy.part_failed(status).failure == Some(status),
        copy.failure is Some ==> copy.part_failed(status).failure == copy.failure,
        copy.part_failed(status).phase == PartCopyPhase::Copying,
        copy.part_failed(status).journal == copy.journal,
        copy.failure is None ==> copy.parts_done().phase == PartCopyPhase::SavingIntent && copy.parts_done().journal.completing
            && copy.parts_done().journal.parts == copy.journal.parts && copy.parts_done().failure is None,
        copy.failure is Some ==> copy.parts_done().phase == PartCopyPhase::Done && copy.parts_done().failure == copy.failure
            && copy.parts_done().journal == copy.journal,
{
    journal::one_more_part(copy.journal.parts, number, etag);
}

/// A saved journal leads the copy on; a completion is asked for exactly where
/// no part is missing.
pub proof fn a_saved_journal_leads_a_copy_on(copy: PartCopyModel)
    requires
        copy.failure is None,
    ensures
        copy.saved().journal == copy.journal,
        copy.phase == PartCopyPhase::SavingGuard ==> copy.saved().phase == PartCopyPhase::CheckingSource && copy.saved().failure is None,
        copy.phase == PartCopyPhase::SavingParts && copy.journal.upload_id is Some ==> copy.saved().phase == PartCopyPhase::Copying,
        copy.phase == PartCopyPhase::SavingParts && copy.journal.upload_id is None ==> copy.saved().phase == PartCopyPhase::Creating,
        copy.phase == PartCopyPhase::SavingUpload ==> copy.saved().phase == PartCopyPhase::Copying && copy.saved().failure is None,
        copy.phase == PartCopyPhase::SavingIntent && copy.journal.parts.len() != copy.parts.total_parts ==> copy.saved().phase
            == PartCopyPhase::Done && copy.saved().failure == Some(NfsStatus::Io),
        copy.phase == PartCopyPhase::SavingIntent && copy.journal.parts.len() == copy.parts.total_parts && (forall|i: int|
            0 <= i < copy.journal.parts.len() ==> 1 <= (#[trigger] copy.journal.parts[i]).0 <= copy.parts.total_parts) ==> copy.saved().phase
            == PartCopyPhase::Completing && copy.saved().failure is None,
{
}

/// A refusal that was saved ends the copy with the reason it was refused for.
pub proof fn a_saved_refusal_ends_the_copy(copy: PartCopyModel)
    requires
        copy.phase == PartCopyPhase::SavingRefusal,
    ensures
        copy.saved().phase == PartCopyPhase::Done,
        copy.saved().failure == copy.failure,
        copy.saved().journal == copy.journal,
{
}

/// A completed copy has the tag that the store gave it. A completion that was
/// refused without effect may be asked for again; one that may have had an
/// effect stays recorded. Either way the failure is reported.
pub proof fn a_completion_ends_as_it_was_answered(copy: PartCopyModel, etag: Option<Seq<char>>, status: NfsStatus, uncertain: bool)
    requires
        copy.phase == PartCopyPhase::Completing,
        copy.failure is None,
    ensures
        etag is Some ==> copy.completed(etag).phase == PartCopyPhase::Done && copy.completed(etag).etag == etag && copy.completed(etag).failure
            is None,
        etag is None ==> copy.completed(etag).phase == PartCopyPhase::Done && copy.completed(etag).failure == Some(NfsStatus::Io),
        copy.completed(etag).journal == copy.journal,
        copy.refused(status, uncertain).failure == Some(status),
        uncertain ==> copy.refused(status, uncertain).phase == PartCopyPhase::Done && copy.refused(status, uncertain).journal == copy.journal,
        !uncertain ==> copy.refused(status, uncertain).phase == PartCopyPhase::SavingRefusal && !copy.refused(
            status,
            uncertain,
        ).journal.completing,
        copy.refused(status, uncertain).journal.upload_id == copy.journal.upload_id,
        copy.refused(status, uncertain).journal.parts == copy.journal.parts,
        copy.refused(status, uncertain).etag == copy.etag,
{
}

/// A copy that ends early says why, and keeps its journal as it is on disk.
pub proof fn a_copy_that_ends_keeps_its_journal(copy: PartCopyModel, status: NfsStatus)
    ensures
        copy.stopped(status).phase == PartCopyPhase::Done,
        copy.stopped(status).failure == Some(status),
        copy.stopped(status).journal == copy.journal,
        copy.stopped(status).etag == copy.etag,
        copy.stopped(status).object == copy.object,
{
}

/// A journal that was read is what the copy goes on from.
pub proof fn a_copy_goes_on_from_its_journal(copy: PartCopyModel, found: journal::JournalModel)
    ensures
        copy.loaded(found).journal == found,
        copy.loaded(found).phase == PartCopyPhase::Planning,
        copy.loaded(found).failure == copy.failure,
        copy.loaded(found).object == copy.object,
        copy.loaded(found).server_parts == copy.server_parts,
{
}

/// All parts but the last are as long as was planned.
pub proof fn every_part_but_the_last_is_full(parts: CopyParts, size: u64, number: int)
    requires
        parts.fits(size),
        1 <= number < parts.total_parts,
    ensures
        parts.length_of(number, size as int) == parts.part_size,
{
    let part_size = parts.part_size as int;
    let total = parts.total_parts as int;
    assert((number - 1) * part_size + part_size == number * part_size) by (nonlinear_arith);
    assert(number * part_size <= (total - 1) * part_size) by (nonlinear_arith)
        requires
            number <= total - 1,
            part_size > 0,
    ;
}

/// A request that failed ends the copy with that failure, and leaves the
/// journal as it was.
pub proof fn a_failed_request_ends_the_copy(status: NfsStatus, number: i32)
    ensures
        forall|copy: &mut PartCopy| #[trigger]
            call_ensures(PartCopy::on_condition, (copy, Err(status)), ()) ==> final(copy)@.phase == PartCopyPhase::Done && final(copy)@.failure
                == Some(status) && final(copy)@.journal == (*copy)@.journal,
        forall|copy: &mut PartCopy| #[trigger]
            call_ensures(PartCopy::on_journal, (copy, Err(status)), ()) ==> final(copy)@.phase == PartCopyPhase::Done && final(copy)@.failure
                == Some(status) && final(copy)@.journal == (*copy)@.journal,
        forall|copy: &mut PartCopy| #[trigger]
            call_ensures(PartCopy::on_plan, (copy, None), ()) ==> final(copy)@.phase == PartCopyPhase::Done && final(copy)@.failure == Some(
                NfsStatus::FBig,
            ) && final(copy)@.journal == (*copy)@.journal,
        forall|copy: &mut PartCopy| #[trigger]
            call_ensures(PartCopy::on_target, (copy, Err(status)), ()) ==> final(copy)@.phase == PartCopyPhase::Done && final(copy)@.failure
                == Some(status) && final(copy)@.journal == (*copy)@.journal,
        forall|copy: &mut PartCopy| #[trigger]
            call_ensures(PartCopy::on_source, (copy, Err(status)), ()) ==> final(copy)@.phase == PartCopyPhase::Done && final(copy)@.failure
                == Some(status) && final(copy)@.journal == (*copy)@.journal,
        forall|copy: &mut PartCopy| #[trigger]
            call_ensures(PartCopy::on_parts_failed, (copy, status), ()) ==> final(copy)@.phase == PartCopyPhase::Done && final(copy)@.failure
                == Some(status) && final(copy)@.journal == (*copy)@.journal,
        forall|copy: &mut PartCopy| #[trigger]
            call_ensures(PartCopy::on_created, (copy, Err(status)), ()) ==> final(copy)@.phase == PartCopyPhase::Done && final(copy)@.failure
                == Some(status) && final(copy)@.journal == (*copy)@.journal,
        forall|copy: &mut PartCopy| #[trigger]
            call_ensures(PartCopy::on_saved, (copy, false), ()) ==> final(copy)@.phase == PartCopyPhase::Done && final(copy)@.failure == Some(
                NfsStatus::Io,
            ) && final(copy)@.journal == (*copy)@.journal,
        forall|copy: &mut PartCopy| #[trigger]
            call_ensures(PartCopy::on_part, (copy, number, Err(status)), ()) ==> final(copy)@.failure is Some && final(copy)@.journal
                == (*copy)@.journal && final(copy)@.phase == (*copy)@.phase && ((*copy)@.failure is None ==> final(copy)@.failure == Some(
                status,
            )),
{
}

/// A completion whose outcome is open keeps its journal; one that was refused
/// without effect is taken back; one that succeeded leaves its tag.
pub proof fn a_completion_is_noted_as_it_was_answered(status: NfsStatus, etag: String)
    ensures
        forall|copy: &mut PartCopy| #[trigger]
            call_ensures(PartCopy::on_completed, (copy, Ok(Some(etag))), ()) ==> final(copy)@.phase == PartCopyPhase::Done && final(copy)@.etag
                == Some(etag@) && final(copy)@.failure == (*copy)@.failure,
        forall|copy: &mut PartCopy| #[trigger]
            call_ensures(PartCopy::on_completed, (copy, Ok(None)), ()) ==> final(copy)@.phase == PartCopyPhase::Done && final(copy)@.failure
                == Some(NfsStatus::Io),
        forall|copy: &mut PartCopy| #[trigger]
            call_ensures(PartCopy::on_completed, (copy, Err((status, true))), ()) ==> final(copy)@.phase == PartCopyPhase::Done && final(
                copy)@.failure == Some(status) && final(copy)@.journal == (*copy)@.journal,
        forall|copy: &mut PartCopy| #[trigger]
            call_ensures(PartCopy::on_completed, (copy, Err((status, false))), ()) ==> final(copy)@.phase == PartCopyPhase::SavingRefusal
                && final(copy)@.failure == Some(status) && !final(copy)@.journal.completing && final(copy)@.journal.parts
                == (*copy)@.journal.parts,
{
}

/// A copy begins by asking for the condition of its completion, and only in a
/// mount that has a store.
pub proof fn a_copy_begins_with_its_condition(object: RenameObject, configured: bool, copy: PartCopy)
    requires
        call_ensures(PartCopy::begin, (object, configured), copy),
    ensures
        configured ==> copy@.phase == PartCopyPhase::AskingCompletion && copy@.failure is None,
        !configured ==> copy@.phase == PartCopyPhase::Done && copy@.failure == Some(NfsStatus::NotSupp),
        copy@.object == object@,
        copy@.etag is None,
        copy@.journal.upload_id is None,
        copy@.journal.parts.len() == 0,
        !copy@.journal.completing,
{
}

/// A part is copied exactly where it is missing and nothing has failed, from
/// its own bytes; a source without a version only under its tag.
pub proof fn only_a_missing_part_is_copied(copy: PartCopy, number: i32, request: Option<PartRequest>)
    requires
        call_ensures(PartCopy::part_to_copy, (&copy, number), request),
    ensures
        request is Some <==> copy@.failure is None && !journal::has_part(copy@.journal.parts, number),
        request is Some ==> request->0.number == number && request->0.start == (number - 1) * copy@.parts.part_size,
        request is Some ==> (request->0.relayed <==> !copy@.server_parts),
        request is Some && copy@.object.source_version is None ==> request->0.if_match is Some && (request->0.if_match->0)@
            == copy@.object.source_etag,
        request is Some && copy@.object.source_version is Some ==> request->0.if_match is None,
{
}

/// A copy is answered with the tag it has, or with what failed.
pub proof fn a_copy_is_answered_as_it_went(copy: PartCopy, outcome: Result<String, NfsStatus>)
    requires
        call_ensures(PartCopy::outcome, (&copy,), outcome),
    ensures
        outcome is Ok <==> copy@.failure is None,
        outcome is Ok ==> copy@.etag == Some((outcome->Ok_0)@),
        outcome is Err ==> copy@.failure == Some(outcome->Err_0),
{
}

/// An empty tag names no part.
pub proof fn an_empty_tag_names_no_part(etag: Option<String>, named: Option<String>)
    requires
        call_ensures(part_etag, (etag,), named),
    ensures
        named is Some <==> etag is Some && (etag->0)@.len() > 0,
        named is Some ==> (named->0)@ == (etag->0)@,
{
}

/// A stored part is taken up with the tag it was listed with.
pub proof fn a_stored_part_is_taken_up_with_its_tag(found: Seq<(i32, Seq<char>)>, page: Seq<publish::ListedPart>, part: publish::ListedPart)
    requires
        part.number is Some,
        part.etag is Some,
        journal::in_number_order(with_page(found, page)),
    ensures
        with_page(found, Seq::empty()) == found,
        with_page(found, page.push(part)).contains((part.number->0, (part.etag->0)@)),
        journal::in_number_order(with_page(found, page.push(part))),
        forall|other: (i32, Seq<char>)|
            other.0 != part.number->0 ==> (#[trigger] with_page(found, page.push(part)).contains(other) <==> with_page(found, page).contains(other)),
{
    assert(page.push(part).drop_last() =~= page);
    journal::one_more_part(with_page(found, page), part.number->0, (part.etag->0)@);
    assert forall|other: (i32, Seq<char>)| other.0 != part.number->0 implies (#[trigger] with_page(found, page.push(part)).contains(other)
        <==> with_page(found, page).contains(other)) by {
        journal::one_more_part_leaves_the_other_tags(with_page(found, page), part.number->0, (part.etag->0)@, other);
    }
}

/// A part is copied from the object's own key, in the version that the rename
/// was planned with.
pub proof fn a_part_is_copied_from_the_planned_version(object: RenameObject, bucket: &str, source: String)
    requires
        call_ensures(copy_source, (&object, bucket), source),
    ensures
        object.source_version is None ==> source@ == bucket@ + keys::encoded_path(object.from@),
        object.source_version is Some ==> source@ == bucket@ + keys::encoded_path(object.from@) + "?versionId="@ + keys::encoded_segment(
            (object.source_version->0)@,
        ),
{
}

} // verus!
