//! Renames inside a bucket.
//!
//! An object store has no rename. A rename copies every object to its new key
//! and deletes the old ones, and a journal says how far each object has come,
//! so that an interrupted rename goes on where it stopped: what was copied and
//! verified is not copied again, and nothing is deleted before its copy was
//! seen in place.

use vstd::prelude::*;
use crate::content;
use crate::content::ObjectHead;
use crate::inode_table::EntryKind;
use crate::journal::{copy_text, Condition};
use crate::status::NfsStatus;
use crate::text;
use crate::text::{same_optional, same_text};

verus! {

/// Objects a directory rename may move. A rename has to finish inside the
/// client's retransmission window.
pub const MAX_RENAME_KEYS: usize = 1000;

/// Server-side copies issued at once while renaming a directory.
pub const RENAME_COPY_CONCURRENCY: usize = 8;

/// The largest object that a single request can copy.
pub const MAX_SINGLE_COPY: u64 = 5 * 1024 * 1024 * 1024;

/// What `create` should do about a name that may already be taken.
#[derive(Clone, Copy, Debug, PartialEq, Eq, Structural)]
pub enum CreateAction {
    /// Nothing there: write the zero-byte object.
    Create,
    /// Something is there and the caller did not ask to replace it. CREATE is
    /// also how a client opens a file it expects to already exist, so writing
    /// an empty object here would blank content nobody asked to lose.
    OpenExisting,
    /// Something is there and the caller asked for size 0: a real truncate.
    Truncate,
}

/// What `create` does about a name that may already be taken.
pub fn create_action(exists: bool, truncate_requested: bool) -> (action: CreateAction)
    ensures
        !exists ==> action == CreateAction::Create,
        exists && !truncate_requested ==> action == CreateAction::OpenExisting,
        exists && truncate_requested ==> action == CreateAction::Truncate,
{
    match (exists, truncate_requested) {
        (false, _) => CreateAction::Create,
        (true, false) => CreateAction::OpenExisting,
        (true, true) => CreateAction::Truncate,
    }
}

/// Whether a rename may go ahead over whatever is already at the destination.
#[derive(Clone, Copy, Debug, PartialEq, Eq, Structural)]
pub enum RenameTarget {
    /// Free, or occupied by something this rename is allowed to replace.
    Replace,
    /// A file cannot replace a directory or the other way round. Object
    /// storage would happily hold both `b` and `b/`, but a listing renders the
    /// directory and hides the file, so the moved data would vanish.
    KindMismatch,
    /// A directory can only replace an empty one; anything else would silently
    /// merge two trees.
    NotEmpty,
}

/// Whether a rename may go ahead over whatever is already at the destination.
pub open spec fn target_of(source_is_dir: bool, destination: Option<EntryKind>, destination_dir_is_empty: bool) -> RenameTarget {
    match destination {
        None => RenameTarget::Replace,
        Some(kind) => if (kind == EntryKind::Dir) != source_is_dir {
            RenameTarget::KindMismatch
        } else if kind == EntryKind::Dir && !destination_dir_is_empty {
            RenameTarget::NotEmpty
        } else {
            RenameTarget::Replace
        },
    }
}

/// Whether a rename may go ahead over whatever is already at the destination.
pub fn classify_rename_target(source_is_dir: bool, destination: Option<EntryKind>, destination_dir_is_empty: bool) -> (target: RenameTarget)
    ensures
        target == target_of(source_is_dir, destination, destination_dir_is_empty),
{
    match destination {
        None => RenameTarget::Replace,
        Some(kind) => {
            let destination_is_dir = kind == EntryKind::Dir;
            if destination_is_dir != source_is_dir {
                RenameTarget::KindMismatch
            } else if destination_is_dir && !destination_dir_is_empty {
                RenameTarget::NotEmpty
            } else {
                RenameTarget::Replace
            }
        },
    }
}

/// The status that a refused rename is answered with.
pub open spec fn refusal_of(target: RenameTarget) -> Option<NfsStatus> {
    match target {
        RenameTarget::Replace => None,
        RenameTarget::KindMismatch => Some(NfsStatus::Exist),
        RenameTarget::NotEmpty => Some(NfsStatus::NotEmpty),
    }
}

/// The status that a refused rename is answered with.
pub fn rename_refusal(target: RenameTarget) -> (refusal: Option<NfsStatus>)
    ensures
        refusal == refusal_of(target),
{
    match target {
        RenameTarget::Replace => None,
        RenameTarget::KindMismatch => Some(NfsStatus::Exist),
        RenameTarget::NotEmpty => Some(NfsStatus::NotEmpty),
    }
}

/// How far one object of a rename has come.
#[derive(Clone, Copy, Debug, PartialEq, Eq, Structural)]
pub enum RenamePhase {
    /// Its copy was not asked for.
    Pending,
    /// Its copy was asked for; what came of it is not known.
    Copying,
    /// Its copy is in place.
    Copied,
    /// Its deletion was asked for.
    Deleting,
    /// It is gone from its old key.
    Deleted,
    /// The journal names a phase that is none of these. Its copy is held
    /// against the destination before the source goes, as a copied object's
    /// is.
    Other,
}

impl RenamePhase {
    /// The name of the phase in the journal, where `other` is the name that
    /// the journal had for one that is none of these.
    pub open spec fn spelled(self, other: Seq<char>) -> Seq<char> {
        match self {
            RenamePhase::Pending => "pending"@,
            RenamePhase::Copying => "copying"@,
            RenamePhase::Copied => "copied"@,
            RenamePhase::Deleting => "deleting"@,
            RenamePhase::Deleted => "deleted"@,
            RenamePhase::Other => other,
        }
    }

    /// The phase that a name in a journal stands for.
    pub open spec fn of_name(name: Seq<char>) -> RenamePhase {
        if name == "pending"@ {
            RenamePhase::Pending
        } else if name == "copying"@ {
            RenamePhase::Copying
        } else if name == "copied"@ {
            RenamePhase::Copied
        } else if name == "deleting"@ {
            RenamePhase::Deleting
        } else if name == "deleted"@ {
            RenamePhase::Deleted
        } else {
            RenamePhase::Other
        }
    }

    /// The phase that a name in a journal stands for.
    pub fn named(name: &str) -> (phase: RenamePhase)
        ensures
            phase == RenamePhase::of_name(name@),
    {
        if same_text(name, "pending") {
            RenamePhase::Pending
        } else if same_text(name, "copying") {
            RenamePhase::Copying
        } else if same_text(name, "copied") {
            RenamePhase::Copied
        } else if same_text(name, "deleting") {
            RenamePhase::Deleting
        } else if same_text(name, "deleted") {
            RenamePhase::Deleted
        } else {
            RenamePhase::Other
        }
    }

    /// The object stands at its new key.
    pub open spec fn is_in_place(self) -> bool {
        self != RenamePhase::Pending && self != RenamePhase::Copying
    }
}

/// A phase reads back as it was written, and a name that stands for none is
/// written back as it was read.
pub proof fn a_phase_reads_back(phase: RenamePhase, name: Seq<char>)
    ensures
        phase != RenamePhase::Other ==> RenamePhase::of_name(phase.spelled(name)) == phase,
        RenamePhase::of_name(name).spelled(name) == name,
{
    reveal_strlit("pending");
    reveal_strlit("copying");
    reveal_strlit("copied");
    reveal_strlit("deleting");
    reveal_strlit("deleted");
    assert("copied"@.len() == 6);
    assert("deleting"@.len() == 8);
    assert("pending"@[0] == 'p');
    assert("copying"@[0] == 'c');
    assert("deleted"@[0] == 'd');
}

/// One object of a rename.
pub struct RenameObject {
    pub from: String,
    pub to: String,
    pub source_etag: String,
    pub size: u64,
    pub destination_etag: Option<String>,
    pub phase: RenamePhase,
    /// The name that the journal had for the phase, where it is none that is
    /// known here.
    pub other_phase: String,
    /// The object at the new key that the copy may replace.
    pub replaced_etag: Option<String>,
    pub source_version: Option<String>,
}

/// An object of a rename, its texts taken as characters.
pub ghost struct ObjectModel {
    pub from: Seq<char>,
    pub to: Seq<char>,
    pub source_etag: Seq<char>,
    pub size: u64,
    pub destination_etag: Option<Seq<char>>,
    pub phase: RenamePhase,
    pub other_phase: Seq<char>,
    pub replaced_etag: Option<Seq<char>>,
    pub source_version: Option<Seq<char>>,
}

impl View for RenameObject {
    type V = ObjectModel;

    open spec fn view(&self) -> ObjectModel {
        ObjectModel {
            from: self.from@,
            to: self.to@,
            source_etag: self.source_etag@,
            size: self.size,
            destination_etag: text::optional(self.destination_etag),
            phase: self.phase,
            other_phase: self.other_phase@,
            replaced_etag: text::optional(self.replaced_etag),
            source_version: text::optional(self.source_version),
        }
    }
}

impl Clone for RenameObject {
    fn clone(&self) -> (copy: Self)
        ensures
            copy@ == self@,
    {
        RenameObject {
            from: self.from.clone(),
            to: self.to.clone(),
            source_etag: self.source_etag.clone(),
            size: self.size,
            destination_etag: copy_text(&self.destination_etag),
            phase: self.phase,
            other_phase: self.other_phase.clone(),
            replaced_etag: copy_text(&self.replaced_etag),
            source_version: copy_text(&self.source_version),
        }
    }
}

impl RenameObject {
    /// The name of the object's phase in the journal.
    pub fn phase_name(&self) -> (name: String)
        ensures
            name@ == self.phase.spelled(self.other_phase@),
    {
        match self.phase {
            RenamePhase::Pending => "pending".to_owned(),
            RenamePhase::Copying => "copying".to_owned(),
            RenamePhase::Copied => "copied".to_owned(),
            RenamePhase::Deleting => "deleting".to_owned(),
            RenamePhase::Deleted => "deleted".to_owned(),
            RenamePhase::Other => self.other_phase.clone(),
        }
    }
}

/// A version under which a deletion removes only what was copied.
pub open spec fn deletable_version(version: Option<Seq<char>>) -> Option<Seq<char>> {
    match version {
        Some(id) => if id == "null"@ || id.len() == 0 {
            None
        } else {
            Some(id)
        },
        None => None,
    }
}

/// An object can be renamed: it has a tag and a size, and so does what it
/// replaces have a tag.
pub open spec fn is_movable(source: content::HeadModel, destination: Option<content::HeadModel>) -> bool {
    &&& source.etag is Some
    &&& source.size is Some
    &&& source.size->0 >= 0
    &&& destination is Some ==> destination->0.etag is Some
}

/// The plan for one object, by what stands at its old and its new key.
pub fn plan_object(from: String, to: String, source: Option<ObjectHead>, destination: Option<ObjectHead>) -> (object: Result<RenameObject, NfsStatus>)
    ensures
        match source {
            None => object is Err && object->Err_0 == NfsStatus::NoEnt,
            Some(head) => if is_movable(head@, content::head_view(destination)) {
                object is Ok && object->Ok_0@ == (ObjectModel {
                    from: from@,
                    to: to@,
                    source_etag: head@.etag->0,
                    size: head.size->0 as u64,
                    destination_etag: None,
                    phase: RenamePhase::Pending,
                    other_phase: Seq::empty(),
                    replaced_etag: match destination {
                        Some(there) => there@.etag,
                        None => None,
                    },
                    source_version: deletable_version(head@.version_id),
                })
            } else {
                object is Err && object->Err_0 == NfsStatus::Io
            },
        },
{
    match source {
        None => Err(NfsStatus::NoEnt),
        Some(head) => {
            let replaced_etag: Option<String> = match destination {
                Some(there) => match there.etag {
                    Some(etag) => Some(etag),
                    None => {
                        return Err(NfsStatus::Io);
                    },
                },
                None => None,
            };
            let source_version: Option<String> = match &head.version_id {
                Some(id) => {
                    if same_text(id.as_str(), "null") || id.as_str().unicode_len() == 0 {
                        None
                    } else {
                        Some(id.clone())
                    }
                },
                None => None,
            };
            match (head.etag, head.size) {
                (Some(source_etag), Some(size)) => {
                    if size < 0 {
                        return Err(NfsStatus::Io);
                    }
                    let other_phase = String::new();
                    assert(other_phase@ =~= Seq::empty());
                    Ok(
                        RenameObject {
                            from,
                            to,
                            source_etag,
                            size: size as u64,
                            destination_etag: None,
                            phase: RenamePhase::Pending,
                            other_phase,
                            replaced_etag,
                            source_version,
                        },
                    )
                },
                _ => Err(NfsStatus::Io),
            }
        },
    }
}

/// What the store has to honour so that one object can be moved without
/// losing anything: that only the copied source is deleted, that only the
/// object seen at the new key is replaced, and that only the source seen is
/// copied.
pub open spec fn object_conditions(object: ObjectModel, is_r2: bool) -> Seq<Condition> {
    let deletion = if object.source_version is None {
        seq![Condition::DeleteMatch]
    } else {
        Seq::empty()
    };
    let multipart = object.size > MAX_SINGLE_COPY;
    let copy = if multipart {
        if object.replaced_etag is Some {
            seq![Condition::CompleteMatch]
        } else {
            seq![Condition::CompleteCreate]
        }
    } else if is_r2 {
        Seq::empty()
    } else if object.replaced_etag is Some {
        seq![Condition::CopyMatch, Condition::CopySource]
    } else {
        seq![Condition::CopyCreate, Condition::CopySource]
    };
    deletion + copy
}

/// What the store has to honour for a whole rename, object after object.
pub open spec fn rename_conditions(objects: Seq<ObjectModel>, is_r2: bool) -> Seq<Condition>
    decreases objects.len(),
{
    if objects.len() == 0 {
        Seq::empty()
    } else {
        rename_conditions(objects.drop_last(), is_r2) + object_conditions(objects.last(), is_r2)
    }
}

/// The objects of a rename, their texts taken as characters.
pub open spec fn objects_view(objects: Seq<RenameObject>) -> Seq<ObjectModel> {
    objects.map_values(|object: RenameObject| object@)
}

/// The conditions that a rename needs, in the order in which the store is
/// asked for them. The first that is not honoured refuses the rename before
/// any copy is made.
pub fn preflight_rename(objects: &Vec<RenameObject>, is_r2: bool) -> (conditions: Vec<Condition>)
    ensures
        conditions@ == rename_conditions(objects_view(objects@), is_r2),
{
    let mut conditions: Vec<Condition> = Vec::new();
    let mut i: usize = 0;
    let ghost all = objects_view(objects@);
    assert(all.take(0) =~= Seq::empty());
    while i < objects.len()
        invariant
            i <= objects.len(),
            all == objects_view(objects@),
            conditions@ == rename_conditions(all.take(i as int), is_r2),
        decreases objects.len() - i,
    {
        let ghost before = conditions@;
        let object = &objects[i];
        if object.source_version.is_none() {
            conditions.push(Condition::DeleteMatch);
        }
        let multipart = object.size > MAX_SINGLE_COPY;
        let replaces = object.replaced_etag.is_some();
        if multipart {
            conditions.push(if replaces { Condition::CompleteMatch } else { Condition::CompleteCreate });
        } else if !is_r2 {
            conditions.push(if replaces { Condition::CopyMatch } else { Condition::CopyCreate });
            conditions.push(Condition::CopySource);
        }
        proof {
            assert(all[i as int] == object@);
            assert(all.take(i + 1).drop_last() =~= all.take(i as int));
            assert(conditions@ =~= before + object_conditions(object@, is_r2));
        }
        i = i + 1;
    }
    assert(all.take(i as int) =~= all);
    conditions
}

/// What a rename keeps on disk.
pub struct RenameJournal {
    pub from: String,
    pub to: String,
    /// What marks the copies of this very rename.
    pub token: String,
    pub objects: Vec<RenameObject>,
}

/// A rename's journal, its texts taken as characters.
#[verifier::ext_equal]
pub ghost struct RenameModel {
    pub from: Seq<char>,
    pub to: Seq<char>,
    pub token: Seq<char>,
    pub objects: Seq<ObjectModel>,
}

impl View for RenameJournal {
    type V = RenameModel;

    open spec fn view(&self) -> RenameModel {
        RenameModel { from: self.from@, to: self.to@, token: self.token@, objects: objects_view(self.objects@) }
    }
}

/// Whether a journal that was read is that of this rename: another one can
/// lie under the same name.
pub fn is_journal_of(journal: &RenameJournal, from: &str, to: &str) -> (own: bool)
    ensures
        own == (journal@.from == from@ && journal@.to == to@),
{
    same_text(journal.from.as_str(), from) && same_text(journal.to.as_str(), to)
}

/// What a rename waits for.
#[derive(Clone, Copy, Debug, PartialEq, Eq, Structural)]
pub enum RenameStep {
    /// A copy may have happened: its destination is to be looked at.
    Reconciling,
    /// A copy is there: its bytes are to be held against the source.
    Verifying,
    /// The journal is to be saved.
    SavingReconciled,
    /// The pending objects are to be copied.
    Copying,
    /// Before a source goes, its destination is to be looked at.
    Checking,
    /// The journal is to be saved before a source goes.
    SavingDeleting,
    /// The source is to be looked at.
    LookingAtSource,
    /// The store is to be asked whether it honours a conditional deletion.
    AskingDelete,
    /// The source is to be deleted, if it is still the one that was copied.
    DeletingSource,
    /// The journal is to be saved.
    SavingDeleted,
    /// Nothing is left to do.
    Done,
}

/// A rename under way.
pub struct Rename {
    pub journal: RenameJournal,
    pub step: RenameStep,
    /// The object that the step is about.
    pub index: usize,
    pub failure: Option<NfsStatus>,
}

/// A rename under way, its texts taken as characters.
#[verifier::ext_equal]
pub ghost struct RunModel {
    pub journal: RenameModel,
    pub step: RenameStep,
    pub index: int,
    pub failure: Option<NfsStatus>,
}

impl View for Rename {
    type V = RunModel;

    open spec fn view(&self) -> RunModel {
        RunModel { journal: self.journal@, step: self.step, index: self.index as int, failure: self.failure }
    }
}

/// The first object from `start` on that may have been copied unnoticed.
pub open spec fn next_copying(objects: Seq<ObjectModel>, start: int) -> int
    decreases objects.len() - start,
{
    if 0 <= start < objects.len() && objects[start].phase != RenamePhase::Copying {
        next_copying(objects, start + 1)
    } else {
        start
    }
}

/// The first object from `start` on that still stands at its old key.
pub open spec fn next_undeleted(objects: Seq<ObjectModel>, start: int) -> int
    decreases objects.len() - start,
{
    if 0 <= start < objects.len() && objects[start].phase == RenamePhase::Deleted {
        next_undeleted(objects, start + 1)
    } else {
        start
    }
}

impl RunModel {
    pub open spec fn objects(self) -> Seq<ObjectModel> {
        self.journal.objects
    }

    /// The object that the step is about.
    pub open spec fn current(self) -> ObjectModel {
        self.journal.objects[self.index]
    }

    /// The copies are done: what is left is to delete the sources.
    pub open spec fn is_deleting(self) -> bool {
        ||| self.step == RenameStep::Checking
        ||| self.step == RenameStep::SavingDeleting
        ||| self.step == RenameStep::LookingAtSource
        ||| self.step == RenameStep::AskingDelete
        ||| self.step == RenameStep::DeletingSource
        ||| self.step == RenameStep::SavingDeleted
    }

    /// What holds of every rename at every step.
    pub open spec fn valid(self) -> bool {
        &&& 0 <= self.index <= self.objects().len()
        &&& self.step == RenameStep::Reconciling || self.step == RenameStep::Verifying ==> self.index < self.objects().len()
            && self.current().phase == RenamePhase::Copying
        &&& self.step == RenameStep::Verifying ==> self.current().destination_etag is Some
        &&& self.step == RenameStep::Reconciling || self.step == RenameStep::Verifying || self.step == RenameStep::SavingReconciled ==> (forall|
            i: int,
        |
            0 <= i < self.index ==> (#[trigger] self.objects()[i]).phase != RenamePhase::Copying)
        &&& self.step == RenameStep::SavingReconciled ==> self.index == self.objects().len()
        &&& self.is_deleting() ==> self.index < self.objects().len() && (forall|i: int|
            0 <= i < self.objects().len() ==> (#[trigger] self.objects()[i]).phase.is_in_place()) && (forall|i: int|
            0 <= i < self.index ==> (#[trigger] self.objects()[i]).phase == RenamePhase::Deleted)
        &&& self.step == RenameStep::Checking ==> self.current().phase != RenamePhase::Deleted
        &&& self.step == RenameStep::SavingDeleting || self.step == RenameStep::LookingAtSource || self.step == RenameStep::AskingDelete || self.step
            == RenameStep::DeletingSource ==> self.current().phase == RenamePhase::Deleting
        &&& self.step == RenameStep::AskingDelete ==> self.current().source_version is None
        &&& self.step == RenameStep::SavingDeleted ==> self.current().phase == RenamePhase::Deleted
        &&& self.step == RenameStep::Done && self.failure is None ==> (forall|i: int|
            0 <= i < self.objects().len() ==> (#[trigger] self.objects()[i]).phase == RenamePhase::Deleted)
        &&& self.step != RenameStep::Done && self.step != RenameStep::Copying ==> self.failure is None
    }

    /// One object in another state.
    pub open spec fn with_object(self, index: int, object: ObjectModel) -> RunModel {
        RunModel { journal: RenameModel { objects: self.objects().update(index, object), ..self.journal }, ..self }
    }

    /// The rename stops here. What was copied stays: removing it could remove
    /// what somebody else has put there since.
    pub open spec fn stopped(self, status: NfsStatus) -> RunModel {
        RunModel { step: RenameStep::Done, failure: Some(status), ..self }
    }

    /// The next object whose copy may have happened, from `start` on.
    pub open spec fn reconciling_from(self, start: int) -> RunModel {
        let next = next_copying(self.objects(), start);
        RunModel {
            index: next,
            step: if next < self.objects().len() {
                RenameStep::Reconciling
            } else {
                RenameStep::SavingReconciled
            },
            ..self
        }
    }

    /// The next object whose source is to go, from `start` on.
    pub open spec fn deleting_from(self, start: int) -> RunModel {
        let next = next_undeleted(self.objects(), start);
        RunModel {
            index: next,
            step: if next < self.objects().len() {
                RenameStep::Checking
            } else {
                RenameStep::Done
            },
            ..self
        }
    }

    /// What stands at the new key is a copy that this rename made.
    pub open spec fn is_own_copy(self, head: content::HeadModel) -> bool {
        head.rename_token == Some(self.journal.token) && head.size == Some(self.current().size as i64)
    }

    /// The destination of a copy that may have happened was looked at.
    pub open spec fn reconciled(self, target: Option<content::HeadModel>) -> RunModel {
        let again = self.with_object(self.index, ObjectModel { phase: RenamePhase::Pending, ..self.current() }).reconciling_from(self.index + 1);
        match target {
            Some(head) => if self.is_own_copy(head) {
                if head.etag is Some {
                    RunModel {
                        step: RenameStep::Verifying,
                        ..self.with_object(self.index, ObjectModel { destination_etag: head.etag, ..self.current() })
                    }
                } else {
                    self.stopped(NfsStatus::Io)
                }
            } else if self.current().replaced_etag is Some && head.etag == self.current().replaced_etag {
                again
            } else {
                self.stopped(NfsStatus::Io)
            },
            None => again,
        }
    }

    /// The copy's bytes were held against the source.
    pub open spec fn content_compared(self, same: bool) -> RunModel {
        if same {
            self.with_object(self.index, ObjectModel { phase: RenamePhase::Copied, ..self.current() }).reconciling_from(self.index + 1)
        } else {
            self.stopped(NfsStatus::Io)
        }
    }

    /// A copy is about to be asked for.
    pub open spec fn copy_begun(self, index: int) -> RunModel {
        self.with_object(index, ObjectModel { phase: RenamePhase::Copying, ..self.objects()[index] })
    }

    /// A copy came back with its tag.
    pub open spec fn copy_made(self, index: int, etag: Seq<char>) -> RunModel {
        self.with_object(
            index,
            ObjectModel { phase: RenamePhase::Copied, destination_etag: Some(etag), ..self.objects()[index] },
        )
    }

    /// A copy failed. The first such failure counts.
    pub open spec fn copy_failed(self, status: NfsStatus) -> RunModel {
        RunModel {
            failure: if self.failure is Some {
                self.failure
            } else {
                Some(status)
            },
            ..self
        }
    }

    /// No copy is under way any more.
    pub open spec fn copies_done(self) -> RunModel {
        match self.failure {
            Some(status) => self.stopped(status),
            None => self.deleting_from(0),
        }
    }

    /// The destination was looked at before its source goes.
    pub open spec fn checked(self, target: Option<content::HeadModel>) -> RunModel {
        match target {
            None => self.stopped(NfsStatus::NoEnt),
            Some(head) => if head.etag == self.current().destination_etag && head.rename_token == Some(self.journal.token) {
                RunModel {
                    step: RenameStep::SavingDeleting,
                    ..self.with_object(self.index, ObjectModel { phase: RenamePhase::Deleting, ..self.current() })
                }
            } else {
                self.stopped(NfsStatus::Io)
            },
        }
    }

    /// The source is gone.
    pub open spec fn source_gone(self) -> RunModel {
        RunModel {
            step: RenameStep::SavingDeleted,
            ..self.with_object(self.index, ObjectModel { phase: RenamePhase::Deleted, ..self.current() })
        }
    }

    /// The source was looked at. If its deletion took effect before an answer
    /// was lost, its absence is what was wanted.
    pub open spec fn source_seen(self, exists: bool) -> RunModel {
        if !exists {
            self.source_gone()
        } else if self.current().source_version is None {
            RunModel { step: RenameStep::AskingDelete, ..self }
        } else {
            RunModel { step: RenameStep::DeletingSource, ..self }
        }
    }

    /// The store was asked whether it honours a conditional deletion.
    pub open spec fn delete_answered(self, supported: bool) -> RunModel {
        if supported {
            RunModel { step: RenameStep::DeletingSource, ..self }
        } else {
            self.stopped(NfsStatus::NotSupp)
        }
    }

    /// The journal was saved.
    pub open spec fn saved(self) -> RunModel {
        match self.step {
            RenameStep::SavingReconciled => RunModel { step: RenameStep::Copying, ..self },
            RenameStep::SavingDeleting => RunModel { step: RenameStep::LookingAtSource, ..self },
            _ => self.deleting_from(self.index + 1),
        }
    }
}

impl RunModel {
    /// One step, whatever came back.
    pub open spec fn may_become(self, after: RunModel) -> bool {
        match self.step {
            RenameStep::Reconciling => {
                ||| exists|target: Option<content::HeadModel>| after == #[trigger] self.reconciled(target)
                ||| exists|status: NfsStatus| after == #[trigger] self.stopped(status)
            },
            RenameStep::Verifying => exists|same: bool| after == #[trigger] self.content_compared(same),
            RenameStep::Copying => {
                ||| exists|index: int|
                    0 <= index < self.objects().len() && self.objects()[index].phase == RenamePhase::Pending && after == #[trigger] self.copy_begun(
                        index,
                    )
                ||| exists|index: int, etag: Seq<char>|
                    0 <= index < self.objects().len() && self.objects()[index].phase == RenamePhase::Copying && after == #[trigger] self.copy_made(
                        index,
                        etag,
                    )
                ||| exists|status: NfsStatus| after == #[trigger] self.copy_failed(status)
                ||| self.copies_are_done() && after == self.copies_done()
            },
            RenameStep::Checking => {
                ||| exists|target: Option<content::HeadModel>| after == #[trigger] self.checked(target)
                ||| exists|status: NfsStatus| after == #[trigger] self.stopped(status)
            },
            RenameStep::LookingAtSource => {
                ||| exists|found: bool| after == #[trigger] self.source_seen(found)
                ||| exists|status: NfsStatus| after == #[trigger] self.stopped(status)
            },
            RenameStep::AskingDelete => {
                ||| exists|supported: bool| after == #[trigger] self.delete_answered(supported)
                ||| exists|status: NfsStatus| after == #[trigger] self.stopped(status)
            },
            RenameStep::DeletingSource => {
                ||| after == self.source_gone()
                ||| exists|status: NfsStatus| after == #[trigger] self.stopped(status)
            },
            RenameStep::Done => false,
            _ => {
                ||| after == self.saved()
                ||| after == self.stopped(NfsStatus::Io)
            },
        }
    }

    /// Every object was copied, or a copy failed.
    pub open spec fn copies_are_done(self) -> bool {
        self.failure is None ==> forall|i: int|
            0 <= i < self.objects().len() ==> (#[trigger] self.objects()[i]).phase.is_in_place()
    }
}

proof fn nothing_copying_is_passed_over(objects: Seq<ObjectModel>, start: int)
    requires
        0 <= start <= objects.len(),
    ensures
        start <= next_copying(objects, start) <= objects.len(),
        forall|i: int| start <= i < next_copying(objects, start) ==> (#[trigger] objects[i]).phase != RenamePhase::Copying,
        next_copying(objects, start) < objects.len() ==> objects[next_copying(objects, start)].phase == RenamePhase::Copying,
    decreases objects.len() - start,
{
    if start < objects.len() && objects[start].phase != RenamePhase::Copying {
        nothing_copying_is_passed_over(objects, start + 1);
    }
}

proof fn nothing_undeleted_is_passed_over(objects: Seq<ObjectModel>, start: int)
    requires
        0 <= start <= objects.len(),
    ensures
        start <= next_undeleted(objects, start) <= objects.len(),
        forall|i: int| start <= i < next_undeleted(objects, start) ==> (#[trigger] objects[i]).phase == RenamePhase::Deleted,
        next_undeleted(objects, start) < objects.len() ==> objects[next_undeleted(objects, start)].phase != RenamePhase::Deleted,
    decreases objects.len() - start,
{
    if start < objects.len() && objects[start].phase == RenamePhase::Deleted {
        nothing_undeleted_is_passed_over(objects, start + 1);
    }
}

impl Rename {
    fn stop(&mut self, status: NfsStatus)
        requires
            old(self)@.valid(),
        ensures
            final(self)@ == old(self)@.stopped(status),
            final(self)@.valid(),
    {
        self.step = RenameStep::Done;
        self.failure = Some(status);
    }

    fn reconcile_from(&mut self, start: usize)
        requires
            start <= old(self)@.objects().len(),
            old(self)@.failure is None,
            forall|i: int| 0 <= i < start ==> (#[trigger] old(self)@.objects()[i]).phase != RenamePhase::Copying,
        ensures
            final(self)@ == old(self)@.reconciling_from(start as int),
            final(self)@.valid(),
    {
        let ghost objects = self@.objects();
        let mut next: usize = start;
        while next < self.journal.objects.len() && self.journal.objects[next].phase != RenamePhase::Copying
            invariant
                objects == self@.objects(),
                start <= next <= objects.len(),
                objects.len() == self.journal.objects.len(),
                next_copying(objects, start as int) == next_copying(objects, next as int),
            decreases objects.len() - next,
        {
            assert(objects[next as int] == self.journal.objects@[next as int]@);
            next = next + 1;
        }
        proof {
            nothing_copying_is_passed_over(objects, start as int);
            if next < objects.len() {
                assert(objects[next as int] == self.journal.objects@[next as int]@);
            }
            assert(next_copying(objects, start as int) == next);
        }
        self.index = next;
        self.step = if next < self.journal.objects.len() { RenameStep::Reconciling } else { RenameStep::SavingReconciled };
    }

    fn delete_from(&mut self, start: usize)
        requires
            start <= old(self)@.objects().len(),
            old(self)@.failure is None,
            forall|i: int| 0 <= i < old(self)@.objects().len() ==> (#[trigger] old(self)@.objects()[i]).phase.is_in_place(),
            forall|i: int| 0 <= i < start ==> (#[trigger] old(self)@.objects()[i]).phase == RenamePhase::Deleted,
        ensures
            final(self)@ == old(self)@.deleting_from(start as int),
            final(self)@.valid(),
    {
        let ghost objects = self@.objects();
        let mut next: usize = start;
        while next < self.journal.objects.len() && self.journal.objects[next].phase == RenamePhase::Deleted
            invariant
                objects == self@.objects(),
                start <= next <= objects.len(),
                objects.len() == self.journal.objects.len(),
                next_undeleted(objects, start as int) == next_undeleted(objects, next as int),
            decreases objects.len() - next,
        {
            assert(objects[next as int] == self.journal.objects@[next as int]@);
            next = next + 1;
        }
        proof {
            nothing_undeleted_is_passed_over(objects, start as int);
            if next < objects.len() {
                assert(objects[next as int] == self.journal.objects@[next as int]@);
            }
            assert(next_undeleted(objects, start as int) == next);
        }
        self.index = next;
        self.step = if next < self.journal.objects.len() { RenameStep::Checking } else { RenameStep::Done };
    }

    fn set_phase(&mut self, index: usize, phase: RenamePhase)
        requires
            index < old(self)@.objects().len(),
        ensures
            final(self)@ == old(self)@.with_object(index as int, ObjectModel { phase, ..old(self)@.objects()[index as int] }),
    {
        let ghost before = self@;
        let mut object = self.journal.objects[index].clone();
        assert(before.objects()[index as int] == self.journal.objects@[index as int]@);
        object.phase = phase;
        let ghost model = object@;
        self.journal.objects.set(index, object);
        assert(self@.objects() =~= before.objects().update(index as int, model));
        assert(self@ =~= before.with_object(index as int, model));
    }

    fn set_destination(&mut self, index: usize, etag: String)
        requires
            index < old(self)@.objects().len(),
        ensures
            final(self)@ == old(self)@.with_object(
                index as int,
                ObjectModel { destination_etag: Some(etag@), ..old(self)@.objects()[index as int] },
            ),
    {
        let ghost before = self@;
        let mut object = self.journal.objects[index].clone();
        assert(before.objects()[index as int] == self.journal.objects@[index as int]@);
        object.destination_etag = Some(etag);
        let ghost model = object@;
        self.journal.objects.set(index, object);
        assert(self@.objects() =~= before.objects().update(index as int, model));
        assert(self@ =~= before.with_object(index as int, model));
    }

    /// Begins a rename, or goes on with one that was interrupted, from its
    /// journal. Copies that may have happened before their answer or the
    /// journal was lost come first.
    pub fn resume(journal: RenameJournal) -> (rename: Self)
        ensures
            rename@.valid(),
            rename@ == (RunModel { journal: journal@, step: RenameStep::Done, index: 0, failure: None }).reconciling_from(0),
    {
        let mut rename = Rename { journal, step: RenameStep::Done, index: 0, failure: None };
        rename.reconcile_from(0);
        rename
    }

    /// Takes what stands at the new key of an object whose copy may have
    /// happened.
    pub fn on_reconciled(&mut self, target: Result<Option<ObjectHead>, NfsStatus>)
        requires
            old(self)@.valid(),
            old(self)@.step == RenameStep::Reconciling,
        ensures
            final(self)@ == (match target {
                Ok(head) => old(self)@.reconciled(content::head_view(head)),
                Err(status) => old(self)@.stopped(status),
            }),
            final(self)@.valid(),
            old(self)@.may_become(final(self)@),
    {
        let index: usize = self.index;
        let ghost before = self@;
        assert(before.current() == self.journal.objects@[index as int]@);
        match target {
            Err(status) => {
                self.stop(status);
            },
            Ok(None) => {
                self.set_phase(index, RenamePhase::Pending);
                assert(index < self.journal.objects.len());
                self.reconcile_from(index + 1);
            },
            Ok(Some(head)) => {
                let marked = match &head.rename_token {
                    Some(token) => same_text(token.as_str(), self.journal.token.as_str()),
                    None => false,
                };
                let length: i64 = #[verifier::truncate]
                (self.journal.objects[index].size as i64);
                if marked && head.size == Some(length) {
                    match head.etag {
                        Some(etag) => {
                            self.set_destination(index, etag);
                            self.step = RenameStep::Verifying;
                        },
                        None => {
                            self.stop(NfsStatus::Io);
                        },
                    }
                } else if self.journal.objects[index].replaced_etag.is_some() && same_optional(
                    &head.etag,
                    &self.journal.objects[index].replaced_etag,
                ) {
                    self.set_phase(index, RenamePhase::Pending);
                    assert(index < self.journal.objects.len());
                    self.reconcile_from(index + 1);
                } else {
                    self.stop(NfsStatus::Io);
                }
            },
        }
    }

    /// Takes whether a copy holds the very bytes of its source.
    pub fn on_content(&mut self, same: bool)
        requires
            old(self)@.valid(),
            old(self)@.step == RenameStep::Verifying,
        ensures
            final(self)@ == old(self)@.content_compared(same),
            final(self)@.valid(),
            old(self)@.may_become(final(self)@),
    {
        let index: usize = self.index;
        if same {
            self.set_phase(index, RenamePhase::Copied);
            assert(index < self.journal.objects.len());
            self.reconcile_from(index + 1);
        } else {
            self.stop(NfsStatus::Io);
        }
    }

    /// The objects that are still to be copied, in order.
    pub fn to_copy(&self) -> (pending: Vec<usize>)
        requires
            self@.valid(),
            self@.step == RenameStep::Copying,
        ensures
            forall|i: usize| #[trigger] pending@.contains(i) <==> i < self@.objects().len() && self@.objects()[i as int].phase
                == RenamePhase::Pending,
            forall|i: int, j: int| 0 <= i < j < pending@.len() ==> pending@[i] < pending@[j],
    {
        let mut pending: Vec<usize> = Vec::new();
        let mut i: usize = 0;
        while i < self.journal.objects.len()
            invariant
                i <= self.journal.objects.len(),
                forall|k: int| 0 <= k < pending@.len() ==> #[trigger] pending@[k] < i,
                forall|k: usize| #[trigger] pending@.contains(k) <==> k < i && self@.objects()[k as int].phase == RenamePhase::Pending,
                forall|a: int, b: int| 0 <= a < b < pending@.len() ==> pending@[a] < pending@[b],
            decreases self.journal.objects.len() - i,
        {
            let ghost before = pending@;
            assert(self@.objects()[i as int] == self.journal.objects@[i as int]@);
            if self.journal.objects[i].phase == RenamePhase::Pending {
                pending.push(i);
                assert forall|k: usize| #[trigger] pending@.contains(k) <==> before.contains(k) || k == i by {
                    if before.contains(k) {
                        let at = choose|at: int| 0 <= at < before.len() && before[at] == k;
                        assert(pending@[at] == k);
                    }
                    assert(pending@[before.len() as int] == i);
                    if pending@.contains(k) && k != i {
                        let at = choose|at: int| 0 <= at < pending@.len() && pending@[at] == k;
                        assert(before[at] == k);
                    }
                }
            }
            assert forall|k: usize| #[trigger] pending@.contains(k) <==> k < i + 1 && self@.objects()[k as int].phase == RenamePhase::Pending by {
                assert(before.contains(k) <==> k < i && self@.objects()[k as int].phase == RenamePhase::Pending);
            }
            i = i + 1;
        }
        pending
    }

    /// Marks a copy as asked for. The journal is saved before the copy is.
    pub fn begin_copy(&mut self, index: usize)
        requires
            old(self)@.valid(),
            old(self)@.step == RenameStep::Copying,
            index < old(self)@.objects().len(),
            old(self)@.objects()[index as int].phase == RenamePhase::Pending,
        ensures
            final(self)@ == old(self)@.copy_begun(index as int),
            final(self)@.valid(),
            old(self)@.may_become(final(self)@),
    {
        self.set_phase(index, RenamePhase::Copying);
    }

    /// Takes what came of one copy: its tag, or why there is none.
    pub fn on_copied(&mut self, index: usize, copied: Result<String, NfsStatus>)
        requires
            old(self)@.valid(),
            old(self)@.step == RenameStep::Copying,
            index < old(self)@.objects().len(),
            old(self)@.objects()[index as int].phase == RenamePhase::Copying,
        ensures
            final(self)@ == (match copied {
                Ok(etag) => old(self)@.copy_made(index as int, etag@),
                Err(status) => old(self)@.copy_failed(status),
            }),
            final(self)@.valid(),
            old(self)@.may_become(final(self)@),
    {
        let ghost before = self@;
        match copied {
            Ok(etag) => {
                self.set_destination(index, etag);
                self.set_phase(index, RenamePhase::Copied);
                assert(self@ =~= before.copy_made(index as int, etag@));
            },
            Err(status) => {
                if self.failure.is_none() {
                    self.failure = Some(status);
                }
            },
        }
    }

    /// Takes that the journal could not be saved beside a copy.
    pub fn on_copy_unsaved(&mut self)
        requires
            old(self)@.valid(),
            old(self)@.step == RenameStep::Copying,
        ensures
            final(self)@ == old(self)@.copy_failed(NfsStatus::Io),
            final(self)@.valid(),
            old(self)@.may_become(final(self)@),
    {
        if self.failure.is_none() {
            self.failure = Some(NfsStatus::Io);
        }
    }

    /// Takes that no copy is under way any more.
    pub fn on_copies_done(&mut self)
        requires
            old(self)@.valid(),
            old(self)@.step == RenameStep::Copying,
            old(self)@.copies_are_done(),
        ensures
            final(self)@ == old(self)@.copies_done(),
            final(self)@.valid(),
            old(self)@.may_become(final(self)@),
    {
        match self.failure {
            Some(status) => {
                self.stop(status);
            },
            None => {
                self.delete_from(0);
            },
        }
    }

    /// Takes what stands at the new key of an object whose source is to go.
    pub fn on_checked(&mut self, target: Result<Option<ObjectHead>, NfsStatus>)
        requires
            old(self)@.valid(),
            old(self)@.step == RenameStep::Checking,
        ensures
            final(self)@ == (match target {
                Ok(head) => old(self)@.checked(content::head_view(head)),
                Err(status) => old(self)@.stopped(status),
            }),
            final(self)@.valid(),
            old(self)@.may_become(final(self)@),
    {
        let index: usize = self.index;
        assert(self@.current() == self.journal.objects@[index as int]@);
        match target {
            Err(status) => {
                self.stop(status);
            },
            Ok(None) => {
                self.stop(NfsStatus::NoEnt);
            },
            Ok(Some(head)) => {
                let marked = match &head.rename_token {
                    Some(token) => same_text(token.as_str(), self.journal.token.as_str()),
                    None => false,
                };
                if marked && same_optional(&head.etag, &self.journal.objects[index].destination_etag) {
                    self.set_phase(index, RenamePhase::Deleting);
                    self.step = RenameStep::SavingDeleting;
                } else {
                    self.stop(NfsStatus::Io);
                }
            },
        }
    }

    /// Takes whether the source still stands at its old key.
    pub fn on_source(&mut self, found: Result<bool, NfsStatus>)
        requires
            old(self)@.valid(),
            old(self)@.step == RenameStep::LookingAtSource,
        ensures
            final(self)@ == (match found {
                Ok(exists) => old(self)@.source_seen(exists),
                Err(status) => old(self)@.stopped(status),
            }),
            final(self)@.valid(),
            old(self)@.may_become(final(self)@),
    {
        let index: usize = self.index;
        assert(self@.current() == self.journal.objects@[index as int]@);
        match found {
            Err(status) => {
                self.stop(status);
            },
            Ok(there) => {
                if !there {
                    self.set_phase(index, RenamePhase::Deleted);
                    self.step = RenameStep::SavingDeleted;
                } else if self.journal.objects[index].source_version.is_none() {
                    self.step = RenameStep::AskingDelete;
                } else {
                    self.step = RenameStep::DeletingSource;
                }
            },
        }
    }

    /// Takes whether the store honours a conditional deletion.
    pub fn on_delete_condition(&mut self, supported: Result<bool, NfsStatus>)
        requires
            old(self)@.valid(),
            old(self)@.step == RenameStep::AskingDelete,
        ensures
            final(self)@ == (match supported {
                Ok(yes) => old(self)@.delete_answered(yes),
                Err(status) => old(self)@.stopped(status),
            }),
            final(self)@.valid(),
            old(self)@.may_become(final(self)@),
    {
        match supported {
            Err(status) => {
                self.stop(status);
            },
            Ok(yes) => {
                if yes {
                    self.step = RenameStep::DeletingSource;
                } else {
                    self.stop(NfsStatus::NotSupp);
                }
            },
        }
    }

    /// Takes what came of deleting the source.
    pub fn on_deleted(&mut self, deleted: Result<(), NfsStatus>)
        requires
            old(self)@.valid(),
            old(self)@.step == RenameStep::DeletingSource,
        ensures
            final(self)@ == (match deleted {
                Ok(()) => old(self)@.source_gone(),
                Err(status) => old(self)@.stopped(status),
            }),
            final(self)@.valid(),
            old(self)@.may_become(final(self)@),
    {
        let index: usize = self.index;
        match deleted {
            Err(status) => {
                self.stop(status);
            },
            Ok(()) => {
                self.set_phase(index, RenamePhase::Deleted);
                self.step = RenameStep::SavingDeleted;
            },
        }
    }

    /// Takes whether the journal was saved.
    pub fn on_saved(&mut self, saved: bool)
        requires
            old(self)@.valid(),
            old(self)@.step == RenameStep::SavingReconciled || old(self)@.step == RenameStep::SavingDeleting || old(self)@.step
                == RenameStep::SavingDeleted,
        ensures
            final(self)@ == (if saved {
                old(self)@.saved()
            } else {
                old(self)@.stopped(NfsStatus::Io)
            }),
            final(self)@.valid(),
            old(self)@.may_become(final(self)@),
    {
        if !saved {
            self.stop(NfsStatus::Io);
            return;
        }
        match self.step {
            RenameStep::SavingReconciled => {
                self.step = RenameStep::Copying;
            },
            RenameStep::SavingDeleting => {
                self.step = RenameStep::LookingAtSource;
            },
            _ => {
                assert(self.index < self.journal.objects.len());
                let next: usize = self.index + 1;
                self.delete_from(next);
            },
        }
    }

    /// What came of the rename.
    pub fn outcome(&self) -> (outcome: Result<(), NfsStatus>)
        requires
            self@.valid(),
            self@.step == RenameStep::Done,
        ensures
            outcome == (match self@.failure {
                Some(status) => Err::<(), NfsStatus>(status),
                None => Ok(()),
            }),
            outcome is Ok ==> forall|i: int|
                0 <= i < self@.objects().len() ==> (#[trigger] self@.objects()[i]).phase == RenamePhase::Deleted,
    {
        match self.failure {
            Some(status) => Err(status),
            None => Ok(()),
        }
    }
}

/// No source goes unless its copy was just seen in place: with the tag that
/// the copy was given, and marked by this very rename.
pub proof fn nothing_is_deleted_before_its_copy_was_seen(run: RunModel, target: Option<content::HeadModel>)
    requires
        run.valid(),
        run.step == RenameStep::Checking,
        run.checked(target).step == RenameStep::SavingDeleting,
    ensures
        target is Some,
        target->0.etag == run.current().destination_etag,
        target->0.rename_token == Some(run.journal.token),
{
}

/// A source is deleted only in the step that follows a saved journal: what is
/// deleted is marked so on disk first.
pub proof fn a_deletion_is_recorded_before_it_is_asked_for(before: RunModel, after: RunModel)
    requires
        before.valid(),
        before.may_become(after),
        after.step == RenameStep::LookingAtSource,
    ensures
        before.step == RenameStep::SavingDeleting,
        after.journal == before.journal,
        after.current().phase == RenamePhase::Deleting,
{
}

/// How far a rename is from its end: the part of the work that it is in, the
/// objects that are left there, and what is left to do for the object at hand.
pub open spec fn work_left(run: RunModel) -> (int, int, int) {
    let objects = run.objects().len() - run.index;
    match run.step {
        RenameStep::Reconciling => (4, objects, 2),
        RenameStep::Verifying => (4, objects, 1),
        RenameStep::SavingReconciled => (3, 0, 0),
        RenameStep::Copying => (2, 0, 0),
        RenameStep::Checking => (1, objects, 6),
        RenameStep::SavingDeleting => (1, objects, 5),
        RenameStep::LookingAtSource => (1, objects, 4),
        RenameStep::AskingDelete => (1, objects, 3),
        RenameStep::DeletingSource => (1, objects, 2),
        RenameStep::SavingDeleted => (1, objects, 1),
        RenameStep::Done => (0, 0, 0),
    }
}

/// Less work is left.
pub open spec fn is_less_work(a: (int, int, int), b: (int, int, int)) -> bool {
    a.0 < b.0 || (a.0 == b.0 && (a.1 < b.1 || (a.1 == b.1 && a.2 < b.2)))
}

/// A rename comes to an end, whatever comes back: every step leaves less to be
/// done, but for copies that are still under way.
pub proof fn every_step_of_a_rename_leads_on(before: RunModel, after: RunModel)
    requires
        before.valid(),
        before.may_become(after),
    ensures
        is_less_work(work_left(after), work_left(before)) || (before.step == RenameStep::Copying && after.step == RenameStep::Copying),
        0 <= work_left(before).1 <= before.objects().len(),
{
    let objects = after.objects();
    if before.index < objects.len() {
        nothing_copying_is_passed_over(objects, before.index + 1);
        nothing_undeleted_is_passed_over(objects, before.index + 1);
    }
    nothing_undeleted_is_passed_over(objects, 0);
}

/// What was copied and verified is never copied again, by whatever way the
/// rename goes on.
pub proof fn a_copy_in_place_is_not_made_again(before: RunModel, after: RunModel, index: int)
    requires
        before.valid(),
        before.may_become(after),
        0 <= index < before.objects().len(),
        before.objects()[index].phase.is_in_place(),
    ensures
        after.objects().len() == before.objects().len(),
        after.objects()[index].phase.is_in_place(),
        before.objects()[index].phase == RenamePhase::Deleted ==> after.objects()[index].phase == RenamePhase::Deleted,
        after.objects()[index].destination_etag == before.objects()[index].destination_etag,
{
}

/// The keys, the source's tag and what may be replaced stay as they were
/// planned.
pub proof fn the_plan_of_an_object_stays(before: RunModel, after: RunModel, index: int)
    requires
        before.valid(),
        before.may_become(after),
        0 <= index < before.objects().len(),
    ensures
        after.journal.token == before.journal.token,
        after.objects()[index].from == before.objects()[index].from,
        after.objects()[index].to == before.objects()[index].to,
        after.objects()[index].source_etag == before.objects()[index].source_etag,
        after.objects()[index].source_version == before.objects()[index].source_version,
        after.objects()[index].replaced_etag == before.objects()[index].replaced_etag,
        after.objects()[index].size == before.objects()[index].size,
{
}

/// An object counts as deleted only once it is gone: a source that is seen to
/// stand stays as it is recorded, whichever object of the rename it is, and
/// its deletion is asked for next, under its version where it has one and
/// otherwise once the store honours a condition. A source that is seen to be
/// absent counts as deleted without a request.
pub proof fn a_standing_source_is_deleted_before_it_counts_as_gone(run: RunModel)
    requires
        run.valid(),
        run.step == RenameStep::LookingAtSource,
    ensures
        ({
            let object = run.journal.objects[run.index];
            let standing = run.source_seen(true);
            let absent = run.source_seen(false);
            &&& standing.journal == run.journal
            &&& standing.index == run.index
            &&& standing.failure is None
            &&& object.source_version is None ==> standing.step == RenameStep::AskingDelete
            &&& object.source_version is Some ==> standing.step == RenameStep::DeletingSource
            &&& absent.step == RenameStep::SavingDeleted
            &&& absent.index == run.index
            &&& absent.failure is None
            &&& absent.journal.objects[run.index].phase == RenamePhase::Deleted
        }),
{
}

/// Whichever step turns an object into a deleted one, it is a step about that
/// very object, and it was told either that the source is absent or that its
/// deletion succeeded.
pub proof fn only_a_source_that_is_gone_counts_as_deleted(before: RunModel, after: RunModel, index: int)
    requires
        before.valid(),
        before.may_become(after),
        0 <= index < before.journal.objects.len(),
        before.journal.objects[index].phase != RenamePhase::Deleted,
        after.journal.objects[index].phase == RenamePhase::Deleted,
    ensures
        index == before.index,
        before.step == RenameStep::LookingAtSource || before.step == RenameStep::DeletingSource,
        before.step == RenameStep::LookingAtSource ==> after != before.source_seen(true) && forall|status: NfsStatus|
            after != #[trigger] before.stopped(status),
        before.step == RenameStep::DeletingSource ==> after.failure is None,
        after.step == RenameStep::SavingDeleted,
{
}

/// A deletion is sent only where it removes nothing but what was copied: under
/// the version that was copied, or once the store honours the condition. A
/// store that does not is not asked to delete, and the rename ends there with
/// everything in place.
pub proof fn a_source_is_deleted_only_under_a_condition(run: RunModel)
    requires
        run.valid(),
        run.step == RenameStep::AskingDelete,
    ensures
        run.delete_answered(true) == (RunModel { step: RenameStep::DeletingSource, ..run }),
        run.delete_answered(false) == (RunModel { step: RenameStep::Done, failure: Some(NfsStatus::NotSupp), ..run }),
{
}

/// A deletion that succeeded changes the phase of its object and nothing else
/// of the rename.
pub proof fn a_deletion_is_noted_for_its_object_only(run: RunModel, index: int)
    requires
        run.valid(),
        run.step == RenameStep::LookingAtSource || run.step == RenameStep::DeletingSource,
        0 <= index < run.journal.objects.len(),
    ensures
        run.source_gone().step == RenameStep::SavingDeleted,
        run.source_gone().index == run.index,
        run.source_gone().failure == run.failure,
        run.source_gone().journal.from == run.journal.from,
        run.source_gone().journal.to == run.journal.to,
        run.source_gone().journal.token == run.journal.token,
        run.source_gone().journal.objects.len() == run.journal.objects.len(),
        index != run.index ==> run.source_gone().journal.objects[index] == run.journal.objects[index],
        run.source_gone().journal.objects[run.index] == (ObjectModel { phase: RenamePhase::Deleted, ..run.journal.objects[run.index] }),
{
}

/// Before a source goes, its destination decides: exactly where it has the tag
/// that the copy was given and the mark of this rename is the object recorded
/// as being deleted. Otherwise the rename ends, with nothing changed: as
/// missing where nothing stands there, as an error where something else does.
pub proof fn a_source_goes_exactly_where_its_copy_stands(run: RunModel, target: Option<content::HeadModel>, index: int)
    requires
        run.valid(),
        run.step == RenameStep::Checking,
        0 <= index < run.journal.objects.len(),
    ensures
        ({
            let object = run.journal.objects[run.index];
            let after = run.checked(target);
            let in_place = target matches Some(head) && head.etag == object.destination_etag && head.rename_token == Some(run.journal.token);
            &&& in_place <==> after.step == RenameStep::SavingDeleting
            &&& in_place ==> after.failure is None && after.index == run.index && after.journal.objects.len() == run.journal.objects.len()
                && after.journal.objects[run.index] == (ObjectModel { phase: RenamePhase::Deleting, ..object })
            &&& in_place && index != run.index ==> after.journal.objects[index] == run.journal.objects[index]
            &&& !in_place ==> after.step == RenameStep::Done && after.journal == run.journal && after.failure == Some(
                if target is None {
                    NfsStatus::NoEnt
                } else {
                    NfsStatus::Io
                },
            )
        }),
{
}

/// What stands at the new key of an object whose copy may have happened
/// decides how it goes on: a copy with the mark of this rename and the size of
/// the object is taken over, to be compared; where nothing stands, or still
/// what was to be replaced, the copy is made again; anything else is somebody
/// else's, and ends the rename with nothing changed.
pub proof fn a_copy_that_may_have_happened_is_settled(run: RunModel, target: Option<content::HeadModel>, index: int)
    requires
        run.valid(),
        run.step == RenameStep::Reconciling,
        0 <= index < run.journal.objects.len(),
    ensures
        ({
            let object = run.journal.objects[run.index];
            let after = run.reconciled(target);
            let own = target matches Some(head) && head.rename_token == Some(run.journal.token) && head.size == Some(object.size as i64);
            let untouched = target is None || (!own && object.replaced_etag is Some && target->0.etag == object.replaced_etag);
            &&& own && target->0.etag is Some ==> after.step == RenameStep::Verifying && after.index == run.index && after.failure is None
                && after.journal.objects[run.index] == (ObjectModel { destination_etag: target->0.etag, ..object })
            &&& untouched ==> after.failure is None && (after.step == RenameStep::Reconciling || after.step == RenameStep::SavingReconciled)
                && after.index > run.index && after.journal.objects[run.index] == (ObjectModel { phase: RenamePhase::Pending, ..object })
            &&& !untouched && !(own && target->0.etag is Some) ==> after.step == RenameStep::Done && after.failure == Some(NfsStatus::Io)
                && after.journal == run.journal
            &&& after.journal.token == run.journal.token
            &&& after.journal.objects.len() == run.journal.objects.len()
            &&& index != run.index ==> after.journal.objects[index] == run.journal.objects[index]
        }),
{
    let again = run.with_object(run.index, ObjectModel { phase: RenamePhase::Pending, ..run.current() });
    nothing_copying_is_passed_over(again.objects(), run.index + 1);
}

/// A copy counts as made only with the bytes of its source; otherwise the
/// rename ends, with the copy still recorded as one that may have happened.
pub proof fn a_copy_counts_only_with_the_bytes_of_its_source(run: RunModel, index: int)
    requires
        run.valid(),
        run.step == RenameStep::Verifying,
        0 <= index < run.journal.objects.len(),
    ensures
        ({
            let object = run.journal.objects[run.index];
            let same = run.content_compared(true);
            let other = run.content_compared(false);
            &&& same.journal.objects[run.index] == (ObjectModel { phase: RenamePhase::Copied, ..object })
            &&& index != run.index ==> same.journal.objects[index] == run.journal.objects[index]
            &&& same.journal.objects.len() == run.journal.objects.len()
            &&& same.index > run.index
            &&& same.step == RenameStep::Reconciling || same.step == RenameStep::SavingReconciled
            &&& same.failure is None
            &&& other.step == RenameStep::Done
            &&& other.failure == Some(NfsStatus::Io)
            &&& other.journal == run.journal
        }),
{
    let copied = run.with_object(run.index, ObjectModel { phase: RenamePhase::Copied, ..run.current() });
    nothing_copying_is_passed_over(copied.objects(), run.index + 1);
}

/// While copies are made, each is recorded for its own object only: as asked
/// for before it is, as made with the tag that came back, and as failed without
/// touching the journal. The failure that came first is kept.
pub proof fn a_copy_is_recorded_for_its_object_only(run: RunModel, index: int, other: int, etag: Seq<char>, status: NfsStatus)
    requires
        0 <= index < run.journal.objects.len(),
        0 <= other < run.journal.objects.len(),
    ensures
        run.copy_begun(index).journal.objects[index] == (ObjectModel { phase: RenamePhase::Copying, ..run.journal.objects[index] }),
        run.copy_made(index, etag).journal.objects[index] == (ObjectModel {
            phase: RenamePhase::Copied,
            destination_etag: Some(etag),
            ..run.journal.objects[index]
        }),
        other != index ==> run.copy_begun(index).journal.objects[other] == run.journal.objects[other] && run.copy_made(
            index,
            etag,
        ).journal.objects[other] == run.journal.objects[other],
        run.copy_begun(index).step == run.step && run.copy_begun(index).index == run.index && run.copy_begun(index).failure == run.failure,
        run.copy_made(index, etag).step == run.step && run.copy_made(index, etag).index == run.index && run.copy_made(index, etag).failure
            == run.failure,
        run.copy_begun(index).journal.objects.len() == run.journal.objects.len(),
        run.copy_made(index, etag).journal.objects.len() == run.journal.objects.len(),
        run.copy_failed(status).journal == run.journal,
        run.copy_failed(status).step == run.step,
        run.failure is None ==> run.copy_failed(status).failure == Some(status),
        run.failure is Some ==> run.copy_failed(status).failure == run.failure,
{
}

/// Once no copy is under way, the rename ends with the first failure there was;
/// without one it turns to the first object that still stands at its old key,
/// and is over where there is none. Nothing of the journal changes.
pub proof fn deletion_begins_once_every_copy_is_made(run: RunModel, index: int)
    requires
        run.valid(),
        run.step == RenameStep::Copying,
        0 <= index < run.journal.objects.len(),
    ensures
        ({
            let after = run.copies_done();
            &&& after.journal == run.journal
            &&& run.failure is Some ==> after.step == RenameStep::Done && after.failure == run.failure
            &&& run.failure is None ==> {
                &&& after.failure is None
                &&& after.step == RenameStep::Checking || after.step == RenameStep::Done
                &&& after.step == RenameStep::Checking ==> 0 <= after.index < run.journal.objects.len()
                    && run.journal.objects[after.index].phase != RenamePhase::Deleted && (index < after.index ==> run.journal.objects[index].phase
                    == RenamePhase::Deleted)
                &&& after.step == RenameStep::Done ==> run.journal.objects[index].phase == RenamePhase::Deleted
            }
        }),
{
    nothing_undeleted_is_passed_over(run.objects(), 0);
}

/// What follows a saved journal: the copies after what was settled, the source
/// after its deletion was recorded, and after a source is gone the next object
/// that still stands at its old key, until there is none. The journal stays as
/// it was saved.
pub proof fn a_saved_journal_leads_on(run: RunModel, index: int)
    requires
        run.valid(),
        run.step == RenameStep::SavingReconciled || run.step == RenameStep::SavingDeleting || run.step == RenameStep::SavingDeleted,
        0 <= index < run.journal.objects.len(),
    ensures
        run.saved().journal == run.journal,
        run.saved().failure is None,
        run.step == RenameStep::SavingReconciled ==> run.saved().step == RenameStep::Copying,
        run.step == RenameStep::SavingDeleting ==> run.saved().step == RenameStep::LookingAtSource && run.saved().index == run.index,
        run.step == RenameStep::SavingDeleted ==> {
            &&& run.saved().step == RenameStep::Checking || run.saved().step == RenameStep::Done
            &&& run.saved().step == RenameStep::Checking ==> run.index < run.saved().index < run.journal.objects.len()
                && run.journal.objects[run.saved().index].phase != RenamePhase::Deleted && (index < run.saved().index
                ==> run.journal.objects[index].phase == RenamePhase::Deleted)
            &&& run.saved().step == RenameStep::Done ==> run.journal.objects[index].phase == RenamePhase::Deleted
        },
{
    if run.step == RenameStep::SavingDeleted {
        nothing_undeleted_is_passed_over(run.objects(), run.index + 1);
    }
}

/// A rename that begins or goes on looks first at the objects whose copies may
/// have happened, each of them, and copies only when none is left. Its journal
/// is taken as it is.
pub proof fn a_rename_begins_with_what_may_have_happened(run: RunModel, start: int, index: int)
    requires
        0 <= start <= run.journal.objects.len(),
        start <= index < run.journal.objects.len(),
    ensures
        ({
            let after = run.reconciling_from(start);
            &&& after.journal == run.journal
            &&& after.failure == run.failure
            &&& after.step == RenameStep::Reconciling || after.step == RenameStep::SavingReconciled
            &&& after.step == RenameStep::Reconciling ==> start <= after.index < run.journal.objects.len()
                && run.journal.objects[after.index].phase == RenamePhase::Copying
            &&& index < after.index || after.step == RenameStep::SavingReconciled ==> run.journal.objects[index].phase != RenamePhase::Copying
        }),
{
    nothing_copying_is_passed_over(run.objects(), start);
}

/// A rename that is given up changes nothing of what is recorded, and says why.
pub proof fn a_rename_that_ends_keeps_its_journal(run: RunModel, status: NfsStatus)
    ensures
        run.stopped(status).journal == run.journal,
        run.stopped(status).step == RenameStep::Done,
        run.stopped(status).failure == Some(status),
{
}

/// The phases are named in the journal as they always were.
pub proof fn the_phases_keep_their_names(other: Seq<char>)
    ensures
        RenamePhase::Pending.spelled(other) == "pending"@,
        RenamePhase::Copying.spelled(other) == "copying"@,
        RenamePhase::Copied.spelled(other) == "copied"@,
        RenamePhase::Deleting.spelled(other) == "deleting"@,
        RenamePhase::Deleted.spelled(other) == "deleted"@,
        other != "pending"@ && other != "copying"@ && other != "copied"@ && other != "deleting"@ && other != "deleted"@ ==> RenamePhase::of_name(
            other,
        ) == RenamePhase::Other,
{
}

/// A rename goes ahead exactly where it destroys nothing: onto a free name, a
/// file onto a file, a directory onto an empty directory. A file and a
/// directory never replace each other.
pub proof fn a_rename_replaces_only_its_like(source_is_dir: bool, destination: Option<EntryKind>, empty: bool)
    ensures
        ({
            let refusal = refusal_of(target_of(source_is_dir, destination, empty));
            let mixed = destination is Some && source_is_dir != (destination->0 == EntryKind::Dir);
            let populated = destination == Some(EntryKind::Dir) && source_is_dir && !empty;
            &&& refusal is None <==> !mixed && !populated
            &&& refusal == Some(NfsStatus::Exist) <==> mixed
            &&& refusal == Some(NfsStatus::NotEmpty) <==> populated
        }),
{
}

/// A version is kept for a deletion exactly where it names one.
pub proof fn a_version_that_names_none_is_not_kept(version: Option<Seq<char>>, kept: Seq<char>)
    ensures
        deletable_version(version) == Some(kept) <==> version == Some(kept) && kept.len() > 0 && kept != "null"@,
{
}

/// An object is moved exactly where it and what it replaces can be told from
/// others: the source by a tag and a size, the target by a tag.
pub proof fn what_is_moved_can_be_told_apart(source: content::HeadModel, destination: Option<content::HeadModel>)
    ensures
        is_movable(source, destination) <==> (source.etag is Some && (source.size matches Some(size) && size >= 0) && (destination is None
            || destination->0.etag is Some)),
{
}

/// What a store has to honour for one object, by what the object is: a
/// conditional deletion where no version names the source; a conditional
/// completion where the object is copied in parts; otherwise, but for R2,
/// conditions on both ends of the copy. What is replaced is matched, and where
/// nothing is to be replaced nothing may stand there.
pub proof fn every_condition_has_its_reason(object: ObjectModel, is_r2: bool, condition: Condition)
    ensures
        object_conditions(object, is_r2).contains(condition) <==> {
            let in_parts = object.size > 5_368_709_120;
            ||| condition == Condition::DeleteMatch && object.source_version is None
            ||| condition == Condition::CompleteMatch && in_parts && object.replaced_etag is Some
            ||| condition == Condition::CompleteCreate && in_parts && object.replaced_etag is None
            ||| condition == Condition::CopySource && !in_parts && !is_r2
            ||| condition == Condition::CopyMatch && !in_parts && !is_r2 && object.replaced_etag is Some
            ||| condition == Condition::CopyCreate && !in_parts && !is_r2 && object.replaced_etag is None
        },
{
    let deletion = if object.source_version is None {
        seq![Condition::DeleteMatch]
    } else {
        Seq::empty()
    };
    let all = object_conditions(object, is_r2);
    if object.source_version is None {
        assert(all[0] == Condition::DeleteMatch);
    }
    let first = deletion.len() as int;
    if object.size > MAX_SINGLE_COPY {
        assert(all[first] == Condition::CompleteMatch || all[first] == Condition::CompleteCreate);
    } else if !is_r2 {
        assert(all[first] == Condition::CopyMatch || all[first] == Condition::CopyCreate);
        assert(all[first + 1] == Condition::CopySource);
    }
}

/// A rename needs what any of its objects needs, and nothing else.
pub proof fn a_rename_needs_what_its_objects_need(objects: Seq<ObjectModel>, is_r2: bool, condition: Condition)
    ensures
        rename_conditions(objects, is_r2).contains(condition) <==> exists|i: int|
            0 <= i < objects.len() && #[trigger] object_conditions(objects[i], is_r2).contains(condition),
    decreases objects.len(),
{
    if objects.len() > 0 {
        let fewer = objects.drop_last();
        a_rename_needs_what_its_objects_need(fewer, is_r2, condition);
        let before = rename_conditions(fewer, is_r2);
        let last = object_conditions(objects.last(), is_r2);
        let all = rename_conditions(objects, is_r2);
        if before.contains(condition) {
            let k = choose|k: int| 0 <= k < before.len() && before[k] == condition;
            assert(all[k] == condition);
            let i = choose|i: int| 0 <= i < fewer.len() && #[trigger] object_conditions(fewer[i], is_r2).contains(condition);
            assert(object_conditions(objects[i], is_r2).contains(condition));
        }
        if last.contains(condition) {
            let k = choose|k: int| 0 <= k < last.len() && last[k] == condition;
            assert(all[before.len() + k] == condition);
            assert(object_conditions(objects[objects.len() - 1], is_r2).contains(condition));
        }
        if all.contains(condition) {
            let k = choose|k: int| 0 <= k < all.len() && all[k] == condition;
            if k < before.len() {
                assert(before[k] == condition);
            } else {
                assert(last[k - before.len()] == condition);
            }
        }
        if exists|i: int| 0 <= i < objects.len() && #[trigger] object_conditions(objects[i], is_r2).contains(condition) {
            let i = choose|i: int| 0 <= i < objects.len() && #[trigger] object_conditions(objects[i], is_r2).contains(condition);
            if i < fewer.len() {
                assert(object_conditions(fewer[i], is_r2).contains(condition));
            }
        }
    }
}

/// A source that was seen to stand is deleted before it counts as gone,
/// whichever object of the rename it is; one that was seen to be gone counts
/// as deleted; where it could not be looked at the rename ends and nothing is
/// noted.
pub proof fn a_look_at_the_source_decides_what_becomes_of_it(status: NfsStatus)
    ensures
        forall|run: &mut Rename|
            (*run)@.valid() && (*run)@.step == RenameStep::LookingAtSource && #[trigger] call_ensures(Rename::on_source, (run, Ok(true)), ()) ==> {
                &&& final(run)@.journal == (*run)@.journal
                &&& final(run)@.index == (*run)@.index
                &&& final(run)@.failure is None
                &&& final(run)@.step == RenameStep::AskingDelete || final(run)@.step == RenameStep::DeletingSource
                &&& final(run)@.step == RenameStep::AskingDelete <==> (*run)@.journal.objects[(*run)@.index].source_version is None
            },
        forall|run: &mut Rename|
            (*run)@.valid() && (*run)@.step == RenameStep::LookingAtSource && #[trigger] call_ensures(Rename::on_source, (run, Ok(false)), ()) ==> {
                &&& final(run)@.step == RenameStep::SavingDeleted
                &&& final(run)@.index == (*run)@.index
                &&& final(run)@.failure is None
                &&& final(run)@.journal.objects[(*run)@.index].phase == RenamePhase::Deleted
            },
        forall|run: &mut Rename|
            (*run)@.valid() && (*run)@.step == RenameStep::LookingAtSource && #[trigger] call_ensures(Rename::on_source, (run, Err(status)), ())
                ==> {
                &&& final(run)@.step == RenameStep::Done
                &&& final(run)@.failure == Some(status)
                &&& final(run)@.journal == (*run)@.journal
            },
{
    assert forall|run: &mut Rename|
        (*run)@.valid() && (*run)@.step == RenameStep::LookingAtSource && #[trigger] call_ensures(Rename::on_source, (run, Ok(true)), ()) implies {
        &&& final(run)@.journal == (*run)@.journal
        &&& final(run)@.index == (*run)@.index
        &&& final(run)@.failure is None
        &&& final(run)@.step == RenameStep::AskingDelete || final(run)@.step == RenameStep::DeletingSource
        &&& final(run)@.step == RenameStep::AskingDelete <==> (*run)@.journal.objects[(*run)@.index].source_version is None
    } by {
        a_standing_source_is_deleted_before_it_counts_as_gone((*run)@);
    }
    assert forall|run: &mut Rename|
        (*run)@.valid() && (*run)@.step == RenameStep::LookingAtSource && #[trigger] call_ensures(Rename::on_source, (run, Ok(false)), ()) implies {
        &&& final(run)@.step == RenameStep::SavingDeleted
        &&& final(run)@.index == (*run)@.index
        &&& final(run)@.failure is None
        &&& final(run)@.journal.objects[(*run)@.index].phase == RenamePhase::Deleted
    } by {
        a_standing_source_is_deleted_before_it_counts_as_gone((*run)@);
    }
}

/// A request that failed ends the rename with that failure, and leaves the
/// journal as it was.
pub proof fn a_failed_request_ends_the_rename(status: NfsStatus)
    ensures
        forall|run: &mut Rename| #[trigger]
            call_ensures(Rename::on_reconciled, (run, Err(status)), ()) ==> final(run)@ == (RunModel {
                step: RenameStep::Done,
                failure: Some(status),
                ..(*run)@
            }),
        forall|run: &mut Rename| #[trigger]
            call_ensures(Rename::on_checked, (run, Err(status)), ()) ==> final(run)@ == (RunModel {
                step: RenameStep::Done,
                failure: Some(status),
                ..(*run)@
            }),
        forall|run: &mut Rename| #[trigger]
            call_ensures(Rename::on_delete_condition, (run, Err(status)), ()) ==> final(run)@ == (RunModel {
                step: RenameStep::Done,
                failure: Some(status),
                ..(*run)@
            }),
        forall|run: &mut Rename| #[trigger]
            call_ensures(Rename::on_deleted, (run, Err(status)), ()) ==> final(run)@ == (RunModel {
                step: RenameStep::Done,
                failure: Some(status),
                ..(*run)@
            }),
        forall|run: &mut Rename| #[trigger]
            call_ensures(Rename::on_saved, (run, false), ()) ==> final(run)@ == (RunModel {
                step: RenameStep::Done,
                failure: Some(NfsStatus::Io),
                ..(*run)@
            }),
        forall|run: &mut Rename, index: usize| #[trigger]
            call_ensures(Rename::on_copied, (run, index, Err(status)), ()) ==> final(run)@.failure is Some && final(run)@.journal
                == (*run)@.journal && final(run)@.step == (*run)@.step && ((*run)@.failure is None ==> final(run)@.failure == Some(status)) && (
            (*run)@.failure is Some ==> final(run)@.failure == (*run)@.failure),
        forall|run: &mut Rename| #[trigger]
            call_ensures(Rename::on_copy_unsaved, (run,), ()) ==> final(run)@.failure is Some && final(run)@.journal == (*run)@.journal,
{
}

/// A deletion that was honoured is noted, and one that the store cannot guard
/// is not asked for.
pub proof fn an_honoured_deletion_is_noted()
    ensures
        forall|run: &mut Rename|
            (*run)@.valid() && (*run)@.step == RenameStep::DeletingSource && #[trigger] call_ensures(Rename::on_deleted, (run, Ok(())), ()) ==> {
                &&& final(run)@.step == RenameStep::SavingDeleted
                &&& final(run)@.journal.objects[(*run)@.index].phase == RenamePhase::Deleted
                &&& final(run)@.failure == (*run)@.failure
            },
        forall|run: &mut Rename|
            (*run)@.valid() && (*run)@.step == RenameStep::AskingDelete && #[trigger] call_ensures(
                Rename::on_delete_condition,
                (run, Ok(false)),
                (),
            ) ==> final(run)@.step == RenameStep::Done && final(run)@.failure == Some(NfsStatus::NotSupp) && final(run)@.journal
                == (*run)@.journal,
        forall|run: &mut Rename|
            (*run)@.valid() && (*run)@.step == RenameStep::AskingDelete && #[trigger] call_ensures(
                Rename::on_delete_condition,
                (run, Ok(true)),
                (),
            ) ==> final(run)@.step == RenameStep::DeletingSource && final(run)@.failure is None && final(run)@.journal == (*run)@.journal,
{
    assert forall|run: &mut Rename|
        (*run)@.valid() && (*run)@.step == RenameStep::DeletingSource && #[trigger] call_ensures(Rename::on_deleted, (run, Ok(())), ()) implies {
        &&& final(run)@.step == RenameStep::SavingDeleted
        &&& final(run)@.journal.objects[(*run)@.index].phase == RenamePhase::Deleted
        &&& final(run)@.failure == (*run)@.failure
    } by {
        a_deletion_is_noted_for_its_object_only((*run)@, (*run)@.index);
    }
}

/// A copy that was made is noted with its tag, for its object.
pub proof fn a_copy_that_was_made_is_noted(index: usize, etag: String)
    ensures
        forall|run: &mut Rename|
            index < (*run)@.journal.objects.len() && #[trigger] call_ensures(Rename::on_copied, (run, index, Ok(etag)), ()) ==> {
                &&& final(run)@.journal.objects.len() == (*run)@.journal.objects.len()
                &&& final(run)@.journal.objects[index as int].phase == RenamePhase::Copied
                &&& final(run)@.journal.objects[index as int].destination_etag == Some(etag@)
                &&& final(run)@.journal.objects[index as int].from == (*run)@.journal.objects[index as int].from
                &&& final(run)@.journal.objects[index as int].to == (*run)@.journal.objects[index as int].to
                &&& final(run)@.failure == (*run)@.failure
                &&& final(run)@.step == (*run)@.step
            },
        forall|run: &mut Rename|
            index < (*run)@.journal.objects.len() && #[trigger] call_ensures(Rename::begin_copy, (run, index), ()) ==> {
                &&& final(run)@.journal.objects[index as int].phase == RenamePhase::Copying
                &&& final(run)@.journal.objects[index as int].to == (*run)@.journal.objects[index as int].to
                &&& final(run)@.failure == (*run)@.failure
                &&& final(run)@.step == (*run)@.step
            },
{
}

/// A rename has succeeded only where every source is gone.
pub proof fn a_rename_succeeds_where_every_source_is_gone(run: Rename, outcome: Result<(), NfsStatus>, index: int)
    requires
        call_ensures(Rename::outcome, (&run,), outcome),
        0 <= index < run@.journal.objects.len(),
    ensures
        outcome is Ok ==> run@.journal.objects[index].phase == RenamePhase::Deleted,
        outcome is Ok <==> run@.failure is None,
        outcome is Err ==> run@.failure == Some(outcome->Err_0),
{
    assert(run@.objects()[index] == run@.journal.objects[index]);
}

/// A file that is there is opened or cut, and one that is not is made.
pub proof fn a_creation_makes_what_is_missing(exists_already: bool, truncate_requested: bool, action: CreateAction)
    requires
        call_ensures(create_action, (exists_already, truncate_requested), action),
    ensures
        action == CreateAction::Create <==> !exists_already,
        action == CreateAction::OpenExisting <==> exists_already && !truncate_requested,
        action == CreateAction::Truncate <==> exists_already && truncate_requested,
{
}

/// A journal belongs to the rename from and to the same keys.
pub proof fn a_journal_belongs_to_its_keys(journal: RenameJournal, from: &str, to: &str, own: bool)
    requires
        call_ensures(is_journal_of, (&journal, from, to), own),
    ensures
        own <==> journal@.from == from@ && journal@.to == to@,
{
}

/// An object is planned with the tag and size it has and with the tag of what
/// it replaces, and nothing of it has happened yet.
pub proof fn an_object_is_planned_as_it_stands(
    from: String,
    to: String,
    source: Option<ObjectHead>,
    destination: Option<ObjectHead>,
    object: Result<RenameObject, NfsStatus>,
)
    requires
        call_ensures(plan_object, (from, to, source, destination), object),
    ensures
        source is None ==> object is Err && object->Err_0 == NfsStatus::NoEnt,
        object is Ok ==> {
            let planned = (object->Ok_0)@;
            &&& source is Some
            &&& planned.from == from@ && planned.to == to@
            &&& source->0.etag is Some && planned.source_etag == (source->0.etag->0)@
            &&& source->0.size is Some && planned.size == source->0.size->0
            &&& planned.phase == RenamePhase::Pending
            &&& planned.destination_etag is None
            &&& destination is None ==> planned.replaced_etag is None
            &&& destination is Some ==> destination->0.etag is Some && planned.replaced_etag == Some((destination->0.etag->0)@)
        },
{
}

/// What may have happened is settled object by object, none passed over, and
/// so is what still stands at its old key.
pub proof fn no_object_is_passed_over(objects: Seq<ObjectModel>, start: int, index: int)
    requires
        0 <= start <= objects.len(),
    ensures
        start <= next_copying(objects, start) <= objects.len(),
        start <= index < next_copying(objects, start) ==> objects[index].phase != RenamePhase::Copying,
        next_copying(objects, start) < objects.len() ==> objects[next_copying(objects, start)].phase == RenamePhase::Copying,
        start <= next_undeleted(objects, start) <= objects.len(),
        start <= index < next_undeleted(objects, start) ==> objects[index].phase == RenamePhase::Deleted,
        next_undeleted(objects, start) < objects.len() ==> objects[next_undeleted(objects, start)].phase != RenamePhase::Deleted,
    decreases objects.len() - start,
{
    if start < objects.len() {
        no_object_is_passed_over(objects, start + 1, index);
    }
}

} // verus!
