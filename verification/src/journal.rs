//! What is kept on disk of an upload in parts, so that an interrupted one goes
//! on where it stopped.

use vstd::prelude::*;
use crate::stage::{copy_guard, planned_part_size, PublicationGuard, UploadSnapshot};
use crate::stage;
use crate::text;
use crate::text::has_prefix;

verus! {

/// A request whose effect depends on what stands at the target.
#[derive(Clone, Copy, Debug, PartialEq, Eq, Structural)]
pub enum Condition {
    /// PUT that only creates.
    PutCreate,
    /// PUT that only replaces the object with a given tag.
    PutMatch,
    /// DELETE that only removes the object with a given tag.
    DeleteMatch,
    /// Copy that only creates.
    CopyCreate,
    /// Copy that only replaces the object with a given tag.
    CopyMatch,
    /// Copy that only reads the source with a given tag.
    CopySource,
    /// Copy of one part that only reads the source with a given tag.
    PartCopySource,
    /// Completion of an upload in parts that only creates.
    CompleteCreate,
    /// Completion of an upload in parts that only replaces the object with a
    /// given tag.
    CompleteMatch,
}

/// Why an upload did not happen.
pub struct UploadFailure {
    pub message: String,
    /// The same upload may succeed later.
    pub retryable: bool,
    /// The upload may have happened after all.
    pub uncertain: bool,
}

/// A failure with its message taken as text.
pub ghost struct FailureModel {
    pub message: Seq<char>,
    pub retryable: bool,
    pub uncertain: bool,
}

impl View for UploadFailure {
    type V = FailureModel;

    open spec fn view(&self) -> FailureModel {
        FailureModel { message: self.message@, retryable: self.retryable, uncertain: self.uncertain }
    }
}

impl Clone for UploadFailure {
    fn clone(&self) -> (copy: Self)
        ensures
            copy@ == self@,
    {
        UploadFailure { message: self.message.clone(), retryable: self.retryable, uncertain: self.uncertain }
    }
}

/// A failure on this side: nothing was sent, and trying again would fail the
/// same way.
pub open spec fn local_failure(message: Seq<char>) -> FailureModel {
    FailureModel { message, retryable: false, uncertain: false }
}

impl UploadFailure {
    /// A failure on this side.
    pub fn local(message: &str) -> (failure: Self)
        ensures
            failure@ == local_failure(message@),
    {
        UploadFailure { message: message.to_owned(), retryable: false, uncertain: false }
    }

    /// Whether the target was found changed.
    pub fn is_conflict(&self) -> (conflict: bool)
        ensures
            conflict == "conflict:"@.is_prefix_of(self@.message),
    {
        has_prefix(self.message.as_str(), "conflict:")
    }

    /// The failure that a refused request stands for, by its class: only a
    /// transient refusal is worth another try, and only a request without an
    /// answer may have taken effect.
    pub fn of_class(label: &str, transient: bool, outcome_unknown: bool, detail: &str) -> (failure: Self)
        ensures
            failure@ == (FailureModel {
                message: label@ + ": "@ + detail@,
                retryable: transient,
                uncertain: outcome_unknown,
            }),
    {
        let mut message = label.to_owned();
        message.append(": ");
        message.append(detail);
        UploadFailure { message, retryable: transient, uncertain: outcome_unknown }
    }
}

/// An optional failure, taken as text.
pub open spec fn failure_view(failure: Option<UploadFailure>) -> Option<FailureModel> {
    match failure {
        Some(f) => Some(f@),
        None => None,
    }
}

/// The parts that were stored, each under its number, as text.
pub open spec fn parts_view(parts: Seq<(i32, String)>) -> Seq<(i32, Seq<char>)> {
    parts.map_values(|part: (i32, String)| (part.0, part.1@))
}

/// Every part stands once, in the order of the numbers.
pub open spec fn in_number_order(parts: Seq<(i32, Seq<char>)>) -> bool {
    forall|i: int, j: int| 0 <= i < j < parts.len() ==> (#[trigger] parts[i]).0 < (#[trigger] parts[j]).0
}

/// The first place whose number is not below `number`.
pub open spec fn place_for(parts: Seq<(i32, Seq<char>)>, number: i32) -> int
    decreases parts.len(),
{
    if parts.len() == 0 || parts.last().0 < number {
        parts.len() as int
    } else {
        place_for(parts.drop_last(), number)
    }
}

/// A part with this number is among them.
pub open spec fn has_part(parts: Seq<(i32, Seq<char>)>, number: i32) -> bool {
    exists|i: int| 0 <= i < parts.len() && (#[trigger] parts[i]).0 == number
}

/// The parts with one more, which takes the place of an earlier one with the
/// same number.
pub open spec fn with_part(parts: Seq<(i32, Seq<char>)>, number: i32, etag: Seq<char>) -> Seq<(i32, Seq<char>)> {
    let place = place_for(parts, number);
    if place < parts.len() && parts[place].0 == number {
        parts.update(place, (number, etag))
    } else {
        parts.insert(place, (number, etag))
    }
}

proof fn the_place_splits_the_parts(parts: Seq<(i32, Seq<char>)>, number: i32)
    requires
        in_number_order(parts),
    ensures
        0 <= place_for(parts, number) <= parts.len(),
        forall|i: int| 0 <= i < place_for(parts, number) ==> (#[trigger] parts[i]).0 < number,
        forall|i: int| place_for(parts, number) <= i < parts.len() ==> (#[trigger] parts[i]).0 >= number,
    decreases parts.len(),
{
    if parts.len() > 0 {
        let fewer = parts.drop_last();
        if parts.last().0 >= number {
            the_place_splits_the_parts(fewer, number);
            assert forall|i: int| 0 <= i < place_for(parts, number) implies (#[trigger] parts[i]).0 < number by {
                assert(fewer[i] == parts[i]);
            }
            assert forall|i: int| place_for(parts, number) <= i < parts.len() implies (#[trigger] parts[i]).0 >= number by {
                if i < fewer.len() {
                    assert(fewer[i] == parts[i]);
                }
            }
        } else {
            assert forall|i: int| 0 <= i < parts.len() implies (#[trigger] parts[i]).0 < number by {
                if i < parts.len() - 1 {
                    assert(parts[i].0 < parts[parts.len() - 1].0);
                }
            }
        }
    }
}

/// One more part leaves the others as they were and the numbers in order.
pub proof fn one_more_part(parts: Seq<(i32, Seq<char>)>, number: i32, etag: Seq<char>)
    requires
        in_number_order(parts),
    ensures
        in_number_order(with_part(parts, number, etag)),
        with_part(parts, number, etag).contains((number, etag)),
        forall|other: i32| other != number ==> (#[trigger] has_part(with_part(parts, number, etag), other) <==> has_part(parts, other)),
        with_part(parts, number, etag).len() == parts.len() + (if has_part(parts, number) { 0int } else { 1int }),
{
    the_place_splits_the_parts(parts, number);
    let place = place_for(parts, number);
    let more = with_part(parts, number, etag);
    let replaces = place < parts.len() && parts[place].0 == number;
    assert(more[place] == (number, etag));
    if !replaces {
        assert forall|i: int| 0 <= i < more.len() implies #[trigger] more[i] == (if i < place {
            parts[i]
        } else if i == place {
            (number, etag)
        } else {
            parts[i - 1]
        }) by {}
    }
    assert forall|i: int, j: int| 0 <= i < j < more.len() implies (#[trigger] more[i]).0 < (#[trigger] more[j]).0 by {
        if replaces {
            assert(parts[i].0 < parts[j].0);
        } else {
            let a = if i < place { i } else { i - 1 };
            let b = if j < place { j } else { j - 1 };
            if i != place && j != place {
                assert(parts[a].0 < parts[b].0);
            } else if i == place {
                assert(parts[b].0 >= number);
                assert(parts[b].0 != number) by {
                    if parts[b].0 == number && b > place {
                        assert(parts[place].0 < parts[b].0);
                    }
                }
            } else {
                assert(parts[a].0 < number);
            }
        }
    }
    assert forall|other: i32| other != number implies (#[trigger] has_part(more, other) <==> has_part(parts, other)) by {
        if has_part(more, other) {
            let i = choose|i: int| 0 <= i < more.len() && (#[trigger] more[i]).0 == other;
            if replaces || i < place {
                assert(parts[i].0 == other);
            } else {
                assert(parts[i - 1].0 == other);
            }
        }
        if has_part(parts, other) {
            let i = choose|i: int| 0 <= i < parts.len() && (#[trigger] parts[i]).0 == other;
            if replaces || i < place {
                assert(more[i].0 == other);
            } else {
                assert(more[i + 1].0 == other);
            }
        }
    }
    if has_part(parts, number) && !replaces {
        let i = choose|i: int| 0 <= i < parts.len() && (#[trigger] parts[i]).0 == number;
        if i > place {
            assert(parts[place].0 < parts[i].0);
        }
    }
    if replaces {
        assert(parts[place].0 == number);
    }
}

/// Stores one part's tag under its number.
pub fn insert_part(parts: &mut Vec<(i32, String)>, number: i32, etag: String)
    ensures
        parts_view(final(parts)@) == with_part(parts_view(old(parts)@), number, etag@),
{
    let ghost before = parts_view(parts@);
    let mut place: usize = parts.len();
    assert(before.take(place as int) =~= before);
    while place > 0 && parts[place - 1].0 >= number
        invariant
            place <= parts.len(),
            before == parts_view(parts@),
            place_for(before.take(place as int), number) == place_for(before, number),
        decreases place,
    {
        proof {
            assert(before.take(place as int).drop_last() =~= before.take(place - 1));
            assert(before.take(place as int).last() == before[place - 1]);
        }
        place = place - 1;
    }
    proof {
        if place > 0 {
            assert(before.take(place as int).last() == before[place - 1]);
        }
        assert(place_for(before, number) == place);
    }
    let ghost model = (number, etag@);
    if place < parts.len() && parts[place].0 == number {
        parts.set(place, (number, etag));
        assert(parts_view(parts@) =~= before.update(place as int, model));
    } else {
        parts.insert(place, (number, etag));
        assert(parts_view(parts@) =~= before.insert(place as int, model));
    }
}

/// Whether a part with this number was stored.
pub fn contains_part(parts: &Vec<(i32, String)>, number: i32) -> (found: bool)
    ensures
        found == has_part(parts_view(parts@), number),
{
    let mut i: usize = 0;
    while i < parts.len()
        invariant
            i <= parts.len(),
            forall|j: int| 0 <= j < i ==> (#[trigger] parts_view(parts@)[j]).0 != number,
        decreases parts.len() - i,
    {
        if parts[i].0 == number {
            assert(parts_view(parts@)[i as int].0 == number);
            return true;
        }
        i = i + 1;
    }
    false
}

/// A copy of the stored parts.
pub fn copy_parts(parts: &Vec<(i32, String)>) -> (copy: Vec<(i32, String)>)
    ensures
        parts_view(copy@) == parts_view(parts@),
{
    let mut copy: Vec<(i32, String)> = Vec::new();
    let mut i: usize = 0;
    while i < parts.len()
        invariant
            i <= parts.len(),
            parts_view(copy@) == parts_view(parts@).take(i as int),
        decreases parts.len() - i,
    {
        let ghost before = copy@;
        copy.push((parts[i].0, parts[i].1.clone()));
        assert(parts_view(copy@) =~= parts_view(before).push(parts_view(parts@)[i as int]));
        assert(parts_view(parts@).take(i + 1) =~= parts_view(parts@).take(i as int).push(parts_view(parts@)[i as int]));
        i = i + 1;
    }
    assert(parts_view(parts@).take(i as int) =~= parts_view(parts@));
    copy
}

/// How far an upload has come.
pub struct MultipartJournal {
    /// The upload that is under way.
    pub upload_id: Option<String>,
    pub part_size: u64,
    /// The parts that were stored, in the order of their numbers.
    pub parts: Vec<(i32, String)>,
    /// The request that publishes the object may have been sent.
    pub completing: bool,
    /// What the upload may replace.
    pub precondition: Option<PublicationGuard>,
    /// The tag of the object that the upload became.
    pub published_etag: Option<String>,
}

/// A journal with its texts taken as characters.
#[verifier::ext_equal]
pub ghost struct JournalModel {
    pub upload_id: Option<Seq<char>>,
    pub part_size: u64,
    pub parts: Seq<(i32, Seq<char>)>,
    pub completing: bool,
    pub precondition: Option<stage::GuardModel>,
    pub published_etag: Option<Seq<char>>,
}

impl View for MultipartJournal {
    type V = JournalModel;

    open spec fn view(&self) -> JournalModel {
        JournalModel {
            upload_id: text::optional(self.upload_id),
            part_size: self.part_size,
            parts: parts_view(self.parts@),
            completing: self.completing,
            precondition: stage::guard_view(self.precondition),
            published_etag: text::optional(self.published_etag),
        }
    }
}

/// A copy of an optional text.
pub fn copy_text(text: &Option<String>) -> (copy: Option<String>)
    ensures
        text::optional(copy) == text::optional(*text),
{
    match text {
        Some(t) => Some(t.clone()),
        None => None,
    }
}

impl Clone for MultipartJournal {
    fn clone(&self) -> (copy: Self)
        ensures
            copy@ == self@,
    {
        MultipartJournal {
            upload_id: copy_text(&self.upload_id),
            part_size: self.part_size,
            parts: copy_parts(&self.parts),
            completing: self.completing,
            precondition: copy_guard(&self.precondition),
            published_etag: copy_text(&self.published_etag),
        }
    }
}

/// The journal of an upload of which nothing is known.
pub open spec fn empty_journal() -> JournalModel {
    JournalModel {
        upload_id: None,
        part_size: 0,
        parts: Seq::empty(),
        completing: false,
        precondition: None,
        published_etag: None,
    }
}

impl Default for MultipartJournal {
    fn default() -> (journal: Self)
        ensures
            journal@ == empty_journal(),
    {
        let journal = MultipartJournal {
            upload_id: None,
            part_size: 0,
            parts: Vec::new(),
            completing: false,
            precondition: None,
            published_etag: None,
        };
        assert(journal@.parts =~= Seq::empty());
        journal
    }
}

/// The journal of an upload that has not begun.
pub open spec fn fresh_journal(snapshot: stage::SnapshotModel) -> JournalModel {
    JournalModel {
        upload_id: None,
        part_size: stage::part_size_of(snapshot.size as int) as u64,
        parts: Seq::empty(),
        completing: false,
        precondition: snapshot.publication_guard,
        published_etag: None,
    }
}

/// The journal of an upload: what was kept of it, or a fresh one where nothing
/// was kept.
pub fn journal_of(snapshot: &UploadSnapshot, kept: Option<MultipartJournal>) -> (journal: MultipartJournal)
    ensures
        journal@ == (match kept {
            Some(journal) => journal@,
            None => fresh_journal(snapshot@),
        }),
{
    match kept {
        Some(journal) => journal,
        None => {
            let mut journal = MultipartJournal::default();
            journal.part_size = planned_part_size(snapshot.size);
            journal.precondition = copy_guard(&snapshot.publication_guard);
            journal
        },
    }
}

/// A part that is taken up leaves the tags of all others as they were, and
/// adds none but its own.
pub proof fn one_more_part_leaves_the_other_tags(parts: Seq<(i32, Seq<char>)>, number: i32, etag: Seq<char>, other: (i32, Seq<char>))
    requires
        in_number_order(parts),
        other.0 != number,
    ensures
        with_part(parts, number, etag).contains(other) <==> parts.contains(other),
{
    the_place_splits_the_parts(parts, number);
    let place = place_for(parts, number);
    let more = with_part(parts, number, etag);
    let replaces = place < parts.len() && parts[place].0 == number;
    if parts.contains(other) {
        let i = choose|i: int| 0 <= i < parts.len() && parts[i] == other;
        if replaces || i < place {
            assert(more[i] == other);
        } else {
            assert(more[i + 1] == other);
        }
    }
    if more.contains(other) {
        let i = choose|i: int| 0 <= i < more.len() && more[i] == other;
        if replaces || i < place {
            assert(parts[i] == other);
        } else if i > place {
            assert(parts[i - 1] == other);
        }
    }
}

/// A failure of this side is not tried again and leaves nothing open; one of
/// the store is as its class says, and says so.
pub proof fn a_failure_says_whether_it_may_be_tried_again(
    message: &str,
    local: UploadFailure,
    label: &str,
    transient: bool,
    outcome_unknown: bool,
    detail: &str,
    classed: UploadFailure,
)
    requires
        call_ensures(UploadFailure::local, (message,), local),
        call_ensures(UploadFailure::of_class, (label, transient, outcome_unknown, detail), classed),
    ensures
        local.message@ == message@,
        !local.retryable,
        !local.uncertain,
        classed.retryable == transient,
        classed.uncertain == outcome_unknown,
        label@.is_prefix_of(classed.message@),
{
    assert(classed.message@.subrange(0, label@.len() as int) =~= label@);
}

/// An upload goes on with the journal that was kept; without one nothing of it
/// has happened, and it may replace what its snapshot may.
pub proof fn an_upload_goes_on_with_the_journal_that_was_kept(
    snapshot: UploadSnapshot,
    kept: MultipartJournal,
    journal: MultipartJournal,
    fresh: MultipartJournal,
)
    requires
        call_ensures(journal_of, (&snapshot, Some(kept)), journal),
        call_ensures(journal_of, (&snapshot, None), fresh),
    ensures
        journal@ == kept@,
        fresh@.upload_id is None,
        fresh@.parts.len() == 0,
        !fresh@.completing,
        fresh@.published_etag is None,
        fresh@.precondition == snapshot@.publication_guard,
{
}

} // verus!
