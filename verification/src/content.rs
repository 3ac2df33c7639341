//! Checks that what a store sends is what was asked for: its headers before a
//! byte is taken, and its body while it arrives.

use vstd::prelude::*;
use crate::stage;
use crate::stage::{stage_init, PublicationGuard, StageInit, UploadSnapshot};
use crate::status::NfsStatus;
use crate::text;
use crate::text::same_text;
use crate::paths;

verus! {

/// How much of two contents is held against each other at a time.
pub const COMPARE_BYTES: u64 = 1024 * 1024;

/// Why one attempt at a request failed.
pub struct AttemptFailure {
    pub message: String,
    /// Another attempt may succeed.
    pub transient: bool,
}

/// A failed attempt with its message taken as text.
pub ghost struct AttemptModel {
    pub message: Seq<char>,
    pub transient: bool,
}

impl View for AttemptFailure {
    type V = AttemptModel;

    open spec fn view(&self) -> AttemptModel {
        AttemptModel { message: self.message@, transient: self.transient }
    }
}

fn permanent(message: &str) -> (failure: AttemptFailure)
    ensures
        failure@ == (AttemptModel { message: message@, transient: false }),
{
    AttemptFailure { message: message.to_owned(), transient: false }
}

fn transient(message: &str) -> (failure: AttemptFailure)
    ensures
        failure@ == (AttemptModel { message: message@, transient: true }),
{
    AttemptFailure { message: message.to_owned(), transient: true }
}

/// What came of a check, its failure taken as text.
pub open spec fn check_view(check: Result<(), AttemptFailure>) -> Result<(), AttemptModel> {
    match check {
        Ok(()) => Ok(()),
        Err(failure) => Err(failure@),
    }
}

/// What a store says of an object.
pub struct ObjectHead {
    pub etag: Option<String>,
    pub size: Option<i64>,
    pub version_id: Option<String>,
    /// When it was last changed, in seconds.
    pub modified_secs: Option<i64>,
    /// The snapshot that it says it was made from.
    pub snapshot_token: Option<String>,
    /// The rename that it says it was made by.
    pub rename_token: Option<String>,
    /// The creation that it says it was made by.
    pub namespace_token: Option<String>,
}

/// What a store says of an object, its texts taken as characters.
pub ghost struct HeadModel {
    pub etag: Option<Seq<char>>,
    pub size: Option<i64>,
    pub version_id: Option<Seq<char>>,
    pub modified_secs: Option<i64>,
    pub snapshot_token: Option<Seq<char>>,
    pub rename_token: Option<Seq<char>>,
    pub namespace_token: Option<Seq<char>>,
}

impl View for ObjectHead {
    type V = HeadModel;

    open spec fn view(&self) -> HeadModel {
        HeadModel {
            etag: text::optional(self.etag),
            size: self.size,
            version_id: text::optional(self.version_id),
            modified_secs: self.modified_secs,
            snapshot_token: text::optional(self.snapshot_token),
            rename_token: text::optional(self.rename_token),
            namespace_token: text::optional(self.namespace_token),
        }
    }
}

/// An optional head, taken as text.
pub open spec fn head_view(head: Option<ObjectHead>) -> Option<HeadModel> {
    match head {
        Some(h) => Some(h@),
        None => None,
    }
}

/// A version that can be asked for: a store without versions reports `null`.
pub open spec fn real_version(version: Option<Seq<char>>) -> Option<Seq<char>> {
    match version {
        Some(id) => if id == "null"@ {
            None
        } else {
            Some(id)
        },
        None => None,
    }
}

/// The version that can be asked for.
pub fn named_version(version: &Option<String>) -> (named: Option<String>)
    ensures
        text::optional(named) == real_version(text::optional(*version)),
{
    match version {
        Some(id) => {
            if same_text(id.as_str(), "null") {
                None
            } else {
                Some(id.clone())
            }
        },
        None => None,
    }
}

/// The size that a store reports of so many bytes. A length that no store can
/// report is reported by none.
pub open spec fn reported(size: u64) -> Option<i64> {
    if size <= i64::MAX {
        Some(size as i64)
    } else {
        None
    }
}

fn reported_size(size: u64) -> (length: Option<i64>)
    ensures
        length == reported(size),
{
    if size <= i64::MAX as u64 {
        Some(size as i64)
    } else {
        None
    }
}

/// The name by which a snapshot marks its upload.
pub open spec fn token_of(snapshot: stage::SnapshotModel) -> Seq<char> {
    match paths::file_name_of(snapshot.path) {
        Some(name) => name,
        None => Seq::empty(),
    }
}

/// The object says that it is the snapshot's content.
pub open spec fn claims_snapshot(head: HeadModel, snapshot: stage::SnapshotModel) -> bool {
    head.size == reported(snapshot.size) && head.snapshot_token == Some(token_of(snapshot)) && head.etag is Some
}

/// The object that is to be held against a snapshot: its tag and version, if
/// there is an object that says it is the snapshot's content. What it says is
/// not enough; its bytes are read and held against the snapshot's own.
pub fn verification_target(snapshot: &UploadSnapshot, head: Option<ObjectHead>) -> (target: Option<(String, Option<String>)>)
    ensures
        match target {
            Some((etag, version)) => {
                &&& head is Some
                &&& claims_snapshot(head->0@, snapshot@)
                &&& head->0@.etag == Some(etag@)
                &&& text::optional(version) == real_version(head->0@.version_id)
            },
            None => head is None || !claims_snapshot(head->0@, snapshot@),
        },
{
    match head {
        None => None,
        Some(head) => {
            if head.size != reported_size(snapshot.size) {
                return None;
            }
            let token = snapshot.token();
            let marked = match &head.snapshot_token {
                Some(mark) => same_text(mark.as_str(), token.as_str()),
                None => false,
            };
            if !marked {
                return None;
            }
            let version = named_version(&head.version_id);
            match head.etag {
                Some(etag) => Some((etag, version)),
                None => None,
            }
        },
    }
}

/// A response is about the very object that was asked for, and as long as
/// promised.
pub open spec fn same_object(etag: Seq<char>, size: u64, response_etag: Option<Seq<char>>, response_length: Option<i64>) -> bool {
    response_etag == Some(etag) && response_length == Some(size as i64)
}

fn is_same_object(etag: &str, size: u64, response_etag: &Option<String>, response_length: Option<i64>) -> (same: bool)
    ensures
        same == same_object(etag@, size, text::optional(*response_etag), response_length),
{
    let tagged = match response_etag {
        Some(tag) => same_text(tag.as_str(), etag),
        None => false,
    };
    tagged && response_length == Some(
        #[verifier::truncate]
        (size as i64),
    )
}

/// Checks the headers of the response that a snapshot is held against.
pub fn check_verification_headers(
    snapshot: &UploadSnapshot,
    etag: &str,
    response_etag: &Option<String>,
    response_length: Option<i64>,
) -> (check: Result<(), AttemptFailure>)
    ensures
        check_view(check) == (if same_object(etag@, snapshot.size, text::optional(*response_etag), response_length) {
            Ok::<(), AttemptModel>(())
        } else {
            Err(AttemptModel { message: "Snapshot verification GET identity changed"@, transient: false })
        }),
{
    if is_same_object(etag, snapshot.size, response_etag, response_length) {
        Ok(())
    } else {
        Err(permanent("Snapshot verification GET identity changed"))
    }
}

/// A snapshot's file on the one side and an object's body on the other, held
/// against each other piece by piece.
pub struct ContentCheck {
    remaining: u64,
    local: Ghost<Seq<u8>>,
    remote: Ghost<Seq<u8>>,
}

impl ContentCheck {
    /// The bytes that were read of the file.
    pub closed spec fn local(&self) -> Seq<u8> {
        self.local@
    }

    /// The bytes that were received of the object.
    pub closed spec fn remote(&self) -> Seq<u8> {
        self.remote@
    }

    /// How many bytes are still to be compared.
    pub closed spec fn left(&self) -> u64 {
        self.remaining
    }

    /// Nothing but equal bytes was seen.
    pub open spec fn agrees(&self) -> bool {
        self.local() == self.remote()
    }

    /// Begins a comparison, given how long the snapshot's file was found to
    /// be: none where it cannot be read.
    pub fn begin(snapshot: &UploadSnapshot, file_length: Option<u64>) -> (check: Result<Self, AttemptFailure>)
        ensures
            match check {
                Ok(check) => {
                    &&& file_length == Some(snapshot.size)
                    &&& check.left() == snapshot.size
                    &&& check.local() == Seq::<u8>::empty()
                    &&& check.agrees()
                },
                Err(failure) => {
                    &&& file_length != Some(snapshot.size)
                    &&& failure@ == (AttemptModel { message: "Snapshot file size changed"@, transient: false })
                },
            },
    {
        if file_length == Some(snapshot.size) {
            Ok(ContentCheck { remaining: snapshot.size, local: Ghost(Seq::empty()), remote: Ghost(Seq::empty()) })
        } else {
            Err(permanent("Snapshot file size changed"))
        }
    }

    /// How many bytes to read next of either side.
    pub fn next_count(&self) -> (count: usize)
        ensures
            count == (if self.left() < COMPARE_BYTES {
                self.left()
            } else {
                COMPARE_BYTES
            }),
    {
        if self.remaining < COMPARE_BYTES {
            self.remaining as usize
        } else {
            COMPARE_BYTES as usize
        }
    }

    /// Takes the next bytes of either side, none where they could not be read
    /// in full.
    pub fn on_bytes(&mut self, local: Option<&Vec<u8>>, remote: Option<&Vec<u8>>) -> (check: Result<(), AttemptFailure>)
        requires
            old(self).agrees(),
            local matches Some(bytes) ==> bytes@.len() <= old(self).left(),
        ensures
            match (local, remote) {
                (None, _) => check_view(check) == Err::<(), AttemptModel>(
                    AttemptModel { message: "Snapshot local read failed"@, transient: false },
                ),
                (Some(_), None) => check_view(check) == Err::<(), AttemptModel>(
                    AttemptModel { message: "Snapshot verification GET body failed"@, transient: true },
                ),
                (Some(expected), Some(received)) => if expected@ == received@ {
                    &&& check is Ok
                    &&& final(self).local() == old(self).local() + expected@
                    &&& final(self).remote() == old(self).remote() + received@
                    &&& final(self).left() == old(self).left() - expected@.len()
                    &&& final(self).agrees()
                } else {
                    check_view(check) == Err::<(), AttemptModel>(
                        AttemptModel { message: "Snapshot content mismatch"@, transient: false },
                    )
                },
            },
            check is Err ==> *final(self) == *old(self),
    {
        match (local, remote) {
            (None, _) => Err(permanent("Snapshot local read failed")),
            (Some(_), None) => Err(transient("Snapshot verification GET body failed")),
            (Some(expected), Some(received)) => {
                if !same_bytes(expected, received) {
                    return Err(permanent("Snapshot content mismatch"));
                }
                self.remaining = self.remaining - expected.len() as u64;
                proof {
                    self.local@ = self.local@ + expected@;
                    self.remote@ = self.remote@ + received@;
                }
                Ok(())
            },
        }
    }

    /// Ends the comparison, given whether the object's body ended too.
    pub fn finish(&self, body_ended: bool) -> (check: Result<(), AttemptFailure>)
        requires
            self.agrees(),
            self.left() == 0,
        ensures
            check_view(check) == (if body_ended {
                Ok::<(), AttemptModel>(())
            } else {
                Err(AttemptModel { message: "Snapshot verification GET returned extra bytes"@, transient: false })
            }),
    {
        if body_ended {
            Ok(())
        } else {
            Err(permanent("Snapshot verification GET returned extra bytes"))
        }
    }
}

/// Whether two contents are the same bytes.
pub fn same_bytes(a: &Vec<u8>, b: &Vec<u8>) -> (same: bool)
    ensures
        same == (a@ == b@),
{
    if a.len() != b.len() {
        return false;
    }
    let mut i: usize = 0;
    while i < a.len()
        invariant
            i <= a.len(),
            a.len() == b.len(),
            forall|j: int| 0 <= j < i ==> a@[j] == b@[j],
        decreases a.len() - i,
    {
        if a[i] != b[i] {
            return false;
        }
        i = i + 1;
    }
    assert(a@ =~= b@);
    true
}

/// The body of one chunk while it arrives.
pub struct BodyBuffer {
    bytes: Vec<u8>,
    expected: u64,
}

impl BodyBuffer {
    /// What arrived so far.
    pub closed spec fn received(&self) -> Seq<u8> {
        self.bytes@
    }

    /// How many bytes were promised.
    pub closed spec fn promised(&self) -> u64 {
        self.expected
    }

    /// Nothing has arrived yet.
    pub fn new(expected: u64) -> (buffer: Self)
        ensures
            buffer.received() == Seq::<u8>::empty(),
            buffer.promised() == expected,
    {
        BodyBuffer { bytes: Vec::new(), expected }
    }

    /// Takes the next bytes. More than was promised ends the attempt for good.
    pub fn on_bytes(&mut self, bytes: &Vec<u8>) -> (check: Result<(), AttemptFailure>)
        ensures
            final(self).promised() == old(self).promised(),
            if old(self).received().len() + bytes@.len() > old(self).promised() {
                &&& check_view(check) == Err::<(), AttemptModel>(
                    AttemptModel { message: "GET body exceeded Content-Length"@, transient: false },
                )
                &&& final(self).received() == old(self).received()
            } else {
                check is Ok && final(self).received() == old(self).received() + bytes@
            },
    {
        let arrived: u64 = self.bytes.len() as u64;
        let more: u64 = bytes.len() as u64;
        if arrived.saturating_add(more) > self.expected || arrived.checked_add(more).is_none() {
            return Err(permanent("GET body exceeded Content-Length"));
        }
        let ghost before = self.bytes@;
        let mut i: usize = 0;
        assert(bytes@.take(0) =~= Seq::empty());
        assert(before + bytes@.take(0) =~= before);
        while i < bytes.len()
            invariant
                i <= bytes.len(),
                self.expected == old(self).expected,
                self.bytes@ == before + bytes@.take(i as int),
            decreases bytes.len() - i,
        {
            self.bytes.push(bytes[i]);
            assert(bytes@.take(i + 1) =~= bytes@.take(i as int).push(bytes@[i as int]));
            assert(self.bytes@ =~= before + bytes@.take(i + 1));
            i = i + 1;
        }
        assert(bytes@.take(i as int) =~= bytes@);
        Ok(())
    }

    /// Takes that the body ended. Fewer bytes than were promised may be made
    /// good by another attempt.
    pub fn finish(self) -> (body: Result<Vec<u8>, AttemptFailure>)
        ensures
            match body {
                Ok(bytes) => bytes@ == self.received() && bytes@.len() == self.promised(),
                Err(failure) => self.received().len() != self.promised() && failure@ == (AttemptModel {
                    message: "GET body length did not match Content-Length"@,
                    transient: true,
                }),
            },
    {
        if self.bytes.len() as u64 == self.expected {
            Ok(self.bytes)
        } else {
            Err(transient("GET body length did not match Content-Length"))
        }
    }
}

/// The count of a download that goes to a file.
pub struct DownloadCount {
    pub expected: u64,
    pub received: u64,
}

impl DownloadCount {
    /// Nothing has arrived yet.
    pub fn new(expected: u64) -> (count: Self)
        ensures
            count.expected == expected,
            count.received == 0,
    {
        DownloadCount { expected, received: 0 }
    }

    /// Takes that so many bytes arrived. They may be written only where the
    /// check passes.
    pub fn on_bytes(&mut self, length: u64) -> (check: Result<(), AttemptFailure>)
        ensures
            final(self).expected == old(self).expected,
            if old(self).received + length > old(self).expected {
                &&& check_view(check) == Err::<(), AttemptModel>(
                    AttemptModel { message: "GET response body exceeded promised content length"@, transient: false },
                )
                &&& final(self).received == old(self).received
            } else {
                check is Ok && final(self).received == old(self).received + length
            },
    {
        match self.received.checked_add(length) {
            Some(total) => {
                if total > self.expected {
                    Err(permanent("GET response body exceeded promised content length"))
                } else {
                    self.received = total;
                    Ok(())
                }
            },
            None => Err(permanent("GET response body exceeded promised content length")),
        }
    }

    /// Takes that the body ended.
    pub fn finish(&self) -> (check: Result<(), AttemptFailure>)
        ensures
            check_view(check) == (if self.received == self.expected {
                Ok::<(), AttemptModel>(())
            } else {
                Err(AttemptModel { message: "GET body ended before promised length"@, transient: true })
            }),
    {
        if self.received == self.expected {
            Ok(())
        } else {
            Err(transient("GET body ended before promised length"))
        }
    }

    /// Takes that so many bytes were staged, in the second pass over the file.
    pub fn on_staged(&mut self, length: u64) -> (check: Result<(), NfsStatus>)
        ensures
            final(self).expected == old(self).expected,
            if old(self).received + length > old(self).expected {
                check == Err::<(), NfsStatus>(NfsStatus::Io) && final(self).received == old(self).received
            } else {
                check is Ok && final(self).received == old(self).received + length
            },
    {
        match self.on_bytes(length) {
            Ok(()) => Ok(()),
            Err(_) => Err(NfsStatus::Io),
        }
    }

    /// Takes that everything was staged.
    pub fn finish_staging(&self) -> (check: Result<(), NfsStatus>)
        ensures
            check == (if self.received == self.expected {
                Ok::<(), NfsStatus>(())
            } else {
                Err(NfsStatus::Io)
            }),
    {
        if self.received == self.expected {
            Ok(())
        } else {
            Err(NfsStatus::Io)
        }
    }
}

/// Checks the headers of the response that a staged file is filled from.
pub fn check_download_headers(
    etag: &str,
    expected: u64,
    response_etag: &Option<String>,
    response_length: Option<i64>,
) -> (check: Result<(), AttemptFailure>)
    ensures
        check_view(check) == (if same_object(etag@, expected, text::optional(*response_etag), response_length) {
            Ok::<(), AttemptModel>(())
        } else {
            Err(AttemptModel { message: "GET response identity did not match the staged source"@, transient: false })
        }),
{
    if is_same_object(etag, expected, response_etag, response_length) {
        Ok(())
    } else {
        Err(permanent("GET response identity did not match the staged source"))
    }
}

/// An object can be edited: it has a size and a tag.
pub open spec fn is_editable(head: HeadModel) -> bool {
    head.size is Some && head.size->0 >= 0 && head.etag is Some && head.etag->0.len() > 0
}

/// How a new stage of an existing object begins.
pub struct PrimePlan {
    /// Only this very object may be replaced by what is staged.
    pub guard: PublicationGuard,
    pub size: u64,
    pub init: StageInit,
}

/// How a new stage begins, by what the store says of the object: what may be
/// replaced later, and whether the content has to be fetched. A store cannot
/// change part of an object, so what is staged has to be the whole of it.
pub fn prime_plan(head: Option<ObjectHead>) -> (plan: Result<PrimePlan, NfsStatus>)
    ensures
        match head {
            None => plan is Err && plan->Err_0 == NfsStatus::NoEnt,
            Some(head) => if is_editable(head@) {
                &&& plan is Ok
                &&& plan->Ok_0.guard@ == (stage::GuardModel::Match { etag: head@.etag->0 })
                &&& plan->Ok_0.size == head.size->0
                &&& plan->Ok_0.init == stage::init_of(head.size->0 as u64)
            } else {
                plan is Err && plan->Err_0 == NfsStatus::Io
            },
        },
{
    match head {
        None => Err(NfsStatus::NoEnt),
        Some(head) => match (head.size, head.etag) {
            (Some(size), Some(etag)) => {
                if size >= 0 && etag.as_str().unicode_len() > 0 {
                    Ok(PrimePlan { guard: PublicationGuard::Match { etag }, size: size as u64, init: stage_init(size as u64) })
                } else {
                    Err(NfsStatus::Io)
                }
            },
            _ => Err(NfsStatus::Io),
        },
    }
}

/// What is fetched into a stage: how long it is, its tag and its version. A
/// stage that holds something already is not filled.
pub fn download_source(head: &ObjectHead, staged: u64) -> (source: Result<(u64, String, Option<String>), NfsStatus>)
    ensures
        if head.size is Some && head.size->0 >= 0 && staged == 0 && head@.etag is Some {
            &&& source is Ok
            &&& source->Ok_0.0 == head.size->0
            &&& Some(source->Ok_0.1@) == head@.etag
            &&& text::optional(source->Ok_0.2) == real_version(head@.version_id)
        } else {
            source is Err && source->Err_0 == NfsStatus::Io
        },
{
    match (head.size, &head.etag) {
        (Some(size), Some(etag)) => {
            if size >= 0 && staged == 0 {
                Ok((size as u64, etag.clone(), named_version(&head.version_id)))
            } else {
                Err(NfsStatus::Io)
            }
        },
        _ => Err(NfsStatus::Io),
    }
}

/// A version is asked for by its name, except by `null`, which names none.
pub proof fn the_null_version_is_not_asked_for(version: Seq<char>)
    ensures
        real_version(None) is None,
        version == "null"@ ==> real_version(Some(version)) is None,
        version != "null"@ ==> real_version(Some(version)) == Some(version),
{
}

/// A store reports the size of what it holds, as far as it can.
pub proof fn a_size_is_reported_as_it_is(size: u64)
    ensures
        size <= i64::MAX ==> reported(size) is Some && reported(size)->0 == size,
        size > i64::MAX ==> reported(size) is None,
{
}

/// An object is held against a snapshot only where it is as large, carries the
/// snapshot's mark and has a tag to be asked for by.
pub proof fn an_object_claims_a_snapshot_by_size_mark_and_tag(head: HeadModel, snapshot: stage::SnapshotModel)
    ensures
        claims_snapshot(head, snapshot) ==> head.etag is Some && head.snapshot_token is Some,
        claims_snapshot(head, snapshot) && snapshot.size <= i64::MAX ==> head.size is Some && head.size->0 == snapshot.size,
        head.etag is Some && head.size is Some && head.size->0 == snapshot.size && paths::file_name_of(snapshot.path) is Some
            && head.snapshot_token == paths::file_name_of(snapshot.path) ==> claims_snapshot(head, snapshot),
        head.etag is None ==> !claims_snapshot(head, snapshot),
        paths::file_name_of(snapshot.path) is Some && head.snapshot_token != paths::file_name_of(snapshot.path) ==> !claims_snapshot(
            head,
            snapshot,
        ),
{
}

/// A response is taken only where it has the tag and the length that were
/// asked for.
pub proof fn another_object_is_not_taken(etag: Seq<char>, size: u64, response_etag: Option<Seq<char>>, response_length: Option<i64>)
    requires
        size <= i64::MAX,
    ensures
        same_object(etag, size, response_etag, response_length) <==> {
            &&& response_etag is Some
            &&& response_etag->0 == etag
            &&& response_length is Some
            &&& response_length->0 == size
        },
{
}

/// An object can be edited where its size is known and it has a tag by which
/// its replacement can be guarded.
pub proof fn an_object_is_edited_under_its_tag(head: HeadModel)
    ensures
        is_editable(head) <==> {
            &&& head.size is Some
            &&& head.size->0 >= 0
            &&& head.etag is Some
            &&& head.etag->0.len() > 0
        },
{
}

/// Of an object that says it is the snapshot's content, that very version is
/// read; nothing else is.
pub proof fn only_what_claims_a_snapshot_is_compared(
    snapshot: UploadSnapshot,
    head: Option<ObjectHead>,
    target: Option<(String, Option<String>)>,
)
    requires
        call_ensures(verification_target, (&snapshot, head), target),
    ensures
        head is None ==> target is None,
        target is Some ==> head is Some && head->0.etag is Some && ((target->0).0)@ == (head->0.etag->0)@,
        target is Some && snapshot.size <= i64::MAX ==> head->0.size is Some && head->0.size->0 == snapshot.size,
        target is Some && (target->0).1 is Some ==> head->0.version_id is Some && ((target->0).1->0)@ == (head->0.version_id->0)@ && (
        (target->0).1->0)@ != "null"@,
        head is Some && claims_snapshot(head->0@, snapshot@) ==> target is Some,
{
}

/// A new stage begins from an object that is there and can be edited, and may
/// replace that object only.
pub proof fn a_stage_begins_from_what_may_be_replaced(head: Option<ObjectHead>, plan: Result<PrimePlan, NfsStatus>)
    requires
        call_ensures(prime_plan, (head,), plan),
    ensures
        head is None ==> plan is Err && plan->Err_0 == NfsStatus::NoEnt,
        plan is Ok ==> head is Some && head->0.size is Some && head->0.etag is Some && plan->Ok_0.size == head->0.size->0
            && plan->Ok_0.guard@ == (stage::GuardModel::Match { etag: (head->0.etag->0)@ }),
        head is Some && head->0.size is Some && head->0.size->0 >= 0 && head->0.etag is Some && (head->0.etag->0)@.len() > 0 ==> plan is Ok,
        head is Some && plan is Err ==> plan->Err_0 == NfsStatus::Io,
{
}

/// Content is fetched into an empty stage only, under the tag and in the
/// version that the store named.
pub proof fn content_is_fetched_into_an_empty_stage(
    head: ObjectHead,
    staged: u64,
    source: Result<(u64, String, Option<String>), NfsStatus>,
)
    requires
        call_ensures(download_source, (&head, staged), source),
    ensures
        source is Ok <==> staged == 0 && head.size is Some && head.size->0 >= 0 && head.etag is Some,
        source is Ok ==> source->Ok_0.0 == head.size->0 && (source->Ok_0.1)@ == (head.etag->0)@,
        source is Ok && source->Ok_0.2 is Some ==> head.version_id is Some && (source->Ok_0.2->0)@ == (head.version_id->0)@,
        source is Ok && head.version_id is Some && (head.version_id->0)@ != "null"@ ==> source->Ok_0.2 is Some,
        source is Err ==> source->Err_0 == NfsStatus::Io,
{
}

/// Content is held against a snapshot byte by byte: what differs, what is
/// missing and what is left over all count as another content.
pub proof fn content_is_the_same_only_byte_by_byte(local: Vec<u8>, remote: Vec<u8>, body_ended: bool, check: ContentCheck, end: Result<(), AttemptFailure>)
    requires
        call_ensures(ContentCheck::finish, (&check, body_ended), end),
    ensures
        end is Ok <==> body_ended,
        forall|going: &mut ContentCheck, outcome: Result<(), AttemptFailure>| #[trigger]
            call_ensures(ContentCheck::on_bytes, (going, Some(&local), Some(&remote)), outcome) ==> (outcome is Ok <==> local@ == remote@) && (
            outcome is Err ==> !(outcome->Err_0).transient && *final(going) == *going) && (outcome is Ok ==> final(going).left()
                == (*going).left() - local@.len()),
        forall|going: &mut ContentCheck, outcome: Result<(), AttemptFailure>| #[trigger]
            call_ensures(ContentCheck::on_bytes, (going, Some(&local), None), outcome) ==> outcome is Err && (outcome->Err_0).transient,
        forall|going: &mut ContentCheck, outcome: Result<(), AttemptFailure>| #[trigger]
            call_ensures(ContentCheck::on_bytes, (going, None, Some(&remote)), outcome) ==> outcome is Err && !(outcome->Err_0).transient,
{
}

/// A comparison begins only where the file is as long as the snapshot says.
pub proof fn a_file_of_another_length_is_not_compared(
    snapshot: UploadSnapshot,
    file_length: Option<u64>,
    begun: Result<ContentCheck, AttemptFailure>,
)
    requires
        call_ensures(ContentCheck::begin, (&snapshot, file_length), begun),
    ensures
        begun is Ok <==> file_length == Some(snapshot.size),
        begun is Ok ==> begun->Ok_0.left() == snapshot.size,
{
}

/// No more is taken of a body than was promised, and no less counts as whole.
pub proof fn a_body_is_as_long_as_promised(bytes: Vec<u8>, buffer: BodyBuffer, body: Result<Vec<u8>, AttemptFailure>)
    requires
        call_ensures(BodyBuffer::finish, (buffer,), body),
    ensures
        body is Ok ==> (body->Ok_0)@ == buffer.received() && buffer.received().len() == buffer.promised(),
        body is Err ==> buffer.received().len() != buffer.promised() && (body->Err_0).transient,
        forall|going: &mut BodyBuffer, check: Result<(), AttemptFailure>| #[trigger]
            call_ensures(BodyBuffer::on_bytes, (going, &bytes), check) ==> {
                &&& check is Ok <==> (*going).received().len() + bytes@.len() <= (*going).promised()
                &&& check is Ok ==> final(going).received() == (*going).received() + bytes@
                &&& check is Err ==> final(going).received() == (*going).received() && !(check->Err_0).transient
                &&& final(going).promised() == (*going).promised()
            },
{
}

/// A download is counted to just what was promised.
pub proof fn a_download_is_counted_to_what_was_promised(length: u64, count: DownloadCount, end: Result<(), AttemptFailure>, staged: Result<(), NfsStatus>)
    requires
        call_ensures(DownloadCount::finish, (&count,), end),
        call_ensures(DownloadCount::finish_staging, (&count,), staged),
    ensures
        end is Ok <==> count.received == count.expected,
        staged is Ok <==> count.received == count.expected,
        end is Err ==> (end->Err_0).transient,
        forall|going: &mut DownloadCount, check: Result<(), AttemptFailure>| #[trigger]
            call_ensures(DownloadCount::on_bytes, (going, length), check) ==> {
                &&& check is Ok <==> (*going).received + length <= (*going).expected
                &&& check is Ok ==> final(going).received == (*going).received + length
                &&& check is Err ==> final(going).received == (*going).received && !(check->Err_0).transient
                &&& final(going).expected == (*going).expected
            },
        forall|going: &mut DownloadCount, check: Result<(), NfsStatus>| #[trigger]
            call_ensures(DownloadCount::on_staged, (going, length), check) ==> {
                &&& check is Ok <==> (*going).received + length <= (*going).expected
                &&& check is Ok ==> final(going).received == (*going).received + length
                &&& check is Err ==> final(going).received == (*going).received && check->Err_0 == NfsStatus::Io
            },
{
}

/// A response about another object, or of another length, is refused for good.
pub proof fn a_response_about_another_object_is_refused(
    etag: &str,
    expected: u64,
    response_etag: Option<String>,
    response_length: Option<i64>,
    check: Result<(), AttemptFailure>,
    snapshot: UploadSnapshot,
    verification: Result<(), AttemptFailure>,
)
    requires
        expected <= i64::MAX,
        snapshot.size == expected,
        call_ensures(check_download_headers, (etag, expected, &response_etag, response_length), check),
        call_ensures(check_verification_headers, (&snapshot, etag, &response_etag, response_length), verification),
    ensures
        check is Ok <==> response_etag is Some && (response_etag->0)@ == etag@ && response_length is Some && response_length->0 == expected,
        verification is Ok <==> check is Ok,
        check is Err ==> !(check->Err_0).transient,
        verification is Err ==> !(verification->Err_0).transient,
{
}

} // verus!
