//! Changes to a single name that outlive a crash.
//!
//! Creating an empty object and deleting one are written down before they are
//! asked for. The note is kept until the store was seen to have done it, and a
//! note that is found at the next start is carried out then, under the same
//! condition: nothing that somebody else has put there since is touched.

use vstd::prelude::*;
use crate::content::ObjectHead;
use crate::content;
use crate::inventory::FileObservation;
use crate::journal::{copy_text, Condition};
use crate::key_map::KeyMap;
use crate::rename_plan::PendingRename;
use crate::stage;
use crate::stage::{unreadable_record, StageRecovery};
use crate::status::NfsStatus;
use crate::text;
use crate::text::{has_prefix, has_suffix, same_optional, same_text};

verus! {

/// The largest note that is read.
pub const MAX_OPERATION_BYTES: u64 = 32 * 1024 * 1024;

/// The version of the notes that this library writes.
pub const INTENT_VERSION: u32 = 1;

/// What a note is about.
#[derive(Clone, Copy, Debug, PartialEq, Eq, Structural)]
pub enum OperationRecord {
    /// A change to one name.
    Namespace,
    /// A rename.
    Rename,
}

/// What a file in the folder is about, by its name.
pub open spec fn operation_of(name: Seq<char>) -> Option<OperationRecord> {
    if !".json"@.is_suffix_of(name) || "rename-part-"@.is_prefix_of(name) {
        None
    } else if "rename-"@.is_prefix_of(name) {
        Some(OperationRecord::Rename)
    } else if "namespace-"@.is_prefix_of(name) {
        Some(OperationRecord::Namespace)
    } else {
        None
    }
}

/// What a file in the folder is about, by its name.
pub fn operation_kind(name: &str) -> (kind: Option<OperationRecord>)
    ensures
        kind == operation_of(name@),
{
    if !has_suffix(name, ".json") || has_prefix(name, "rename-part-") {
        None
    } else if has_prefix(name, "rename-") {
        Some(OperationRecord::Rename)
    } else if has_prefix(name, "namespace-") {
        Some(OperationRecord::Namespace)
    } else {
        None
    }
}

/// The entries of a note that are reported.
pub struct OperationFields {
    /// The `key` entry: whether there is one, and its text where it is one.
    pub key: Option<Option<String>>,
    /// The `from` entry, likewise.
    pub from: Option<Option<String>>,
    pub last_error: Option<String>,
}

/// The key that a note is about: its `key` entry, or else its `from` entry.
pub open spec fn source_key(fields: OperationFields) -> Option<Seq<char>> {
    match fields.key {
        Some(key) => text::optional(key),
        None => match fields.from {
            Some(from) => text::optional(from),
            None => None,
        },
    }
}

/// What was found of one note: what its file is, and its entries.
pub enum OperationInput {
    /// The file could not be looked at.
    Unseen(String),
    /// What the file is, and its entries or why they could not be read.
    Seen(FileObservation, Result<OperationFields, String>),
}

/// A file is not one that a note is kept in.
pub open spec fn is_unfit(observation: FileObservation) -> bool {
    !observation.is_regular() || observation.length > MAX_OPERATION_BYTES
}

/// Why a note cannot be used.
pub open spec fn complaint(input: OperationInput) -> Option<Seq<char>> {
    match input {
        OperationInput::Unseen(message) => Some(message@),
        OperationInput::Seen(observation, fields) => if is_unfit(observation) {
            Some("Invalid namespace recovery record"@)
        } else {
            match fields {
                Err(message) => Some(message@),
                Ok(entries) => if source_key(entries) is None {
                    Some("Namespace record omitted its source key"@)
                } else {
                    None
                },
            }
        },
    }
}

/// The entries of a note that can be used.
pub open spec fn entries_of(input: OperationInput) -> OperationFields {
    input->Seen_1->Ok_0
}

/// What is reported of a note that can be used.
pub open spec fn operation_model(path: Seq<char>, kind: OperationRecord, fields: OperationFields) -> stage::RecoveryModel {
    stage::RecoveryModel {
        key: source_key(fields)->0,
        size: 0,
        mtime_secs: 0,
        generation: 0,
        dirty: false,
        state: if kind == OperationRecord::Rename {
            "rename_recovery"@
        } else {
            "namespace_recovery"@
        },
        error: text::optional(fields.last_error),
        path,
        snapshot: None,
        publication_guard: None,
        checkpoint_lsn: 0,
        first_dirty_at: None,
        wal_bytes: None,
    }
}

/// What is reported of one note. One that cannot be used is reported as such,
/// unless its file has gone in the meantime.
pub fn operation_record(path: String, kind: OperationRecord, input: OperationInput, still_exists: bool) -> (record: Option<StageRecovery>)
    ensures
        match complaint(input) {
            None => record is Some && record->0@ == operation_model(path@, kind, entries_of(input)),
            Some(message) => if still_exists {
                record is Some && record->0@ == stage::unreadable(path@, Seq::empty(), message)
            } else {
                record is None
            },
        },
{
    let message: String = match input {
        OperationInput::Unseen(message) => message,
        OperationInput::Seen(observation, fields) => {
            if !observation.is_file || observation.is_symlink || observation.length > MAX_OPERATION_BYTES {
                "Invalid namespace recovery record".to_owned()
            } else {
                match fields {
                    Err(message) => message,
                    Ok(entries) => {
                        let key: Option<String> = match entries.key {
                            Some(key) => key,
                            None => match entries.from {
                                Some(from) => from,
                                None => None,
                            },
                        };
                        match key {
                            Some(key) => {
                                let state = if kind == OperationRecord::Rename {
                                    "rename_recovery".to_owned()
                                } else {
                                    "namespace_recovery".to_owned()
                                };
                                return Some(
                                    StageRecovery {
                                        key,
                                        size: 0,
                                        mtime_secs: 0,
                                        generation: 0,
                                        dirty: false,
                                        state,
                                        error: entries.last_error,
                                        path,
                                        snapshot: None,
                                        publication_guard: None,
                                        checkpoint_lsn: 0,
                                        first_dirty_at: None,
                                        wal_bytes: None,
                                    },
                                );
                            },
                            None => "Namespace record omitted its source key".to_owned(),
                        }
                    },
                }
            }
        },
    };
    if still_exists {
        let nameless = String::new();
        assert(nameless@ =~= Seq::empty());
        Some(unreadable_record(path, nameless, message))
    } else {
        None
    }
}

/// A change to one name, written down before it is asked for.
pub struct NamespaceIntent {
    pub version: u32,
    pub key: String,
    pub operation: String,
    /// What marks the object that this very change makes.
    pub token: String,
    /// The object that stood there when the change was decided.
    pub previous_etag: Option<String>,
}

/// A change to one name, its texts taken as characters.
pub ghost struct IntentModel {
    pub version: u32,
    pub key: Seq<char>,
    pub operation: Seq<char>,
    pub token: Seq<char>,
    pub previous_etag: Option<Seq<char>>,
}

impl View for NamespaceIntent {
    type V = IntentModel;

    open spec fn view(&self) -> IntentModel {
        IntentModel {
            version: self.version,
            key: self.key@,
            operation: self.operation@,
            token: self.token@,
            previous_etag: text::optional(self.previous_etag),
        }
    }
}

/// An empty object is made.
pub open spec fn making() -> Seq<char> {
    "empty"@
}

/// An object is deleted.
pub open spec fn deleting() -> Seq<char> {
    "delete"@
}

/// Decides to make an empty object, by what stands at the key. What stands
/// there is replaced only where that is asked for.
pub fn plan_empty(key: String, replace: bool, head: &Option<ObjectHead>, token: String) -> (intent: Result<NamespaceIntent, NfsStatus>)
    ensures
        match *head {
            Some(there) => if !replace {
                intent is Err && intent->Err_0 == NfsStatus::Exist
            } else if there@.etag is None {
                intent is Err && intent->Err_0 == NfsStatus::Io
            } else {
                intent is Ok && intent->Ok_0@ == (IntentModel {
                    version: INTENT_VERSION,
                    key: key@,
                    operation: making(),
                    token: token@,
                    previous_etag: there@.etag,
                })
            },
            None => intent is Ok && intent->Ok_0@ == (IntentModel {
                version: INTENT_VERSION,
                key: key@,
                operation: making(),
                token: token@,
                previous_etag: None,
            }),
        },
{
    let previous_etag: Option<String> = match head {
        Some(there) => {
            if !replace {
                return Err(NfsStatus::Exist);
            }
            match &there.etag {
                Some(etag) => Some(etag.clone()),
                None => {
                    return Err(NfsStatus::Io);
                },
            }
        },
        None => None,
    };
    Ok(NamespaceIntent { version: INTENT_VERSION, key, operation: "empty".to_owned(), token, previous_etag })
}

/// Decides to delete the object that stands at the key, given whether the
/// store honours a conditional deletion.
pub fn plan_delete(key: String, head: &ObjectHead, supported: bool, token: String) -> (intent: Result<NamespaceIntent, NfsStatus>)
    ensures
        if !supported {
            intent is Err && intent->Err_0 == NfsStatus::NotSupp
        } else if head@.etag is None {
            intent is Err && intent->Err_0 == NfsStatus::Io
        } else {
            intent is Ok && intent->Ok_0@ == (IntentModel {
                version: INTENT_VERSION,
                key: key@,
                operation: deleting(),
                token: token@,
                previous_etag: head@.etag,
            })
        },
{
    if !supported {
        return Err(NfsStatus::NotSupp);
    }
    match &head.etag {
        Some(etag) => Ok(
            NamespaceIntent {
                version: INTENT_VERSION,
                key,
                operation: "delete".to_owned(),
                token,
                previous_etag: Some(etag.clone()),
            },
        ),
        None => Err(NfsStatus::Io),
    }
}

/// Whether a key may be created or deleted: not while the publication of what
/// was staged for it may have been asked for without being seen, nor while an
/// earlier change to it is open.
pub fn ensure_key_settled(publication_open: bool, published: bool, change_open: bool) -> (gate: Result<(), NfsStatus>)
    ensures
        gate == (if (publication_open && !published) || change_open {
            Err::<(), NfsStatus>(NfsStatus::Io)
        } else {
            Ok(())
        }),
{
    if publication_open && !published {
        return Err(NfsStatus::Io);
    }
    if change_open {
        return Err(NfsStatus::Io);
    }
    Ok(())
}

/// What has to be honoured so that the change touches nothing else.
pub open spec fn intent_condition_of(intent: IntentModel) -> Condition {
    if intent.operation == deleting() {
        Condition::DeleteMatch
    } else if intent.previous_etag is Some {
        Condition::PutMatch
    } else {
        Condition::PutCreate
    }
}

/// What has to be honoured so that the change touches nothing else.
pub fn intent_condition(intent: &NamespaceIntent) -> (condition: Condition)
    ensures
        condition == intent_condition_of(intent@),
{
    if same_text(intent.operation.as_str(), "delete") {
        Condition::DeleteMatch
    } else if intent.previous_etag.is_some() {
        Condition::PutMatch
    } else {
        Condition::PutCreate
    }
}

/// A change that this library can carry out.
pub open spec fn is_known(intent: IntentModel) -> bool {
    intent.version == INTENT_VERSION && (intent.operation == making() || intent.operation == deleting())
}

/// What stands at the key is what the change leads to.
pub open spec fn is_done(intent: IntentModel, head: Option<content::HeadModel>) -> bool {
    if intent.operation == deleting() {
        head is None
    } else {
        head is Some && head->0.size == Some(0i64) && head->0.namespace_token == Some(intent.token)
    }
}

/// Whether a note can be used at all, before the store is asked.
pub fn check_intent_version(intent: &NamespaceIntent) -> (check: Result<(), NfsStatus>)
    ensures
        check == (if intent.version == INTENT_VERSION {
            Ok::<(), NfsStatus>(())
        } else {
            Err(NfsStatus::NotSupp)
        }),
{
    if intent.version == INTENT_VERSION {
        Ok(())
    } else {
        Err(NfsStatus::NotSupp)
    }
}

/// Whether the change has happened already, by what stands at the key.
pub fn is_intent_done(intent: &NamespaceIntent, head: &Option<ObjectHead>) -> (done: Result<bool, NfsStatus>)
    requires
        intent.version == INTENT_VERSION,
    ensures
        done == (if is_known(intent@) {
            Ok::<bool, NfsStatus>(is_done(intent@, content::head_view(*head)))
        } else {
            Err(NfsStatus::NotSupp)
        }),
{
    proof {
        reveal_strlit("empty");
        reveal_strlit("delete");
        assert("empty"@.len() != "delete"@.len());
    }
    if same_text(intent.operation.as_str(), "empty") {
        match head {
            None => Ok(false),
            Some(there) => {
                let marked = match &there.namespace_token {
                    Some(token) => same_text(token.as_str(), intent.token.as_str()),
                    None => false,
                };
                Ok(there.size == Some(0i64) && marked)
            },
        }
    } else if same_text(intent.operation.as_str(), "delete") {
        Ok(head.is_none())
    } else {
        Err(NfsStatus::NotSupp)
    }
}

/// The request that carries out a change.
pub enum IntentRequest {
    /// Put an empty object there; it may replace only this one, or nothing.
    Put(Option<String>),
    /// Delete the object with this tag.
    Delete(String),
}

/// What a request may replace or delete, as text; none where it may only
/// create.
pub open spec fn request_view(request: IntentRequest) -> (bool, Option<Seq<char>>) {
    match request {
        IntentRequest::Put(etag) => (false, text::optional(etag)),
        IntentRequest::Delete(etag) => (true, Some(etag@)),
    }
}

/// The tag of what stands at a key.
pub open spec fn tag_of(head: Option<content::HeadModel>) -> Option<Seq<char>> {
    match head {
        Some(there) => there.etag,
        None => None,
    }
}

/// The request that carries out a change which has not happened, given whether
/// the store honours its condition. Where something else stands at the key
/// than when the change was decided, it is not carried out.
pub fn intent_request(intent: &NamespaceIntent, head: &Option<ObjectHead>, supported: bool) -> (request: Result<IntentRequest, NfsStatus>)
    requires
        is_known(intent@),
    ensures
        if !supported {
            request is Err && request->Err_0 == NfsStatus::NotSupp
        } else if tag_of(content::head_view(*head)) != intent@.previous_etag {
            request is Err && request->Err_0 == NfsStatus::Io
        } else if intent@.operation == deleting() && intent@.previous_etag is None {
            request is Err && request->Err_0 == NfsStatus::Io
        } else {
            request is Ok && request_view(request->Ok_0) == (intent@.operation == deleting(), intent@.previous_etag)
        },
{
    if !supported {
        return Err(NfsStatus::NotSupp);
    }
    let current: Option<String> = match head {
        Some(there) => copy_text(&there.etag),
        None => None,
    };
    if !same_optional(&current, &intent.previous_etag) {
        return Err(NfsStatus::Io);
    }
    proof {
        reveal_strlit("empty");
        reveal_strlit("delete");
        assert("empty"@.len() != "delete"@.len());
    }
    if same_text(intent.operation.as_str(), "empty") {
        Ok(IntentRequest::Put(copy_text(&intent.previous_etag)))
    } else {
        match &intent.previous_etag {
            Some(etag) => Ok(IntentRequest::Delete(etag.clone())),
            None => Err(NfsStatus::Io),
        }
    }
}

/// A change is carried out once: where the store was seen to have done it, it
/// is not asked for again. An empty object that this change made, and a key
/// that this change emptied, are recognised as that.
pub proof fn a_change_is_not_carried_out_twice(intent: IntentModel, made: content::HeadModel)
    requires
        is_known(intent),
        made.size == Some(0i64),
        made.namespace_token == Some(intent.token),
    ensures
        intent.operation == making() ==> is_done(intent, Some(made)),
        intent.operation == deleting() ==> is_done(intent, None),
{
    reveal_strlit("empty");
    reveal_strlit("delete");
    assert("empty"@.len() != "delete"@.len());
}

/// What a change to one name waits for.
#[derive(Clone, Copy, Debug, PartialEq, Eq, Structural)]
pub enum IntentPhase {
    /// The note is to be saved.
    Saving,
    /// What stands at the key is to be looked at.
    Looking,
    /// The store is to be asked whether it honours the condition.
    AskingCondition,
    /// The request is to be sent.
    Sending,
    /// What is staged and cached for the key is to be dropped.
    Dropping,
    /// The note is to be removed.
    Removing,
    /// Nothing is left to do.
    Done,
}

/// A change to one name under way.
pub struct IntentRun {
    pub intent: NamespaceIntent,
    pub phase: IntentPhase,
    /// The note is on disk.
    pub noted: bool,
    /// What stood at the key.
    pub head: Option<ObjectHead>,
    /// What the store is asked for.
    pub request: Option<IntentRequest>,
    pub failure: Option<NfsStatus>,
}

impl IntentRun {
    /// What holds at every step.
    pub open spec fn valid(self) -> bool {
        &&& self.failure is Some ==> self.phase == IntentPhase::Done
        &&& self.phase != IntentPhase::Saving && self.phase != IntentPhase::Done ==> self.intent.version == INTENT_VERSION && self.noted
        &&& self.phase == IntentPhase::AskingCondition || self.phase == IntentPhase::Sending ==> is_known(self.intent@) && !is_done(
            self.intent@,
            content::head_view(self.head),
        )
        &&& self.phase == IntentPhase::Sending ==> self.request is Some && request_view(self.request->0) == (
            self.intent@.operation == deleting(),
            self.intent@.previous_etag,
        ) && tag_of(content::head_view(self.head)) == self.intent@.previous_etag
    }

    /// The change ends here.
    pub open spec fn is_stopped(self, before: IntentRun, status: NfsStatus) -> bool {
        self == (IntentRun { phase: IntentPhase::Done, failure: Some(status), ..before })
    }

    /// One step may lead from here to there.
    pub open spec fn may_become(self, next: IntentRun) -> bool {
        &&& next.intent == self.intent
        &&& next.failure is Some ==> next.phase == IntentPhase::Done
        &&& match self.phase {
            IntentPhase::Saving => next.phase == IntentPhase::Looking || next.failure is Some,
            IntentPhase::Looking => next.phase == IntentPhase::AskingCondition || next.failure is Some || (next.phase == IntentPhase::Dropping
                && is_known(self.intent@) && is_done(self.intent@, content::head_view(next.head))),
            IntentPhase::AskingCondition => next.head == self.head && (next.phase == IntentPhase::Sending || next.failure is Some),
            IntentPhase::Sending => next.phase == IntentPhase::Dropping || next.failure is Some,
            IntentPhase::Dropping => next.phase == IntentPhase::Removing,
            IntentPhase::Removing => next.phase == IntentPhase::Done,
            IntentPhase::Done => false,
        }
    }

    /// How many steps are left at most.
    pub open spec fn phases_left(self) -> nat {
        match self.phase {
            IntentPhase::Saving => 6,
            IntentPhase::Looking => 5,
            IntentPhase::AskingCondition => 4,
            IntentPhase::Sending => 3,
            IntentPhase::Dropping => 2,
            IntentPhase::Removing => 1,
            IntentPhase::Done => 0,
        }
    }

    /// Begins a change that was decided: it is noted first.
    pub fn begin(intent: NamespaceIntent) -> (run: Self)
        ensures
            run.valid(),
            run == (IntentRun { intent, phase: IntentPhase::Saving, noted: false, head: None, request: None, failure: None }),
    {
        IntentRun { intent, phase: IntentPhase::Saving, noted: false, head: None, request: None, failure: None }
    }

    /// Goes on with a change whose note was found.
    pub fn resume(intent: NamespaceIntent) -> (run: Self)
        ensures
            run.valid(),
            run == (IntentRun {
                intent,
                phase: (if intent.version == INTENT_VERSION {
                    IntentPhase::Looking
                } else {
                    IntentPhase::Done
                }),
                noted: true,
                head: None,
                request: None,
                failure: (if intent.version == INTENT_VERSION {
                    None
                } else {
                    Some(NfsStatus::NotSupp)
                }),
            }),
    {
        match check_intent_version(&intent) {
            Ok(()) => IntentRun { intent, phase: IntentPhase::Looking, noted: true, head: None, request: None, failure: None },
            Err(status) => IntentRun { intent, phase: IntentPhase::Done, noted: true, head: None, request: None, failure: Some(status) },
        }
    }

    fn stop(&mut self, status: NfsStatus)
        ensures
            final(self).is_stopped(*old(self), status),
    {
        self.phase = IntentPhase::Done;
        self.failure = Some(status);
    }

    /// Takes whether the note was saved.
    pub fn on_saved(&mut self, saved: bool)
        requires
            old(self).valid(),
            old(self).phase == IntentPhase::Saving,
        ensures
            final(self).valid(),
            old(self).may_become(*final(self)),
            if !saved {
                final(self).is_stopped(*old(self), NfsStatus::Io)
            } else if old(self).intent.version != INTENT_VERSION {
                final(self).is_stopped(IntentRun { noted: true, ..*old(self) }, NfsStatus::NotSupp)
            } else {
                *final(self) == (IntentRun { phase: IntentPhase::Looking, noted: true, ..*old(self) })
            },
    {
        if !saved {
            self.stop(NfsStatus::Io);
        } else {
            self.noted = true;
            match check_intent_version(&self.intent) {
                Ok(()) => {
                    self.phase = IntentPhase::Looking;
                },
                Err(status) => {
                    self.stop(status);
                },
            }
        }
    }

    /// Takes what stands at the key. A change that has happened already is not
    /// asked for again.
    pub fn on_head(&mut self, seen: Result<Option<ObjectHead>, NfsStatus>)
        requires
            old(self).valid(),
            old(self).phase == IntentPhase::Looking,
        ensures
            final(self).valid(),
            old(self).may_become(*final(self)),
            match seen {
                Err(status) => final(self).is_stopped(*old(self), status),
                Ok(head) => if !is_known(old(self).intent@) {
                    final(self).is_stopped(*old(self), NfsStatus::NotSupp)
                } else {
                    *final(self) == (IntentRun {
                        head,
                        phase: (if is_done(old(self).intent@, content::head_view(head)) {
                            IntentPhase::Dropping
                        } else {
                            IntentPhase::AskingCondition
                        }),
                        ..*old(self)
                    })
                },
            },
    {
        match seen {
            Err(status) => {
                self.stop(status);
            },
            Ok(head) => {
                match is_intent_done(&self.intent, &head) {
                    Err(status) => {
                        self.stop(status);
                    },
                    Ok(done) => {
                        self.head = head;
                        self.phase = if done {
                            IntentPhase::Dropping
                        } else {
                            IntentPhase::AskingCondition
                        };
                    },
                }
            },
        }
    }

    /// Takes whether the store honours the condition of the change. Where
    /// something else stands at the key than when the change was decided, it
    /// is not asked for.
    pub fn on_condition(&mut self, supported: Result<bool, NfsStatus>)
        requires
            old(self).valid(),
            old(self).phase == IntentPhase::AskingCondition,
        ensures
            final(self).valid(),
            old(self).may_become(*final(self)),
            ({
                let intent = old(self).intent@;
                match supported {
                    Err(status) => final(self).is_stopped(*old(self), status),
                    Ok(false) => final(self).is_stopped(*old(self), NfsStatus::NotSupp),
                    Ok(true) => if tag_of(content::head_view(old(self).head)) != intent.previous_etag || (intent.operation == deleting()
                        && intent.previous_etag is None) {
                        final(self).is_stopped(*old(self), NfsStatus::Io)
                    } else {
                        &&& final(self).request is Some
                        &&& request_view(final(self).request->0) == (intent.operation == deleting(), intent.previous_etag)
                        &&& *final(self) == (IntentRun { phase: IntentPhase::Sending, request: final(self).request, ..*old(self) })
                    },
                }
            }),
    {
        match supported {
            Err(status) => {
                self.stop(status);
            },
            Ok(honoured) => {
                match intent_request(&self.intent, &self.head, honoured) {
                    Err(status) => {
                        self.stop(status);
                    },
                    Ok(request) => {
                        self.request = Some(request);
                        self.phase = IntentPhase::Sending;
                    },
                }
            },
        }
    }

    /// Takes whether the store did what it was asked for.
    pub fn on_sent(&mut self, sent: Result<(), NfsStatus>)
        requires
            old(self).valid(),
            old(self).phase == IntentPhase::Sending,
        ensures
            final(self).valid(),
            old(self).may_become(*final(self)),
            match sent {
                Err(status) => final(self).is_stopped(*old(self), status),
                Ok(()) => *final(self) == (IntentRun { phase: IntentPhase::Dropping, ..*old(self) }),
            },
    {
        match sent {
            Err(status) => {
                self.stop(status);
            },
            Ok(()) => {
                self.phase = IntentPhase::Dropping;
            },
        }
    }

    /// Takes that what was staged and cached for the key was dropped.
    pub fn on_dropped(&mut self)
        requires
            old(self).valid(),
            old(self).phase == IntentPhase::Dropping,
        ensures
            final(self).valid(),
            old(self).may_become(*final(self)),
            *final(self) == (IntentRun { phase: IntentPhase::Removing, ..*old(self) }),
    {
        self.phase = IntentPhase::Removing;
    }

    /// Takes whether the note was removed.
    pub fn on_removed(&mut self, removed: bool)
        requires
            old(self).valid(),
            old(self).phase == IntentPhase::Removing,
        ensures
            final(self).valid(),
            old(self).may_become(*final(self)),
            *final(self) == (IntentRun {
                phase: IntentPhase::Done,
                failure: (if removed {
                    None
                } else {
                    Some(NfsStatus::Io)
                }),
                ..*old(self)
            }),
    {
        self.phase = IntentPhase::Done;
        if !removed {
            self.failure = Some(NfsStatus::Io);
        }
    }

    /// What came of the change.
    pub fn outcome(&self) -> (outcome: Result<(), NfsStatus>)
        requires
            self.phase == IntentPhase::Done,
        ensures
            outcome == (match self.failure {
                None => Ok::<(), NfsStatus>(()),
                Some(status) => Err(status),
            }),
    {
        match self.failure {
            None => Ok(()),
            Some(status) => Err(status),
        }
    }
}

/// A change is noted before the store is asked for it.
pub proof fn a_change_is_noted_before_it_is_asked_for(run: IntentRun)
    requires
        run.valid(),
        run.phase == IntentPhase::Sending,
    ensures
        run.noted,
{
}

/// The store is asked for a change only where what stands at the key is what
/// stood there when the change was decided, and only under that condition.
pub proof fn a_change_touches_nothing_else(run: IntentRun)
    requires
        run.valid(),
        run.phase == IntentPhase::Sending,
    ensures
        tag_of(content::head_view(run.head)) == run.intent@.previous_etag,
        run.request is Some,
        request_view(run.request->0).1 == run.intent@.previous_etag,
        !is_done(run.intent@, content::head_view(run.head)),
{
}

/// A note is kept until the store has done what it is about, and what was
/// staged for the key is dropped: it is removed only after that, and that
/// comes only after an answer of the store or a look at what stands there.
pub proof fn a_note_is_kept_until_the_change_has_converged(first: IntentRun, second: IntentRun, third: IntentRun)
    requires
        first.valid(),
        first.may_become(second),
        second.may_become(third),
        third.phase == IntentPhase::Removing,
    ensures
        second.phase == IntentPhase::Dropping,
        first.phase == IntentPhase::Sending || (first.phase == IntentPhase::Looking && is_done(
            second.intent@,
            content::head_view(second.head),
        )),
{
}

/// Every step of a change leads on, so that it comes to an end.
pub proof fn every_step_of_a_change_leads_on(before: IntentRun, after: IntentRun)
    requires
        before.may_become(after),
    ensures
        after.phases_left() < before.phases_left(),
{
}

/// The message that a note which could not be carried out leaves.
pub fn intent_message(key: &str, status: NfsStatus) -> (message: String)
    ensures
        message@ == "Namespace recovery for "@ + key@ + " needs attention: "@ + status.spelled(),
{
    let mut message = "Namespace recovery for ".to_owned();
    message.append(key);
    message.append(" needs attention: ");
    message.append(status.name());
    message
}

/// The message that a rename which could not be finished leaves.
pub fn rename_message(status: NfsStatus) -> (message: String)
    ensures
        message@ == "Rename recovery needs attention: "@ + status.spelled(),
{
    let mut message = "Rename recovery needs attention: ".to_owned();
    message.append(status.name());
    message
}

/// Why a note that cannot be read is not carried out.
pub fn unreadable_message(record: &StageRecovery) -> (message: Option<String>)
    ensures
        text::optional(message) == (if record.state@ == "unreadable"@ {
            Some(match text::optional(record.error) {
                Some(error) => error,
                None => "Unreadable namespace record"@,
            })
        } else {
            None
        }),
{
    if same_text(record.state.as_str(), "unreadable") {
        match &record.error {
            Some(error) => Some(error.clone()),
            None => Some("Unreadable namespace record".to_owned()),
        }
    } else {
        None
    }
}

/// A note could not be carried out: the key that it is about is withheld until
/// it is, and the error is kept for the user.
pub fn note_failed_recovery(errors: &mut Vec<String>, renames: &mut KeyMap<PendingRename>, record: &StageRecovery, error: String)
    requires
        old(renames).well_formed(),
    ensures
        final(errors)@ == old(errors)@.push(error),
        final(renames).well_formed(),
        if record.key@.len() == 0 || old(renames)@.contains_key(record.path@) {
            final(renames)@ == old(renames)@
        } else {
            &&& final(renames)@.dom() == old(renames)@.dom().insert(record.path@)
            &&& final(renames)@[record.path@].from@ == record.key@
            &&& final(renames)@[record.path@].to@ == record.key@
            &&& final(renames)@.remove(record.path@) == old(renames)@
        },
{
    errors.push(error);
    if record.key.as_str().unicode_len() > 0 && !renames.contains_key(record.path.as_str()) {
        let ghost before = renames@;
        renames.insert(record.path.clone(), PendingRename { from: record.key.clone(), to: record.key.clone() });
        assert(renames@.remove(record.path@) =~= before);
    }
}

/// A note is about a rename or about one name, by how its file's name begins;
/// a file whose name does not end in `.json` and the journal of a part of a
/// rename are about neither.
pub proof fn a_note_is_known_by_its_name(name: Seq<char>)
    ensures
        operation_of(name) is Some ==> ".json"@.is_suffix_of(name) && !"rename-part-"@.is_prefix_of(name),
        operation_of(name) == Some(OperationRecord::Rename) <==> ".json"@.is_suffix_of(name) && "rename-"@.is_prefix_of(name)
            && !"rename-part-"@.is_prefix_of(name),
        operation_of(name) == Some(OperationRecord::Namespace) <==> ".json"@.is_suffix_of(name) && "namespace-"@.is_prefix_of(name),
{
    reveal_strlit("rename-");
    reveal_strlit("rename-part-");
    reveal_strlit("namespace-");
    if "namespace-"@.is_prefix_of(name) {
        assert(name.subrange(0, 10)[0] == 'n');
        assert(name[0] == 'n');
        if "rename-"@.is_prefix_of(name) {
            assert(name.subrange(0, 7)[0] == 'r');
        }
        if "rename-part-"@.is_prefix_of(name) {
            assert(name.subrange(0, 12)[0] == 'r');
        }
    }
}

/// A note that can be used is reported under its own key, or under the key
/// that a rename began at, with the error it carries; what is reported claims
/// no content of its own.
pub proof fn a_note_is_reported_under_its_key(path: Seq<char>, kind: OperationRecord, fields: OperationFields)
    ensures
        fields.key is Some && fields.key->0 is Some ==> source_key(fields) == Some((fields.key->0->0)@),
        fields.key is Some && fields.key->0 is None ==> source_key(fields) is None,
        fields.key is None && fields.from is Some && fields.from->0 is Some ==> source_key(fields) == Some((fields.from->0->0)@),
        fields.key is None && (fields.from is None || fields.from->0 is None) ==> source_key(fields) is None,
        source_key(fields) is Some ==> operation_model(path, kind, fields).key == source_key(fields)->0,
        operation_model(path, kind, fields).path == path,
        kind == OperationRecord::Rename ==> operation_model(path, kind, fields).state == "rename_recovery"@,
        kind == OperationRecord::Namespace ==> operation_model(path, kind, fields).state == "namespace_recovery"@,
        fields.last_error is Some ==> operation_model(path, kind, fields).error == Some((fields.last_error->0)@),
        fields.last_error is None ==> operation_model(path, kind, fields).error is None,
        !operation_model(path, kind, fields).dirty,
        operation_model(path, kind, fields).size == 0,
        operation_model(path, kind, fields).snapshot is None,
        operation_model(path, kind, fields).publication_guard is None,
{
}

/// A note can be used exactly where its file was seen, is a regular file of
/// its own of at most thirty-two mebibytes, was read, and names a key.
pub proof fn a_note_is_used_where_it_names_a_key(input: OperationInput)
    ensures
        complaint(input) is None <==> {
            &&& input is Seen
            &&& input->Seen_0.is_regular()
            &&& input->Seen_0.length <= 33_554_432
            &&& input->Seen_1 is Ok
            &&& source_key(input->Seen_1->Ok_0) is Some
        },
        input matches OperationInput::Unseen(message) ==> complaint(input) == Some(message@),
{
}

/// A change is asked for under the condition that keeps it from touching
/// anything else: a deletion and a replacement of what stood there, a creation
/// of nothing.
pub proof fn each_change_has_its_condition(intent: IntentModel)
    ensures
        intent.operation == "delete"@ ==> intent_condition_of(intent) == Condition::DeleteMatch,
        intent.operation != "delete"@ && intent.previous_etag is Some ==> intent_condition_of(intent) == Condition::PutMatch,
        intent.operation != "delete"@ && intent.previous_etag is None ==> intent_condition_of(intent) == Condition::PutCreate,
{
}

/// A deletion has happened where nothing stands at the key; an empty object
/// was made where an empty one stands that carries the change's own mark.
pub proof fn a_change_is_done_where_its_outcome_stands(intent: IntentModel, head: Option<content::HeadModel>)
    requires
        is_known(intent),
    ensures
        intent.version == 1,
        intent.operation == "delete"@ || intent.operation == "empty"@,
        intent.operation == "delete"@ ==> (is_done(intent, head) <==> head is None),
        intent.operation == "empty"@ ==> (is_done(intent, head) <==> head is Some && head->0.size == Some(0i64) && head->0.namespace_token
            == Some(intent.token)),
{
    reveal_strlit("empty");
    reveal_strlit("delete");
    assert("empty"@.len() != "delete"@.len());
}

/// A change that ends early says why, and leaves its note where it is.
pub proof fn a_change_that_ends_keeps_its_note(before: IntentRun, after: IntentRun, status: NfsStatus)
    requires
        after.is_stopped(before, status),
    ensures
        after.phase == IntentPhase::Done,
        after.failure == Some(status),
        after.noted == before.noted,
        after.intent == before.intent,
        after.head == before.head,
        after.request == before.request,
{
}

/// Whatever is decided of a new empty object, what stands at the key is
/// replaced only where that is asked for and only under its tag; where nothing
/// stands, nothing may be replaced.
pub proof fn an_empty_object_replaces_only_what_it_may(
    key: String,
    replace: bool,
    head: Option<ObjectHead>,
    token: String,
    intent: Result<NamespaceIntent, NfsStatus>,
)
    requires
        call_ensures(plan_empty, (key, replace, &head, token), intent),
    ensures
        head is None ==> intent is Ok && intent->Ok_0.previous_etag is None,
        head is Some && !replace ==> intent == Err::<NamespaceIntent, NfsStatus>(NfsStatus::Exist),
        head is Some && replace && head->0.etag is None ==> intent == Err::<NamespaceIntent, NfsStatus>(NfsStatus::Io),
        head is Some && replace && head->0.etag is Some ==> intent is Ok && intent->Ok_0.previous_etag is Some && (
        intent->Ok_0.previous_etag->0)@ == (head->0.etag->0)@,
        intent is Ok ==> intent->Ok_0.key@ == key@ && intent->Ok_0.token@ == token@ && intent->Ok_0.operation@ == "empty"@
            && intent->Ok_0.version == 1,
{
}

/// Whatever is decided of a deletion, only the object that stands at the key
/// is deleted, under its tag, and only where the store honours that.
pub proof fn a_deletion_is_decided_for_what_stands_there(
    key: String,
    head: ObjectHead,
    supported: bool,
    token: String,
    intent: Result<NamespaceIntent, NfsStatus>,
)
    requires
        call_ensures(plan_delete, (key, &head, supported, token), intent),
    ensures
        intent is Ok <==> supported && head.etag is Some,
        !supported ==> intent == Err::<NamespaceIntent, NfsStatus>(NfsStatus::NotSupp),
        supported && head.etag is None ==> intent == Err::<NamespaceIntent, NfsStatus>(NfsStatus::Io),
        intent is Ok ==> intent->Ok_0.previous_etag is Some && (intent->Ok_0.previous_etag->0)@ == (head.etag->0)@
            && intent->Ok_0.operation@ == "delete"@ && intent->Ok_0.key@ == key@ && intent->Ok_0.token@ == token@,
{
}

/// A change is asked for exactly where the store honours its condition and
/// what stands at the key is still what stood there when it was decided.
pub proof fn a_change_is_asked_for_over_what_it_was_decided_for(
    intent: NamespaceIntent,
    head: Option<ObjectHead>,
    supported: bool,
    request: Result<IntentRequest, NfsStatus>,
)
    requires
        is_known(intent@),
        call_ensures(intent_request, (&intent, &head, supported), request),
    ensures
        !supported ==> request == Err::<IntentRequest, NfsStatus>(NfsStatus::NotSupp),
        request is Ok && intent.previous_etag is Some ==> head is Some && head->0.etag is Some && (head->0.etag->0)@ == (
        intent.previous_etag->0)@,
        request is Ok && intent.previous_etag is None ==> head is None || head->0.etag is None,
        request matches Ok(IntentRequest::Delete(etag)) ==> intent.operation@ == "delete"@ && intent.previous_etag is Some && etag@ == (
        intent.previous_etag->0)@,
        request matches Ok(IntentRequest::Put(etag)) ==> intent.operation@ == "empty"@ && (etag is Some <==> intent.previous_etag is Some)
            && (etag is Some ==> (etag->0)@ == (intent.previous_etag->0)@),
        supported && intent.previous_etag is Some && head is Some && head->0.etag is Some && (head->0.etag->0)@ == (intent.previous_etag->0)@
            ==> request is Ok,
        supported && intent.previous_etag is None && head is None && intent.operation@ == "empty"@ ==> request is Ok,
{
    reveal_strlit("empty");
    reveal_strlit("delete");
    assert("empty"@.len() != "delete"@.len());
}

/// A key is not touched while what was staged for it may have been published
/// unseen, or while an earlier change to it is open, and otherwise it is.
pub proof fn an_unsettled_key_is_not_touched(publication_open: bool, published: bool, change_open: bool, gate: Result<(), NfsStatus>)
    requires
        call_ensures(ensure_key_settled, (publication_open, published, change_open), gate),
    ensures
        gate is Ok <==> !change_open && (published || !publication_open),
        gate is Err ==> gate->Err_0 == NfsStatus::Io,
{
}

/// A note of another version is refused.
pub proof fn a_note_of_another_version_is_refused(intent: NamespaceIntent, check: Result<(), NfsStatus>)
    requires
        call_ensures(check_intent_version, (&intent,), check),
    ensures
        check is Ok <==> intent.version == 1,
        check is Err ==> check->Err_0 == NfsStatus::NotSupp,
{
}

/// A note that can be used is reported under its key; one that cannot be used
/// is reported as long as its file is there, with what is wrong with it.
pub proof fn no_note_that_is_there_goes_unreported(
    path: String,
    kind: OperationRecord,
    input: OperationInput,
    still_exists: bool,
    record: Option<StageRecovery>,
)
    requires
        call_ensures(operation_record, (path, kind, input, still_exists), record),
    ensures
        still_exists ==> record is Some,
        complaint(input) is None ==> record is Some && Some(record->0@.key) == source_key(input->Seen_1->Ok_0),
        complaint(input) is Some && record is Some ==> record->0@.error == complaint(input),
        record is Some ==> record->0@.path == path@,
        record is None ==> !still_exists && complaint(input) is Some,
{
}

/// A change that was decided is noted first; a note that was found is looked
/// at again, unless it is of another version.
pub proof fn a_change_begins_with_its_note(intent: NamespaceIntent, begun: IntentRun, resumed: IntentRun)
    requires
        call_ensures(IntentRun::begin, (intent,), begun),
        call_ensures(IntentRun::resume, (intent,), resumed),
    ensures
        begun.phase == IntentPhase::Saving && !begun.noted && begun.failure is None && begun.intent == intent,
        resumed.noted && resumed.intent == intent,
        intent.version == 1 ==> resumed.phase == IntentPhase::Looking && resumed.failure is None,
        intent.version != 1 ==> resumed.phase == IntentPhase::Done && resumed.failure == Some(NfsStatus::NotSupp),
{
}

/// A change goes on step by step: nothing is asked for that was not noted, a
/// change that has happened is not asked for again, and one that has not is
/// asked for only under its condition.
pub proof fn a_change_goes_on_step_by_step(head: Option<ObjectHead>, status: NfsStatus)
    ensures
        forall|run: &mut IntentRun|
            (*run).intent.version == 1 && #[trigger] call_ensures(IntentRun::on_saved, (run, true), ()) ==> final(run).phase
                == IntentPhase::Looking && final(run).noted && final(run).failure == (*run).failure,
        forall|run: &mut IntentRun| #[trigger]
            call_ensures(IntentRun::on_saved, (run, false), ()) ==> final(run).phase == IntentPhase::Done && final(run).failure == Some(
                NfsStatus::Io,
            ) && final(run).noted == (*run).noted,
        forall|run: &mut IntentRun|
            is_known((*run).intent@) && #[trigger] call_ensures(IntentRun::on_head, (run, Ok(head)), ()) ==> {
                &&& final(run).phase == IntentPhase::Dropping <==> is_done((*run).intent@, content::head_view(head))
                &&& final(run).phase == IntentPhase::Dropping || final(run).phase == IntentPhase::AskingCondition
                &&& final(run).failure == (*run).failure
                &&& final(run).head == head
            },
        forall|run: &mut IntentRun| #[trigger]
            call_ensures(IntentRun::on_head, (run, Err(status)), ()) ==> final(run).phase == IntentPhase::Done && final(run).failure == Some(
                status,
            ),
        forall|run: &mut IntentRun| #[trigger]
            call_ensures(IntentRun::on_condition, (run, Ok(false)), ()) ==> final(run).phase == IntentPhase::Done && final(run).failure == Some(
                NfsStatus::NotSupp,
            ),
        forall|run: &mut IntentRun| #[trigger]
            call_ensures(IntentRun::on_condition, (run, Err(status)), ()) ==> final(run).phase == IntentPhase::Done && final(run).failure == Some(
                status,
            ),
        forall|run: &mut IntentRun| #[trigger]
            call_ensures(IntentRun::on_sent, (run, Ok(())), ()) ==> final(run).phase == IntentPhase::Dropping && final(run).failure
                == (*run).failure,
        forall|run: &mut IntentRun| #[trigger]
            call_ensures(IntentRun::on_sent, (run, Err(status)), ()) ==> final(run).phase == IntentPhase::Done && final(run).failure == Some(
                status,
            ) && final(run).noted == (*run).noted,
        forall|run: &mut IntentRun| #[trigger]
            call_ensures(IntentRun::on_dropped, (run,), ()) ==> final(run).phase == IntentPhase::Removing && final(run).failure
                == (*run).failure,
        forall|run: &mut IntentRun, removed: bool| #[trigger]
            call_ensures(IntentRun::on_removed, (run, removed), ()) ==> final(run).phase == IntentPhase::Done && (removed ==> final(run).failure
                is None) && (!removed ==> final(run).failure == Some(NfsStatus::Io)),
{
}

/// A change is answered as it went.
pub proof fn a_change_is_answered_as_it_went(run: IntentRun, outcome: Result<(), NfsStatus>)
    requires
        call_ensures(IntentRun::outcome, (&run,), outcome),
    ensures
        outcome is Ok <==> run.failure is None,
        outcome is Err ==> run.failure == Some(outcome->Err_0),
{
}

/// A recovery that failed is kept with its error, and stands in the way of its
/// key.
pub proof fn a_failed_recovery_stands_in_the_way_of_its_key(record: StageRecovery, error: String)
    ensures
        forall|errors: &mut Vec<String>, renames: &mut KeyMap<PendingRename>| #[trigger]
            call_ensures(note_failed_recovery, (errors, renames, &record, error), ()) ==> {
                &&& final(errors)@ == (*errors)@.push(error)
                &&& record.key@.len() > 0 && !(*renames)@.contains_key(record.path@) ==> final(renames)@.contains_key(record.path@) && final(
                    renames)@[record.path@].from@ == record.key@
                &&& record.key@.len() == 0 ==> final(renames)@ == (*renames)@
            },
{
}

/// What is unreadable says why.
pub proof fn what_is_unreadable_says_why(record: StageRecovery, message: Option<String>)
    requires
        call_ensures(unreadable_message, (&record,), message),
    ensures
        message is Some <==> record.state@ == "unreadable"@,
        message is Some && record.error is Some ==> (message->0)@ == (record.error->0)@,
{
}

} // verus!
