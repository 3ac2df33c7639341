//! Real-time progress events for a mount's background transfers.
//!
//! The slow work a mount does is invisible from the file manager: a file
//! copied in sits in the staging area, waits out the write debounce, and only
//! then uploads; opening a large object for editing first downloads all of it.
//! Every such transfer is therefore reported as an event, so that a live
//! progress bar can be shown for it.
//!
//! One transfer id names one file's transfer in one direction, so repeated
//! uploads of the same file update one row instead of piling up new ones.
//! Progress reports are throttled; `waiting`, `done`, `error` and `removed`
//! always go out. The speed of a transfer is measured by whoever sends the
//! events.

use vstd::prelude::*;
use crate::text;
use crate::text::decimal_text;

verus! {

/// The name of the event.
pub const EVENT: &'static str = "mount-transfer";

/// Ceiling on progress reports per transfer, so that a fast upload cannot flood
/// whoever listens. Terminal transitions bypass it.
pub const PROGRESS_INTERVAL_MS: u64 = 250;

/// Which way the bytes are going.
#[derive(Clone, Copy, Debug, PartialEq, Eq, Structural)]
pub enum TransferKind {
    /// Staged local content moving to the bucket.
    Upload,
    /// Object content being staged locally before an in-place edit.
    Download,
}

/// Where the transfer is in its life.
#[derive(Clone, Copy, Debug, PartialEq, Eq, Structural)]
pub enum TransferState {
    /// Dirty and waiting out the write debounce; no bytes moving yet.
    Waiting,
    /// Bytes are moving.
    Active,
    Done,
    Error,
    /// The transfer stopped mattering (the file was deleted or its stage
    /// discarded) and the row should disappear rather than claim completion.
    Removed,
}

impl TransferKind {
    /// The suffix that makes a file's upload and download ids distinct.
    pub open spec fn tag(self) -> Seq<char> {
        match self {
            TransferKind::Upload => "up"@,
            TransferKind::Download => "down"@,
        }
    }

    /// The name of the direction in an event.
    pub open spec fn spelled(self) -> Seq<char> {
        match self {
            TransferKind::Upload => "upload"@,
            TransferKind::Download => "download"@,
        }
    }

    /// The name of the direction in an event.
    pub fn name(self) -> (name: &'static str)
        ensures
            name@ == self.spelled(),
    {
        match self {
            TransferKind::Upload => "upload",
            TransferKind::Download => "download",
        }
    }
}

impl TransferState {
    /// The name of the state in an event.
    pub open spec fn spelled(self) -> Seq<char> {
        match self {
            TransferState::Waiting => "waiting"@,
            TransferState::Active => "active"@,
            TransferState::Done => "done"@,
            TransferState::Error => "error"@,
            TransferState::Removed => "removed"@,
        }
    }

    /// The name of the state in an event.
    pub fn name(self) -> (name: &'static str)
        ensures
            name@ == self.spelled(),
    {
        match self {
            TransferState::Waiting => "waiting",
            TransferState::Active => "active",
            TransferState::Done => "done",
            TransferState::Error => "error",
            TransferState::Removed => "removed",
        }
    }
}

/// Stable id for one file's transfers in one direction.
pub open spec fn id_of(mount_id: Seq<char>, fileid: u64, kind: TransferKind) -> Seq<char> {
    mount_id + ":"@ + text::decimal(fileid as nat) + ":"@ + kind.tag()
}

fn direction_tag(kind: TransferKind) -> (tag: &'static str)
    ensures
        tag@ == kind.tag(),
{
    match kind {
        TransferKind::Upload => "up",
        TransferKind::Download => "down",
    }
}

/// Stable id for one file's transfers in one direction.
pub fn transfer_id(mount_id: &str, fileid: u64, kind: TransferKind) -> (id: String)
    ensures
        id@ == id_of(mount_id@, fileid, kind),
{
    let mut id = mount_id.to_owned();
    id.append(":");
    id.append(decimal_text(fileid).as_str());
    id.append(":");
    id.append(direction_tag(kind));
    id
}

/// Transfer ids separate mounts, files and directions: no two share one.
pub proof fn transfer_ids_are_distinct(
    mount_a: Seq<char>,
    file_a: u64,
    kind_a: TransferKind,
    mount_b: Seq<char>,
    file_b: u64,
    kind_b: TransferKind,
)
    requires
        id_of(mount_a, file_a, kind_a) == id_of(mount_b, file_b, kind_b),
    ensures
        mount_a == mount_b,
        file_a == file_b,
        kind_a == kind_b,
{
    reveal_strlit("up");
    reveal_strlit("down");
    reveal_strlit(":");
    let id = id_of(mount_a, file_a, kind_a);
    assert(id.last() == kind_a.tag().last());
    assert(id.last() == kind_b.tag().last());
    assert("up"@.last() == 'p' && "down"@.last() == 'n');
    assert(kind_a == kind_b);
    let tail = kind_a.tag().len() as int + 1;
    let a = text::decimal(file_a as nat);
    let b = text::decimal(file_b as nat);
    let bare = id.take(id.len() - tail);
    assert(bare =~= mount_a + ":"@ + a);
    assert(bare =~= mount_b + ":"@ + b);
    assert(text::digit_value(':') is None);
    if a.len() < b.len() {
        let place = bare.len() - 1 - a.len();
        assert(bare[place] == ':');
        let inside = place - (mount_b.len() + 1);
        assert(bare[place] == b[inside]);
        text::a_written_number_has_only_digits(file_b as nat, inside);
    } else if b.len() < a.len() {
        let place = bare.len() - 1 - b.len();
        assert(bare[place] == ':');
        let inside = place - (mount_a.len() + 1);
        assert(bare[place] == a[inside]);
        text::a_written_number_has_only_digits(file_a as nat, inside);
    } else {
        assert(a =~= bare.skip(bare.len() - a.len()));
        assert(b =~= bare.skip(bare.len() - b.len()));
        assert(mount_a =~= bare.take(bare.len() - a.len() - 1));
        assert(mount_b =~= bare.take(bare.len() - b.len() - 1));
        text::a_written_number_reads_back(file_a);
        text::a_written_number_reads_back(file_b);
    }
}

/// What one event says of a transfer, but for its speed.
pub struct MountTransferEvent {
    pub mount_id: String,
    pub bucket: String,
    pub transfer_id: String,
    pub key: String,
    pub kind: TransferKind,
    pub state: TransferState,
    pub bytes_done: u64,
    pub bytes_total: u64,
    pub error: Option<String>,
}

/// An event with its texts taken as characters.
pub ghost struct EventModel {
    pub mount_id: Seq<char>,
    pub bucket: Seq<char>,
    pub transfer_id: Seq<char>,
    pub key: Seq<char>,
    pub kind: TransferKind,
    pub state: TransferState,
    pub bytes_done: u64,
    pub bytes_total: u64,
    pub error: Option<Seq<char>>,
}

impl View for MountTransferEvent {
    type V = EventModel;

    open spec fn view(&self) -> EventModel {
        EventModel {
            mount_id: self.mount_id@,
            bucket: self.bucket@,
            transfer_id: self.transfer_id@,
            key: self.key@,
            kind: self.kind,
            state: self.state,
            bytes_done: self.bytes_done,
            bytes_total: self.bytes_total,
            error: text::optional(self.error),
        }
    }
}

/// Whose transfers are reported.
pub struct MountProgress {
    pub mount_id: String,
    pub bucket: String,
}

impl MountProgress {
    /// The transfers of this mount.
    pub fn new(mount_id: String, bucket: String) -> (progress: Self)
        ensures
            progress == (MountProgress { mount_id, bucket }),
    {
        MountProgress { mount_id, bucket }
    }

    /// What an event of this mount says.
    pub open spec fn event_of(
        self,
        fileid: u64,
        key: Seq<char>,
        kind: TransferKind,
        state: TransferState,
        bytes_done: u64,
        bytes_total: u64,
        error: Option<Seq<char>>,
    ) -> EventModel {
        EventModel {
            mount_id: self.mount_id@,
            bucket: self.bucket@,
            transfer_id: id_of(self.mount_id@, fileid, kind),
            key,
            kind,
            state,
            bytes_done,
            bytes_total,
            error,
        }
    }

    fn event(
        &self,
        fileid: u64,
        key: &str,
        kind: TransferKind,
        state: TransferState,
        bytes_done: u64,
        bytes_total: u64,
        error: Option<String>,
    ) -> (event: MountTransferEvent)
        ensures
            event@ == self.event_of(fileid, key@, kind, state, bytes_done, bytes_total, text::optional(error)),
    {
        MountTransferEvent {
            mount_id: self.mount_id.clone(),
            bucket: self.bucket.clone(),
            transfer_id: transfer_id(self.mount_id.as_str(), fileid, kind),
            key: key.to_owned(),
            kind,
            state,
            bytes_done,
            bytes_total,
            error,
        }
    }

    /// A file's staged content became dirty: an upload will follow once the
    /// writes go quiet. `size` is the staged size so far.
    pub fn waiting(&self, fileid: u64, key: &str, size: u64) -> (event: MountTransferEvent)
        ensures
            event@ == self.event_of(fileid, key@, TransferKind::Upload, TransferState::Waiting, 0, size, None),
    {
        self.event(fileid, key, TransferKind::Upload, TransferState::Waiting, 0, size, None)
    }

    /// The file stopped having a transfer to report (deleted mid-copy, or its
    /// stage was discarded), so any row it had should go away.
    pub fn removed(&self, fileid: u64, key: &str) -> (event: MountTransferEvent)
        ensures
            event@ == self.event_of(fileid, key@, TransferKind::Upload, TransferState::Removed, 0, 0, None),
    {
        self.event(fileid, key, TransferKind::Upload, TransferState::Removed, 0, 0, None)
    }

    /// Starts tracking one transfer and announces it as active.
    pub fn track(&self, fileid: u64, key: &str, kind: TransferKind, bytes_total: u64) -> (begun: (TransferTracker, MountTransferEvent))
        ensures
            begun.0.progress.mount_id@ == self.mount_id@,
            begun.0.progress.bucket@ == self.bucket@,
            begun.0.fileid == fileid,
            begun.0.key@ == key@,
            begun.0.kind == kind,
            begun.0.bytes_total == bytes_total,
            begun.0.bytes_done == 0,
            begun.1@ == self.event_of(fileid, key@, kind, TransferState::Active, 0, bytes_total, None),
    {
        let tracker = TransferTracker {
            progress: MountProgress { mount_id: self.mount_id.clone(), bucket: self.bucket.clone() },
            fileid,
            key: key.to_owned(),
            kind,
            bytes_total,
            bytes_done: 0,
        };
        let event = self.event(fileid, key, kind, TransferState::Active, 0, bytes_total, None);
        (tracker, event)
    }
}

/// Progress of one transfer in flight. Concurrent parts all add into the same
/// count.
pub struct TransferTracker {
    pub progress: MountProgress,
    pub fileid: u64,
    pub key: String,
    pub kind: TransferKind,
    pub bytes_total: u64,
    pub bytes_done: u64,
}

impl TransferTracker {
    /// What an event of this transfer says. No more than everything is done.
    pub open spec fn event_of(self, state: TransferState, done: int, error: Option<Seq<char>>) -> EventModel {
        self.progress.event_of(
            self.fileid,
            self.key@,
            self.kind,
            state,
            (if done > self.bytes_total {
                self.bytes_total
            } else {
                done as u64
            }),
            self.bytes_total,
            error,
        )
    }

    fn event(&self, state: TransferState, done: u64, error: Option<String>) -> (event: MountTransferEvent)
        ensures
            event@ == self.event_of(state, done as int, text::optional(error)),
    {
        let shown: u64 = if done > self.bytes_total { self.bytes_total } else { done };
        self.progress.event(self.fileid, self.key.as_str(), self.kind, state, shown, self.bytes_total, error)
    }

    /// Adds transferred bytes. The report goes out only where the throttle
    /// lets it pass.
    pub fn add(&mut self, bytes: u64, passes: bool) -> (event: Option<MountTransferEvent>)
        ensures
            *final(self) == (TransferTracker { bytes_done: final(self).bytes_done, ..*old(self) }),
            final(self).bytes_done == (if old(self).bytes_done + bytes > u64::MAX {
                old(self).bytes_done + bytes - u64::MAX - 1
            } else {
                old(self).bytes_done + bytes
            }),
            match event {
                Some(sent) => passes && sent@ == final(self).event_of(
                    TransferState::Active,
                    (if old(self).bytes_done + bytes > u64::MAX {
                        u64::MAX as int
                    } else {
                        old(self).bytes_done + bytes
                    }),
                    None,
                ),
                None => !passes,
            },
    {
        let done: u64 = self.bytes_done.saturating_add(bytes);
        self.bytes_done = self.bytes_done.wrapping_add(bytes);
        if passes {
            Some(self.event(TransferState::Active, done, None))
        } else {
            None
        }
    }

    /// Sets the transferred byte count, for loops that already track their own
    /// offset.
    pub fn set(&mut self, bytes: u64, passes: bool) -> (event: Option<MountTransferEvent>)
        ensures
            *final(self) == (TransferTracker { bytes_done: bytes, ..*old(self) }),
            match event {
                Some(sent) => passes && sent@ == final(self).event_of(TransferState::Active, bytes as int, None),
                None => !passes,
            },
    {
        self.bytes_done = bytes;
        if passes {
            Some(self.event(TransferState::Active, bytes, None))
        } else {
            None
        }
    }

    /// A retry is starting over from zero: without the reset the bar would
    /// stick at wherever the failed attempt died.
    pub fn restart(&mut self) -> (event: MountTransferEvent)
        ensures
            *final(self) == (TransferTracker { bytes_done: 0, ..*old(self) }),
            event@ == final(self).event_of(TransferState::Active, 0, None),
    {
        self.bytes_done = 0;
        self.event(TransferState::Active, 0, None)
    }

    /// The transfer is done: everything has arrived.
    pub fn done(&self) -> (event: MountTransferEvent)
        ensures
            event@ == self.event_of(TransferState::Done, self.bytes_total as int, None),
    {
        self.event(TransferState::Done, self.bytes_total, None)
    }

    /// The transfer failed where it had come to.
    pub fn failed(&self, error: &str) -> (event: MountTransferEvent)
        ensures
            event@ == self.event_of(TransferState::Error, self.bytes_done as int, Some(error@)),
    {
        self.event(TransferState::Error, self.bytes_done, Some(error.to_owned()))
    }
}

/// An event says which file of which mount moves in which direction, how far
/// it is, and never more than everything.
pub proof fn an_event_says_what_moves(tracker: TransferTracker, state: TransferState, done: int, error: Option<Seq<char>>)
    requires
        0 <= done,
    ensures
        ({
            let event = tracker.event_of(state, done, error);
            &&& event.mount_id == tracker.progress.mount_id@
            &&& event.bucket == tracker.progress.bucket@
            &&& event.key == tracker.key@
            &&& event.kind == tracker.kind
            &&& event.state == state
            &&& event.error == error
            &&& event.bytes_total == tracker.bytes_total
            &&& event.bytes_done <= event.bytes_total
            &&& done <= tracker.bytes_total ==> event.bytes_done == done
            &&& done > tracker.bytes_total ==> event.bytes_done == tracker.bytes_total
        }),
{
}

/// The names in an event tell directions and states apart.
pub proof fn names_tell_directions_and_states_apart(kind: TransferKind, state: TransferState)
    ensures
        kind.spelled() == "upload"@ <==> kind == TransferKind::Upload,
        kind.spelled() == "download"@ <==> kind == TransferKind::Download,
        state.spelled() == "waiting"@ <==> state == TransferState::Waiting,
        state.spelled() == "active"@ <==> state == TransferState::Active,
        state.spelled() == "done"@ <==> state == TransferState::Done,
        state.spelled() == "error"@ <==> state == TransferState::Error,
        state.spelled() == "removed"@ <==> state == TransferState::Removed,
{
    reveal_strlit("upload");
    reveal_strlit("download");
    reveal_strlit("waiting");
    reveal_strlit("active");
    reveal_strlit("done");
    reveal_strlit("error");
    reveal_strlit("removed");
    assert("upload"@[0] == 'u');
    assert("download"@[0] == 'd');
    assert("waiting"@[0] == 'w');
    assert("active"@[0] == 'a');
    assert("done"@[0] == 'd');
    assert("error"@[0] == 'e');
    assert("removed"@[0] == 'r');
}

/// A transfer is known by its mount, its file and its direction, in that
/// order.
pub proof fn a_transfer_is_known_by_mount_file_and_direction(mount_id: Seq<char>, fileid: u64)
    ensures
        id_of(mount_id, fileid, TransferKind::Upload) == mount_id + ":"@ + text::decimal(fileid as nat) + ":"@ + "up"@,
        id_of(mount_id, fileid, TransferKind::Download) == mount_id + ":"@ + text::decimal(fileid as nat) + ":"@ + "down"@,
{
}

/// A transfer reports what was done: while it moves as far as the throttle
/// lets a report pass, and at its end in any case.
pub proof fn a_transfer_reports_what_was_done(bytes: u64, passes: bool, tracker: TransferTracker, ended: MountTransferEvent, error: &str, broken: MountTransferEvent)
    requires
        call_ensures(TransferTracker::done, (&tracker,), ended),
        call_ensures(TransferTracker::failed, (&tracker, error), broken),
    ensures
        ended@.state == TransferState::Done && ended@.bytes_done == tracker.bytes_total && ended@.error is None,
        broken@.state == TransferState::Error && broken@.error == Some(error@) && broken@.bytes_total == tracker.bytes_total,
        forall|going: &mut TransferTracker, event: Option<MountTransferEvent>|
            (*going).bytes_done + bytes <= u64::MAX && #[trigger] call_ensures(TransferTracker::add, (going, bytes, passes), event) ==> {
                &&& final(going).bytes_done == (*going).bytes_done + bytes
                &&& final(going).bytes_total == (*going).bytes_total
                &&& final(going).fileid == (*going).fileid
                &&& event is Some <==> passes
                &&& event is Some ==> event->0@.state == TransferState::Active
                &&& event is Some && final(going).bytes_done <= final(going).bytes_total ==> event->0@.bytes_done == final(going).bytes_done
            },
        forall|going: &mut TransferTracker, event: Option<MountTransferEvent>| #[trigger]
            call_ensures(TransferTracker::set, (going, bytes, passes), event) ==> final(going).bytes_done == bytes && (event is Some <==> passes)
                && final(going).bytes_total == (*going).bytes_total,
        forall|going: &mut TransferTracker, event: MountTransferEvent| #[trigger]
            call_ensures(TransferTracker::restart, (going,), event) ==> final(going).bytes_done == 0 && event@.bytes_done == 0 && event@.state
                == TransferState::Active && final(going).bytes_total == (*going).bytes_total,
{
}

/// A file that waits is shown with its size and nothing done; one that no
/// longer matters is removed; a transfer begins with nothing done.
pub proof fn a_waiting_file_is_shown_with_its_size(
    progress: MountProgress,
    fileid: u64,
    key: &str,
    size: u64,
    kind: TransferKind,
    waiting: MountTransferEvent,
    removed: MountTransferEvent,
    begun: (TransferTracker, MountTransferEvent),
)
    requires
        call_ensures(MountProgress::waiting, (&progress, fileid, key, size), waiting),
        call_ensures(MountProgress::removed, (&progress, fileid, key), removed),
        call_ensures(MountProgress::track, (&progress, fileid, key, kind, size), begun),
    ensures
        waiting@.state == TransferState::Waiting && waiting@.kind == TransferKind::Upload && waiting@.bytes_total == size && waiting@.bytes_done
            == 0 && waiting@.key == key@,
        removed@.state == TransferState::Removed && removed@.kind == TransferKind::Upload && removed@.key == key@,
        removed@.transfer_id == waiting@.transfer_id,
        begun.0.bytes_done == 0 && begun.0.bytes_total == size && begun.0.kind == kind && begun.0.fileid == fileid && begun.0.key@ == key@,
        begun.1@.state == TransferState::Active && begun.1@.bytes_done == 0 && begun.1@.bytes_total == size && begun.1@.kind == kind,
{
}

} // verus!
