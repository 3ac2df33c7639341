//! What is shown of a mount's health.

use vstd::prelude::*;
use crate::journal::copy_text;
use crate::stage::StageRecovery;
use crate::stage_state::Stage;
use crate::text;

verus! {

/// What the last requests came to.
pub struct IoHealth {
    /// When a request last succeeded, in seconds.
    pub last_successful_io: Option<i64>,
    pub last_error: Option<String>,
}

impl Default for IoHealth {
    fn default() -> (health: Self)
        ensures
            health.last_successful_io is None,
            health.last_error is None,
    {
        IoHealth { last_successful_io: None, last_error: None }
    }
}

impl IoHealth {
    /// A request succeeded.
    pub fn succeeded(&mut self, now_secs: i64)
        ensures
            *final(self) == (IoHealth { last_successful_io: Some(now_secs), last_error: None }),
    {
        self.last_successful_io = Some(now_secs);
        self.last_error = None;
    }

    /// A request failed.
    pub fn failed(&mut self, message: String)
        ensures
            *final(self) == (IoHealth { last_error: Some(message), ..*old(self) }),
    {
        self.last_error = Some(message);
    }
}

/// What is shown of one staged file.
pub struct StageHealthStats {
    pub dirty: bool,
    pub size: u64,
    /// Since when it has not been uploaded, in milliseconds.
    pub first_dirty_at: Option<i64>,
    pub last_error: Option<String>,
}

/// What is shown of one staged file, as text.
pub ghost struct StatsModel {
    pub dirty: bool,
    pub size: u64,
    pub first_dirty_at: Option<i64>,
    pub last_error: Option<Seq<char>>,
}

impl View for StageHealthStats {
    type V = StatsModel;

    open spec fn view(&self) -> StatsModel {
        StatsModel {
            dirty: self.dirty,
            size: self.size,
            first_dirty_at: self.first_dirty_at,
            last_error: text::optional(self.last_error),
        }
    }
}

/// What is shown of the staged files, by their ids.
pub struct StageHealth {
    entries: Vec<(u64, StageHealthStats)>,
}

impl StageHealth {
    /// The files in the order in which they were first seen.
    pub closed spec fn entries(&self) -> Seq<(u64, StatsModel)> {
        self.entries@.map_values(|entry: (u64, StageHealthStats)| (entry.0, entry.1@))
    }

    /// Every file stands once.
    pub open spec fn well_formed(&self) -> bool {
        forall|i: int, j: int| 0 <= i < j < self.entries().len() ==> (#[trigger] self.entries()[i]).0 != (#[trigger] self.entries()[j]).0
    }

    /// Where a file stands.
    pub open spec fn stands_at(&self, id: u64, place: int) -> bool {
        0 <= place < self.entries().len() && self.entries()[place].0 == id
    }

    /// Something is shown of this file.
    pub open spec fn shows(&self, id: u64) -> bool {
        exists|place: int| self.stands_at(id, place)
    }

    /// Nothing is shown yet.
    pub fn new() -> (health: Self)
        ensures
            health.well_formed(),
            health.entries() == Seq::<(u64, StatsModel)>::empty(),
    {
        let health = StageHealth { entries: Vec::new() };
        assert(health.entries() =~= Seq::<(u64, StatsModel)>::empty());
        health
    }

    fn find(&self, id: u64) -> (place: Option<usize>)
        ensures
            match place {
                Some(p) => self.stands_at(id, p as int) && p < self.entries@.len(),
                None => !self.shows(id),
            },
    {
        let mut i: usize = 0;
        while i < self.entries.len()
            invariant
                i <= self.entries.len(),
                forall|j: int| 0 <= j < i ==> !self.stands_at(id, j),
            decreases self.entries.len() - i,
        {
            assert(self.entries()[i as int].0 == self.entries@[i as int].0);
            if self.entries[i].0 == id {
                assert(self.stands_at(id, i as int));
                return Some(i);
            }
            i = i + 1;
        }
        None
    }

    /// Shows this of a file from now on.
    pub fn insert(&mut self, id: u64, stats: StageHealthStats)
        requires
            old(self).well_formed(),
        ensures
            final(self).well_formed(),
            old(self).shows(id) ==> exists|place: int|
                #[trigger] old(self).stands_at(id, place) && final(self).entries() == old(self).entries().update(place, (id, stats@)),
            !old(self).shows(id) ==> final(self).entries() == old(self).entries().push((id, stats@)),
    {
        let ghost before = self.entries();
        let ghost model = (id, stats@);
        match self.find(id) {
            Some(place) => {
                self.entries.set(place, (id, stats));
                assert(self.entries() =~= before.update(place as int, model));
                assert(old(self).stands_at(id, place as int));
            },
            None => {
                self.entries.push((id, stats));
                assert(self.entries() =~= before.push(model));
                assert forall|i: int| 0 <= i < before.len() implies (#[trigger] before[i]).0 != id by {
                    assert(!old(self).stands_at(id, i));
                }
            },
        }
    }

    /// Shows nothing of a file any more.
    pub fn remove(&mut self, id: u64)
        requires
            old(self).well_formed(),
        ensures
            final(self).well_formed(),
            old(self).shows(id) ==> exists|place: int|
                #[trigger] old(self).stands_at(id, place) && final(self).entries() == old(self).entries().remove(place),
            !old(self).shows(id) ==> final(self).entries() == old(self).entries(),
    {
        let ghost before = self.entries();
        match self.find(id) {
            Some(place) => {
                let _ = self.entries.remove(place);
                assert(self.entries() =~= before.remove(place as int));
                assert(old(self).stands_at(id, place as int));
                assert forall|i: int, j: int| 0 <= i < j < self.entries().len() implies (#[trigger] self.entries()[i]).0 != (
                #[trigger] self.entries()[j]).0 by {
                    let a = if i < place { i } else { i + 1 };
                    let b = if j < place { j } else { j + 1 };
                    assert(before[a].0 != before[b].0);
                }
            },
            None => {},
        }
    }

    /// Shows a change of a stage that is being written: as if it stood already,
    /// since the first change that was not uploaded, or else since now.
    pub fn record_pending(&mut self, id: u64, size: u64, stage: &Stage, now_ms: i64)
        requires
            old(self).well_formed(),
        ensures
            final(self).well_formed(),
            ({
                let stats = StatsModel {
                    dirty: true,
                    size,
                    first_dirty_at: Some(
                        match stage.first_dirty_at {
                            Some(at) => at,
                            None => now_ms,
                        },
                    ),
                    last_error: text::optional(stage.last_error),
                };
                if old(self).shows(id) {
                    exists|place: int|
                        #[trigger] old(self).stands_at(id, place) && final(self).entries() == old(self).entries().update(place, (id, stats))
                } else {
                    final(self).entries() == old(self).entries().push((id, stats))
                }
            }),
    {
        let since: i64 = match stage.first_dirty_at {
            Some(at) => at,
            None => now_ms,
        };
        self.insert(
            id,
            StageHealthStats { dirty: true, size, first_dirty_at: Some(since), last_error: copy_text(&stage.last_error) },
        );
    }

    /// Shows a stage as it is, or nothing of it once it is gone.
    pub fn record(&mut self, id: u64, stage: &Stage)
        requires
            old(self).well_formed(),
        ensures
            final(self).well_formed(),
            ({
                let stats = StatsModel {
                    dirty: stage.dirty,
                    size: stage.size,
                    first_dirty_at: stage.first_dirty_at,
                    last_error: text::optional(stage.last_error),
                };
                if stage.evicted {
                    if old(self).shows(id) {
                        exists|place: int|
                            #[trigger] old(self).stands_at(id, place) && final(self).entries() == old(self).entries().remove(place)
                    } else {
                        final(self).entries() == old(self).entries()
                    }
                } else if old(self).shows(id) {
                    exists|place: int|
                        #[trigger] old(self).stands_at(id, place) && final(self).entries() == old(self).entries().update(place, (id, stats))
                } else {
                    final(self).entries() == old(self).entries().push((id, stats))
                }
            }),
    {
        if stage.evicted {
            self.remove(id);
        } else {
            self.insert(
                id,
                StageHealthStats {
                    dirty: stage.dirty,
                    size: stage.size,
                    first_dirty_at: stage.first_dirty_at,
                    last_error: copy_text(&stage.last_error),
                },
            );
        }
    }
}

/// How many files wait to be uploaded.
pub open spec fn dirty_count(entries: Seq<(u64, StatsModel)>) -> int
    decreases entries.len(),
{
    if entries.len() == 0 {
        0
    } else {
        dirty_count(entries.drop_last()) + (if entries.last().1.dirty {
            1int
        } else {
            0int
        })
    }
}

/// How many bytes wait to be uploaded.
pub open spec fn dirty_size(entries: Seq<(u64, StatsModel)>) -> int
    decreases entries.len(),
{
    if entries.len() == 0 {
        0
    } else {
        dirty_size(entries.drop_last()) + (if entries.last().1.dirty {
            entries.last().1.size as int
        } else {
            0int
        })
    }
}

/// For how long something has waited since a moment; never less than nothing,
/// and no more than can be counted.
pub open spec fn age_since(now_ms: i64, since_ms: i64) -> int {
    let age = now_ms - since_ms;
    if age < 0 {
        0
    } else if age > i64::MAX {
        i64::MAX as int
    } else {
        age
    }
}

/// For how long the file has waited that has waited longest.
pub open spec fn longest_wait(entries: Seq<(u64, StatsModel)>, now_ms: i64) -> int
    decreases entries.len(),
{
    if entries.len() == 0 {
        0
    } else {
        let before = longest_wait(entries.drop_last(), now_ms);
        let last = entries.last().1;
        if last.dirty && last.first_dirty_at is Some && age_since(now_ms, last.first_dirty_at->0) > before {
            age_since(now_ms, last.first_dirty_at->0)
        } else {
            before
        }
    }
}

/// The error of the last file that waits with one, or else another.
pub open spec fn waiting_error(entries: Seq<(u64, StatsModel)>, otherwise: Option<Seq<char>>) -> Option<Seq<char>>
    decreases entries.len(),
{
    if entries.len() == 0 {
        otherwise
    } else if entries.last().1.dirty && entries.last().1.last_error is Some {
        entries.last().1.last_error
    } else {
        waiting_error(entries.drop_last(), otherwise)
    }
}

/// What is shown of a mount's health.
pub struct FsHealthSnapshot {
    pub pending_uploads: usize,
    pub dirty_bytes: u64,
    pub oldest_dirty_ms: u64,
    pub last_error: Option<String>,
    pub last_successful_io: Option<i64>,
}

/// What is known of the changes that were interrupted.
pub enum OpenOperations {
    /// How many there are, and whether none of them is being carried out.
    Counted(usize, bool),
    /// They could not be listed.
    Unknown(String),
}

/// The message that interrupted changes leave.
pub open spec fn interrupted() -> Seq<char> {
    "Interrupted file changes are retained for recovery"@
}

/// How many interrupted changes count as pending.
pub open spec fn operations_pending(operations: OpenOperations) -> int {
    match operations {
        OpenOperations::Counted(count, _) => count as int,
        OpenOperations::Unknown(_) => 1,
    }
}

/// The error that is shown: what went wrong at recovery, or else what is wrong
/// with interrupted changes, or else the error of a file that waits, or else
/// that of what was set aside, or else that of the last request.
pub open spec fn shown_error(
    io: Option<Seq<char>>,
    quarantined: Seq<StageRecovery>,
    entries: Seq<(u64, StatsModel)>,
    operations: OpenOperations,
    recovery_errors: Seq<String>,
) -> Option<Seq<char>> {
    let aside = if quarantined.len() > 0 {
        text::optional(quarantined[0].error)
    } else {
        io
    };
    let waiting = waiting_error(entries, aside);
    if recovery_errors.len() > 0 {
        Some(recovery_errors[0]@)
    } else {
        match operations {
            OpenOperations::Unknown(message) => Some(message@),
            OpenOperations::Counted(count, idle) => if count > 0 && idle {
                Some(interrupted())
            } else {
                waiting
            },
        }
    }
}

proof fn counts_are_bounded(entries: Seq<(u64, StatsModel)>)
    ensures
        0 <= dirty_count(entries) <= entries.len(),
        0 <= dirty_size(entries),
    decreases entries.len(),
{
    if entries.len() > 0 {
        counts_are_bounded(entries.drop_last());
    }
}

/// What is shown of a mount's health.
pub fn health_snapshot(
    io: &IoHealth,
    quarantined: &Vec<StageRecovery>,
    stages: &StageHealth,
    operations: OpenOperations,
    recovery_errors: &Vec<String>,
    now_ms: i64,
) -> (health: FsHealthSnapshot)
    requires
        quarantined@.len() + dirty_count(stages.entries()) + operations_pending(operations) <= usize::MAX,
    ensures
        health.pending_uploads == quarantined@.len() + dirty_count(stages.entries()) + operations_pending(operations),
        health.dirty_bytes == (if dirty_size(stages.entries()) > u64::MAX {
            u64::MAX as int
        } else {
            dirty_size(stages.entries())
        }),
        health.oldest_dirty_ms == longest_wait(stages.entries(), now_ms),
        text::optional(health.last_error) == shown_error(
            text::optional(io.last_error),
            quarantined@,
            stages.entries(),
            operations,
            recovery_errors@,
        ),
        health.last_successful_io == io.last_successful_io,
{
    let ghost entries = stages.entries();
    let mut pending: usize = quarantined.len();
    let mut bytes: u64 = 0;
    let mut oldest: u64 = 0;
    let mut error: Option<String> = if quarantined.len() > 0 {
        copy_text(&quarantined[0].error)
    } else {
        copy_text(&io.last_error)
    };
    let ghost aside = text::optional(error);
    let mut i: usize = 0;
    assert(entries.take(0) =~= Seq::empty());
    proof {
        counts_are_bounded(entries);
    }
    while i < stages.entries.len()
        invariant
            entries == stages.entries(),
            entries.len() == stages.entries@.len(),
            i <= stages.entries.len(),
            quarantined@.len() + dirty_count(entries) <= usize::MAX,
            pending == quarantined@.len() + dirty_count(entries.take(i as int)),
            bytes == (if dirty_size(entries.take(i as int)) > u64::MAX {
                u64::MAX as int
            } else {
                dirty_size(entries.take(i as int))
            }),
            oldest == longest_wait(entries.take(i as int), now_ms),
            text::optional(error) == waiting_error(entries.take(i as int), aside),
        decreases stages.entries.len() - i,
    {
        let stats = &stages.entries[i].1;
        proof {
            assert(entries.take(i + 1).drop_last() =~= entries.take(i as int));
            assert(entries.take(i + 1).last() == entries[i as int]);
            assert(entries[i as int].1 == stats@);
            counts_are_bounded(entries.take(i as int));
            fewer_are_dirty(entries, i + 1);
        }
        if stats.dirty {
            pending = pending + 1;
            bytes = bytes.saturating_add(stats.size);
            match stats.first_dirty_at {
                Some(since) => {
                    let age: u64 = waited(now_ms, since);
                    if age > oldest {
                        oldest = age;
                    }
                },
                None => {},
            }
            match &stats.last_error {
                Some(message) => {
                    error = Some(message.clone());
                },
                None => {},
            }
        }
        i = i + 1;
    }
    assert(entries.take(i as int) =~= entries);
    match operations {
        OpenOperations::Counted(count, idle) => {
            pending = pending + count;
            if count > 0 && idle {
                error = Some("Interrupted file changes are retained for recovery".to_owned());
            }
        },
        OpenOperations::Unknown(message) => {
            pending = pending + 1;
            error = Some(message);
        },
    }
    if recovery_errors.len() > 0 {
        error = Some(recovery_errors[0].clone());
    }
    FsHealthSnapshot {
        pending_uploads: pending,
        dirty_bytes: bytes,
        oldest_dirty_ms: oldest,
        last_error: error,
        last_successful_io: io.last_successful_io,
    }
}

proof fn fewer_are_dirty(entries: Seq<(u64, StatsModel)>, count: int)
    requires
        0 <= count <= entries.len(),
    ensures
        dirty_count(entries.take(count)) <= dirty_count(entries),
    decreases entries.len(),
{
    if count < entries.len() {
        fewer_are_dirty(entries.drop_last(), count);
        assert(entries.drop_last().take(count) =~= entries.take(count));
    } else {
        assert(entries.take(count) =~= entries);
    }
}

fn waited(now_ms: i64, since_ms: i64) -> (age: u64)
    ensures
        age == age_since(now_ms, since_ms),
{
    let age: i128 = now_ms as i128 - since_ms as i128;
    if age < 0 {
        0
    } else if age > i64::MAX as i128 {
        i64::MAX as u64
    } else {
        age as u64
    }
}

/// One more file counts exactly where it waits to be uploaded, with its own
/// size.
pub proof fn a_waiting_file_counts_with_its_size(entries: Seq<(u64, StatsModel)>, entry: (u64, StatsModel))
    ensures
        dirty_count(Seq::empty()) == 0,
        dirty_size(Seq::empty()) == 0,
        entry.1.dirty ==> dirty_count(entries.push(entry)) == dirty_count(entries) + 1 && dirty_size(entries.push(entry)) == dirty_size(
            entries,
        ) + entry.1.size,
        !entry.1.dirty ==> dirty_count(entries.push(entry)) == dirty_count(entries) && dirty_size(entries.push(entry)) == dirty_size(entries),
{
    assert(entries.push(entry).drop_last() =~= entries);
}

/// An age is the time that has passed, never less than none.
pub proof fn an_age_is_the_time_that_has_passed(now_ms: i64, since_ms: i64)
    ensures
        age_since(now_ms, since_ms) >= 0,
        0 <= now_ms - since_ms <= i64::MAX ==> age_since(now_ms, since_ms) == now_ms - since_ms,
        now_ms < since_ms ==> age_since(now_ms, since_ms) == 0,
{
}

/// No file that waits has waited longer than is shown, and where something is
/// shown some file has waited for just that long.
pub proof fn the_longest_wait_is_shown(entries: Seq<(u64, StatsModel)>, now_ms: i64)
    ensures
        longest_wait(entries, now_ms) >= 0,
        forall|i: int|
            0 <= i < entries.len() && (#[trigger] entries[i]).1.dirty && entries[i].1.first_dirty_at is Some ==> age_since(
                now_ms,
                entries[i].1.first_dirty_at->0,
            ) <= longest_wait(entries, now_ms),
        longest_wait(entries, now_ms) > 0 ==> exists|i: int|
            0 <= i < entries.len() && (#[trigger] entries[i]).1.dirty && entries[i].1.first_dirty_at is Some && age_since(
                now_ms,
                entries[i].1.first_dirty_at->0,
            ) == longest_wait(entries, now_ms),
    decreases entries.len(),
{
    if entries.len() > 0 {
        let fewer = entries.drop_last();
        the_longest_wait_is_shown(fewer, now_ms);
        assert forall|i: int| 0 <= i < entries.len() && (#[trigger] entries[i]).1.dirty && entries[i].1.first_dirty_at is Some implies age_since(
            now_ms,
            entries[i].1.first_dirty_at->0,
        ) <= longest_wait(entries, now_ms) by {
            if i < fewer.len() {
                assert(fewer[i] == entries[i]);
            }
        }
        if longest_wait(entries, now_ms) > 0 {
            if longest_wait(entries, now_ms) == longest_wait(fewer, now_ms) {
                let i = choose|i: int|
                    0 <= i < fewer.len() && (#[trigger] fewer[i]).1.dirty && fewer[i].1.first_dirty_at is Some && age_since(
                        now_ms,
                        fewer[i].1.first_dirty_at->0,
                    ) == longest_wait(fewer, now_ms);
                assert(entries[i] == fewer[i]);
            } else {
                assert(entries[entries.len() - 1] == entries.last());
            }
        }
    }
}

/// A file that waits with an error is shown with it before anything that was
/// set aside; a file that does not wait shows none.
pub proof fn a_waiting_file_shows_its_error(entries: Seq<(u64, StatsModel)>, entry: (u64, StatsModel), otherwise: Option<Seq<char>>)
    ensures
        waiting_error(Seq::empty(), otherwise) == otherwise,
        entry.1.dirty && entry.1.last_error is Some ==> waiting_error(entries.push(entry), otherwise) == entry.1.last_error,
        !entry.1.dirty || entry.1.last_error is None ==> waiting_error(entries.push(entry), otherwise) == waiting_error(entries, otherwise),
{
    assert(entries.push(entry).drop_last() =~= entries);
}

/// Interrupted changes count one by one; where they cannot be listed they
/// count as one.
pub proof fn interrupted_changes_count_as_pending(operations: OpenOperations)
    ensures
        operations matches OpenOperations::Counted(count, _) ==> operations_pending(operations) == count,
        operations is Unknown ==> operations_pending(operations) == 1,
{
}

/// What went wrong at recovery is shown first, then what is wrong with
/// interrupted changes, then the error of a file that waits, then that of what
/// was set aside, and at last that of the last request.
pub proof fn the_gravest_error_is_shown(
    io: Option<Seq<char>>,
    quarantined: Seq<StageRecovery>,
    entries: Seq<(u64, StatsModel)>,
    operations: OpenOperations,
    recovery_errors: Seq<String>,
)
    ensures
        ({
            let shown = shown_error(io, quarantined, entries, operations, recovery_errors);
            &&& recovery_errors.len() > 0 ==> shown == Some(recovery_errors[0]@)
            &&& recovery_errors.len() == 0 && operations is Unknown ==> shown == Some((operations->Unknown_0)@)
            &&& recovery_errors.len() == 0 && operations is Counted && operations->Counted_0 > 0 && operations->Counted_1 ==> shown == Some(
                "Interrupted file changes are retained for recovery"@,
            )
            &&& recovery_errors.len() == 0 && operations is Counted && (operations->Counted_0 == 0 || !operations->Counted_1)
                && entries.len() > 0 && entries.last().1.dirty && entries.last().1.last_error is Some ==> shown
                == entries.last().1.last_error
            &&& recovery_errors.len() == 0 && operations is Counted && (operations->Counted_0 == 0 || !operations->Counted_1)
                && entries.len() == 0 && quarantined.len() > 0 && quarantined[0].error is Some ==> shown == Some((quarantined[0].error->0)@)
            &&& recovery_errors.len() == 0 && operations is Counted && (operations->Counted_0 == 0 || !operations->Counted_1)
                && entries.len() == 0 && quarantined.len() == 0 ==> shown == io
        }),
{
}

/// A request that succeeded clears the last error and is remembered by its
/// time; one that failed is remembered by its message.
pub proof fn the_last_request_is_remembered(now_secs: i64, message: String)
    ensures
        forall|io: &mut IoHealth| #[trigger]
            call_ensures(IoHealth::succeeded, (io, now_secs), ()) ==> final(io).last_successful_io == Some(now_secs) && final(io).last_error
                is None,
        forall|io: &mut IoHealth| #[trigger]
            call_ensures(IoHealth::failed, (io, message), ()) ==> final(io).last_error == Some(message) && final(io).last_successful_io
                == (*io).last_successful_io,
{
}

/// A mount's health counts everything that waits.
pub proof fn a_mount_counts_everything_that_waits(
    io: IoHealth,
    quarantined: Vec<StageRecovery>,
    stages: StageHealth,
    count: usize,
    idle: bool,
    recovery_errors: Vec<String>,
    now_ms: i64,
    health: FsHealthSnapshot,
)
    requires
        call_ensures(health_snapshot, (&io, &quarantined, &stages, OpenOperations::Counted(count, idle), &recovery_errors, now_ms), health),
    ensures
        health.pending_uploads == quarantined@.len() + dirty_count(stages.entries()) + count,
        dirty_size(stages.entries()) <= u64::MAX ==> health.dirty_bytes == dirty_size(stages.entries()),
        health.oldest_dirty_ms == longest_wait(stages.entries(), now_ms),
        health.last_successful_io == io.last_successful_io,
        recovery_errors@.len() > 0 ==> health.last_error is Some && (health.last_error->0)@ == recovery_errors@[0]@,
{
}

} // verus!
