//! Durability of staged files.
//!
//! Requests to make files durable are gathered and carried out in batches. A
//! failed attempt poisons its file: an operating system may mark the pages
//! that a failed write-back dropped as clean, so a later attempt at the same
//! file can succeed without them. Nothing is acknowledged through a poisoned
//! file until its owner has rewritten it.

use vstd::prelude::*;
use crate::key_map::KeyMap;
use crate::text;

verus! {

/// How long requests are gathered before a batch is carried out.
pub const COMMIT_DELAY_MS: u64 = 5;

/// What was made durable so far.
#[derive(Clone, Copy, Debug, PartialEq, Eq, Structural)]
pub struct CommitMetrics {
    pub sync_batches: u64,
    pub sync_files: u64,
    pub sync_parents: u64,
    pub sync_bytes: u64,
    pub workers_started: u64,
    pub sync_failures: u64,
    /// Files currently refusing acknowledgements after a failed attempt.
    pub poisoned_files: u64,
}

/// A count after another one. Counts start over when they cannot grow.
pub open spec fn counted(count: u64, more: u64) -> u64 {
    vstd::wrapping::u64_specs::wrapping_add(count, more)
}

/// The counts and the poisoned files of all mounts.
pub struct CommitState {
    pub sync_batches: u64,
    pub sync_files: u64,
    pub sync_parents: u64,
    pub sync_bytes: u64,
    pub workers_started: u64,
    pub sync_failures: u64,
    /// The files whose last attempt failed, with the failure that came first.
    pub poisoned: KeyMap<String>,
}

/// What refuses an acknowledgement for a poisoned file.
pub open spec fn poison_message(failure: Seq<char>) -> Seq<char> {
    "an earlier fsync of this file failed ("@ + failure + "); nothing is acknowledged until it has been rewritten"@
}

/// The poisoned files after one more failure: the one that came first is kept.
pub open spec fn poisoned_with(poisoned: Map<Seq<char>, String>, path: Seq<char>, failure: String) -> Map<Seq<char>, String> {
    if poisoned.contains_key(path) {
        poisoned
    } else {
        poisoned.insert(path, failure)
    }
}

impl CommitState {
    /// The paths of the poisoned files stand in order.
    pub open spec fn well_formed(&self) -> bool {
        self.poisoned.well_formed()
    }

    /// The file refuses acknowledgements.
    pub open spec fn is_poisoned(&self, path: Seq<char>) -> bool {
        self.poisoned@.contains_key(path)
    }

    /// Nothing was made durable yet, and nothing failed.
    pub fn new() -> (state: Self)
        ensures
            state.well_formed(),
            state.poisoned@ == Map::<Seq<char>, String>::empty(),
            state.sync_batches == 0,
            state.sync_files == 0,
            state.sync_parents == 0,
            state.sync_bytes == 0,
            state.workers_started == 0,
            state.sync_failures == 0,
    {
        CommitState {
            sync_batches: 0,
            sync_files: 0,
            sync_parents: 0,
            sync_bytes: 0,
            workers_started: 0,
            sync_failures: 0,
            poisoned: KeyMap::new(),
        }
    }

    /// What was made durable so far.
    pub fn metrics(&self) -> (metrics: CommitMetrics)
        requires
            self.well_formed(),
        ensures
            metrics == (CommitMetrics {
                sync_batches: self.sync_batches,
                sync_files: self.sync_files,
                sync_parents: self.sync_parents,
                sync_bytes: self.sync_bytes,
                workers_started: self.workers_started,
                sync_failures: self.sync_failures,
                poisoned_files: metrics.poisoned_files,
            }),
            metrics.poisoned_files == self.poisoned@.dom().len(),
    {
        CommitMetrics {
            sync_batches: self.sync_batches,
            sync_files: self.sync_files,
            sync_parents: self.sync_parents,
            sync_bytes: self.sync_bytes,
            workers_started: self.workers_started,
            sync_failures: self.sync_failures,
            poisoned_files: self.poisoned.len() as u64,
        }
    }

    /// The failure that poisoned a file, if one did.
    pub fn poisoned(&self, path: &str) -> (failure: Option<String>)
        requires
            self.well_formed(),
        ensures
            failure is Some <==> self.is_poisoned(path@),
            failure matches Some(message) ==> message@ == self.poisoned@[path@]@,
    {
        match self.poisoned.get(path) {
            Some(message) => Some(message.clone()),
            None => None,
        }
    }

    /// Records that an attempt to make a file durable failed. The failure that
    /// came first is kept.
    pub fn poison(&mut self, path: &str, failure: String)
        requires
            old(self).well_formed(),
        ensures
            final(self).well_formed(),
            final(self).sync_failures == counted(old(self).sync_failures, 1),
            final(self).poisoned@ == poisoned_with(old(self).poisoned@, path@, failure),
            *final(self) == (CommitState {
                sync_failures: final(self).sync_failures,
                poisoned: final(self).poisoned,
                ..*old(self)
            }),
    {
        self.sync_failures = self.sync_failures.wrapping_add(1);
        if !self.poisoned.contains_key(path) {
            self.poisoned.insert(path.to_owned(), failure);
        }
    }

    /// Only for the owner, once the file has been rewritten and made durable.
    pub fn clear_poison(&mut self, path: &str)
        requires
            old(self).well_formed(),
        ensures
            final(self).well_formed(),
            final(self).poisoned@ == old(self).poisoned@.remove(path@),
            *final(self) == (CommitState { poisoned: final(self).poisoned, ..*old(self) }),
    {
        let _ = self.poisoned.remove(path);
    }

    /// Records that a file was made durable.
    pub fn record_file_sync_bytes(&mut self, bytes: u64)
        ensures
            *final(self) == (CommitState {
                sync_files: counted(old(self).sync_files, 1),
                sync_bytes: counted(old(self).sync_bytes, bytes),
                ..*old(self)
            }),
    {
        self.sync_files = self.sync_files.wrapping_add(1);
        self.sync_bytes = self.sync_bytes.wrapping_add(bytes);
    }

    /// Records that a folder was made durable.
    pub fn record_parent_sync(&mut self)
        ensures
            *final(self) == (CommitState { sync_parents: counted(old(self).sync_parents, 1), ..*old(self) }),
    {
        self.sync_parents = self.sync_parents.wrapping_add(1);
    }

    /// Records that a batch was carried out.
    pub fn record_batch(&mut self)
        ensures
            *final(self) == (CommitState { sync_batches: counted(old(self).sync_batches, 1), ..*old(self) }),
    {
        self.sync_batches = self.sync_batches.wrapping_add(1);
    }

    /// Records that a worker was started.
    pub fn record_worker(&mut self)
        ensures
            *final(self) == (CommitState { workers_started: counted(old(self).workers_started, 1), ..*old(self) }),
    {
        self.workers_started = self.workers_started.wrapping_add(1);
    }

    /// Whether an attempt may be made at a file: not while it is poisoned.
    pub fn admit_sync(&self, path: &str) -> (admitted: Result<(), String>)
        requires
            self.well_formed(),
        ensures
            match admitted {
                Ok(()) => !self.is_poisoned(path@),
                Err(message) => self.is_poisoned(path@) && message@ == poison_message(self.poisoned@[path@]@),
            },
    {
        match self.poisoned.get(path) {
            None => Ok(()),
            Some(failure) => {
                let mut message = "an earlier fsync of this file failed (".to_owned();
                message.append(failure.as_str());
                message.append("); nothing is acknowledged until it has been rewritten");
                Err(message)
            },
        }
    }

    /// Takes what came of an attempt at a file. A failed one poisons it.
    pub fn finish_sync(&mut self, path: &str, attempt: Result<(), String>) -> (result: Result<(), String>)
        requires
            old(self).well_formed(),
        ensures
            final(self).well_formed(),
            match attempt {
                Ok(()) => result is Ok && *final(self) == *old(self),
                Err(failure) => {
                    &&& result is Err
                    &&& result->Err_0@ == failure@
                    &&& final(self).poisoned@ == poisoned_with(old(self).poisoned@, path@, failure)
                    &&& *final(self) == (CommitState {
                        sync_failures: counted(old(self).sync_failures, 1),
                        poisoned: final(self).poisoned,
                        ..*old(self)
                    })
                },
            },
    {
        match attempt {
            Ok(()) => Ok(()),
            Err(failure) => {
                let message = failure.clone();
                self.poison(path, failure);
                Err(message)
            },
        }
    }
}

/// All paths that requests ask for.
pub open spec fn asked_for(requests: Seq<Vec<String>>, path: Seq<char>) -> bool {
    exists|i: int| 0 <= i < requests.len() && text::texts((#[trigger] requests[i])@).contains(path)
}

/// The files of a batch, each once, in the order of their paths.
pub fn batch_paths(requests: &Vec<Vec<String>>) -> (batch: KeyMap<()>)
    ensures
        batch.well_formed(),
        forall|path: Seq<char>| #[trigger] batch@.contains_key(path) <==> asked_for(requests@, path),
{
    let mut batch: KeyMap<()> = KeyMap::new();
    let mut i: usize = 0;
    while i < requests.len()
        invariant
            batch.well_formed(),
            i <= requests.len(),
            forall|path: Seq<char>| #[trigger] batch@.contains_key(path) <==> asked_for(requests@.take(i as int), path),
        decreases requests.len() - i,
    {
        let paths = &requests[i];
        let ghost before = batch@;
        let mut j: usize = 0;
        while j < paths.len()
            invariant
                batch.well_formed(),
                j <= paths.len(),
                forall|path: Seq<char>| #[trigger] batch@.contains_key(path) <==> before.contains_key(path) || text::texts(
                    paths@,
                ).take(j as int).contains(path),
            decreases paths.len() - j,
        {
            let ghost all = text::texts(paths@);
            let ghost now = batch@;
            batch.insert(paths[j].clone(), ());
            proof {
                assert(all[j as int] == paths@[j as int]@);
                assert forall|path: Seq<char>| #[trigger] batch@.contains_key(path) <==> before.contains_key(path) || all.take(j + 1).contains(
                    path,
                ) by {
                    assert(now.contains_key(path) <==> before.contains_key(path) || all.take(j as int).contains(path));
                    let fewer = all.take(j as int);
                    let more = all.take(j + 1);
                    if fewer.contains(path) {
                        let k = choose|k: int| 0 <= k < fewer.len() && fewer[k] == path;
                        assert(more[k] == path);
                    }
                    assert(more[j as int] == all[j as int]);
                    if more.contains(path) && path != all[j as int] {
                        let k = choose|k: int| 0 <= k < more.len() && more[k] == path;
                        assert(fewer[k] == path);
                    }
                }
            }
            j = j + 1;
        }
        proof {
            let all = text::texts(paths@);
            assert(all.take(j as int) =~= all);
            assert forall|path: Seq<char>| #[trigger] batch@.contains_key(path) <==> asked_for(requests@.take(i + 1), path) by {
                assert(before.contains_key(path) <==> asked_for(requests@.take(i as int), path));
                if asked_for(requests@.take(i as int), path) {
                    let k = choose|k: int|
                        0 <= k < requests@.take(i as int).len() && text::texts((#[trigger] requests@.take(i as int)[k])@).contains(path);
                    assert(requests@.take(i + 1)[k] == requests@.take(i as int)[k]);
                }
                assert(requests@.take(i + 1)[i as int] == *paths);
                if asked_for(requests@.take(i + 1), path) {
                    let k = choose|k: int|
                        0 <= k < requests@.take(i + 1).len() && text::texts((#[trigger] requests@.take(i + 1)[k])@).contains(path);
                    if k < i {
                        assert(requests@.take(i as int)[k] == requests@.take(i + 1)[k]);
                    }
                }
            }
        }
        i = i + 1;
    }
    assert(requests@.take(i as int) =~= requests@);
    batch
}

/// A file of the batch could not be made durable.
pub open spec fn has_failed(results: Map<Seq<char>, Result<(), String>>, path: Seq<char>) -> bool {
    results.contains_key(path) && results[path] is Err
}

/// The answer to one request of a batch: it succeeds only if every file it
/// asked for is durable, and otherwise fails with the first failure.
pub fn answer_request(paths: &Vec<String>, results: &KeyMap<Result<(), String>>) -> (answer: Result<(), String>)
    requires
        results.well_formed(),
    ensures
        match answer {
            Ok(()) => forall|i: int| 0 <= i < paths@.len() ==> !has_failed(results@, (#[trigger] paths@[i])@),
            Err(message) => exists|i: int|
                {
                    &&& 0 <= i < paths@.len()
                    &&& has_failed(results@, (#[trigger] paths@[i])@)
                    &&& message@ == (results@[paths@[i]@]->Err_0)@
                    &&& forall|j: int| 0 <= j < i ==> !has_failed(results@, (#[trigger] paths@[j])@)
                },
        },
{
    let mut i: usize = 0;
    while i < paths.len()
        invariant
            results.well_formed(),
            i <= paths.len(),
            forall|j: int| 0 <= j < i ==> !has_failed(results@, (#[trigger] paths@[j])@),
        decreases paths.len() - i,
    {
        match results.get(paths[i].as_str()) {
            Some(Err(message)) => {
                assert(has_failed(results@, paths@[i as int]@));
                return Err(message.clone());
            },
            _ => {},
        }
        i = i + 1;
    }
    Ok(())
}

/// What can happen to the poisoned files.
pub ghost enum PoisonEvent {
    /// An attempt at a file failed.
    Failed { path: Seq<char>, failure: String },
    /// A file was given up or replaced, and its failure with it.
    Cleared { path: Seq<char> },
}

/// The poisoned files after these events, in order.
pub open spec fn poisoned_after(poisoned: Map<Seq<char>, String>, events: Seq<PoisonEvent>) -> Map<Seq<char>, String>
    decreases events.len(),
{
    if events.len() == 0 {
        poisoned
    } else {
        let before = poisoned_after(poisoned, events.drop_last());
        match events.last() {
            PoisonEvent::Failed { path, failure } => poisoned_with(before, path, failure),
            PoisonEvent::Cleared { path } => before.remove(path),
        }
    }
}

/// From a failed attempt on, whatever happens to other files and however often
/// this one fails again, every attempt at the file is refused with that first
/// failure until it is cleared. A file that was not poisoned and at which no
/// attempt failed is not refused.
pub proof fn a_failed_attempt_refuses_its_file_only(poisoned: Map<Seq<char>, String>, events: Seq<PoisonEvent>, path: Seq<char>)
    ensures
        poisoned.contains_key(path) && (forall|i: int|
            0 <= i < events.len() ==> (#[trigger] events[i] matches PoisonEvent::Cleared { path: other } ==> other != path)) ==> poisoned_after(
            poisoned,
            events,
        ).contains_key(path) && poisoned_after(poisoned, events)[path] == poisoned[path],
        !poisoned.contains_key(path) && (forall|i: int|
            0 <= i < events.len() ==> (#[trigger] events[i] matches PoisonEvent::Failed { path: other, .. } ==> other != path))
            ==> !poisoned_after(poisoned, events).contains_key(path),
    decreases events.len(),
{
    if events.len() > 0 {
        let earlier = events.drop_last();
        a_failed_attempt_refuses_its_file_only(poisoned, earlier, path);
        assert(events[events.len() - 1] == events.last());
        if forall|i: int| 0 <= i < events.len() ==> (#[trigger] events[i] matches PoisonEvent::Cleared { path: other } ==> other != path) {
            assert forall|i: int| 0 <= i < earlier.len() implies (#[trigger] earlier[i] matches PoisonEvent::Cleared { path: other } ==> other
                != path) by {
                assert(earlier[i] == events[i]);
            }
        }
        if forall|i: int| 0 <= i < events.len() ==> (#[trigger] events[i] matches PoisonEvent::Failed { path: other, .. } ==> other != path) {
            assert forall|i: int| 0 <= i < earlier.len() implies (#[trigger] earlier[i] matches PoisonEvent::Failed { path: other, .. } ==> other
                != path) by {
                assert(earlier[i] == events[i]);
            }
        }
    }
}

/// A file that failed to become durable is not acknowledged again, whatever
/// fails later and whichever other file is cleared, until its owner clears it;
/// and what is said of it is the failure that came first.
pub proof fn a_poisoned_file_stays_so(poisoned: Map<Seq<char>, String>, path: Seq<char>, other: Seq<char>, failure: String)
    requires
        poisoned.contains_key(path),
    ensures
        poisoned_with(poisoned, other, failure).contains_key(path),
        poisoned_with(poisoned, other, failure)[path] == poisoned[path],
        other != path ==> poisoned.remove(other).contains_key(path) && poisoned.remove(other)[path] == poisoned[path],
{
}

/// The first failure of a file is the one that is kept, and touches no other
/// file.
pub proof fn the_first_failure_is_kept(poisoned: Map<Seq<char>, String>, path: Seq<char>, failure: String, other: Seq<char>)
    requires
        other != path,
    ensures
        poisoned_with(poisoned, path, failure).contains_key(path),
        poisoned.contains_key(path) ==> poisoned_with(poisoned, path, failure)[path] == poisoned[path],
        !poisoned.contains_key(path) ==> poisoned_with(poisoned, path, failure)[path] == failure,
        poisoned_with(poisoned, path, failure).contains_key(other) <==> poisoned.contains_key(other),
        poisoned.contains_key(other) ==> poisoned_with(poisoned, path, failure)[other] == poisoned[other],
{
}

/// A file has failed where its result says so.
pub proof fn a_file_fails_by_its_own_result(results: Map<Seq<char>, Result<(), String>>, path: Seq<char>)
    ensures
        !results.contains_key(path) ==> !has_failed(results, path),
        results.contains_key(path) && results[path] is Ok ==> !has_failed(results, path),
        results.contains_key(path) && results[path] is Err ==> has_failed(results, path),
{
}

/// A count grows by what is added, as long as it can.
pub proof fn a_count_grows(count: u64, more: u64)
    requires
        count + more <= u64::MAX,
    ensures
        counted(count, more) == count + more,
{
}

/// A request is answered with success only where none of the files that it
/// asked for failed.
pub proof fn nothing_is_acknowledged_that_failed(
    paths: Vec<String>,
    results: KeyMap<Result<(), String>>,
    answer: Result<(), String>,
    index: int,
)
    requires
        results.well_formed(),
        call_ensures(answer_request, (&paths, &results), answer),
        0 <= index < paths@.len(),
        results@.contains_key(paths@[index]@),
        results@[paths@[index]@] is Err,
    ensures
        answer is Err,
{
    assert(has_failed(results@, paths@[index]@));
}

/// What refuses an acknowledgement names the failure that came first.
pub proof fn a_refusal_names_its_failure(failure: Seq<char>)
    ensures
        poison_message(failure) == "an earlier fsync of this file failed ("@ + failure
            + "); nothing is acknowledged until it has been rewritten"@,
{
}

/// A file is acknowledged only where none of its attempts failed since it was
/// last cleared.
pub proof fn a_poisoned_file_is_not_acknowledged(state: CommitState, path: &str, admitted: Result<(), String>, failure: String)
    requires
        state.well_formed(),
        call_ensures(CommitState::admit_sync, (&state, path), admitted),
    ensures
        admitted is Ok <==> !state.is_poisoned(path@),
        forall|going: &mut CommitState, result: Result<(), String>| #[trigger]
            call_ensures(CommitState::finish_sync, (going, path, Ok(())), result) ==> result is Ok && *final(going) == *going,
        forall|going: &mut CommitState, result: Result<(), String>| #[trigger]
            call_ensures(CommitState::finish_sync, (going, path, Err(failure)), result) ==> result is Err && (result->Err_0)@ == failure@ && final(
                going).is_poisoned(path@),
        forall|going: &mut CommitState| #[trigger]
            call_ensures(CommitState::poison, (going, path, failure), ()) ==> final(going).is_poisoned(path@),
        forall|going: &mut CommitState| #[trigger]
            call_ensures(CommitState::clear_poison, (going, path), ()) ==> !final(going).is_poisoned(path@),
{
}

/// A batch makes durable just the files that its requests ask for.
pub proof fn a_batch_holds_what_was_asked_for(requests: Vec<Vec<String>>, request: int, place: int)
    requires
        0 <= request < requests@.len(),
        0 <= place < requests@[request]@.len(),
    ensures
        asked_for(requests@, requests@[request]@[place]@),
{
    let list = text::texts(requests@[request]@);
    assert(list[place] == requests@[request]@[place]@);
    assert(list.contains(requests@[request]@[place]@));
}

} // verus!
