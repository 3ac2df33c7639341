//! The inventory of what earlier sessions left staged.
//!
//! A folder holds, per staged file, a record of it, possibly the record of a
//! write that was interrupted, and a log shared by all. The inventory reads
//! and decides; it changes nothing on disk. What cannot be read is listed as
//! unreadable and never dropped.

use vstd::prelude::*;
use crate::inode_table;
use crate::inode_table::{EntryKind, InodeTable, DIR_SIZE, ROOT_ID};
use crate::key_map;
use crate::key_map::KeyMap;
use crate::paths;
use crate::paths::{file_name, place_inside, with_extension};
use crate::stage;
use crate::stage::{unreadable_record, StageRecovery, UploadSnapshot};
use crate::stage_state::WalSummary;
use crate::text;
use crate::text::{chars_of, has_suffix, joined, same_text, text_of};

verus! {

broadcast use vstd::string::group_string_axioms;

/// The largest record of an interrupted write that is read.
pub const MAX_INTENT_BYTES: u64 = 8 * 1024 * 1024;

/// The largest record of a staged file that is read.
pub const MAX_MANIFEST_BYTES: u64 = 1024 * 1024;

/// What is seen of a file without following links.
#[derive(Clone, Copy, Debug, PartialEq, Eq, Structural)]
pub struct FileObservation {
    pub is_file: bool,
    pub is_symlink: bool,
    pub length: u64,
}

impl FileObservation {
    /// A real file, not a link to one.
    pub open spec fn is_regular(self) -> bool {
        self.is_file && !self.is_symlink
    }
}

/// The outcome of reading something, its error taken as text.
pub open spec fn outcome_view(outcome: Result<StageRecovery, String>) -> Result<stage::RecoveryModel, Seq<char>> {
    match outcome {
        Ok(record) => Ok(record@),
        Err(error) => Err(error@),
    }
}

/// A record as it counts: it lies in the folder it was read from, whatever
/// folder it names, and one of an interrupted write is waiting to be replayed.
pub open spec fn accepted_record(
    root: Seq<char>,
    metadata: Result<FileObservation, String>,
    parsed: Result<StageRecovery, String>,
    write: bool,
    data: Result<FileObservation, String>,
) -> Result<stage::RecoveryModel, Seq<char>> {
    let limit = if write { MAX_INTENT_BYTES } else { MAX_MANIFEST_BYTES };
    match metadata {
        Err(error) => Err(error@),
        Ok(seen) => if !seen.is_regular() || seen.length > limit {
            Err("Invalid recovery record file"@)
        } else {
            match parsed {
                Err(error) => Err(error@),
                Ok(record) => if record.key@.len() == 0 {
                    Err("Recovery record has no object key"@)
                } else {
                    match paths::file_name_of(record.path@) {
                        None => Err("Stage data path missing"@),
                        Some(name) => {
                            let placed = stage::RecoveryModel { path: paths::inside(root, name), ..record@ };
                            if !write {
                                Ok(placed)
                            } else {
                                match data {
                                    Err(error) => Err(error@),
                                    Ok(file) => if !file.is_regular() {
                                        Err("Invalid stage data file"@)
                                    } else {
                                        Ok(stage::RecoveryModel { state: "replay_pending"@, ..placed })
                                    },
                                }
                            }
                        },
                    }
                },
            }
        },
    }
}

/// Checks a recovery record that was read from `root`. `data` is what is seen
/// of the data file that a write's record belongs to.
pub fn read_recovery_record(
    root: &str,
    metadata: &Result<FileObservation, String>,
    parsed: Result<StageRecovery, String>,
    write: bool,
    data: &Result<FileObservation, String>,
) -> (record: Result<StageRecovery, String>)
    ensures
        outcome_view(record) == accepted_record(root@, *metadata, parsed, write, *data),
{
    let limit: u64 = if write { MAX_INTENT_BYTES } else { MAX_MANIFEST_BYTES };
    match metadata {
        Err(error) => {
            return Err(error.clone());
        },
        Ok(seen) => {
            if !seen.is_file || seen.is_symlink || seen.length > limit {
                return Err("Invalid recovery record file".to_owned());
            }
        },
    }
    let mut record = match parsed {
        Ok(record) => record,
        Err(error) => {
            return Err(error);
        },
    };
    if record.key.as_str().is_empty() {
        return Err("Recovery record has no object key".to_owned());
    }
    match file_name(record.path.as_str()) {
        Some(name) => {
            record.path = place_inside(root, name.as_str());
        },
        None => {
            return Err("Stage data path missing".to_owned());
        },
    }
    if write {
        match data {
            Err(error) => {
                return Err(error.clone());
            },
            Ok(file) => {
                if !file.is_file || file.is_symlink {
                    return Err("Invalid stage data file".to_owned());
                }
            },
        }
        record.state = "replay_pending".to_owned();
    }
    Ok(record)
}

/// Checks the record of an interrupted write before it is replayed in `root`,
/// by what its own file and its data file were found to be.
pub fn plan_replay(
    root: &str,
    seen: FileObservation,
    parsed: Result<StageRecovery, String>,
    data: &Result<FileObservation, String>,
) -> (planned: Result<StageRecovery, String>)
    ensures
        outcome_view(planned) == (if !seen.is_regular() || seen.length > MAX_INTENT_BYTES {
            Err("Invalid durable write intent"@)
        } else {
            match parsed {
                Err(error) => Err(error@),
                Ok(record) => match paths::file_name_of(record.path@) {
                    None => Err("Missing stage identity"@),
                    Some(name) => match *data {
                        Err(error) => Err(error@),
                        Ok(file) => if file.is_regular() {
                            Ok(stage::RecoveryModel { path: paths::inside(root@, name), ..record@ })
                        } else {
                            Err("Invalid stage data file"@)
                        },
                    },
                },
            }
        }),
{
    if !seen.is_file || seen.is_symlink || seen.length > MAX_INTENT_BYTES {
        return Err("Invalid durable write intent".to_owned());
    }
    let mut record = match parsed {
        Ok(record) => record,
        Err(error) => {
            return Err(error);
        },
    };
    match file_name(record.path.as_str()) {
        Some(name) => {
            record.path = place_inside(root, name.as_str());
        },
        None => {
            return Err("Missing stage identity".to_owned());
        },
    }
    match data {
        Err(error) => Err(error.clone()),
        Ok(file) => if file.is_file && !file.is_symlink {
            Ok(record)
        } else {
            Err("Invalid stage data file".to_owned())
        },
    }
}

/// Whether a replay left the data file as long as the record says.
pub fn check_replayed(record: &StageRecovery, length: u64) -> (check: Result<(), String>)
    ensures
        match check {
            Ok(()) => length == record.size,
            Err(error) => length != record.size && error@ == "Replayed write size mismatch"@,
        },
{
    if length == record.size {
        Ok(())
    } else {
        Err("Replayed write size mismatch".to_owned())
    }
}

/// The record of an interrupted write, as it was read.
pub struct IntentInput {
    pub path: String,
    pub outcome: Result<StageRecovery, String>,
    /// The record has not vanished meanwhile.
    pub still_exists: bool,
}

/// The record of a staged file, as it was read, and what was seen around it.
pub struct ManifestInput {
    pub path: String,
    pub outcome: Result<StageRecovery, String>,
    /// The record has not vanished meanwhile.
    pub still_exists: bool,
    /// Log bytes behind the record's checkpoint.
    pub wal_bytes: Result<u64, String>,
    /// The newest log record behind it.
    pub newest: Result<Option<WalSummary>, String>,
    /// The data file, in the folder of the record.
    pub data: Result<FileObservation, String>,
    /// The upload snapshot, in the folder of the record.
    pub snapshot: Result<FileObservation, String>,
}

/// A path with every trailing `.write.json` removed from it.
pub open spec fn without_intent_suffix(path: Seq<char>) -> Seq<char>
    decreases path.len(),
{
    let suffix = ".write.json"@;
    if suffix.len() > 0 && suffix.is_suffix_of(path) {
        without_intent_suffix(path.take(path.len() - suffix.len()))
    } else {
        path
    }
}

/// Where the record of the staged file stands that an interrupted write
/// belongs to: beside it, under the same name.
pub open spec fn manifest_of_intent(path: Seq<char>) -> Seq<char> {
    let name = paths::file_name_of(path)->0;
    path.take(paths::name_start(path, paths::name_end(path, path.len() as int))) + without_intent_suffix(name) + ".stage.json"@
}

/// What is left of the folder while its records are gone through.
pub ghost struct InventoryState {
    pub entries: Seq<stage::RecoveryModel>,
    /// Interrupted writes, by data file.
    pub pending: Map<Seq<char>, stage::RecoveryModel>,
    /// Unreadable interrupted writes, by the record they belong to: where they
    /// stand and why.
    pub failed: Map<Seq<char>, (Seq<char>, Seq<char>)>,
}

/// The interrupted writes of a folder, read in order; an error where one of
/// the records has no name.
pub open spec fn after_intents(intents: Seq<IntentInput>) -> Result<InventoryState, Seq<char>>
    decreases intents.len(),
{
    if intents.len() == 0 {
        Ok(InventoryState { entries: Seq::empty(), pending: Map::empty(), failed: Map::empty() })
    } else {
        let intent = intents.last();
        match after_intents(intents.drop_last()) {
            Err(error) => Err(error),
            Ok(state) => match intent.outcome {
                Ok(record) => Ok(InventoryState { pending: state.pending.insert(record.path@, record@), ..state }),
                Err(error) => if !intent.still_exists {
                    Ok(state)
                } else if paths::file_name_of(intent.path@) is None {
                    Err("Recovery filename missing"@)
                } else {
                    Ok(
                        InventoryState {
                            failed: state.failed.insert(manifest_of_intent(intent.path@), (intent.path@, error@)),
                            ..state
                        },
                    )
                },
            },
        }
    }
}

/// A record brought level with the newest log record of its file.
pub open spec fn leveled(record: stage::RecoveryModel, wal_bytes: u64, newest: Option<WalSummary>) -> stage::RecoveryModel {
    match newest {
        Some(summary) => if summary.generation > record.generation {
            stage::RecoveryModel {
                size: summary.resulting_size,
                mtime_secs: summary.mtime_secs,
                generation: summary.generation,
                dirty: true,
                checkpoint_lsn: summary.lsn,
                wal_bytes: Some(0),
                first_dirty_at: Some(
                    match record.first_dirty_at {
                        Some(at) => at,
                        None => summary.dirty_at_ms,
                    },
                ),
                ..record
            }
        } else {
            stage::RecoveryModel { wal_bytes: Some(wal_bytes), ..record }
        },
        None => stage::RecoveryModel { wal_bytes: Some(wal_bytes), ..record },
    }
}

/// A file holds what its record says it holds.
pub open spec fn file_fault(seen: Result<FileObservation, String>, expected: u64) -> Option<Seq<char>> {
    match seen {
        Err(error) => Some(error@),
        Ok(file) => if !file.is_regular() || file.length != expected {
            Some("Stage content does not match its durable manifest"@)
        } else {
            None
        },
    }
}

/// A record whose files hold what it says, with its snapshot in the same
/// folder; or why it cannot be used.
pub open spec fn validated(
    root: Seq<char>,
    record: stage::RecoveryModel,
    data: Result<FileObservation, String>,
    snapshot: Result<FileObservation, String>,
) -> Result<stage::RecoveryModel, Seq<char>> {
    match file_fault(data, record.size) {
        Some(error) => Err(error),
        None => match record.snapshot {
            None => Ok(record),
            Some(taken) => match paths::file_name_of(taken.path) {
                None => Err("Snapshot identity missing"@),
                Some(name) => match file_fault(snapshot, taken.size) {
                    Some(error) => Err(error),
                    None => Ok(
                        stage::RecoveryModel {
                            snapshot: Some(stage::SnapshotModel { path: paths::inside(root, name), ..taken }),
                            ..record
                        },
                    ),
                },
            },
        },
    }
}

/// What is left after one more record; an error where the log could not be
/// read for it.
pub open spec fn after_manifest(root: Seq<char>, state: InventoryState, input: ManifestInput) -> Result<InventoryState, Seq<char>> {
    match input.outcome {
        Err(error) => Ok(
            if input.still_exists {
                InventoryState { entries: state.entries.push(stage::unreadable(input.path@, Seq::empty(), error@)), ..state }
            } else {
                state
            },
        ),
        Ok(parsed) => {
            let record = parsed@;
            if state.failed.contains_key(input.path@) {
                Ok(
                    InventoryState {
                        entries: state.entries.push(
                            stage::unreadable(
                                input.path@,
                                record.key,
                                "Interrupted write is unreadable: "@ + state.failed[input.path@].1,
                            ),
                        ),
                        failed: state.failed.remove(input.path@),
                        ..state
                    },
                )
            } else if state.pending.contains_key(record.path) {
                Ok(
                    InventoryState {
                        entries: state.entries.push(state.pending[record.path]),
                        pending: state.pending.remove(record.path),
                        ..state
                    },
                )
            } else {
                match (input.wal_bytes, input.newest) {
                    (Err(error), _) => Err(error@),
                    (Ok(_), Err(error)) => Err(error@),
                    (Ok(wal_bytes), Ok(newest)) => {
                        let level = leveled(record, wal_bytes, newest);
                        if newest is Some && (newest->0).generation > record.generation && (newest->0).key@ != record.key {
                            Ok(
                                InventoryState {
                                    entries: state.entries.push(
                                        stage::unreadable(input.path@, record.key, "WAL key does not match durable stage manifest"@),
                                    ),
                                    ..state
                                },
                            )
                        } else if !level.dirty {
                            Ok(state)
                        } else {
                            match validated(root, level, input.data, input.snapshot) {
                                Ok(good) => Ok(InventoryState { entries: state.entries.push(good), ..state }),
                                Err(error) => Ok(
                                    if input.still_exists {
                                        InventoryState {
                                            entries: state.entries.push(stage::unreadable(input.path@, record.key, error)),
                                            ..state
                                        }
                                    } else {
                                        state
                                    },
                                ),
                            }
                        }
                    },
                }
            }
        },
    }
}

/// What is left after the records of a folder, in order.
pub open spec fn after_manifests(root: Seq<char>, state: InventoryState, inputs: Seq<ManifestInput>) -> Result<InventoryState, Seq<char>>
    decreases inputs.len(),
{
    if inputs.len() == 0 {
        Ok(state)
    } else {
        match after_manifests(root, state, inputs.drop_last()) {
            Ok(before) => after_manifest(root, before, inputs.last()),
            Err(error) => Err(error),
        }
    }
}

/// The whole inventory: the records in order, then the interrupted writes
/// without a record, then the unreadable ones without a record.
pub open spec fn inventory(root: Seq<char>, intents: Seq<IntentInput>, manifests: Seq<ManifestInput>) -> Result<
    Seq<stage::RecoveryModel>,
    Seq<char>,
> {
    match after_intents(intents) {
        Err(error) => Err(error),
        Ok(start) => match after_manifests(root, start, manifests) {
            Err(error) => Err(error),
            Ok(end) => Ok(
                end.entries + key_map::sorted_entries(end.pending).map_values(|entry: (Seq<char>, stage::RecoveryModel)| entry.1)
                    + key_map::sorted_entries(end.failed).map_values(
                    |entry: (Seq<char>, (Seq<char>, Seq<char>))| stage::unreadable(entry.1.0, Seq::empty(), entry.1.1),
                ),
            ),
        },
    }
}

fn strip_intent_suffix(name: &str) -> (stripped: String)
    ensures
        stripped@ == without_intent_suffix(name@),
{
    let chars = chars_of(name);
    let suffix = chars_of(".write.json");
    proof {
        reveal_strlit(".write.json");
    }
    let mut length: usize = chars.len();
    assert(chars@.take(length as int) =~= name@);
    loop
        invariant
            chars@ == name@,
            suffix@ == ".write.json"@,
            suffix@.len() == 11,
            length <= chars@.len(),
            without_intent_suffix(chars@.take(length as int)) == without_intent_suffix(name@),
        decreases length,
    {
        let ghost part = chars@.take(length as int);
        let mut same = length >= suffix.len();
        let mut i: usize = 0;
        while same && i < suffix.len()
            invariant
                chars@ == name@,
                suffix@.len() == 11,
                length <= chars@.len(),
                part == chars@.take(length as int),
                i <= suffix@.len(),
                same ==> length >= suffix@.len() && forall|k: int| 0 <= k < i ==> part[length - 11 + k] == suffix@[k],
                !same ==> !suffix@.is_suffix_of(part),
            decreases suffix@.len() - i + (if same { 1int } else { 0int }),
        {
            if chars[length - suffix.len() + i] != suffix[i] {
                assert(part[length - 11 + i] != suffix@[i as int]);
                assert(suffix@.is_suffix_of(part) ==> part.subrange(part.len() - 11, part.len() as int)[i as int] == suffix@[i as int]);
                same = false;
            } else {
                i = i + 1;
            }
        }
        if !same {
            assert(!".write.json"@.is_suffix_of(part));
            let stripped = text_of(&chars, 0, length);
            assert(stripped@ =~= part);
            return stripped;
        }
        assert(suffix@ =~= part.subrange(part.len() - 11, part.len() as int));
        assert(suffix@.is_suffix_of(part));
        assert(part.take(part.len() - 11) =~= chars@.take(length - 11));
        length = length - suffix.len();
    }
}

/// Where the record of the staged file stands that an interrupted write
/// belongs to.
fn intent_manifest(path: &str) -> (manifest: Option<String>)
    ensures
        manifest is Some <==> paths::file_name_of(path@) is Some,
        manifest matches Some(m) ==> m@ == manifest_of_intent(path@),
{
    match file_name(path) {
        Some(name) => {
            let chars = chars_of(path);
            let (start, _) = paths::name_span(&chars);
            let folder = text_of(&chars, 0, start);
            assert(folder@ =~= path@.take(start as int));
            let stem = strip_intent_suffix(name.as_str());
            let beside = joined(folder.as_str(), stem.as_str());
            Some(joined(beside.as_str(), ".stage.json"))
        },
        None => None,
    }
}

/// What is left of the folder while its records are gone through.
struct Inventory {
    entries: Vec<StageRecovery>,
    pending: KeyMap<StageRecovery>,
    failed: KeyMap<(String, String)>,
}

/// Records, each taken as text.
pub open spec fn records_view(records: Seq<StageRecovery>) -> Seq<stage::RecoveryModel> {
    records.map_values(|record: StageRecovery| record@)
}

spec fn pending_view(pending: Map<Seq<char>, StageRecovery>) -> Map<Seq<char>, stage::RecoveryModel> {
    pending.map_values(|record: StageRecovery| record@)
}

spec fn failed_view(failed: Map<Seq<char>, (String, String)>) -> Map<Seq<char>, (Seq<char>, Seq<char>)> {
    failed.map_values(|place: (String, String)| (place.0@, place.1@))
}

impl Inventory {
    spec fn model(&self) -> InventoryState {
        InventoryState {
            entries: records_view(self.entries@),
            pending: pending_view(self.pending@),
            failed: failed_view(self.failed@),
        }
    }

    spec fn well_formed(&self) -> bool {
        self.pending.well_formed() && self.failed.well_formed()
    }

    fn add(&mut self, record: StageRecovery)
        requires
            old(self).well_formed(),
        ensures
            final(self).well_formed(),
            final(self).model() == (InventoryState { entries: old(self).model().entries.push(record@), ..old(self).model() }),
    {
        let ghost own = record@;
        self.entries.push(record);
        assert(self.model().entries =~= old(self).model().entries.push(own));
    }

    fn take_intents(intents: &Vec<IntentInput>) -> (state: Result<Inventory, String>)
        ensures
            state matches Ok(inventory) ==> inventory.well_formed() && after_intents(intents@) == Ok::<InventoryState, Seq<char>>(inventory.model()),
            state matches Err(error) ==> after_intents(intents@) == Err::<InventoryState, Seq<char>>(error@),
    {
        let mut inventory = Inventory { entries: Vec::new(), pending: KeyMap::new(), failed: KeyMap::new() };
        proof {
            assert(inventory.model().entries =~= Seq::<stage::RecoveryModel>::empty());
            assert(inventory.model().pending =~= Map::<Seq<char>, stage::RecoveryModel>::empty());
            assert(inventory.model().failed =~= Map::<Seq<char>, (Seq<char>, Seq<char>)>::empty());
            assert(intents@.take(0) =~= Seq::<IntentInput>::empty());
        }
        let mut i: usize = 0;
        while i < intents.len()
            invariant
                i <= intents@.len(),
                inventory.well_formed(),
                after_intents(intents@.take(i as int)) == Ok::<InventoryState, Seq<char>>(inventory.model()),
            decreases intents@.len() - i,
        {
            let intent = &intents[i];
            let ghost before = inventory.model();
            proof {
                assert(intents@.take(i + 1).drop_last() =~= intents@.take(i as int));
                assert(intents@.take(i + 1).last() == intents@[i as int]);
            }
            match &intent.outcome {
                Ok(record) => {
                    inventory.pending.insert(record.path.clone(), record.clone());
                    assert(inventory.model().pending =~= before.pending.insert(record.path@, record@));
                },
                Err(error) => {
                    if intent.still_exists {
                        match intent_manifest(intent.path.as_str()) {
                            Some(manifest) => {
                                let ghost place = manifest@;
                                inventory.failed.insert(manifest, (intent.path.clone(), error.clone()));
                                assert(inventory.model().failed =~= before.failed.insert(place, (intent.path@, error@)));
                            },
                            None => {
                                proof {
                                    an_error_stays(intents@, i + 1);
                                }
                                return Err("Recovery filename missing".to_owned());
                            },
                        }
                    }
                },
            }
            i = i + 1;
        }
        assert(intents@.take(i as int) =~= intents@);
        Ok(inventory)
    }
}

proof fn an_error_stays(intents: Seq<IntentInput>, count: int)
    requires
        0 <= count <= intents.len(),
        after_intents(intents.take(count)) is Err,
    ensures
        after_intents(intents) == after_intents(intents.take(count)),
    decreases intents.len() - count,
{
    if count < intents.len() {
        assert(intents.take(count + 1).drop_last() =~= intents.take(count));
        an_error_stays(intents, count + 1);
    } else {
        assert(intents.take(count) =~= intents);
    }
}

proof fn a_manifest_error_stays(root: Seq<char>, state: InventoryState, inputs: Seq<ManifestInput>, count: int)
    requires
        0 <= count <= inputs.len(),
        after_manifests(root, state, inputs.take(count)) is Err,
    ensures
        after_manifests(root, state, inputs) == after_manifests(root, state, inputs.take(count)),
    decreases inputs.len() - count,
{
    if count < inputs.len() {
        assert(inputs.take(count + 1).drop_last() =~= inputs.take(count));
        a_manifest_error_stays(root, state, inputs, count + 1);
    } else {
        assert(inputs.take(count) =~= inputs);
    }
}

/// Brings a record level with the newest log record of its file. Refused where
/// that one belongs to another object.
pub fn level_with_log(record: StageRecovery, wal_bytes: u64, newest: &Option<WalSummary>) -> (level: Result<StageRecovery, String>)
    ensures
        level is Err <==> *newest is Some && (newest->0).generation > record.generation && (newest->0).key@ != record.key@,
        level matches Err(error) ==> error@ == "WAL key does not match durable stage manifest"@,
        level matches Ok(leveled_record) ==> leveled_record@ == leveled(record@, wal_bytes, *newest),
{
    let mut record = record;
    record.wal_bytes = Some(wal_bytes);
    match newest {
        Some(summary) => {
            if summary.generation > record.generation {
                if !same_text(record.key.as_str(), summary.key.as_str()) {
                    return Err("WAL key does not match durable stage manifest".to_owned());
                }
                record.size = summary.resulting_size;
                record.mtime_secs = summary.mtime_secs;
                record.generation = summary.generation;
                record.dirty = true;
                record.checkpoint_lsn = summary.lsn;
                record.wal_bytes = Some(0);
                if record.first_dirty_at.is_none() {
                    record.first_dirty_at = Some(summary.dirty_at_ms);
                }
            }
        },
        None => {},
    }
    Ok(record)
}

/// Whether a file is what its record says: a real file of that length.
pub fn validate_data_file(seen: &Result<FileObservation, String>, expected_size: u64) -> (outcome: Result<(), String>)
    ensures
        outcome is Ok <==> file_fault(*seen, expected_size) is None,
        outcome matches Err(error) ==> file_fault(*seen, expected_size) == Some(error@),
{
    match seen {
        Err(error) => Err(error.clone()),
        Ok(file) => {
            if !file.is_file || file.is_symlink || file.length != expected_size {
                Err("Stage content does not match its durable manifest".to_owned())
            } else {
                Ok(())
            }
        },
    }
}

fn validate_record(
    root: &str,
    record: StageRecovery,
    data: &Result<FileObservation, String>,
    snapshot: &Result<FileObservation, String>,
) -> (outcome: Result<StageRecovery, String>)
    ensures
        outcome_view(outcome) == validated(root@, record@, *data, *snapshot),
{
    match validate_data_file(data, record.size) {
        Ok(()) => {},
        Err(error) => {
            return Err(error);
        },
    }
    let mut record = record;
    let placed = match &record.snapshot {
        None => {
            return Ok(record);
        },
        Some(taken) => match file_name(taken.path.as_str()) {
            None => {
                return Err("Snapshot identity missing".to_owned());
            },
            Some(name) => match validate_data_file(snapshot, taken.size) {
                Ok(()) => UploadSnapshot {
                    path: place_inside(root, name.as_str()),
                    generation: taken.generation,
                    size: taken.size,
                    publication_guard: stage::copy_guard(&taken.publication_guard),
                },
                Err(error) => {
                    return Err(error);
                },
            },
        },
    };
    record.snapshot = Some(placed);
    Ok(record)
}

impl Inventory {
    fn take_manifest(&mut self, root: &str, input: &ManifestInput) -> (outcome: Result<(), String>)
        requires
            old(self).well_formed(),
        ensures
            final(self).well_formed(),
            outcome is Ok ==> after_manifest(root@, old(self).model(), *input) == Ok::<InventoryState, Seq<char>>(final(self).model()),
            outcome matches Err(error) ==> after_manifest(root@, old(self).model(), *input) == Err::<InventoryState, Seq<char>>(error@),
    {
        let ghost before = self.model();
        let record = match &input.outcome {
            Ok(record) => record,
            Err(error) => {
                if input.still_exists {
                    self.add(unreadable_record(input.path.clone(), String::new(), error.clone()));
                }
                return Ok(());
            },
        };
        assert(self.failed@.contains_key(input.path@) == before.failed.contains_key(input.path@));
        match self.failed.remove(input.path.as_str()) {
            Some((_, error)) => {
                assert(before.failed[input.path@].1 == error@);
                let message = joined("Interrupted write is unreadable: ", error.as_str());
                assert(self.model().failed =~= before.failed.remove(input.path@));
                self.add(unreadable_record(input.path.clone(), record.key.clone(), message));
                return Ok(());
            },
            None => {
                assert(self.model().failed =~= before.failed);
            },
        }
        assert(self.pending@.contains_key(record.path@) == before.pending.contains_key(record.path@));
        match self.pending.remove(record.path.as_str()) {
            Some(waiting) => {
                assert(before.pending[record.path@] == waiting@);
                assert(self.model().pending =~= before.pending.remove(record.path@));
                self.add(waiting);
                return Ok(());
            },
            None => {
                assert(self.model().pending =~= before.pending);
            },
        }
        assert(self.model() == before);
        let wal_bytes: u64 = match &input.wal_bytes {
            Ok(bytes) => *bytes,
            Err(error) => {
                return Err(error.clone());
            },
        };
        let newest = match &input.newest {
            Ok(newest) => newest,
            Err(error) => {
                return Err(error.clone());
            },
        };
        let level = match level_with_log(record.clone(), wal_bytes, newest) {
            Ok(level) => level,
            Err(error) => {
                self.add(unreadable_record(input.path.clone(), record.key.clone(), error));
                return Ok(());
            },
        };
        if !level.dirty {
            return Ok(());
        }
        match validate_record(root, level, &input.data, &input.snapshot) {
            Ok(good) => {
                self.add(good);
            },
            Err(error) => {
                if input.still_exists {
                    self.add(unreadable_record(input.path.clone(), record.key.clone(), error));
                }
            },
        }
        Ok(())
    }
}

/// The inventory of a folder whose log is whole.
pub fn recovery_entries(root: &str, intents: &Vec<IntentInput>, manifests: &Vec<ManifestInput>) -> (entries: Result<Vec<StageRecovery>, String>)
    ensures
        entries matches Ok(list) ==> inventory(root@, intents@, manifests@) == Ok::<Seq<stage::RecoveryModel>, Seq<char>>(records_view(list@)),
        entries matches Err(error) ==> inventory(root@, intents@, manifests@) == Err::<Seq<stage::RecoveryModel>, Seq<char>>(error@),
{
    let mut state = match Inventory::take_intents(intents) {
        Ok(state) => state,
        Err(error) => {
            return Err(error);
        },
    };
    let ghost start = state.model();
    let mut i: usize = 0;
    assert(manifests@.take(0) =~= Seq::<ManifestInput>::empty());
    while i < manifests.len()
        invariant
            i <= manifests@.len(),
            state.well_formed(),
            after_intents(intents@) == Ok::<InventoryState, Seq<char>>(start),
            after_manifests(root@, start, manifests@.take(i as int)) == Ok::<InventoryState, Seq<char>>(state.model()),
        decreases manifests@.len() - i,
    {
        proof {
            assert(manifests@.take(i + 1).drop_last() =~= manifests@.take(i as int));
            assert(manifests@.take(i + 1).last() == manifests@[i as int]);
        }
        match state.take_manifest(root, &manifests[i]) {
            Ok(()) => {},
            Err(error) => {
                proof {
                    a_manifest_error_stays(root@, start, manifests@, i + 1);
                }
                return Err(error);
            },
        }
        i = i + 1;
    }
    assert(manifests@.take(i as int) =~= manifests@);
    let ghost end = state.model();
    let Inventory { entries, pending, failed } = state;
    let mut entries = entries;
    let ghost listed = records_view(entries@);
    let ghost waiting = pending.entries();
    let ghost lost = failed.entries();
    proof {
        key_map::mapping_values_keeps_order(waiting, |record: StageRecovery| record@);
        key_map::mapping_values_keeps_order(lost, |place: (String, String)| (place.0@, place.1@));
    }
    let ghost waiting_models = key_map::sorted_entries(end.pending).map_values(|entry: (Seq<char>, stage::RecoveryModel)| entry.1);
    let ghost lost_models = key_map::sorted_entries(end.failed).map_values(
        |entry: (Seq<char>, (Seq<char>, Seq<char>))| stage::unreadable(entry.1.0, Seq::empty(), entry.1.1),
    );
    assert(waiting_models.take(0) =~= Seq::<stage::RecoveryModel>::empty());
    assert(lost_models.take(0) =~= Seq::<stage::RecoveryModel>::empty());
    assert(listed + waiting_models.take(0) =~= listed);
    let mut k: usize = 0;
    while k < pending.len()
        invariant
            k <= waiting.len(),
            waiting == pending.entries(),
            waiting_models.len() == waiting.len(),
            forall|j: int| 0 <= j < waiting.len() ==> (#[trigger] waiting_models[j]) == waiting[j].1@,
            records_view(entries@) == listed + waiting_models.take(k as int),
        decreases waiting.len() - k,
    {
        let record = pending.value_at(k).clone();
        let ghost before = entries@;
        let ghost own = record@;
        entries.push(record);
        assert(own == waiting_models[k as int]);
        assert(records_view(entries@) =~= records_view(before).push(own));
        assert(records_view(entries@) =~= listed + waiting_models.take(k + 1));
        k = k + 1;
    }
    assert(waiting_models.take(k as int) =~= waiting_models);
    let ghost with_waiting = listed + waiting_models;
    assert(with_waiting + lost_models.take(0) =~= with_waiting);
    let mut m: usize = 0;
    while m < failed.len()
        invariant
            m <= lost.len(),
            lost == failed.entries(),
            lost_models.len() == lost.len(),
            forall|j: int| 0 <= j < lost.len() ==> (#[trigger] lost_models[j]) == stage::unreadable(lost[j].1.0@, Seq::empty(), lost[j].1.1@),
            records_view(entries@) == with_waiting + lost_models.take(m as int),
        decreases lost.len() - m,
    {
        let place = failed.value_at(m);
        let record = unreadable_record(place.0.clone(), String::new(), place.1.clone());
        let ghost before = entries@;
        let ghost own = record@;
        entries.push(record);
        assert(own == lost_models[m as int]);
        assert(records_view(entries@) =~= records_view(before).push(own));
        assert(records_view(entries@) =~= with_waiting + lost_models.take(m + 1));
        m = m + 1;
    }
    assert(lost_models.take(m as int) =~= lost_models);
    Ok(entries)
}

/// A record that still exists is never dropped from the inventory: it is
/// listed, or its content is in the bucket already.
pub proof fn a_record_that_still_exists_is_listed(root: Seq<char>, state: InventoryState, input: ManifestInput)
    requires
        input.still_exists,
        after_manifest(root, state, input) is Ok,
    ensures
        ({
            let after = after_manifest(root, state, input)->Ok_0;
            ||| after.entries.len() == state.entries.len() + 1 && after.entries.drop_last() == state.entries
            ||| {
                &&& input.outcome is Ok && input.wal_bytes is Ok && input.newest is Ok
                &&& !leveled((input.outcome->Ok_0)@, input.wal_bytes->Ok_0, input.newest->Ok_0).dirty
                &&& after == state
            }
        }),
{
    let after = after_manifest(root, state, input)->Ok_0;
    if after.entries.len() == state.entries.len() + 1 {
        assert(after.entries.drop_last() =~= state.entries);
    }
}

/// A record of a folder with a damaged log, as it was read: its path, and its
/// key if that could be read.
pub struct QuarantineInput {
    pub path: String,
    pub key: Option<String>,
}

/// The name of a record in the folder: one of an interrupted write, or one of
/// a staged file.
pub open spec fn is_record_path(path: Seq<char>) -> bool {
    ".write.json"@.is_suffix_of(path) || ".stage.json"@.is_suffix_of(path)
}

/// What a file in the folder is, by its name.
#[derive(Clone, Copy, Debug, PartialEq, Eq, Structural)]
pub enum RecordKind {
    /// The record of an interrupted write.
    Intent,
    /// The record of a staged file.
    Manifest,
    /// No record.
    Other,
}

/// What a file in the folder is, by its name.
pub fn record_kind(path: &str) -> (kind: RecordKind)
    ensures
        kind == (if ".write.json"@.is_suffix_of(path@) {
            RecordKind::Intent
        } else if ".stage.json"@.is_suffix_of(path@) {
            RecordKind::Manifest
        } else {
            RecordKind::Other
        }),
        kind != RecordKind::Other <==> is_record_path(path@),
{
    if has_suffix(path, ".write.json") {
        RecordKind::Intent
    } else if has_suffix(path, ".stage.json") {
        RecordKind::Manifest
    } else {
        RecordKind::Other
    }
}

/// The unreadable records of a folder whose log is damaged, in order.
pub open spec fn quarantined(inputs: Seq<QuarantineInput>, damage: Seq<char>) -> Seq<stage::RecoveryModel> {
    inputs.map_values(
        |input: QuarantineInput|
            stage::unreadable(
                input.path@,
                match input.key {
                    Some(key) => key@,
                    None => Seq::empty(),
                },
                damage,
            ),
    )
}

/// Every stage and interrupted write in a folder whose log is damaged, each
/// reported with that damage, after the log itself, so the folder never looks
/// empty. Clean stages are among them: a record lost in the damage may have
/// dirtied them.
pub fn quarantine_folder(log_path: &str, inputs: &Vec<QuarantineInput>, damage: &str) -> (entries: Vec<StageRecovery>)
    ensures
        records_view(entries@) == seq![stage::unreadable(log_path@, Seq::empty(), damage@)] + quarantined(inputs@, damage@),
{
    let mut entries: Vec<StageRecovery> = Vec::new();
    entries.push(unreadable_record(log_path.to_owned(), String::new(), damage.to_owned()));
    let ghost first = seq![stage::unreadable(log_path@, Seq::empty(), damage@)];
    let ghost expected = quarantined(inputs@, damage@);
    assert(records_view(entries@) =~= first + expected.take(0));
    let mut i: usize = 0;
    while i < inputs.len()
        invariant
            i <= inputs@.len(),
            expected == quarantined(inputs@, damage@),
            records_view(entries@) == first + expected.take(i as int),
        decreases inputs@.len() - i,
    {
        let input = &inputs[i];
        let key = match &input.key {
            Some(key) => key.clone(),
            None => String::new(),
        };
        assert(input.key is None ==> key@ =~= Seq::<char>::empty());
        let record = unreadable_record(input.path.clone(), key, damage.to_owned());
        let ghost own = record@;
        let ghost before = entries@;
        entries.push(record);
        assert(own == expected[i as int]);
        assert(records_view(entries@) =~= records_view(before).push(own));
        assert(records_view(entries@) =~= first + expected.take(i + 1));
        i = i + 1;
    }
    assert(expected.take(i as int) =~= expected);
    entries
}

/// A record claims its object: its content is newer than the bucket's and can
/// be read.
pub open spec fn claims(record: stage::RecoveryModel, key: Seq<char>) -> bool {
    record.dirty && record.state != "unreadable"@ && record.key == key
}

/// How many records claim an object.
pub open spec fn claim_count(records: Seq<stage::RecoveryModel>, key: Seq<char>) -> int
    decreases records.len(),
{
    if records.len() == 0 {
        0
    } else {
        claim_count(records.drop_last(), key) + (if claims(records.last(), key) { 1int } else { 0int })
    }
}

/// A record before it is restored. One whose interrupted write could not be
/// replayed, and one of several that claim the same object, are set
/// aside.
pub open spec fn triaged(
    records: Seq<stage::RecoveryModel>,
    replay_errors: Map<Seq<char>, Seq<char>>,
    index: int,
) -> stage::RecoveryModel {
    let record = records[index];
    let intent = paths::extended(record.path, "write.json"@);
    let replayed = if record.state == "replay_pending"@ {
        stage::RecoveryModel {
            state: "unreadable"@,
            error: Some(
                if replay_errors.contains_key(intent) {
                    replay_errors[intent]
                } else {
                    "Interrupted write could not be replayed; retained for recovery"@
                },
            ),
            ..record
        }
    } else {
        record
    };
    if claim_count(records, record.key) > 1 {
        stage::RecoveryModel {
            state: "unreadable"@,
            error: Some("Multiple staged records claim this object; export them for review"@),
            ..replayed
        }
    } else {
        replayed
    }
}

fn count_claims(records: &Vec<StageRecovery>, key: &str) -> (count: usize)
    ensures
        count == claim_count(records_view(records@), key@),
{
    let ghost models = records_view(records@);
    let mut count: usize = 0;
    let mut i: usize = 0;
    assert(models.take(0) =~= Seq::<stage::RecoveryModel>::empty());
    while i < records.len()
        invariant
            models == records_view(records@),
            i <= records@.len(),
            count <= i,
            count == claim_count(models.take(i as int), key@),
        decreases records@.len() - i,
    {
        let record = &records[i];
        assert(models[i as int] == record@);
        assert(models.take(i + 1).drop_last() =~= models.take(i as int));
        if record.dirty && !same_text(record.state.as_str(), "unreadable") && same_text(record.key.as_str(), key) {
            count = count + 1;
        }
        i = i + 1;
    }
    assert(models.take(i as int) =~= models);
    count
}

/// The records of a folder before they are restored, in order. Those that come
/// out as unreadable are set aside; the others are restored.
pub fn triage_records(records: &Vec<StageRecovery>, replay_errors: &KeyMap<String>) -> (sorted: Vec<StageRecovery>)
    requires
        replay_errors.well_formed(),
    ensures
        sorted@.len() == records@.len(),
        forall|i: int|
            0 <= i < records@.len() ==> (#[trigger] sorted@[i])@ == triaged(
                records_view(records@),
                replay_errors@.map_values(|error: String| error@),
                i,
            ),
{
    let ghost models = records_view(records@);
    let ghost errors = replay_errors@.map_values(|error: String| error@);
    let mut sorted: Vec<StageRecovery> = Vec::new();
    let mut i: usize = 0;
    while i < records.len()
        invariant
            replay_errors.well_formed(),
            models == records_view(records@),
            errors == replay_errors@.map_values(|error: String| error@),
            i <= records@.len(),
            sorted@.len() == i,
            forall|k: int| 0 <= k < i ==> (#[trigger] sorted@[k])@ == triaged(models, errors, k),
        decreases records@.len() - i,
    {
        let mut record = records[i].clone();
        assert(record@ == models[i as int]);
        if same_text(record.state.as_str(), "replay_pending") {
            let intent = with_extension(record.path.as_str(), "write.json");
            let error = match replay_errors.get(intent.as_str()) {
                Some(error) => error.clone(),
                None => "Interrupted write could not be replayed; retained for recovery".to_owned(),
            };
            record.error = Some(error);
            record.state = "unreadable".to_owned();
        }
        if count_claims(records, record.key.as_str()) > 1 {
            record.state = "unreadable".to_owned();
            record.error = Some("Multiple staged records claim this object; export them for review".to_owned());
        }
        sorted.push(record);
        i = i + 1;
    }
    sorted
}

/// A record that could not be restored, set aside with the reason.
pub fn set_aside(record: StageRecovery, error: String) -> (kept: StageRecovery)
    ensures
        kept@ == (stage::RecoveryModel { state: "unreadable"@, error: Some(error@), ..record@ }),
{
    let mut kept = record;
    kept.state = "unreadable".to_owned();
    kept.error = Some(error);
    kept
}

/// Whether a record was set aside and is not restored.
pub fn is_unreadable(record: &StageRecovery) -> (kept: bool)
    ensures
        kept == (record@.state == "unreadable"@),
{
    same_text(record.state.as_str(), "unreadable")
}

proof fn one_claim_counts(records: Seq<stage::RecoveryModel>, key: Seq<char>, index: int)
    requires
        0 <= index < records.len(),
        claims(records[index], key),
    ensures
        claim_count(records, key) >= 1,
    decreases records.len(),
{
    claim_counts_are_not_negative(records.drop_last(), key);
    if index < records.len() - 1 {
        one_claim_counts(records.drop_last(), key, index);
    }
}

proof fn claim_counts_are_not_negative(records: Seq<stage::RecoveryModel>, key: Seq<char>)
    ensures
        claim_count(records, key) >= 0,
    decreases records.len(),
{
    if records.len() > 0 {
        claim_counts_are_not_negative(records.drop_last(), key);
    }
}

proof fn two_claims_count(records: Seq<stage::RecoveryModel>, key: Seq<char>, first: int, second: int)
    requires
        0 <= first < second < records.len(),
        claims(records[first], key),
        claims(records[second], key),
    ensures
        claim_count(records, key) >= 2,
    decreases records.len(),
{
    claim_counts_are_not_negative(records.drop_last(), key);
    if second < records.len() - 1 {
        two_claims_count(records.drop_last(), key, first, second);
    } else {
        one_claim_counts(records.drop_last(), key, first);
    }
}

/// No object is ever restored from two records: if two of them claim it, both
/// are set aside.
pub proof fn an_object_is_restored_from_one_record(
    records: Seq<stage::RecoveryModel>,
    replay_errors: Map<Seq<char>, Seq<char>>,
    first: int,
    second: int,
)
    requires
        0 <= first < second < records.len(),
        claims(records[first], records[first].key),
        claims(records[second], records[first].key),
    ensures
        triaged(records, replay_errors, first).state == "unreadable"@,
        triaged(records, replay_errors, second).state == "unreadable"@,
{
    two_claims_count(records, records[first].key, first, second);
}

/// The table after the directories on the way to a key were seen, and the id
/// of the last one; `length` says how much of the key was gone through.
pub open spec fn with_ancestors(table: inode_table::TableModel, key: Seq<char>, length: int) -> (inode_table::TableModel, u64)
    decreases length,
{
    if length <= 0 {
        (table, ROOT_ID)
    } else {
        let (before, parent) = with_ancestors(table, key, length - 1);
        if key[length - 1] == '/' {
            let inode = inode_table::InodeModel {
                key: key.take(length),
                parent,
                kind: EntryKind::Dir,
                size: DIR_SIZE,
                mtime_secs: 0,
            };
            (before.interned(inode), before.id_for(inode.key))
        } else {
            (before, parent)
        }
    }
}

/// Gives a restored file its id, and every directory on the way to it.
pub fn intern_path(inodes: &mut InodeTable, key: &str, size: u64, mtime_secs: u32) -> (id: u64)
    requires
        old(inodes).well_formed(),
    ensures
        final(inodes).well_formed(),
        ({
            let (before, parent) = with_ancestors(old(inodes)@, key@, key@.len() as int);
            let inode = inode_table::InodeModel { key: key@, parent, kind: EntryKind::File, size, mtime_secs };
            &&& id == before.id_for(key@)
            &&& final(inodes)@ == before.interned(inode)
        }),
{
    let chars = chars_of(key);
    let ghost table = inodes@;
    let mut parent: u64 = ROOT_ID;
    let mut i: usize = 0;
    while i < chars.len()
        invariant
            chars@ == key@,
            i <= chars@.len(),
            inodes.well_formed(),
            (inodes@, parent) == with_ancestors(table, key@, i as int),
        decreases chars@.len() - i,
    {
        if chars[i] == '/' {
            let prefix = text_of(&chars, 0, i + 1);
            assert(prefix@ =~= key@.take(i + 1));
            parent = inodes.intern(prefix.as_str(), parent, EntryKind::Dir, DIR_SIZE, 0);
        }
        i = i + 1;
    }
    inodes.intern(key, parent, EntryKind::File, size, mtime_secs)
}

/// A record is used exactly where its files hold what it says: its data is a
/// real file of the recorded size, and so is its snapshot, where it has one,
/// under a name of its own. It is then used as it is, with the snapshot looked
/// for in the folder that the record was found in. Otherwise nothing of it is
/// used, and what is said is what was wrong with the file.
pub proof fn an_intact_record_is_used_as_it_is(
    root: Seq<char>,
    record: stage::RecoveryModel,
    data: Result<FileObservation, String>,
    snapshot: Result<FileObservation, String>,
)
    ensures
        ({
            let used = validated(root, record, data, snapshot);
            let holds_data = data is Ok && data->Ok_0.is_file && !data->Ok_0.is_symlink && data->Ok_0.length == record.size;
            let holds_snapshot = record.snapshot is None || (paths::file_name_of(record.snapshot->0.path) is Some && snapshot is Ok
                && snapshot->Ok_0.is_file && !snapshot->Ok_0.is_symlink && snapshot->Ok_0.length == record.snapshot->0.size);
            &&& used is Ok <==> holds_data && holds_snapshot
            &&& used is Ok ==> used->Ok_0 == (stage::RecoveryModel { snapshot: used->Ok_0.snapshot, ..record })
            &&& used is Ok && record.snapshot is None ==> used->Ok_0.snapshot is None
            &&& used is Ok && record.snapshot is Some ==> used->Ok_0.snapshot == Some(
                stage::SnapshotModel {
                    path: paths::inside(root, paths::file_name_of(record.snapshot->0.path)->0),
                    generation: record.snapshot->0.generation,
                    size: record.snapshot->0.size,
                    publication_guard: record.snapshot->0.publication_guard,
                },
            )
            &&& data is Err ==> used == Err::<stage::RecoveryModel, Seq<char>>((data->Err_0)@)
            &&& data is Ok && !holds_data ==> used == Err::<stage::RecoveryModel, Seq<char>>(
                "Stage content does not match its durable manifest"@,
            )
        }),
{
}

/// A staged file that was not uploaded is listed after a restart as its record
/// says, where no log record is newer and its files hold what the record says:
/// with its key, its size, its generation, its guard, not as unreadable, and
/// its snapshot in the folder. Nothing else of the inventory changes.
pub proof fn an_intact_stage_is_listed_as_itself(root: Seq<char>, state: InventoryState, input: ManifestInput)
    requires
        input.outcome is Ok,
        !state.failed.contains_key(input.path@),
        !state.pending.contains_key((input.outcome->Ok_0)@.path),
        input.wal_bytes is Ok,
        input.newest is Ok,
        (input.outcome->Ok_0)@.dirty,
        input.newest->Ok_0 is Some ==> (input.newest->Ok_0->0).generation <= (input.outcome->Ok_0)@.generation,
        input.data is Ok,
        input.data->Ok_0.is_file && !input.data->Ok_0.is_symlink && input.data->Ok_0.length == (input.outcome->Ok_0)@.size,
        (input.outcome->Ok_0)@.snapshot is Some ==> paths::file_name_of((input.outcome->Ok_0)@.snapshot->0.path) is Some && input.snapshot is Ok
            && input.snapshot->Ok_0.is_file && !input.snapshot->Ok_0.is_symlink && input.snapshot->Ok_0.length == (
        input.outcome->Ok_0)@.snapshot->0.size,
    ensures
        ({
            let record = (input.outcome->Ok_0)@;
            let after = after_manifest(root, state, input)->Ok_0;
            let entry = after.entries.last();
            &&& after_manifest(root, state, input) is Ok
            &&& after.entries.len() == state.entries.len() + 1
            &&& after.entries.drop_last() == state.entries
            &&& after.pending == state.pending
            &&& after.failed == state.failed
            &&& entry.key == record.key
            &&& entry.size == record.size
            &&& entry.mtime_secs == record.mtime_secs
            &&& entry.generation == record.generation
            &&& entry.dirty
            &&& entry.state == record.state
            &&& entry.error == record.error
            &&& entry.path == record.path
            &&& entry.publication_guard == record.publication_guard
            &&& entry.checkpoint_lsn == record.checkpoint_lsn
            &&& entry.first_dirty_at == record.first_dirty_at
            &&& entry.wal_bytes == Some(input.wal_bytes->Ok_0)
            &&& record.snapshot is None ==> entry.snapshot is None
            &&& record.snapshot is Some ==> entry.snapshot == Some(
                stage::SnapshotModel {
                    path: paths::inside(root, paths::file_name_of(record.snapshot->0.path)->0),
                    ..record.snapshot->0
                },
            )
        }),
{
    assert(after_manifest(root, state, input)->Ok_0.entries.drop_last() =~= state.entries);
}

/// A record that was read, and of which no write was interrupted, is listed as
/// unreadable only where something is wrong: its log belongs to another object,
/// or its data or its snapshot is missing, no real file, or of another length.
pub proof fn only_a_damaged_stage_is_listed_as_unreadable(root: Seq<char>, state: InventoryState, input: ManifestInput)
    requires
        input.outcome is Ok,
        !state.failed.contains_key(input.path@),
        !state.pending.contains_key((input.outcome->Ok_0)@.path),
        after_manifest(root, state, input) is Ok,
        after_manifest(root, state, input)->Ok_0.entries.len() > state.entries.len(),
        after_manifest(root, state, input)->Ok_0.entries.last().state == "unreadable"@,
        (input.outcome->Ok_0)@.state != "unreadable"@,
    ensures
        ({
            let record = (input.outcome->Ok_0)@;
            let newest = input.newest->Ok_0;
            let newer = newest is Some && (newest->0).generation > record.generation;
            let size = if newer {
                (newest->0).resulting_size
            } else {
                record.size
            };
            ||| newer && (newest->0).key@ != record.key
            ||| input.data is Err
            ||| !input.data->Ok_0.is_file || input.data->Ok_0.is_symlink || input.data->Ok_0.length != size
            ||| record.snapshot is Some && (paths::file_name_of(record.snapshot->0.path) is None || input.snapshot is Err
                || !input.snapshot->Ok_0.is_file || input.snapshot->Ok_0.is_symlink || input.snapshot->Ok_0.length != record.snapshot->0.size)
        }),
{
}

/// A record that cannot be read is listed with its error as long as it exists,
/// and with nothing but where it lies.
pub proof fn an_unreadable_record_is_listed_with_its_error(root: Seq<char>, state: InventoryState, input: ManifestInput)
    requires
        input.outcome is Err,
    ensures
        ({
            let after = after_manifest(root, state, input)->Ok_0;
            &&& after_manifest(root, state, input) is Ok
            &&& !input.still_exists ==> after == state
            &&& input.still_exists ==> after.entries.len() == state.entries.len() + 1 && after.entries.last().path == input.path@
                && after.entries.last().error == Some((input.outcome->Err_0)@) && after.entries.last().state == "unreadable"@
                && after.entries.last().key.len() == 0 && !after.entries.last().dirty
            &&& after.pending == state.pending
            &&& after.failed == state.failed
        }),
{
}

/// A record with an interrupted write is listed as that write, once; where the
/// write itself cannot be read, as unreadable under its own key, and says why.
pub proof fn an_interrupted_write_is_listed_for_its_record(root: Seq<char>, state: InventoryState, input: ManifestInput)
    requires
        input.outcome is Ok,
    ensures
        ({
            let record = (input.outcome->Ok_0)@;
            let after = after_manifest(root, state, input)->Ok_0;
            let broken = state.failed.contains_key(input.path@);
            let waiting = state.pending.contains_key(record.path);
            &&& broken || waiting ==> after_manifest(root, state, input) is Ok && after.entries.len() == state.entries.len() + 1
            &&& broken ==> after.entries.last().key == record.key && after.entries.last().state == "unreadable"@ && after.entries.last().path
                == input.path@ && after.entries.last().error == Some("Interrupted write is unreadable: "@ + state.failed[input.path@].1)
                && after.failed == state.failed.remove(input.path@) && after.pending == state.pending
            &&& !broken && waiting ==> after.entries.last() == state.pending[record.path] && after.pending == state.pending.remove(record.path)
                && after.failed == state.failed
        }),
{
}

/// A record that was uploaded, and that no log record makes newer, is not
/// listed: its content is in the bucket.
pub proof fn an_uploaded_stage_is_not_listed(root: Seq<char>, state: InventoryState, input: ManifestInput)
    requires
        input.outcome is Ok,
        !state.failed.contains_key(input.path@),
        !state.pending.contains_key((input.outcome->Ok_0)@.path),
        input.wal_bytes is Ok,
        input.newest is Ok,
        !(input.outcome->Ok_0)@.dirty,
        input.newest->Ok_0 is Some ==> (input.newest->Ok_0->0).generation <= (input.outcome->Ok_0)@.generation,
    ensures
        after_manifest(root, state, input) == Ok::<InventoryState, Seq<char>>(state),
{
}

/// A log that cannot be read stops the inventory: nothing is listed past it as
/// if it were level.
pub proof fn an_unreadable_log_stops_the_inventory(root: Seq<char>, state: InventoryState, input: ManifestInput)
    requires
        input.outcome is Ok,
        !state.failed.contains_key(input.path@),
        !state.pending.contains_key((input.outcome->Ok_0)@.path),
    ensures
        input.wal_bytes is Err ==> after_manifest(root, state, input) == Err::<InventoryState, Seq<char>>((input.wal_bytes->Err_0)@),
        input.wal_bytes is Ok && input.newest is Err ==> after_manifest(root, state, input) == Err::<InventoryState, Seq<char>>(
            (input.newest->Err_0)@,
        ),
{
}

/// A record is brought level with a log record exactly where that is newer:
/// with its size, its time, its generation and its place in the log, as not
/// uploaded, and since the first change that was not. Its key, its path, its
/// snapshot and its guard stay.
pub proof fn a_record_is_brought_level_with_its_log(record: stage::RecoveryModel, wal_bytes: u64, newest: Option<WalSummary>)
    ensures
        ({
            let level = leveled(record, wal_bytes, newest);
            let newer = newest is Some && (newest->0).generation > record.generation;
            &&& !newer ==> level == (stage::RecoveryModel { wal_bytes: Some(wal_bytes), ..record })
            &&& newer ==> {
                &&& level.size == (newest->0).resulting_size
                &&& level.mtime_secs == (newest->0).mtime_secs
                &&& level.generation == (newest->0).generation
                &&& level.checkpoint_lsn == (newest->0).lsn
                &&& level.dirty
                &&& level.wal_bytes == Some(0u64)
                &&& record.first_dirty_at is Some ==> level.first_dirty_at == record.first_dirty_at
                &&& record.first_dirty_at is None ==> level.first_dirty_at == Some((newest->0).dirty_at_ms)
            }
            &&& level.key == record.key
            &&& level.path == record.path
            &&& level.snapshot == record.snapshot
            &&& level.publication_guard == record.publication_guard
            &&& level.state == record.state
            &&& level.error == record.error
            &&& level.generation >= record.generation
        }),
{
}

/// A record counts exactly where it was read from a real file of a sensible
/// size, names an object and a data file, and, for an interrupted write, that
/// data file is a real one. It counts as it was read, in the folder it was
/// read from; a write is waiting to be replayed.
pub proof fn a_record_counts_where_it_was_read_whole(
    root: Seq<char>,
    metadata: Result<FileObservation, String>,
    parsed: Result<StageRecovery, String>,
    write: bool,
    data: Result<FileObservation, String>,
)
    ensures
        ({
            let record = accepted_record(root, metadata, parsed, write, data);
            let whole = metadata is Ok && metadata->Ok_0.is_file && !metadata->Ok_0.is_symlink && metadata->Ok_0.length <= (if write {
                8_388_608u64
            } else {
                1_048_576u64
            });
            let named = parsed is Ok && (parsed->Ok_0)@.key.len() > 0 && paths::file_name_of((parsed->Ok_0)@.path) is Some;
            let backed = !write || (data is Ok && data->Ok_0.is_file && !data->Ok_0.is_symlink);
            &&& record is Ok <==> whole && named && backed
            &&& record is Ok ==> record->Ok_0.path == paths::inside(root, paths::file_name_of((parsed->Ok_0)@.path)->0)
            &&& record is Ok ==> record->Ok_0 == (stage::RecoveryModel {
                path: record->Ok_0.path,
                state: record->Ok_0.state,
                ..(parsed->Ok_0)@
            })
            &&& record is Ok && write ==> record->Ok_0.state == "replay_pending"@
            &&& record is Ok && !write ==> record->Ok_0.state == (parsed->Ok_0)@.state
        }),
{
}

proof fn claims_are_counted_once(records: Seq<stage::RecoveryModel>, key: Seq<char>, index: int)
    requires
        0 <= index < records.len(),
        forall|other: int| 0 <= other < records.len() && other != index ==> !claims(#[trigger] records[other], key),
    ensures
        claim_count(records, key) <= 1,
    decreases records.len(),
{
    let fewer = records.drop_last();
    if index < records.len() - 1 {
        assert forall|other: int| 0 <= other < fewer.len() && other != index implies !claims(#[trigger] fewer[other], key) by {
            assert(fewer[other] == records[other]);
        }
        claims_are_counted_once(fewer, key, index);
        assert(!claims(records[records.len() - 1], key));
    } else {
        assert forall|other: int| 0 <= other < fewer.len() implies !claims(#[trigger] fewer[other], key) by {
            assert(fewer[other] == records[other]);
        }
        nothing_claimed_counts_nothing(fewer, key);
    }
}

proof fn nothing_claimed_counts_nothing(records: Seq<stage::RecoveryModel>, key: Seq<char>)
    requires
        forall|other: int| 0 <= other < records.len() ==> !claims(#[trigger] records[other], key),
    ensures
        claim_count(records, key) == 0,
    decreases records.len(),
{
    if records.len() > 0 {
        let fewer = records.drop_last();
        assert forall|other: int| 0 <= other < fewer.len() implies !claims(#[trigger] fewer[other], key) by {
            assert(fewer[other] == records[other]);
        }
        nothing_claimed_counts_nothing(fewer, key);
        assert(!claims(records[records.len() - 1], key));
    }
}

/// A record that is the only one with content for its object, and that has no
/// write to be replayed, is restored as it is. One whose write could not be
/// replayed is set aside with the reason, and loses nothing else.
pub proof fn a_record_without_rival_is_restored(
    records: Seq<stage::RecoveryModel>,
    replay_errors: Map<Seq<char>, Seq<char>>,
    index: int,
)
    requires
        0 <= index < records.len(),
        forall|other: int|
            0 <= other < records.len() && other != index ==> !((#[trigger] records[other]).dirty && records[other].state != "unreadable"@
                && records[other].key == records[index].key),
    ensures
        records[index].state != "replay_pending"@ ==> triaged(records, replay_errors, index) == records[index],
        records[index].state == "replay_pending"@ ==> {
            let after = triaged(records, replay_errors, index);
            let intent = paths::extended(records[index].path, "write.json"@);
            &&& after.state == "unreadable"@
            &&& after.error is Some
            &&& replay_errors.contains_key(intent) ==> after.error == Some(replay_errors[intent])
            &&& after == (stage::RecoveryModel { state: after.state, error: after.error, ..records[index] })
        },
{
    claims_are_counted_once(records, records[index].key, index);
}

/// Whatever is set aside keeps its key, its path, its size, its content and its
/// guard: only its state and its error change.
pub proof fn what_is_set_aside_keeps_its_content(
    records: Seq<stage::RecoveryModel>,
    replay_errors: Map<Seq<char>, Seq<char>>,
    index: int,
)
    requires
        0 <= index < records.len(),
    ensures
        triaged(records, replay_errors, index) == (stage::RecoveryModel {
            state: triaged(records, replay_errors, index).state,
            error: triaged(records, replay_errors, index).error,
            ..records[index]
        }),
        triaged(records, replay_errors, index).state == records[index].state || triaged(records, replay_errors, index).state
            == "unreadable"@,
{
}

/// Every record of a folder with a damaged log is reported with that damage,
/// under its own path and, where it could be read, its own key.
pub proof fn a_damaged_log_hides_no_record(inputs: Seq<QuarantineInput>, damage: Seq<char>, index: int)
    requires
        0 <= index < inputs.len(),
    ensures
        quarantined(inputs, damage).len() == inputs.len(),
        quarantined(inputs, damage)[index].path == inputs[index].path@,
        quarantined(inputs, damage)[index].error == Some(damage),
        quarantined(inputs, damage)[index].state == "unreadable"@,
        inputs[index].key is Some ==> quarantined(inputs, damage)[index].key == (inputs[index].key->0)@,
        inputs[index].key is None ==> quarantined(inputs, damage)[index].key.len() == 0,
{
}

/// An interrupted write that was read waits under its data file; one that
/// cannot be read stands as failed for its record, as long as it exists. The
/// others stay as they were.
pub proof fn an_interrupted_write_is_kept_track_of(intents: Seq<IntentInput>)
    requires
        intents.len() > 0,
        after_intents(intents.drop_last()) is Ok,
    ensures
        ({
            let before = after_intents(intents.drop_last())->Ok_0;
            let intent = intents.last();
            let after = after_intents(intents);
            &&& intent.outcome is Ok ==> after is Ok && after->Ok_0.pending == before.pending.insert(
                (intent.outcome->Ok_0)@.path,
                (intent.outcome->Ok_0)@,
            ) && after->Ok_0.failed == before.failed && after->Ok_0.entries == before.entries
            &&& intent.outcome is Err && !intent.still_exists ==> after == after_intents(intents.drop_last())
            &&& intent.outcome is Err && intent.still_exists ==> (after is Ok <==> paths::file_name_of(intent.path@) is Some)
            &&& intent.outcome is Err && intent.still_exists && after is Ok ==> after->Ok_0.pending == before.pending && after->Ok_0.failed
                == before.failed.insert(manifest_of_intent(intent.path@), (intent.path@, (intent.outcome->Err_0)@)) && after->Ok_0.entries
                == before.entries
        }),
{
}

/// Nothing that was listed is taken off the list by a later record.
pub proof fn what_is_listed_stays_listed(root: Seq<char>, state: InventoryState, inputs: Seq<ManifestInput>, index: int)
    requires
        after_manifests(root, state, inputs) is Ok,
        0 <= index < state.entries.len(),
    ensures
        state.entries.len() <= after_manifests(root, state, inputs)->Ok_0.entries.len(),
        after_manifests(root, state, inputs)->Ok_0.entries[index] == state.entries[index],
    decreases inputs.len(),
{
    if inputs.len() > 0 {
        what_is_listed_stays_listed(root, state, inputs.drop_last(), index);
    }
}

/// What was interrupted without a record of its own is listed all the same: the
/// whole inventory has an entry for every waiting write and every failed one.
pub proof fn nothing_interrupted_is_left_out(root: Seq<char>, intents: Seq<IntentInput>, manifests: Seq<ManifestInput>, index: int)
    requires
        inventory(root, intents, manifests) is Ok,
        after_intents(intents) is Ok,
        after_manifests(root, after_intents(intents)->Ok_0, manifests) is Ok,
    ensures
        ({
            let end = after_manifests(root, after_intents(intents)->Ok_0, manifests)->Ok_0;
            let all = inventory(root, intents, manifests)->Ok_0;
            let waiting = key_map::sorted_entries(end.pending);
            let failed = key_map::sorted_entries(end.failed);
            &&& all.len() == end.entries.len() + waiting.len() + failed.len()
            &&& 0 <= index < end.entries.len() ==> all[index] == end.entries[index]
            &&& 0 <= index < waiting.len() ==> all[end.entries.len() + index] == waiting[index].1
            &&& 0 <= index < failed.len() ==> all[end.entries.len() + waiting.len() + index].path == failed[index].1.0 && all[end.entries.len()
                + waiting.len() + index].error == Some(failed[index].1.1) && all[end.entries.len() + waiting.len() + index].state
                == "unreadable"@
        }),
{
}

/// Every directory on the way to a restored file is known afterwards, as a
/// directory under the one before it.
pub proof fn the_way_to_a_file_is_known(table: inode_table::TableModel, key: Seq<char>, length: int)
    requires
        0 < length <= key.len(),
    ensures
        ({
            let (before, parent) = with_ancestors(table, key, length - 1);
            let (after, last) = with_ancestors(table, key, length);
            &&& key[length - 1] != '/' ==> (after, last) == (before, parent)
            &&& key[length - 1] == '/' ==> {
                &&& last == before.id_for(key.take(length))
                &&& after.ids.contains_key(key.take(length))
                &&& after.ids[key.take(length)] == last
                &&& after.inodes[last].key == key.take(length)
                &&& after.inodes[last].kind == EntryKind::Dir
                &&& after.inodes[last].parent == parent
            }
            &&& with_ancestors(table, key, 0) == (table, 1u64)
        }),
{
}

/// A record is known by how its file's name ends.
pub proof fn a_record_is_known_by_its_ending(path: &str, kind: RecordKind)
    requires
        call_ensures(record_kind, (path,), kind),
    ensures
        kind == RecordKind::Intent <==> ".write.json"@.is_suffix_of(path@),
        kind == RecordKind::Manifest <==> ".stage.json"@.is_suffix_of(path@) && !".write.json"@.is_suffix_of(path@),
{
}

/// What is set aside keeps its content and says why; nothing else counts as
/// unreadable.
pub proof fn what_is_set_aside_says_why(record: StageRecovery, error: String, kept: StageRecovery, unreadable: bool)
    requires
        call_ensures(set_aside, (record, error), kept),
        call_ensures(is_unreadable, (&kept,), unreadable),
    ensures
        unreadable,
        kept@.error == Some(error@),
        kept@.key == record@.key,
        kept@.path == record@.path,
        kept@.size == record@.size,
        kept@.dirty == record@.dirty,
        kept@.snapshot == record@.snapshot,
        kept@.publication_guard == record@.publication_guard,
        kept@.generation == record@.generation,
{
}

/// A replayed write has to leave the file as long as its record says.
pub proof fn a_replayed_file_has_the_recorded_size(record: StageRecovery, length: u64, check: Result<(), String>)
    requires
        call_ensures(check_replayed, (&record, length), check),
    ensures
        check is Ok <==> length == record.size,
{
}

/// An interrupted write is replayed exactly where its record is a regular file
/// of at most eight mebibytes that was read, names a file, and that file is a
/// regular one below the root.
pub proof fn an_interrupted_write_is_replayed_where_it_is_whole(
    root: &str,
    seen: FileObservation,
    parsed: Result<StageRecovery, String>,
    data: Result<FileObservation, String>,
    planned: Result<StageRecovery, String>,
)
    requires
        call_ensures(plan_replay, (root, seen, parsed, &data), planned),
    ensures
        planned is Ok <==> {
            &&& seen.is_file && !seen.is_symlink && seen.length <= 8_388_608
            &&& parsed is Ok
            &&& paths::file_name_of((parsed->Ok_0)@.path) is Some
            &&& data is Ok
            &&& data->Ok_0.is_file && !data->Ok_0.is_symlink
        },
        planned is Ok ==> (planned->Ok_0)@ == (stage::RecoveryModel {
            path: paths::inside(root@, paths::file_name_of((parsed->Ok_0)@.path)->0),
            ..(parsed->Ok_0)@
        }),
{
}

/// A record is level with its log: a newer change of its own key is taken
/// over, an older one is not, and one of another key is refused.
pub proof fn a_record_takes_over_newer_changes(record: StageRecovery, wal_bytes: u64, newest: WalSummary, level: Result<StageRecovery, String>)
    requires
        call_ensures(level_with_log, (record, wal_bytes, &Some(newest)), level),
    ensures
        level is Err <==> newest.generation > record.generation && newest.key@ != record.key@,
        level is Ok && newest.generation > record.generation ==> (level->Ok_0)@.size == newest.resulting_size && (level->Ok_0)@.generation
            == newest.generation && (level->Ok_0)@.dirty,
        level is Ok && newest.generation <= record.generation ==> (level->Ok_0)@.size == record.size && (level->Ok_0)@.generation
            == record.generation && (level->Ok_0)@.dirty == record.dirty,
        level is Ok ==> (level->Ok_0)@.key == record.key@ && (level->Ok_0)@.path == record.path@,
{
}

/// A stage's content counts as whole where it is a regular file of just the
/// recorded size.
pub proof fn content_is_whole_where_it_has_the_recorded_size(seen: FileObservation, expected_size: u64, outcome: Result<(), String>)
    requires
        call_ensures(validate_data_file, (&Ok(seen), expected_size), outcome),
    ensures
        outcome is Ok <==> seen.is_file && !seen.is_symlink && seen.length == expected_size,
{
}

/// The record of an interrupted write is that of its stage, with its ending
/// taken off.
pub proof fn an_intent_is_named_after_its_stage(name: Seq<char>)
    ensures
        without_intent_suffix(name + ".write.json"@) == without_intent_suffix(name),
        !".write.json"@.is_suffix_of(name) ==> without_intent_suffix(name) == name,
{
    reveal_strlit(".write.json");
    let suffix = ".write.json"@;
    let longer = name + suffix;
    assert(longer.subrange(longer.len() - suffix.len(), longer.len() as int) =~= suffix);
    assert(longer.take(longer.len() - suffix.len()) =~= name);
}

} // verus!
