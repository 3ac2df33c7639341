use r2_mount::content::ObjectHead;
use r2_mount::inode_table::{EntryKind, InodeTable, ROOT_ID};
use r2_mount::inventory::{
    check_replayed, intern_path, is_unreadable, level_with_log, plan_replay, quarantine_folder, read_recovery_record, record_kind,
    recovery_entries, triage_records, validate_data_file, FileObservation, IntentInput, ManifestInput, QuarantineInput, RecordKind,
    MAX_INTENT_BYTES, MAX_MANIFEST_BYTES,
};
use r2_mount::journal::Condition;
use r2_mount::key_map::KeyMap;
use r2_mount::namespace_recovery::{
    check_intent_version, ensure_key_settled, intent_condition, intent_message, intent_request, is_intent_done, note_failed_recovery,
    operation_kind, operation_record, plan_delete, plan_empty, rename_message, unreadable_message, IntentPhase, IntentRequest, IntentRun,
    NamespaceIntent, OperationFields, OperationInput, OperationRecord,
};
use r2_mount::rename_plan::PendingRename;
use r2_mount::stage::{unreadable_record, StageRecovery};
use r2_mount::stage_state::{Stage, WalSummary};
use r2_mount::status::NfsStatus;

fn regular(length: u64) -> FileObservation {
    FileObservation { is_file: true, is_symlink: false, length }
}

fn record(key: &str, size: u64) -> StageRecovery {
    let mut stage = Stage::create("/old/7.data".to_string(), key.to_string(), 5, 0);
    stage.dirty = true;
    stage.size = size;
    stage.dirty_gen = 1;
    stage.applied_gen = 1;
    stage.recovery_record()
}

fn manifest(path: &str, record: StageRecovery) -> ManifestInput {
    let size = record.size;
    ManifestInput {
        path: path.to_string(),
        outcome: Ok(record),
        still_exists: true,
        wal_bytes: Ok(0),
        newest: Ok(None),
        data: Ok(regular(size)),
        snapshot: Err("none".to_string()),
    }
}

// ---- records of staged files ----

#[test]
fn a_record_is_read_from_a_small_real_file() {
    let read = |metadata, parsed| read_recovery_record("/s", &metadata, parsed, false, &Ok(regular(3)));
    let good = read(Ok(regular(10)), Ok(record("k", 3))).ok().expect("usable");
    assert_eq!(good.path, "/s/7.data");
    assert!(read(Ok(regular(MAX_MANIFEST_BYTES + 1)), Ok(record("k", 3))).is_err());
    assert!(read(Ok(FileObservation { is_file: true, is_symlink: true, length: 1 }), Ok(record("k", 3))).is_err());
    assert!(read(Err("denied".to_string()), Ok(record("k", 3))).is_err());
    assert!(read(Ok(regular(10)), Err("not json".to_string())).is_err());
    assert!(read(Ok(regular(10)), Ok(record("", 3))).is_err());
    let write = read_recovery_record("/s", &Ok(regular(10)), Ok(record("k", 3)), true, &Ok(regular(3))).ok().expect("usable");
    assert_eq!(write.state, "replay_pending");
    assert_eq!(record_kind("/s/7.write.json"), RecordKind::Intent);
    assert_eq!(record_kind("/s/7.stage.json"), RecordKind::Manifest);
    assert_eq!(record_kind("/s/7.data"), RecordKind::Other);
}

#[test]
fn an_interrupted_write_is_replayed_only_into_a_real_file_of_its_folder() {
    let refused = |seen, parsed, data| plan_replay("/s", seen, parsed, &data).err().expect("refused");
    let planned = plan_replay("/s", regular(MAX_INTENT_BYTES), Ok(record("k", 3)), &Ok(regular(1))).ok().expect("planned");
    assert_eq!(planned.path, "/s/7.data");
    assert_eq!(planned.size, 3);
    let link = FileObservation { is_file: true, is_symlink: true, length: 1 };
    assert_eq!(refused(regular(MAX_INTENT_BYTES + 1), Ok(record("k", 3)), Ok(regular(1))), "Invalid durable write intent");
    assert_eq!(refused(link, Err("not json".to_string()), Ok(regular(1))), "Invalid durable write intent");
    assert_eq!(refused(regular(10), Err("not json".to_string()), Ok(regular(1))), "not json");
    let mut nameless = record("k", 3);
    nameless.path = "/".to_string();
    assert_eq!(refused(regular(10), Ok(nameless), Ok(regular(1))), "Missing stage identity");
    assert_eq!(refused(regular(10), Ok(record("k", 3)), Err("gone".to_string())), "gone");
    assert_eq!(refused(regular(10), Ok(record("k", 3)), Ok(link)), "Invalid stage data file");

    assert!(check_replayed(&record("k", 3), 3).is_ok());
    assert_eq!(check_replayed(&record("k", 3), 4).err().expect("refused"), "Replayed write size mismatch");
}

#[test]
fn what_the_log_knows_better_is_taken_from_it() {
    let newest = WalSummary {
        key: "k".to_string(),
        resulting_size: 9,
        generation: 4,
        lsn: 6,
        next_lsn: 7,
        mtime_secs: 11,
        dirty_at_ms: 50,
    };
    let level = level_with_log(record("k", 3), 20, &Some(newest)).ok().expect("same key");
    assert_eq!((level.size, level.generation, level.checkpoint_lsn, level.dirty), (9, 4, 6, true));
    let old = level_with_log(record("k", 3), 20, &None).ok().expect("nothing newer");
    assert_eq!((old.size, old.wal_bytes), (3, Some(20)));
    let foreign = WalSummary {
        key: "other".to_string(),
        resulting_size: 9,
        generation: 4,
        lsn: 6,
        next_lsn: 7,
        mtime_secs: 11,
        dirty_at_ms: 50,
    };
    assert!(level_with_log(record("k", 3), 20, &Some(foreign)).is_err());
    assert!(validate_data_file(&Ok(regular(3)), 3).is_ok());
    assert!(validate_data_file(&Ok(regular(4)), 3).is_err());
    assert!(validate_data_file(&Err("gone".to_string()), 3).is_err());
}

#[test]
fn every_record_that_still_exists_is_listed() {
    let good = manifest("/s/7.stage.json", record("k", 3));
    let mut damaged = manifest("/s/8.stage.json", record("l", 3));
    damaged.data = Ok(regular(2));
    let mut vanished = manifest("/s/9.stage.json", record("m", 3));
    vanished.outcome = Err("gone".to_string());
    vanished.still_exists = false;
    let intent = IntentInput { path: "/s/6.write.json".to_string(), outcome: Err("torn".to_string()), still_exists: true };
    let entries = recovery_entries("/s", &vec![intent], &vec![good, damaged, vanished]).ok().expect("readable");
    assert_eq!(entries.iter().filter(|entry| is_unreadable(entry)).count(), 2);
    assert!(entries.iter().any(|entry| entry.key == "k" && !is_unreadable(entry)));
    assert_eq!(entries.len(), 3);
}

#[test]
fn two_records_of_one_object_are_both_kept_for_review() {
    let records = vec![record("k", 3), record("k", 4), record("l", 1)];
    let sorted = triage_records(&records, &KeyMap::new());
    assert!(is_unreadable(&sorted[0]) && is_unreadable(&sorted[1]));
    assert!(!is_unreadable(&sorted[2]));
    let mut pending = record("k", 3);
    pending.state = "replay_pending".to_string();
    let mut errors: KeyMap<String> = KeyMap::new();
    errors.insert("/old/7.write.json".to_string(), "torn".to_string());
    let sorted = triage_records(&vec![pending], &errors);
    assert_eq!(sorted[0].error.as_deref(), Some("torn"));
}

#[test]
fn a_folder_with_a_damaged_log_never_looks_empty() {
    let inputs = vec![QuarantineInput { path: "/s/7.stage.json".to_string(), key: Some("k".to_string()) }];
    let entries = quarantine_folder("/s/wal", &inputs, "log damaged");
    assert_eq!(entries.len(), 2);
    assert_eq!((entries[0].path.as_str(), entries[1].key.as_str()), ("/s/wal", "k"));
    assert!(entries.iter().all(|entry| entry.error.as_deref() == Some("log damaged")));
}

#[test]
fn a_restored_file_gets_the_directories_on_its_way() {
    let mut inodes = InodeTable::new();
    let id = intern_path(&mut inodes, "a/b/x", 3, 4);
    assert_eq!(inodes.id_of("a/b/x"), Some(id));
    let b = inodes.id_of("a/b/").expect("interned");
    let a = inodes.id_of("a/").expect("interned");
    assert_eq!(inodes.get(id).expect("file").parent, b);
    assert_eq!(inodes.get(b).expect("dir").parent, a);
    assert_eq!(inodes.get(a).expect("dir").parent, ROOT_ID);
    assert!(inodes.get(b).expect("dir").kind == EntryKind::Dir);
    assert_eq!(inodes.get(id).expect("file").size, 3);
}

// ---- interrupted changes ----

fn head(etag: Option<&str>, size: i64, token: Option<&str>) -> ObjectHead {
    ObjectHead {
        etag: etag.map(|tag| tag.to_string()),
        size: Some(size),
        version_id: None,
        modified_secs: None,
        snapshot_token: None,
        rename_token: None,
        namespace_token: token.map(|token| token.to_string()),
    }
}

#[test]
fn notes_are_told_apart_by_their_names() {
    assert_eq!(operation_kind("namespace-1.json"), Some(OperationRecord::Namespace));
    assert_eq!(operation_kind("rename-1.json"), Some(OperationRecord::Rename));
    assert_eq!(operation_kind("rename-part-1.json"), None);
    assert_eq!(operation_kind("namespace-1.tmp"), None);
    assert_eq!(operation_kind("other.json"), None);
}

#[test]
fn a_note_that_cannot_be_used_is_reported_while_it_exists() {
    let fields = |key: Option<&str>| OperationFields {
        key: key.map(|key| Some(key.to_string())),
        from: None,
        last_error: Some("later".to_string()),
    };
    let good = operation_record(
        "/s/namespace-1.json".to_string(),
        OperationRecord::Namespace,
        OperationInput::Seen(regular(10), Ok(fields(Some("k")))),
        true,
    )
    .expect("usable");
    assert_eq!((good.key.as_str(), good.state.as_str(), good.error.as_deref()), ("k", "namespace_recovery", Some("later")));
    let nameless = OperationInput::Seen(regular(10), Ok(fields(None)));
    let bad = operation_record("/s/rename-1.json".to_string(), OperationRecord::Rename, nameless, true).expect("reported");
    assert_eq!(unreadable_message(&bad).as_deref(), Some("Namespace record omitted its source key"));
    let unseen = OperationInput::Unseen("gone".to_string());
    assert!(operation_record("/s/rename-1.json".to_string(), OperationRecord::Rename, unseen, false).is_none());
    assert_eq!(unreadable_message(&good), None);
}

#[test]
fn an_empty_object_is_made_once_and_replaces_only_what_was_seen() {
    let intent = plan_empty("k".to_string(), false, &None, "op".to_string()).ok().expect("free");
    assert_eq!(intent_condition(&intent), Condition::PutCreate);
    assert_eq!(is_intent_done(&intent, &None), Ok(false));
    assert!(matches!(intent_request(&intent, &None, true), Ok(IntentRequest::Put(None))));
    assert_eq!(is_intent_done(&intent, &Some(head(Some("t"), 0, Some("op")))), Ok(true));
    assert_eq!(is_intent_done(&intent, &Some(head(Some("t"), 0, Some("other")))), Ok(false));
    // Somebody else's object is left alone.
    assert_eq!(intent_request(&intent, &Some(head(Some("t"), 9, None)), true).err(), Some(NfsStatus::Io));
    assert_eq!(intent_request(&intent, &None, false).err(), Some(NfsStatus::NotSupp));
    let taken = Some(head(Some("t"), 9, None));
    assert_eq!(plan_empty("k".to_string(), false, &taken, "op".to_string()).err(), Some(NfsStatus::Exist));
    let replacing = plan_empty("k".to_string(), true, &taken, "op".to_string()).ok().expect("replace");
    assert_eq!(intent_condition(&replacing), Condition::PutMatch);
    assert!(matches!(intent_request(&replacing, &taken, true), Ok(IntentRequest::Put(Some(etag))) if etag == "t"));
}

#[test]
fn a_deletion_removes_only_what_was_seen() {
    let there = head(Some("t"), 9, None);
    let intent = plan_delete("k".to_string(), &there, true, "op".to_string()).ok().expect("tagged");
    assert_eq!(intent_condition(&intent), Condition::DeleteMatch);
    assert_eq!(is_intent_done(&intent, &None), Ok(true));
    assert!(matches!(intent_request(&intent, &Some(head(Some("t"), 9, None)), true), Ok(IntentRequest::Delete(etag)) if etag == "t"));
    assert_eq!(plan_delete("k".to_string(), &there, false, "op".to_string()).err(), Some(NfsStatus::NotSupp));
    assert_eq!(plan_delete("k".to_string(), &head(None, 9, None), true, "op".to_string()).err(), Some(NfsStatus::Io));
    let newer = NamespaceIntent { version: 2, ..intent };
    assert_eq!(check_intent_version(&newer), Err(NfsStatus::NotSupp));
}

#[test]
fn an_unsettled_key_is_not_changed() {
    assert_eq!(ensure_key_settled(false, false, false), Ok(()));
    assert_eq!(ensure_key_settled(true, true, false), Ok(()));
    assert_eq!(ensure_key_settled(true, false, false), Err(NfsStatus::Io));
    assert_eq!(ensure_key_settled(false, false, true), Err(NfsStatus::Io));
    assert_eq!(intent_message("k", NfsStatus::Io), "Namespace recovery for k needs attention: NFS3ERR_IO");
    assert_eq!(rename_message(NfsStatus::NotSupp), "Rename recovery needs attention: NFS3ERR_NOTSUPP");
}

#[test]
fn a_key_whose_recovery_failed_is_withheld() {
    let mut errors = Vec::new();
    let mut renames: KeyMap<PendingRename> = KeyMap::new();
    let mut withheld = unreadable_record("/s/n.json".to_string(), "k".to_string(), "bad".to_string());
    note_failed_recovery(&mut errors, &mut renames, &withheld, "first".to_string());
    note_failed_recovery(&mut errors, &mut renames, &withheld, "second".to_string());
    assert_eq!(errors, vec!["first".to_string(), "second".to_string()]);
    assert_eq!(renames.get("/s/n.json").map(|rename| rename.from.as_str()), Some("k"));
    withheld.key = String::new();
    withheld.path = "/s/m.json".to_string();
    note_failed_recovery(&mut errors, &mut renames, &withheld, "third".to_string());
    assert_eq!(renames.len(), 1);
}

// ---- changes to one name ----

fn marked(token: &str, etag: &str) -> ObjectHead {
    ObjectHead {
        etag: Some(etag.to_string()),
        size: Some(0),
        version_id: None,
        modified_secs: None,
        snapshot_token: None,
        rename_token: None,
        namespace_token: Some(token.to_string()),
    }
}

fn making(token: &str) -> NamespaceIntent {
    plan_empty("k".to_string(), false, &None, token.to_string()).ok().expect("planned")
}

#[test]
fn a_change_is_noted_asked_for_and_forgotten_in_this_order() {
    let mut run = IntentRun::begin(making("t1"));
    let mut phases = vec![run.phase];
    run.on_saved(true);
    phases.push(run.phase);
    run.on_head(Ok(None));
    phases.push(run.phase);
    run.on_condition(Ok(true));
    phases.push(run.phase);
    assert!(run.noted && matches!(&run.request, Some(IntentRequest::Put(None))));
    run.on_sent(Ok(()));
    phases.push(run.phase);
    run.on_dropped();
    phases.push(run.phase);
    run.on_removed(true);
    assert_eq!(run.outcome(), Ok(()));
    assert_eq!(
        phases,
        vec![
            IntentPhase::Saving,
            IntentPhase::Looking,
            IntentPhase::AskingCondition,
            IntentPhase::Sending,
            IntentPhase::Dropping,
            IntentPhase::Removing,
        ]
    );
}

#[test]
fn a_change_that_has_happened_is_not_asked_for_again() {
    let mut run = IntentRun::resume(making("t1"));
    run.on_head(Ok(Some(marked("t1", "e"))));
    assert_eq!((run.phase, run.request.is_none()), (IntentPhase::Dropping, true));
    run.on_dropped();
    run.on_removed(false);
    assert_eq!(run.outcome(), Err(NfsStatus::Io));
}

#[test]
fn a_change_is_given_up_where_something_else_stands_there() {
    let mut foreign = IntentRun::resume(making("t1"));
    foreign.on_head(Ok(Some(marked("t2", "e"))));
    assert_eq!(foreign.phase, IntentPhase::AskingCondition);
    foreign.on_condition(Ok(true));
    assert_eq!(foreign.outcome(), Err(NfsStatus::Io));

    let deleting = plan_delete("k".to_string(), &marked("t0", "e0"), true, "t3".to_string()).ok().expect("planned");
    let mut run = IntentRun::resume(deleting);
    run.on_head(Ok(Some(marked("t0", "e0"))));
    run.on_condition(Ok(true));
    assert!(matches!(&run.request, Some(IntentRequest::Delete(etag)) if etag == "e0"));
    run.on_sent(Err(NfsStatus::JukeBox));
    assert_eq!(run.outcome(), Err(NfsStatus::JukeBox));
}

#[test]
fn a_change_needs_its_note_its_condition_and_a_known_operation() {
    let mut unsaved = IntentRun::begin(making("t1"));
    unsaved.on_saved(false);
    assert_eq!((unsaved.outcome(), unsaved.noted), (Err(NfsStatus::Io), false));

    let mut unsupported = IntentRun::resume(making("t1"));
    unsupported.on_head(Ok(None));
    unsupported.on_condition(Ok(false));
    assert_eq!(unsupported.outcome(), Err(NfsStatus::NotSupp));

    let mut unknown = making("t1");
    unknown.operation = "move".to_string();
    let mut run = IntentRun::resume(unknown);
    run.on_head(Ok(None));
    assert_eq!(run.outcome(), Err(NfsStatus::NotSupp));

    let mut newer = making("t1");
    newer.version = 2;
    assert_eq!(IntentRun::resume(newer).outcome(), Err(NfsStatus::NotSupp));

    let mut unseen = IntentRun::resume(making("t1"));
    unseen.on_head(Err(NfsStatus::Acces));
    assert_eq!(unseen.outcome(), Err(NfsStatus::Acces));
}
