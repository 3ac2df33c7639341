use std::collections::hash_map::DefaultHasher;
use std::hash::{Hash, Hasher};

use r2_mount::content::ObjectHead;
use r2_mount::journal::{Condition, MultipartJournal};
use r2_mount::key_map::KeyMap;
use r2_mount::part_copy::{copy_source, part_etag, CopyParts, PartCopy, PartCopyPhase};
use r2_mount::publish::{ListedPart, PartsPage};
use r2_mount::rename::{
    is_journal_of, plan_object, preflight_rename, Rename, RenameJournal, RenameObject, RenamePhase, RenameStep, MAX_SINGLE_COPY,
};
use r2_mount::rename_plan::{
    check_directory_move, check_source, copy_plan, directory_moves, ensure_rename_available, ensure_rename_not_blocked, key_hash, mark_copy,
    namespace_journal_name, needs_parts, pair_hash, part_journal_name, pending_rename_overlaps, rename_journal_name, storage_scope,
    CopyGuard, KeyCollector, KeyPage, PendingRename,
};
use r2_mount::stage::unreadable_record;
use r2_mount::status::NfsStatus;

fn head(etag: &str, size: i64) -> ObjectHead {
    ObjectHead {
        etag: Some(etag.to_string()),
        size: Some(size),
        version_id: None,
        modified_secs: Some(1),
        snapshot_token: None,
        rename_token: None,
        namespace_token: None,
    }
}

fn copy_of(etag: &str, size: i64, token: &str) -> ObjectHead {
    ObjectHead { rename_token: Some(token.to_string()), ..head(etag, size) }
}

fn object(from: &str, to: &str) -> RenameObject {
    plan_object(from.to_string(), to.to_string(), Some(head("s", 5)), None).expect("movable")
}

fn journal(objects: Vec<RenameObject>) -> RenameJournal {
    RenameJournal { from: "a".to_string(), to: "b".to_string(), token: "op".to_string(), objects }
}

/// Brings a rename to the point where the sources go.
fn copied(rename: &mut Rename) {
    assert_eq!(rename.step, RenameStep::SavingReconciled);
    rename.on_saved(true);
    assert_eq!(rename.step, RenameStep::Copying);
    for index in rename.to_copy() {
        rename.begin_copy(index);
        rename.on_copied(index, Ok("d".to_string()));
    }
    rename.on_copies_done();
}

#[test]
fn a_rename_copies_then_deletes_what_it_copied() {
    let mut rename = Rename::resume(journal(vec![object("a", "b")]));
    copied(&mut rename);
    assert_eq!(rename.step, RenameStep::Checking);
    rename.on_checked(Ok(Some(copy_of("d", 5, "op"))));
    assert_eq!(rename.step, RenameStep::SavingDeleting);
    assert_eq!(rename.journal.objects[0].phase, RenamePhase::Deleting);
    rename.on_saved(true);
    rename.on_source(Ok(true));
    assert_eq!(rename.step, RenameStep::AskingDelete);
    rename.on_delete_condition(Ok(true));
    assert_eq!(rename.step, RenameStep::DeletingSource);
    rename.on_deleted(Ok(()));
    assert_eq!(rename.step, RenameStep::SavingDeleted);
    rename.on_saved(true);
    assert_eq!(rename.step, RenameStep::Done);
    assert_eq!(rename.outcome(), Ok(()));
    assert_eq!(rename.journal.objects[0].phase, RenamePhase::Deleted);
}

#[test]
fn nothing_is_deleted_while_a_copy_is_missing() {
    let mut rename = Rename::resume(journal(vec![object("a/x", "b/x"), object("a/y", "b/y")]));
    rename.on_saved(true);
    assert_eq!(rename.to_copy(), vec![0, 1]);
    rename.begin_copy(0);
    rename.on_copied(0, Ok("d".to_string()));
    rename.begin_copy(1);
    rename.on_copied(1, Err(NfsStatus::Io));
    rename.on_copies_done();
    assert_eq!(rename.step, RenameStep::Done);
    assert_eq!(rename.outcome(), Err(NfsStatus::Io));
    assert_eq!(rename.journal.objects[0].phase, RenamePhase::Copied);
    // It goes on from its journal: the finished copy is not made again.
    let mut again = Rename::resume(rename.journal);
    assert_eq!(again.step, RenameStep::Reconciling);
    again.on_reconciled(Ok(None));
    again.on_saved(true);
    assert_eq!(again.to_copy(), vec![1]);
}

#[test]
fn a_copy_whose_answer_was_lost_is_recognized_by_its_mark_and_bytes() {
    let mut lost = object("a", "b");
    lost.phase = RenamePhase::Copying;
    let mut rename = Rename::resume(journal(vec![lost.clone()]));
    rename.on_reconciled(Ok(Some(copy_of("d", 5, "op"))));
    assert_eq!(rename.step, RenameStep::Verifying);
    rename.on_content(true);
    assert_eq!(rename.journal.objects[0].phase, RenamePhase::Copied);
    assert_eq!(rename.journal.objects[0].destination_etag.as_deref(), Some("d"));

    let mut different = Rename::resume(journal(vec![lost.clone()]));
    different.on_reconciled(Ok(Some(copy_of("d", 5, "op"))));
    different.on_content(false);
    assert_eq!(different.outcome(), Err(NfsStatus::Io));

    // Somebody else's object is left alone.
    let mut foreign = Rename::resume(journal(vec![lost]));
    foreign.on_reconciled(Ok(Some(copy_of("d", 5, "other"))));
    assert_eq!(foreign.outcome(), Err(NfsStatus::Io));
}

#[test]
fn a_destination_that_changed_keeps_the_source() {
    for (target, status) in [
        (Ok(None), NfsStatus::NoEnt),
        (Ok(Some(copy_of("x", 5, "op"))), NfsStatus::Io),
        (Ok(Some(head("d", 5))), NfsStatus::Io),
        (Err(NfsStatus::Acces), NfsStatus::Acces),
    ] {
        let mut rename = Rename::resume(journal(vec![object("a", "b")]));
        copied(&mut rename);
        rename.on_checked(target);
        assert_eq!(rename.outcome(), Err(status));
        assert_eq!(rename.journal.objects[0].phase, RenamePhase::Copied);
    }
}

#[test]
fn a_source_that_is_gone_counts_as_deleted() {
    let mut rename = Rename::resume(journal(vec![object("a", "b")]));
    copied(&mut rename);
    rename.on_checked(Ok(Some(copy_of("d", 5, "op"))));
    rename.on_saved(true);
    rename.on_source(Ok(false));
    rename.on_saved(true);
    assert_eq!(rename.outcome(), Ok(()));
}

#[test]
fn a_source_is_not_deleted_without_a_condition() {
    let mut rename = Rename::resume(journal(vec![object("a", "b")]));
    copied(&mut rename);
    rename.on_checked(Ok(Some(copy_of("d", 5, "op"))));
    rename.on_saved(true);
    rename.on_source(Ok(true));
    rename.on_delete_condition(Ok(false));
    assert_eq!(rename.outcome(), Err(NfsStatus::NotSupp));

    let mut unsaved = Rename::resume(journal(vec![object("a", "b")]));
    copied(&mut unsaved);
    unsaved.on_checked(Ok(Some(copy_of("d", 5, "op"))));
    unsaved.on_saved(false);
    assert_eq!(unsaved.outcome(), Err(NfsStatus::Io));
}

#[test]
fn a_copy_that_could_not_be_recorded_stops_the_rename() {
    let mut rename = Rename::resume(journal(vec![object("a", "b")]));
    rename.on_saved(true);
    rename.begin_copy(0);
    rename.on_copy_unsaved();
    rename.on_copies_done();
    assert_eq!(rename.outcome(), Err(NfsStatus::Io));
}

#[test]
fn an_object_is_planned_with_what_it_replaces() {
    assert_eq!(plan_object("a".to_string(), "b".to_string(), None, None).err(), Some(NfsStatus::NoEnt));
    let nameless = ObjectHead { etag: None, ..head("s", 5) };
    assert_eq!(plan_object("a".to_string(), "b".to_string(), Some(nameless), None).err(), Some(NfsStatus::Io));
    let versioned = ObjectHead { version_id: Some("v1".to_string()), ..head("s", 5) };
    let planned = plan_object("a".to_string(), "b".to_string(), Some(versioned), Some(head("t", 9))).expect("movable");
    assert_eq!(planned.source_version.as_deref(), Some("v1"));
    assert_eq!(planned.replaced_etag.as_deref(), Some("t"));
    assert_eq!((planned.size, planned.phase), (5, RenamePhase::Pending));
    let unversioned = ObjectHead { version_id: Some("null".to_string()), ..head("s", 5) };
    let planned = plan_object("a".to_string(), "b".to_string(), Some(unversioned), None).expect("movable");
    assert_eq!(planned.source_version, None);
    assert!(is_journal_of(&journal(Vec::new()), "a", "b"));
    assert!(!is_journal_of(&journal(Vec::new()), "a", "c"));
}

#[test]
fn a_rename_is_refused_before_the_first_copy_where_a_condition_is_missing() {
    let small = object("a", "b");
    assert_eq!(preflight_rename(&vec![small.clone()], true), vec![Condition::DeleteMatch]);
    let wanted = preflight_rename(&vec![small], false);
    assert!(wanted.contains(&Condition::CopyCreate));
    let mut large = object("a", "b");
    large.size = MAX_SINGLE_COPY + 1;
    assert!(preflight_rename(&vec![large], false).contains(&Condition::CompleteCreate));
    assert!(!needs_parts(MAX_SINGLE_COPY) && needs_parts(MAX_SINGLE_COPY + 1));
}

#[test]
fn phases_read_back_from_their_names() {
    for phase in [RenamePhase::Pending, RenamePhase::Copying, RenamePhase::Copied, RenamePhase::Deleting, RenamePhase::Deleted] {
        let mut kept = object("a", "b");
        kept.phase = phase;
        assert_eq!(RenamePhase::named(&kept.phase_name()), phase);
    }
    assert_eq!(object("a", "b").phase_name(), "pending");
}

#[test]
fn a_phase_that_is_not_known_is_kept_until_the_source_goes() {
    assert_eq!(RenamePhase::named("verifying"), RenamePhase::Other);
    let mut foreign = object("a", "b");
    foreign.phase = RenamePhase::Other;
    foreign.other_phase = "verifying".to_string();
    foreign.destination_etag = Some("d".to_string());
    let mut rename = Rename::resume(journal(vec![foreign]));
    assert_eq!(rename.step, RenameStep::SavingReconciled);
    assert_eq!(rename.journal.objects[0].phase_name(), "verifying");
    rename.on_saved(true);
    assert!(rename.to_copy().is_empty());
    rename.on_copies_done();
    assert_eq!(rename.step, RenameStep::Checking);
    assert_eq!(rename.journal.objects[0].phase_name(), "verifying");
    rename.on_checked(Ok(Some(copy_of("d", 5, "op"))));
    assert_eq!(rename.step, RenameStep::SavingDeleting);
    assert_eq!(rename.journal.objects[0].phase_name(), "deleting");
}

#[test]
fn a_copy_says_what_it_may_replace() {
    let fresh = object("a", "b");
    let plan = copy_plan(&fresh, &Some(head("s", 5)), true).expect("unchanged");
    assert!(matches!(plan.guard, CopyGuard::NativeAbsent));
    let mut replacing = object("a", "b");
    replacing.replaced_etag = Some("t".to_string());
    let plan = copy_plan(&replacing, &Some(head("s", 5)), false).expect("unchanged");
    assert!(matches!(plan.guard, CopyGuard::Match(ref etag) if etag == "t"));
    assert_eq!(plan.condition, Some(Condition::CopyMatch));
    assert_eq!(copy_plan(&fresh, &Some(head("changed", 5)), true).err(), Some(NfsStatus::Io));
    assert!(copy_plan(&fresh, &None, true).is_err());
    assert_eq!(check_source(&fresh, &head("s", 6)), Err(NfsStatus::Io));

    let mut metadata: KeyMap<String> = KeyMap::new();
    metadata.insert("other".to_string(), "kept".to_string());
    mark_copy(&mut metadata, "op".to_string());
    assert_eq!(metadata.get("r2-rename-operation").map(|mark| mark.as_str()), Some("op"));
    assert_eq!(metadata.len(), 2);
}

#[test]
fn keys_are_collected_until_the_listing_ends() {
    let page = |keys: &[&str], next: Option<&str>| KeyPage {
        keys: keys.iter().map(|key| Some(key.to_string())).collect(),
        truncated: next.is_some(),
        next_token: next.map(|token| token.to_string()),
    };
    let mut collector = KeyCollector::new();
    assert_eq!(collector.on_page(page(&["a/", "a/x"], Some("t"))), Ok(Some("t".to_string())));
    assert_eq!(collector.on_page(page(&["a/y"], Some("t"))), Err(NfsStatus::Io));
    assert_eq!(collector.on_page(page(&["a/y"], None)), Ok(None));
    let moves = directory_moves(&vec!["a/".to_string(), "a/x".to_string(), "b".to_string()], "a/", "c/");
    assert_eq!(moves, vec![("a/".to_string(), "c/".to_string()), ("a/x".to_string(), "c/x".to_string())]);
    assert_eq!(check_directory_move("a/", "a/b/"), Err(NfsStatus::Inval));
    assert_eq!(check_directory_move("a/", "ab/"), Ok(()));
}

#[test]
fn an_unfinished_rename_stands_in_the_way_of_its_keys() {
    assert!(pending_rename_overlaps("a/", "a/x"));
    assert!(pending_rename_overlaps("a/x", "a/"));
    assert!(!pending_rename_overlaps("a", "a/x"));
    let mut renames: KeyMap<PendingRename> = KeyMap::new();
    renames.insert("j1".to_string(), PendingRename { from: "a/".to_string(), to: "b/".to_string() });
    assert!(ensure_rename_not_blocked(&renames, "a/x", "c", "j2").is_err());
    assert!(ensure_rename_not_blocked(&renames, "a/", "b/", "j1").is_ok());
    assert!(ensure_rename_not_blocked(&renames, "d", "e", "j2").is_ok());
    assert!(ensure_rename_available(&Vec::new(), &renames, "b/x").is_err());
    assert!(ensure_rename_available(&Vec::new(), &renames, "d").is_ok());
    let quarantined = vec![unreadable_record("/q".to_string(), "d".to_string(), "damaged".to_string())];
    assert!(ensure_rename_available(&quarantined, &KeyMap::new(), "d").is_err());
}

#[test]
fn journals_are_named_by_a_hash_of_their_keys() {
    assert_eq!(key_hash("a"), key_hash("a"));
    assert_ne!(key_hash("a"), key_hash("b"));
    assert_ne!(pair_hash("a", "b"), pair_hash("b", "a"));
    assert_eq!(namespace_journal_name("a"), format!("namespace-{:016x}.json", key_hash("a")));
    assert_eq!(rename_journal_name("a", "b"), format!("rename-{:016x}.json", pair_hash("a", "b")));
    assert_eq!(part_journal_name("t", "b"), format!("rename-part-t-{:016x}.json", key_hash("b")));
    assert_eq!(storage_scope("bucket", "one"), "bucket:one");
    assert_eq!(storage_scope("bucket", ""), "bucket");
}

#[test]
fn keys_hash_as_text_does() {
    for key in ["", "a", "photos/2024/照片.jpg"] {
        let mut hasher = DefaultHasher::new();
        key.hash(&mut hasher);
        assert_eq!(key_hash(key), hasher.finish());
        "other".hash(&mut hasher);
        assert_eq!(pair_hash(key, "other"), hasher.finish());
    }
}

// ---- copies in parts ----

fn large_copy() -> PartCopy {
    let mut large = object("a b", "b");
    large.size = 25;
    PartCopy::begin(large, true)
}

fn planned(copy: &mut PartCopy, kept: Option<MultipartJournal>) {
    assert_eq!(copy.condition(), Condition::CompleteCreate);
    copy.on_condition(Ok(true));
    assert_eq!(copy.condition(), Condition::PartCopySource);
    copy.on_condition(Ok(true));
    copy.on_journal(Ok(kept));
    copy.on_plan(Some(CopyParts { part_size: 10, total_parts: 3 }));
}

#[test]
fn a_copy_in_parts_is_completed_only_with_all_of_them() {
    let mut copy = large_copy();
    planned(&mut copy, None);
    assert_eq!(copy.phase, PartCopyPhase::SavingGuard);
    copy.on_saved(true);
    copy.on_source(Ok(head("s", 25)));
    assert_eq!(copy.phase, PartCopyPhase::Creating);
    copy.on_created(Ok(Some("u".to_string())));
    copy.on_saved(true);
    let ranges = [(0, 9, "bytes=0-9"), (10, 19, "bytes=10-19"), (20, 24, "bytes=20-24")];
    for number in 1..=3 {
        let request = copy.part_to_copy(number).expect("missing");
        let (start, end, range) = ranges[number as usize - 1];
        assert_eq!((request.start, request.end, request.range.as_str()), (start, end, range));
        assert!(!request.relayed);
        assert_eq!(request.if_match.as_deref(), Some("s"));
        copy.on_part(number, Ok(format!("e{}", number)));
        assert!(copy.part_to_copy(number).is_none());
    }
    copy.on_parts_done();
    assert!(copy.journal.completing);
    copy.on_saved(true);
    assert_eq!(copy.phase, PartCopyPhase::Completing);
    copy.on_completed(Ok(Some("whole".to_string())));
    assert_eq!(copy.outcome().ok().as_deref(), Some("whole"));
}

#[test]
fn a_missing_part_keeps_the_copy_open() {
    let mut copy = large_copy();
    planned(&mut copy, None);
    copy.on_saved(true);
    copy.on_source(Ok(head("s", 25)));
    copy.on_created(Ok(Some("u".to_string())));
    copy.on_saved(true);
    copy.on_part(1, Ok("e1".to_string()));
    copy.on_parts_done();
    copy.on_saved(true);
    assert_eq!(copy.outcome().err(), Some(NfsStatus::Io));
}

#[test]
fn stored_parts_of_a_copy_are_taken_from_the_store() {
    let mut kept = MultipartJournal::default();
    kept.upload_id = Some("u".to_string());
    kept.part_size = 10;
    let mut copy = large_copy();
    planned(&mut copy, Some(kept));
    copy.on_saved(true);
    copy.on_source(Ok(head("s", 25)));
    assert_eq!(copy.phase, PartCopyPhase::Listing);
    let part = |number: i32, size: i64| ListedPart { number: Some(number), etag: Some("e".to_string()), size: Some(size) };
    copy.on_parts_page(PartsPage { parts: vec![part(1, 10)], truncated: true, next_marker: Some("1".to_string()) });
    copy.on_parts_page(PartsPage { parts: vec![part(3, 5)], truncated: false, next_marker: None });
    copy.on_saved(true);
    assert_eq!(copy.phase, PartCopyPhase::Copying);
    assert!(copy.part_to_copy(1).is_none());
    assert!(copy.part_to_copy(2).is_some());
    assert!(copy.part_to_copy(3).is_none());
}

#[test]
fn a_completion_without_an_answer_stays_recorded() {
    for uncertain in [true, false] {
        let mut copy = large_copy();
        planned(&mut copy, None);
        copy.on_saved(true);
        copy.on_source(Ok(head("s", 25)));
        copy.on_created(Ok(Some("u".to_string())));
        copy.on_saved(true);
        for number in 1..=3 {
            copy.on_part(number, Ok("e".to_string()));
        }
        copy.on_parts_done();
        copy.on_saved(true);
        copy.on_completed(Err((NfsStatus::Io, uncertain)));
        assert_eq!(copy.journal.completing, uncertain);
        if !uncertain {
            assert_eq!(copy.phase, PartCopyPhase::SavingRefusal);
            copy.on_saved(true);
        }
        assert_eq!(copy.outcome().err(), Some(NfsStatus::Io));
    }
}

#[test]
fn a_store_that_ignores_conditions_gets_no_copy() {
    let mut copy = large_copy();
    copy.on_condition(Ok(false));
    assert_eq!(copy.outcome().err(), Some(NfsStatus::NotSupp));
    let unconfigured = PartCopy::begin(object("a", "b"), false);
    assert_eq!(unconfigured.outcome().err(), Some(NfsStatus::NotSupp));

    // Where only the source of a part cannot be guarded, its bytes pass through here.
    let mut relayed = large_copy();
    relayed.on_condition(Ok(true));
    relayed.on_condition(Ok(false));
    relayed.on_journal(Ok(None));
    relayed.on_plan(Some(CopyParts { part_size: 10, total_parts: 3 }));
    relayed.on_saved(true);
    relayed.on_source(Ok(head("s", 25)));
    relayed.on_created(Ok(Some("u".to_string())));
    relayed.on_saved(true);
    assert!(relayed.part_to_copy(1).expect("missing").relayed);
}

#[test]
fn the_source_of_a_copy_names_its_version() {
    let mut versioned = object("a b", "b");
    assert_eq!(copy_source(&versioned, "bucket"), "bucket/a%20b");
    versioned.source_version = Some("v/1".to_string());
    assert_eq!(copy_source(&versioned, "bucket"), "bucket/a%20b?versionId=v%2F1");
    assert_eq!(part_etag(Some(String::new())), None);
    assert_eq!(part_etag(Some("e".to_string())).as_deref(), Some("e"));
    assert_eq!(CopyParts { part_size: 10, total_parts: 3 }.range(3, 25), (20, 24));
}
