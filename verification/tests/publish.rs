use r2_mount::journal::{contains_part, copy_parts, insert_part, journal_of, Condition, MultipartJournal, UploadFailure};
use r2_mount::publish::{publication_condition, ConditionAnswer, ListedPart, PartsPage, Upload, UploadPhase, MAX_OBJECT_BYTES};
use r2_mount::stage::{part_count, part_range, PublicationGuard, UploadSnapshot, MULTIPART_THRESHOLD, PART_SIZE};
use r2_mount::status::NfsStatus;

fn snapshot(size: u64, guard: Option<PublicationGuard>) -> UploadSnapshot {
    UploadSnapshot { path: "/s/7.upload-3".to_string(), generation: 3, size, publication_guard: guard }
}

fn small() -> Upload {
    Upload::begin(snapshot(10, Some(PublicationGuard::Absent)), true, None)
}

fn large() -> Upload {
    Upload::begin(snapshot(MULTIPART_THRESHOLD + 1, Some(PublicationGuard::Match { etag: "old".to_string() })), true, None)
}

fn fresh(upload: &Upload) -> MultipartJournal {
    journal_of(&upload.snapshot, None)
}

/// Brings an upload to the point where its content is sent.
fn guarded(upload: &mut Upload) {
    let journal = fresh(upload);
    upload.on_journal(Ok(journal));
    assert_eq!(upload.phase, UploadPhase::CheckingCondition);
    upload.on_condition(ConditionAnswer::Supported(true));
    assert_eq!(upload.phase, UploadPhase::SavingGuard);
    upload.on_saved(None);
}

fn message(upload: &Upload) -> String {
    match upload.outcome() {
        Ok(etag) => panic!("published as {}", etag),
        Err(failure) => failure.message,
    }
}

#[test]
fn a_small_file_is_published_once_its_intent_is_recorded() {
    let mut upload = small();
    assert!(!upload.is_multipart());
    guarded(&mut upload);
    assert_eq!(upload.phase, UploadPhase::Opening);
    assert!(!upload.journal.completing);
    upload.on_body(None);
    assert_eq!(upload.phase, UploadPhase::SavingIntent);
    assert!(upload.journal.completing);
    assert_eq!(upload.condition(), Condition::PutCreate);
    upload.on_saved(None);
    assert_eq!(upload.phase, UploadPhase::Publishing);
    upload.on_published(Ok(Some("new".to_string())));
    while upload.phase != UploadPhase::Finished {
        match upload.phase {
            UploadPhase::SavingOutcome | UploadPhase::SavingEtag => upload.on_saved(None),
            UploadPhase::Reloading => {
                let kept = upload.journal.clone();
                upload.on_journal(Ok(kept));
            }
            _ => panic!("{:?}", upload.phase),
        }
    }
    assert_eq!(upload.outcome().ok().as_deref(), Some("new"));
}

#[test]
fn an_upload_in_parts_sends_what_is_missing_and_no_more() {
    let mut upload = large();
    assert!(upload.is_multipart());
    guarded(&mut upload);
    assert_eq!(upload.phase, UploadPhase::Creating);
    assert_eq!(upload.condition(), Condition::CompleteMatch);
    upload.on_created(Ok(Some("u1".to_string())));
    upload.on_saved(None);
    assert_eq!(upload.phase, UploadPhase::Sending);
    let size = upload.snapshot.size;
    let count = part_count(size);
    assert_eq!(count, 6);
    for index in 0..count {
        let (start, length) = part_range(size, index);
        assert_eq!(upload.part_to_send(index), Some((index as i32 + 1, start, length)));
        upload.on_part(index as i32 + 1, Ok(Some(format!("e{}", index))));
        assert_eq!(upload.part_to_send(index), None);
    }
    upload.on_parts_sent();
    assert_eq!(upload.phase, UploadPhase::SavingIntent);
    assert_eq!(upload.journal.parts.len(), 6);
}

#[test]
fn a_missing_part_is_never_completed() {
    let mut upload = large();
    guarded(&mut upload);
    upload.on_created(Ok(Some("u1".to_string())));
    upload.on_saved(None);
    upload.on_part(1, Ok(Some("e".to_string())));
    upload.on_parts_sent();
    assert_eq!(upload.phase, UploadPhase::Reloading);
    let kept = upload.journal.clone();
    upload.on_journal(Ok(kept));
    assert_eq!(message(&upload), "Multipart upload is incomplete");
}

#[test]
fn a_part_without_a_tag_or_an_unsaved_part_fails_the_upload() {
    for unsaved in [true, false] {
        let mut upload = large();
        guarded(&mut upload);
        upload.on_created(Ok(Some("u1".to_string())));
        upload.on_saved(None);
        if unsaved {
            upload.on_part_unsaved("disk".to_string());
        } else {
            upload.on_part(1, Ok(None));
        }
        upload.on_parts_sent();
        let kept = upload.journal.clone();
        upload.on_journal(Ok(kept));
        assert_eq!(message(&upload), if unsaved { "disk" } else { "UploadPart returned no ETag" });
    }
}

#[test]
fn stored_parts_are_taken_up_where_they_fit() {
    let mut upload = large();
    let mut journal = fresh(&upload);
    journal.upload_id = Some("u1".to_string());
    upload.on_journal(Ok(journal));
    upload.on_condition(ConditionAnswer::Supported(true));
    upload.on_saved(None);
    assert_eq!(upload.phase, UploadPhase::Listing);
    let part = |number: i32, size: u64| ListedPart { number: Some(number), etag: Some(format!("e{}", number)), size: Some(size as i64) };
    // A part of the wrong length is not one of this upload.
    upload.on_parts_page(PartsPage { parts: vec![part(1, PART_SIZE), part(2, 5)], truncated: true, next_marker: Some("2".to_string()) });
    assert_eq!(upload.marker.as_deref(), Some("2"));
    upload.on_parts_page(PartsPage { parts: vec![part(6, 1)], truncated: false, next_marker: None });
    assert_eq!(upload.phase, UploadPhase::SavingParts);
    assert!(contains_part(&upload.journal.parts, 1));
    assert!(!contains_part(&upload.journal.parts, 2));
    assert!(contains_part(&upload.journal.parts, 6));
    upload.on_saved(None);
    assert_eq!(upload.phase, UploadPhase::Sending);
    assert_eq!(upload.part_to_send(0), None);
    assert!(upload.part_to_send(1).is_some());
}

#[test]
fn a_listing_that_does_not_advance_fails() {
    let mut upload = large();
    let mut journal = fresh(&upload);
    journal.upload_id = Some("u1".to_string());
    upload.on_journal(Ok(journal));
    upload.on_condition(ConditionAnswer::Supported(true));
    upload.on_saved(None);
    upload.on_parts_page(PartsPage { parts: Vec::new(), truncated: true, next_marker: Some("3".to_string()) });
    upload.on_parts_page(PartsPage { parts: Vec::new(), truncated: true, next_marker: Some("3".to_string()) });
    let kept = upload.journal.clone();
    upload.on_journal(Ok(kept));
    assert_eq!(message(&upload), "ListParts returned an invalid continuation marker");
}

#[test]
fn an_upload_that_the_store_forgot_begins_anew() {
    let mut upload = large();
    let mut journal = fresh(&upload);
    journal.upload_id = Some("u1".to_string());
    upload.on_journal(Ok(journal));
    upload.on_condition(ConditionAnswer::Supported(true));
    upload.on_saved(None);
    upload.on_parts_missing();
    assert_eq!(upload.journal.upload_id, None);
    upload.on_saved(None);
    assert_eq!(upload.phase, UploadPhase::Creating);
    upload.on_created(Ok(None));
    let kept = upload.journal.clone();
    upload.on_journal(Ok(kept));
    assert_eq!(message(&upload), "Storage provider returned no upload id");
}

#[test]
fn a_changed_target_is_not_replaced() {
    let mut upload = large();
    let mut journal = fresh(&upload);
    journal.completing = true;
    upload.on_journal(Ok(journal));
    assert_eq!(upload.phase, UploadPhase::CheckingPublished);
    upload.on_verified(None);
    upload.on_condition(ConditionAnswer::Supported(true));
    assert_eq!(upload.phase, UploadPhase::CheckingTarget);
    upload.on_target(Ok(Some(Some("other".to_string()))));
    let kept = upload.journal.clone();
    upload.on_journal(Ok(kept));
    // A conflict is held against the object once more before it is told.
    assert_eq!(upload.phase, UploadPhase::CheckingOutcome);
    upload.on_verified(None);
    assert!(message(&upload).starts_with("conflict:"));
}

#[test]
fn what_was_published_before_is_recognized() {
    let mut upload = large();
    let mut journal = fresh(&upload);
    journal.completing = true;
    upload.on_journal(Ok(journal));
    upload.on_verified(Some("seen".to_string()));
    assert_eq!(upload.phase, UploadPhase::SavingOutcome);
    upload.on_saved(None);
    let kept = upload.journal.clone();
    upload.on_journal(Ok(kept));
    upload.on_saved(None);
    assert_eq!(upload.outcome().ok().as_deref(), Some("seen"));
}

#[test]
fn an_unanswered_request_stays_recorded_as_sent() {
    let mut upload = small();
    guarded(&mut upload);
    upload.on_body(None);
    upload.on_saved(None);
    upload.on_published(Err(UploadFailure { message: "timeout".to_string(), retryable: true, uncertain: true }));
    assert!(upload.journal.completing);
    assert_eq!(upload.phase, UploadPhase::Reloading);
    let kept = upload.journal.clone();
    upload.on_journal(Ok(kept));
    assert_eq!(upload.phase, UploadPhase::CheckingOutcome);
    upload.on_verified(None);
    let failure = upload.outcome().err().expect("failed");
    assert!(failure.uncertain);
}

#[test]
fn a_refused_request_may_be_sent_again() {
    let mut upload = small();
    guarded(&mut upload);
    upload.on_body(None);
    upload.on_saved(None);
    upload.on_published(Err(UploadFailure { message: "denied".to_string(), retryable: false, uncertain: false }));
    assert_eq!(upload.phase, UploadPhase::SavingOutcome);
    assert!(!upload.journal.completing);
}

#[test]
fn a_stage_without_identity_only_creates() {
    let mut upload = Upload::begin(snapshot(10, None), true, None);
    let journal = fresh(&upload);
    upload.on_journal(Ok(journal));
    assert_eq!(upload.phase, UploadPhase::Identifying);
    upload.on_target(Ok(None));
    assert_eq!(upload.condition(), Condition::PutCreate);

    let mut taken = Upload::begin(snapshot(10, None), true, None);
    let journal = fresh(&taken);
    taken.on_journal(Ok(journal));
    taken.on_target(Ok(Some(Some("there".to_string()))));
    let kept = taken.journal.clone();
    taken.on_journal(Ok(kept));
    assert_eq!(message(&taken), "Stage has no original object identity; export it before replacing an existing object");

    let mut unseen = Upload::begin(snapshot(10, None), true, None);
    let journal = fresh(&unseen);
    unseen.on_journal(Ok(journal));
    unseen.on_target(Err(NfsStatus::Acces));
    let kept = unseen.journal.clone();
    unseen.on_journal(Ok(kept));
    assert_eq!(message(&unseen), "Unable to establish publication identity: NFS3ERR_ACCES");
}

#[test]
fn an_endpoint_that_ignores_conditions_is_not_written_to() {
    let answers = [
        (ConditionAnswer::NoConfiguration, "Missing storage configuration"),
        (ConditionAnswer::Failed("transient: later".to_string()), "transient: later"),
        (
            ConditionAnswer::Supported(false),
            "This endpoint cannot safely publish the staged object with its required condition",
        ),
    ];
    for (answer, expected) in answers {
        let mut upload = small();
        let journal = fresh(&upload);
        upload.on_journal(Ok(journal));
        upload.on_condition(answer);
        let kept = upload.journal.clone();
        upload.on_journal(Ok(kept));
        assert_eq!(message(&upload), expected);
        assert_eq!(upload.outcome().err().expect("failed").retryable, expected.starts_with("transient:"));
    }
}

#[test]
fn an_object_past_the_limit_is_not_begun() {
    let upload = Upload::begin(snapshot(MAX_OBJECT_BYTES + 1, None), false, None);
    assert_eq!(upload.phase, UploadPhase::Reloading);
    let upload = Upload::begin(snapshot(10, None), true, Some("too many parts".to_string()));
    assert_eq!(upload.failure.expect("refused").message, "too many parts");
    let upload = Upload::begin(snapshot(0, None), true, Some("no parts".to_string()));
    assert_eq!(upload.phase, UploadPhase::Loading);
}

#[test]
fn a_journal_of_another_geometry_or_an_unreadable_one_stops_the_upload() {
    let mut upload = large();
    let mut journal = fresh(&upload);
    journal.part_size = 1;
    upload.on_journal(Ok(journal));
    let kept = upload.journal.clone();
    upload.on_journal(Ok(kept));
    assert_eq!(message(&upload), "Multipart geometry does not match the persisted snapshot");

    let mut upload = large();
    upload.on_journal(Err("unreadable".to_string()));
    upload.on_journal(Err("unreadable".to_string()));
    assert_eq!(message(&upload), "unreadable");
}

#[test]
fn a_file_or_journal_that_cannot_be_used_fails_the_upload() {
    let mut upload = small();
    guarded(&mut upload);
    upload.on_body(Some("gone".to_string()));
    let kept = upload.journal.clone();
    upload.on_journal(Ok(kept));
    assert_eq!(message(&upload), "gone");

    let mut upload = small();
    let journal = fresh(&upload);
    upload.on_journal(Ok(journal));
    upload.on_condition(ConditionAnswer::Supported(true));
    upload.on_saved(Some("disk full".to_string()));
    let kept = upload.journal.clone();
    upload.on_journal(Ok(kept));
    assert_eq!(message(&upload), "disk full");

    let mut upload = large();
    guarded(&mut upload);
    upload.on_created(Err(UploadFailure::of_class("throttled", true, false, "slow down")));
    let kept = upload.journal.clone();
    upload.on_journal(Ok(kept));
    assert_eq!(message(&upload), "throttled: slow down");
}

#[test]
fn parts_keep_the_order_of_their_numbers() {
    let mut parts = Vec::new();
    for number in [3, 1, 2] {
        insert_part(&mut parts, number, format!("e{}", number));
    }
    insert_part(&mut parts, 2, "again".to_string());
    assert_eq!(copy_parts(&parts), vec![(1, "e1".to_string()), (2, "again".to_string()), (3, "e3".to_string())]);
    assert!(UploadFailure::local("conflict: x").is_conflict());
    assert!(!UploadFailure::local("x conflict:").is_conflict());
    assert_eq!(publication_condition(&PublicationGuard::Absent, true), Condition::CompleteCreate);
}

#[test]
fn a_listing_of_parts_that_fails_is_told() {
    let mut upload = large();
    let mut journal = fresh(&upload);
    journal.upload_id = Some("u1".to_string());
    upload.on_journal(Ok(journal));
    upload.on_condition(ConditionAnswer::Supported(true));
    upload.on_saved(None);
    upload.on_parts_failed("listing".to_string(), true);
    let kept = upload.journal.clone();
    upload.on_journal(Ok(kept));
    let failure = upload.outcome().err().expect("failed");
    assert!(failure.retryable);
    assert_eq!(failure.message, "listing");
}

#[test]
fn a_snapshot_is_named_by_its_file() {
    let snapshot = snapshot(1, None);
    assert_eq!(snapshot.token(), "7.upload-3");
    assert_eq!(snapshot.journal_path(), "/s/7.upload.json");
    let guard = PublicationGuard::Match { etag: "a".to_string() };
    assert!(guard.is_valid() && guard.matches(Some("a")));
    assert!(!guard.matches(Some("b")) && !guard.matches(None));
    assert!(!PublicationGuard::Match { etag: " ".to_string() }.is_valid());
    assert!(PublicationGuard::Absent.matches(None));
}
