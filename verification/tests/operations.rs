use r2_mount::inode_table::EntryKind;
use r2_mount::operations::{
    capabilities, check_exclusive, check_readable, check_writable, create_plan, is_same_child, is_same_rename, lookup_name, remove_plan,
    Capabilities, CreatePlan, LookupName,
};
use r2_mount::rename::{classify_rename_target, create_action, rename_refusal, CreateAction, RenameTarget};
use r2_mount::status::{ensure_writable, head_error_means_absent, map_operation_error, status_for_s3_code, NfsStatus, StorageErrorClass};

// ---- create over an existing name ----

#[test]
fn creating_a_new_name_writes_the_placeholder_object() {
    assert_eq!(create_action(false, false), CreateAction::Create);
    assert_eq!(create_action(false, true), CreateAction::Create);
}

#[test]
fn creating_a_name_that_exists_must_not_blank_it() {
    // A client that misses in its own cache sends CREATE for a file that is
    // already there — `touch` on an existing file is exactly this — and the
    // object must come through it untouched.
    assert_eq!(create_action(true, false), CreateAction::OpenExisting);
}

#[test]
fn an_explicit_zero_size_is_still_a_real_truncate() {
    assert_eq!(create_action(true, true), CreateAction::Truncate);
}

#[test]
fn an_exclusive_create_refuses_a_name_that_is_taken() {
    assert_eq!(check_exclusive(false), Ok(()));
    assert_eq!(check_exclusive(true), Err(NfsStatus::Exist));
    assert_eq!(create_plan(Some((12, 34)), false), CreatePlan::Open { size: 12, mtime_secs: 34 });
    assert_eq!(create_plan(Some((12, 34)), true), CreatePlan::Write { replace: true });
    assert_eq!(create_plan(None, false), CreatePlan::Write { replace: false });
}

// ---- rename over an existing name ----

#[test]
fn a_rename_onto_a_free_name_goes_ahead() {
    assert_eq!(classify_rename_target(false, None, true), RenameTarget::Replace);
    assert_eq!(classify_rename_target(true, None, true), RenameTarget::Replace);
}

#[test]
fn a_file_may_replace_a_file_and_an_empty_directory_a_directory() {
    assert_eq!(classify_rename_target(false, Some(EntryKind::File), true), RenameTarget::Replace);
    assert_eq!(classify_rename_target(true, Some(EntryKind::Dir), true), RenameTarget::Replace);
}

#[test]
fn a_file_and_a_directory_are_never_interchangeable() {
    // The bucket would hold both "b" and "b/", and a listing renders the
    // directory and hides the object — the moved file would be gone.
    assert_eq!(classify_rename_target(false, Some(EntryKind::Dir), true), RenameTarget::KindMismatch);
    assert_eq!(classify_rename_target(true, Some(EntryKind::File), true), RenameTarget::KindMismatch);
    // Emptiness is irrelevant once the kinds disagree.
    assert_eq!(classify_rename_target(false, Some(EntryKind::Dir), false), RenameTarget::KindMismatch);
}

#[test]
fn a_directory_will_not_silently_merge_into_a_populated_one() {
    assert_eq!(classify_rename_target(true, Some(EntryKind::Dir), false), RenameTarget::NotEmpty);
}

#[test]
fn a_rename_that_cannot_replace_is_refused_with_its_reason() {
    assert_eq!(rename_refusal(RenameTarget::Replace), None);
    assert_eq!(rename_refusal(RenameTarget::KindMismatch), Some(NfsStatus::Exist));
    assert_eq!(rename_refusal(RenameTarget::NotEmpty), Some(NfsStatus::NotEmpty));
}

// ---- removing and finding again ----

#[test]
fn a_populated_directory_is_not_removed() {
    assert_eq!(remove_plan(EntryKind::File, "a/x", false), Ok("a/x".to_string()));
    assert_eq!(remove_plan(EntryKind::Dir, "a", true), Ok("a/".to_string()));
    assert_eq!(remove_plan(EntryKind::Dir, "a/", false), Err(NfsStatus::NotEmpty));
    assert!(is_same_child("a/", "a/", 3, "a/x", 3, "a/x"));
    assert!(!is_same_child("a/", "b/", 3, "a/x", 3, "a/x"));
    assert!(!is_same_child("a/", "a/", 3, "a/x", 3, "a/y"));
}

#[test]
fn only_files_are_read_and_written() {
    assert_eq!(check_readable(EntryKind::File), Ok(()));
    assert_eq!(check_readable(EntryKind::Dir), Err(NfsStatus::IsDir));
    assert_eq!(check_writable(EntryKind::File), Ok(()));
    assert_eq!(check_writable(EntryKind::Dir), Err(NfsStatus::Inval));
}

#[test]
fn a_rename_goes_on_only_where_nothing_moved_during_its_wait() {
    assert!(is_same_rename("a/", "a/", "b/", "b/", "a/x", "a/x"));
    assert!(!is_same_rename("a/", "c/", "b/", "b/", "a/x", "a/x"));
    assert!(!is_same_rename("a/", "a/", "b/", "c/", "a/x", "a/x"));
    assert!(!is_same_rename("a/", "a/", "b/", "b/", "a/x", "a/y"));
}

#[test]
fn dots_name_the_directory_and_its_parent() {
    assert!(matches!(lookup_name(b"."), Ok(LookupName::Itself)));
    assert!(matches!(lookup_name(b".."), Ok(LookupName::Parent)));
    assert!(matches!(lookup_name(b"x"), Ok(LookupName::Child(name)) if name == "x"));
    assert!(matches!(lookup_name(&[0xff]), Err(NfsStatus::NoEnt)));
}

// ---- read-only gating ----

#[test]
fn a_read_only_mount_advertises_itself_as_read_only() {
    assert!(matches!(capabilities(true), Capabilities::ReadOnly));
    assert!(matches!(capabilities(false), Capabilities::ReadWrite));
}

#[test]
fn writes_need_a_writable_mount_that_accepts_them() {
    assert_eq!(ensure_writable(false, true), Ok(()));
    assert_eq!(ensure_writable(true, true), Err(NfsStatus::RoFs));
    assert!(ensure_writable(false, false).is_err());
}

// ---- error mapping ----

#[test]
fn s3_failures_map_onto_the_matching_nfs_status() {
    assert!(matches!(status_for_s3_code(Some("AccessDenied")), NfsStatus::Acces));
    assert!(matches!(status_for_s3_code(Some("SignatureDoesNotMatch")), NfsStatus::Acces));
    assert!(matches!(status_for_s3_code(Some("NoSuchKey")), NfsStatus::NoEnt));
    assert!(matches!(status_for_s3_code(Some("NotFound")), NfsStatus::NoEnt));
    assert!(matches!(status_for_s3_code(Some("SlowDown")), NfsStatus::Io));
    // A failure that never reached the service carries no code at all.
    assert!(matches!(status_for_s3_code(None), NfsStatus::Io));
}

#[test]
fn only_a_missing_object_counts_as_absent() {
    assert!(head_error_means_absent(Some("NotFound")));
    assert!(head_error_means_absent(Some("NoSuchKey")));
    assert!(!head_error_means_absent(Some("AccessDenied")));
    assert!(!head_error_means_absent(None));
    assert_eq!(map_operation_error(StorageErrorClass::NotFound), NfsStatus::NoEnt);
}
