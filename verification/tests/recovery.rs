use r2_mount::inventory::FileObservation;
use r2_mount::recovery::{
    check_recovery_dir, describe_folder, export_step, export_target, insert_in_order, load_manifest, mount_manifest, resolve_recovery_dir,
    validate_identity, ExportStep, ManifestFound, MountProvider, MountRecovery, MAX_MANIFEST_BYTES,
};

fn regular(length: u64) -> FileObservation {
    FileObservation { is_file: true, is_symlink: false, length }
}

fn saved() -> ManifestFound {
    ManifestFound::Parsed(regular(100), mount_manifest(MountProvider::Minio, "account", "bucket", "endpoint-a"))
}

#[test]
fn recovery_ids_cannot_escape_the_managed_root() {
    for id in ["", "..", "../outside", "/tmp/other", "a/b", "a\\b"] {
        assert!(resolve_recovery_dir("/tmp", id).is_err());
    }
    assert_eq!(resolve_recovery_dir("/tmp", "mnt-1").as_deref(), Ok("/tmp/mnt-1"));
}

#[test]
fn recovery_requires_exact_saved_namespace() {
    assert!(validate_identity(saved(), MountProvider::Minio, "account", "bucket", "endpoint-a").is_ok());
    assert!(validate_identity(saved(), MountProvider::Minio, "account", "bucket", "endpoint-b").is_err());
    assert!(validate_identity(saved(), MountProvider::Minio, "account", "other", "endpoint-a").is_err());
    assert!(validate_identity(saved(), MountProvider::Aws, "account", "bucket", "endpoint-a").is_err());
}

#[test]
fn a_manifest_is_a_small_real_file_of_a_known_version() {
    assert!(load_manifest(saved()).is_ok());
    assert!(load_manifest(ManifestFound::Unseen("gone".to_string())).is_err());
    assert!(load_manifest(ManifestFound::Unread(regular(1), "denied".to_string())).is_err());
    assert!(load_manifest(ManifestFound::Unparsed(regular(1), "not json".to_string())).is_err());
    let mut newer = mount_manifest(MountProvider::R2, "a", "b", "n");
    newer.version = 2;
    assert!(load_manifest(ManifestFound::Parsed(regular(1), newer)).is_err());
    let manifest = mount_manifest(MountProvider::R2, "a", "b", "n");
    assert!(load_manifest(ManifestFound::Parsed(regular(MAX_MANIFEST_BYTES + 1), manifest)).is_err());
    let manifest = mount_manifest(MountProvider::R2, "a", "b", "n");
    let link = FileObservation { is_file: true, is_symlink: true, length: 1 };
    assert!(load_manifest(ManifestFound::Parsed(link, manifest)).is_err());
}

#[test]
fn a_recovery_folder_is_a_real_folder() {
    assert!(check_recovery_dir(true, false).is_ok());
    assert!(check_recovery_dir(true, true).is_err());
    assert!(check_recovery_dir(false, false).is_err());
}

fn shown(id: &str) -> MountRecovery {
    describe_folder("", id, format!("/r/{}", id), Err("broken".to_string()), Ok(Vec::new()), Ok(Vec::new()), false).expect("an error is shown")
}

#[test]
fn a_folder_is_shown_for_its_records_or_its_error() {
    let manifest = mount_manifest(MountProvider::R2, "a", "b", "n");
    assert!(describe_folder("", "m", "/r/m".to_string(), Ok(manifest), Ok(Vec::new()), Ok(Vec::new()), true).is_none());
    let broken = shown("m");
    assert_eq!(broken.recovery_id, "m");
    assert_eq!(broken.error.as_deref(), Some("broken"));
    assert!(broken.bucket.is_none());
}

#[test]
fn folders_stand_in_the_order_of_their_ids() {
    let mut recoveries = Vec::new();
    for id in ["b", "c", "a"] {
        insert_in_order(&mut recoveries, shown(id));
    }
    let ids: Vec<&str> = recoveries.iter().map(|recovery| recovery.recovery_id.as_str()).collect();
    assert_eq!(ids, ["a", "b", "c"]);
}

#[test]
fn an_export_copies_folders_and_files_only() {
    assert!(matches!(export_step(true, false), Ok(ExportStep::Descend)));
    assert!(matches!(export_step(false, true), Ok(ExportStep::Copy)));
    assert!(export_step(false, false).is_err());
    assert_eq!(export_target("/r/mnt-1", "/backup").as_deref(), Ok("/backup/r2-recovery-mnt-1"));
    assert!(export_target("/r/mnt-1", "/r/mnt-10").is_ok());
    assert!(export_target("/r/mnt-1", "/r/mnt-1").is_err());
    assert!(export_target("/r/mnt-1", "/r/mnt-1/inside").is_err());
}
