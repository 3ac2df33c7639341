use r2_mount::progress::{transfer_id, MountProgress, TransferKind, TransferState, EVENT};

#[test]
fn transfer_ids_separate_files_and_directions() {
    let up = transfer_id("mnt-1", 42, TransferKind::Upload);
    let down = transfer_id("mnt-1", 42, TransferKind::Download);
    let other = transfer_id("mnt-1", 43, TransferKind::Upload);
    assert_eq!(up, "mnt-1:42:up");
    assert_ne!(up, down);
    assert_ne!(up, other);
    // The same file uploading twice maps onto one row.
    assert_eq!(up, transfer_id("mnt-1", 42, TransferKind::Upload));
}

#[test]
fn the_wire_format_is_lowercase_snake_case() {
    // The frontend matches these strings.
    assert_eq!(TransferKind::Upload.name(), "upload");
    assert_eq!(TransferState::Waiting.name(), "waiting");
    assert_eq!(TransferState::Removed.name(), "removed");
    assert_eq!(EVENT, "mount-transfer");

    let progress = MountProgress::new("mnt-1".to_string(), "photos".to_string());
    let (mut tracker, begun) = progress.track(42, "a/b.txt", TransferKind::Upload, 2);
    assert_eq!(begun.bytes_done, 0);
    let event = tracker.add(1, true).expect("passes");
    assert_eq!(event.mount_id, "mnt-1");
    assert_eq!(event.bucket, "photos");
    assert_eq!(event.transfer_id, "mnt-1:42:up");
    assert_eq!(event.key, "a/b.txt");
    assert_eq!(event.kind, TransferKind::Upload);
    assert_eq!(event.state, TransferState::Active);
    assert_eq!(event.bytes_done, 1);
    assert_eq!(event.bytes_total, 2);
    assert_eq!(event.error, None);
}

#[test]
fn a_transfer_reports_no_more_than_everything() {
    let progress = MountProgress::new("m".to_string(), "b".to_string());
    let (mut tracker, _) = progress.track(7, "k", TransferKind::Download, 10);
    assert!(tracker.add(4, false).is_none());
    assert_eq!(tracker.add(4, true).expect("passes").bytes_done, 8);
    assert_eq!(tracker.add(4, true).expect("passes").bytes_done, 10);
    let failed = tracker.failed("gone");
    assert_eq!((failed.state, failed.bytes_done, failed.error.as_deref()), (TransferState::Error, 10, Some("gone")));
    let again = tracker.restart();
    assert_eq!((again.state, again.bytes_done), (TransferState::Active, 0));
    assert_eq!(tracker.set(3, true).expect("passes").bytes_done, 3);
    let done = tracker.done();
    assert_eq!((done.state, done.bytes_done), (TransferState::Done, 10));
}

#[test]
fn files_that_wait_or_vanish_are_uploads() {
    let progress = MountProgress::new("m".to_string(), "b".to_string());
    let waiting = progress.waiting(7, "k", 99);
    assert_eq!((waiting.kind, waiting.state), (TransferKind::Upload, TransferState::Waiting));
    assert_eq!((waiting.bytes_done, waiting.bytes_total), (0, 99));
    let removed = progress.removed(7, "k");
    assert_eq!((removed.kind, removed.state), (TransferKind::Upload, TransferState::Removed));
    assert_eq!(removed.transfer_id, waiting.transfer_id);
}
