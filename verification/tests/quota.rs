use r2_mount::quota::{available_space, StageQuota, VolumeStats, MINIMUM_FREE_BYTES};
use r2_mount::status::NfsStatus;

fn limited(limit: u64) -> StageQuota {
    let mut quota = StageQuota::default();
    quota.limit = limit;
    quota
}

#[test]
fn concurrent_files_share_one_snapshot_inclusive_budget() {
    let mut quota = limited(100);
    assert!(quota.reserve(1, 60));
    assert!(!quota.reserve(2, 50));
    assert!(quota.reserve(2, 40));
    assert!(!quota.reserve(1, 61));
    quota.release(2);
    assert!(quota.reserve(1, 80));
}

#[test]
fn recovery_retains_existing_bytes_even_above_a_new_limit() {
    let mut quota = limited(10);
    quota.restore(1, 20);
    assert!(!quota.reserve(2, 1));
    quota.release(1);
    assert!(quota.reserve(2, 10));
}

#[test]
fn a_stage_needs_room_for_itself_and_its_snapshot() {
    let mut quota = limited(100);
    assert_eq!(quota.reserve_stage(1, 50, Some(MINIMUM_FREE_BYTES)), Ok(()));
    assert_eq!(quota.reserve_stage(2, 1, None), Err(NfsStatus::NoSpc));
    assert_eq!(quota.reserve_stage(1, 40, None), Ok(()));
    assert_eq!(quota.reserve_stage(2, 10, Some(MINIMUM_FREE_BYTES - 1)), Err(NfsStatus::NoSpc));
    assert_eq!(quota.reserve_stage(2, 10, None), Ok(()));
    assert_eq!(quota.reserve_stage(3, u64::MAX, None), Err(NfsStatus::NoSpc));
}

#[test]
fn free_space_is_blocks_times_their_size() {
    assert_eq!(available_space(Some(VolumeStats { available_blocks: 3, block_bytes: 4096 })), Ok(12_288));
    assert_eq!(
        available_space(Some(VolumeStats { available_blocks: u64::MAX, block_bytes: 2 })),
        Ok(u64::MAX)
    );
    assert!(available_space(None).is_err());
}
