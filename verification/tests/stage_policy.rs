use r2_mount::stage::{
    can_evict, part_count, part_range, planned_part_size, should_flush, stage_init, upload_settles_stage, FlushState, StageInit,
    FLUSH_DEBOUNCE_MS, FLUSH_RETRY_COOLDOWN_MS, MAX_PARTS, MULTIPART_THRESHOLD, PART_SIZE, RMW_DOWNLOAD_CAP,
};

const NOW_MS: u64 = 1_000_000;

fn idle_stage() -> (bool, bool, FlushState) {
    (true, false, FlushState::Idle)
}

// ---- flush debounce ----

#[test]
fn a_clean_stage_is_never_uploaded() {
    assert!(!should_flush(false, false, FlushState::Idle, 60_000, NOW_MS));
    // Not even when something asked for a flush explicitly.
    assert!(!should_flush(false, true, FlushState::Idle, 60_000, NOW_MS));
}

#[test]
fn a_file_still_being_written_waits_out_the_quiet_window() {
    let (dirty, requested, state) = idle_stage();
    assert!(!should_flush(dirty, requested, state, 500, NOW_MS));
    assert!(!should_flush(dirty, requested, state, FLUSH_DEBOUNCE_MS - 1, NOW_MS));
    assert!(should_flush(dirty, requested, state, FLUSH_DEBOUNCE_MS, NOW_MS));
}

#[test]
fn an_end_of_copy_timestamp_skips_the_quiet_window() {
    assert!(should_flush(true, true, FlushState::Idle, 0, NOW_MS));
}

#[test]
fn an_upload_in_flight_is_never_started_twice() {
    assert!(!should_flush(true, false, FlushState::Uploading, 60_000, NOW_MS));
    // Even the end-of-copy trigger must not start a second upload.
    assert!(!should_flush(true, true, FlushState::Uploading, 60_000, NOW_MS));
}

#[test]
fn a_failed_upload_is_left_alone_until_its_cooldown_expires() {
    let cooling = FlushState::Failed { retry_after_ms: NOW_MS + FLUSH_RETRY_COOLDOWN_MS };
    assert!(!should_flush(true, false, cooling, 60_000, NOW_MS));
    assert!(!should_flush(true, true, cooling, 60_000, NOW_MS));

    let expired = FlushState::Failed { retry_after_ms: NOW_MS - 1_000 };
    assert!(should_flush(true, false, expired, 60_000, NOW_MS));
}

#[test]
fn a_retry_that_is_due_still_respects_the_quiet_window() {
    let expired = FlushState::Failed { retry_after_ms: NOW_MS - 1_000 };
    assert!(!should_flush(true, false, expired, 100, NOW_MS));
}

#[test]
fn a_stage_held_back_is_not_uploaded() {
    assert!(!should_flush(true, true, FlushState::Paused, 60_000, NOW_MS));
    assert!(!can_evict(false, FlushState::Paused));
}

// ---- eviction eligibility ----

#[test]
fn only_a_clean_idle_stage_may_be_dropped() {
    assert!(can_evict(false, FlushState::Idle));

    // Dropping any of these would delete the only copy of a write.
    assert!(!can_evict(true, FlushState::Idle));
    assert!(!can_evict(false, FlushState::Uploading));
    assert!(!can_evict(true, FlushState::Uploading));
    assert!(!can_evict(false, FlushState::Failed { retry_after_ms: NOW_MS }));
}

// ---- generation conflicts ----

#[test]
fn an_upload_only_settles_the_generation_it_captured() {
    assert!(upload_settles_stage(4, 4));
    // A write landed mid-upload: what is in the bucket is already stale.
    assert!(!upload_settles_stage(4, 5));
}

// ---- read-modify-write decision ----

#[test]
fn an_empty_object_is_staged_without_a_download() {
    assert_eq!(stage_init(0), StageInit::Empty);
}

#[test]
fn an_object_with_content_is_downloaded_before_it_is_modified() {
    assert_eq!(stage_init(1), StageInit::Download);
    assert_eq!(stage_init(RMW_DOWNLOAD_CAP), StageInit::Download);
}

#[test]
fn an_object_past_the_cap_is_refused_rather_than_downloaded() {
    assert_eq!(stage_init(RMW_DOWNLOAD_CAP + 1), StageInit::TooLarge);
    assert_eq!(stage_init(u64::MAX), StageInit::TooLarge);
}

// ---- multipart split ----

#[test]
fn parts_cover_the_whole_file_exactly_once() {
    for size in [MULTIPART_THRESHOLD + 1, PART_SIZE * 3, PART_SIZE * 3 + 1, PART_SIZE * 7 - 1] {
        let parts = part_count(size);
        let mut covered = 0u64;
        let mut previous_end = 0u64;
        for index in 0..parts {
            let (start, len) = part_range(size, index);
            assert_eq!(
                start,
                previous_end,
                "part {} must start where {} ended",
                index,
                index.saturating_sub(1)
            );
            assert!(len > 0, "part {} of {} bytes is empty", index, size);
            assert!(len <= PART_SIZE);
            covered += len;
            previous_end = start + len;
        }
        assert_eq!(covered, size, "parts must cover {} bytes exactly", size);
    }
}

#[test]
fn a_file_shorter_than_one_part_is_still_one_part() {
    assert_eq!(part_count(1), 1);
    assert_eq!(part_range(1, 0), (0, 1));
    // An empty file never reaches the multipart path, but must not produce
    // a zero-part upload if it somehow did.
    assert_eq!(part_count(0), 1);
}

#[test]
fn the_upload_thresholds_match_the_apps_own_upload_path() {
    assert_eq!(MULTIPART_THRESHOLD, 100 * 1024 * 1024);
    assert_eq!(PART_SIZE, 20 * 1024 * 1024);
}

#[test]
fn a_huge_file_still_fits_in_the_permitted_parts() {
    let size = 5 * 1024 * 1024 * 1024 * 1024;
    assert!(part_count(size) <= MAX_PARTS);
    assert!(planned_part_size(size) > PART_SIZE);
    assert_eq!(planned_part_size(size) % (1024 * 1024), 0);
    assert_eq!(planned_part_size(PART_SIZE * 7), PART_SIZE);
}
