use r2_mount::read_cache::{
    chunk_index, chunk_len, chunk_start, chunks_covering, should_prefetch, ReadCache, CHUNK_SIZE, CHUNK_TTL_MS, MAX_CACHE_BYTES,
};

const NOW_MS: u64 = 1_000_000;

// ---- chunk arithmetic ----

#[test]
fn offsets_map_into_four_mebibyte_chunks() {
    assert_eq!(chunk_index(0), 0);
    assert_eq!(chunk_index(CHUNK_SIZE - 1), 0);
    assert_eq!(chunk_index(CHUNK_SIZE), 1);
    assert_eq!(chunk_start(3), 3 * CHUNK_SIZE);
}

#[test]
fn the_final_chunk_is_short_and_chunks_past_the_end_are_empty() {
    let size = CHUNK_SIZE * 2 + 100;
    assert_eq!(chunk_len(0, size), CHUNK_SIZE);
    assert_eq!(chunk_len(1, size), CHUNK_SIZE);
    assert_eq!(chunk_len(2, size), 100);
    assert_eq!(chunk_len(3, size), 0);
    assert_eq!(chunk_len(0, 0), 0);
}

#[test]
fn chunks_cover_every_byte_of_the_object_exactly_once() {
    for size in [1, CHUNK_SIZE - 1, CHUNK_SIZE, CHUNK_SIZE * 3 + 7] {
        let mut covered = 0;
        for index in 0.. {
            let len = chunk_len(index, size);
            if len == 0 {
                break;
            }
            assert_eq!(chunk_start(index), covered);
            covered += len;
        }
        assert_eq!(covered, size);
    }
}

#[test]
fn a_read_touches_the_chunks_its_bytes_live_in() {
    // Entirely inside the first chunk.
    assert_eq!(chunks_covering(0, 131072), (0, 0));
    // Ending exactly on a boundary stays in the earlier chunk.
    assert_eq!(chunks_covering(CHUNK_SIZE - 131072, CHUNK_SIZE), (0, 0));
    // Straddling a boundary needs both sides.
    assert_eq!(chunks_covering(CHUNK_SIZE - 1, CHUNK_SIZE + 1), (0, 1));
    assert_eq!(chunks_covering(CHUNK_SIZE, CHUNK_SIZE + 1), (1, 1));
}

// ---- prefetch policy ----

#[test]
fn a_cold_first_touch_earns_no_prefetch() {
    // Finder preview, `file` magic sniff, a HEAD-like peek: one read into
    // a file the cache has never seen must not cost speculative chunks.
    assert!(!should_prefetch(None, 0, 131072));
    assert!(!should_prefetch(None, 5, CHUNK_SIZE));
}

#[test]
fn crossing_a_chunk_boundary_sequentially_earns_prefetch() {
    assert!(should_prefetch(Some(0), 1, 1));
    assert!(should_prefetch(Some(6), 7, 131072));
}

#[test]
fn reading_deep_into_the_same_chunk_earns_prefetch() {
    assert!(!should_prefetch(Some(0), 0, CHUNK_SIZE / 2 - 1));
    assert!(should_prefetch(Some(0), 0, CHUNK_SIZE / 2));
    assert!(should_prefetch(Some(3), 3, CHUNK_SIZE));
}

#[test]
fn a_random_seek_earns_no_prefetch() {
    // A media player jumping around, or two readers interleaved.
    assert!(!should_prefetch(Some(50), 10, CHUNK_SIZE));
    assert!(!should_prefetch(Some(0), 2, CHUNK_SIZE));
    // Reading backwards is not sequential either.
    assert!(!should_prefetch(Some(5), 4, CHUNK_SIZE));
}

#[test]
fn note_read_remembers_the_chunk_per_file() {
    let mut cache = ReadCache::new();
    // First touch of each file: no prefetch.
    assert!(!cache.note_read(1, 0, CHUNK_SIZE));
    assert!(!cache.note_read(2, 0, 100));
    // File 1 crosses into chunk 1 → sequential.
    assert!(cache.note_read(1, 1, 100));
    // File 2's history is its own: a jump stays cold.
    assert!(!cache.note_read(2, 9, CHUNK_SIZE));
    // Forgetting the file clears its read history too.
    cache.forget_file(1);
    assert!(!cache.note_read(1, 2, CHUNK_SIZE));
}

// ---- slot lifecycle ----

fn filled_slot(cache: &mut ReadCache, file: u64, index: u64, len: u64) {
    let (ticket, set) = cache.slot(file, index, NOW_MS);
    assert!(!set, "fresh cell");
    cache.note_stored_version(file, "", index, ticket);
    cache.note_filled(file, index, ticket, len);
}

#[test]
fn the_same_slot_is_returned_while_a_fetch_is_in_flight() {
    let mut cache = ReadCache::new();
    let (first, _) = cache.slot(1, 0, NOW_MS);
    let (second, _) = cache.slot(1, 0, NOW_MS);
    assert_eq!(first, second);
    assert_eq!(cache.chunk_count(), 1);
}

#[test]
fn presence_probes_do_not_create_slots() {
    let mut cache = ReadCache::new();
    assert!(!cache.is_present(1, 0, NOW_MS));
    assert_eq!(cache.chunk_count(), 0);
    cache.slot(1, 0, NOW_MS);
    assert!(cache.is_present(1, 0, NOW_MS));
}

#[test]
fn filling_a_chunk_is_accounted_and_forgetting_the_file_releases_it() {
    let mut cache = ReadCache::new();
    filled_slot(&mut cache, 1, 0, 100);
    filled_slot(&mut cache, 1, 1, 50);
    filled_slot(&mut cache, 2, 0, 25);
    assert_eq!(cache.cached_bytes(), 175);

    cache.forget_file(1);
    assert_eq!(cache.cached_bytes(), 25);
    assert!(!cache.is_present(1, 0, NOW_MS));
    assert!(!cache.is_present(1, 1, NOW_MS));
    assert!(cache.is_present(2, 0, NOW_MS));
}

#[test]
fn a_failed_fetch_leaves_no_slot_behind() {
    let mut cache = ReadCache::new();
    cache.slot(1, 0, NOW_MS);
    cache.remove_slot(1, 0);
    assert!(!cache.is_present(1, 0, NOW_MS));
    assert_eq!(cache.cached_bytes(), 0);
}

#[test]
fn the_cache_evicts_its_least_recently_used_chunks_first() {
    let mut cache = ReadCache::new();
    let big = MAX_CACHE_BYTES / 2;
    filled_slot(&mut cache, 1, 0, big); // oldest
    filled_slot(&mut cache, 1, 1, big);
    // Touch the oldest so the middle chunk becomes the eviction victim.
    cache.slot(1, 0, NOW_MS);

    filled_slot(&mut cache, 1, 2, big); // pushes past the cap
    assert!(cache.is_present(1, 0, NOW_MS), "the recently touched chunk survives");
    assert!(!cache.is_present(1, 1, NOW_MS), "the stale chunk is the one to go");
    assert!(cache.is_present(1, 2, NOW_MS), "the chunk just filled is never evicted");
    assert!(cache.cached_bytes() <= MAX_CACHE_BYTES);
}

#[test]
fn a_fill_evicts_no_more_than_it_must() {
    let mut cache = ReadCache::new();
    let quarter = MAX_CACHE_BYTES / 4;
    for index in 0..4 {
        filled_slot(&mut cache, 1, index, quarter);
    }
    assert_eq!(cache.cached_bytes(), 4 * quarter);
    // The oldest chunk makes room; the next oldest stays.
    filled_slot(&mut cache, 1, 4, quarter);
    assert!(!cache.is_present(1, 0, NOW_MS));
    for index in 1..5 {
        assert!(cache.is_present(1, index, NOW_MS));
    }
    assert_eq!(cache.cached_bytes(), 4 * quarter);
    // One byte more than there is room for takes one chunk more.
    filled_slot(&mut cache, 1, 5, 1);
    assert!(!cache.is_present(1, 1, NOW_MS));
    assert!(cache.is_present(1, 2, NOW_MS));
    assert_eq!(cache.cached_bytes(), 3 * quarter + 1);
}

#[test]
fn an_in_flight_chunk_is_never_evicted() {
    let mut cache = ReadCache::new();
    cache.slot(7, 0, NOW_MS); // empty cell: a fetch is in flight
    filled_slot(&mut cache, 1, 0, MAX_CACHE_BYTES);
    filled_slot(&mut cache, 1, 1, 100);
    // The in-flight slot survives even though the cache is over its cap.
    assert!(cache.is_present(7, 0, NOW_MS));
}

#[test]
fn a_fill_that_lost_a_race_with_invalidation_is_not_accounted() {
    let mut cache = ReadCache::new();
    let (orphan, _) = cache.slot(1, 0, NOW_MS);
    // The file was invalidated while the fetch was in flight, and a later
    // read already opened a fresh slot for the same chunk.
    cache.forget_file(1);
    let (fresh, _) = cache.slot(1, 0, NOW_MS);
    assert_ne!(orphan, fresh);

    cache.note_stored_version(1, "", 0, orphan);
    cache.note_filled(1, 0, orphan, 64);
    assert_eq!(cache.cached_bytes(), 0, "an orphaned fill must not inflate the total");
}

#[test]
fn eviction_frees_what_accounting_recorded_even_before_the_cell_stores() {
    // The narrow window between note_filled and the cell's own store: a
    // removal in that window must free the same bytes the fill added, or
    // the total drifts upward for the life of the mount.
    let mut cache = ReadCache::new();
    let (ticket, _) = cache.slot(1, 0, NOW_MS);
    cache.note_filled(1, 0, ticket, 4096); // cell deliberately never set
    assert_eq!(cache.cached_bytes(), 4096);
    cache.remove_slot(1, 0);
    assert_eq!(cache.cached_bytes(), 0);
}

#[test]
fn eviction_only_counts_filled_chunks() {
    let mut cache = ReadCache::new();
    for index in 0..10 {
        cache.slot(1, index, NOW_MS);
    }
    assert_eq!(cache.cached_bytes(), 0, "empty cells hold no bytes");
}

#[test]
fn an_expired_chunk_is_replaced_rather_than_served() {
    let mut cache = ReadCache::new();
    filled_slot(&mut cache, 1, 0, 100);

    // Still fresh: the same filled slot comes back.
    let (fresh, initialized) = cache.slot(1, 0, NOW_MS);
    assert!(initialized);
    assert_eq!(cache.cached_bytes(), 100);

    // Past the TTL: the slot is replaced by an empty one — the next read
    // fetches current bytes — and the stale bytes leave the accounting.
    let (replaced, initialized) = cache.slot(1, 0, NOW_MS + CHUNK_TTL_MS);
    assert!(!initialized, "stale content must not serve");
    assert_ne!(fresh, replaced);
    assert_eq!(cache.cached_bytes(), 0);
}

#[test]
fn an_in_flight_fetch_never_expires() {
    let mut cache = ReadCache::new();
    let (inflight, _) = cache.slot(1, 0, NOW_MS); // cell stays empty
    let (same, _) = cache.slot(1, 0, NOW_MS + CHUNK_TTL_MS * 2);
    assert_eq!(inflight, same, "an unfilled slot is as fresh as its replacement would be");
}

#[test]
fn chunks_of_two_versions_do_not_mix() {
    let mut cache = ReadCache::default();
    let (old, _) = cache.slot_version(1, "v1", 0, NOW_MS);
    cache.note_stored_version(1, "v1", 0, old);
    cache.note_filled_version(1, "v1", 0, old, 10);
    assert!(cache.is_present_version(1, "v1", 0, NOW_MS));
    assert!(!cache.is_present_version(1, "v2", 0, NOW_MS));
    let (_, initialized) = cache.slot_version(1, "v2", 0, NOW_MS);
    assert!(!initialized);
    cache.remove_slot_version(1, "v1", 0);
    assert_eq!(cache.cached_bytes(), 0);
    assert!(cache.is_present_version(1, "v2", 0, NOW_MS));
}
