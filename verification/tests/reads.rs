use r2_mount::content::{
    check_download_headers, check_verification_headers, download_source, named_version, prime_plan, same_bytes, verification_target,
    BodyBuffer, ContentCheck, DownloadCount, ObjectHead, COMPARE_BYTES,
};
use r2_mount::directory_listing::DIR_CACHE_TTL_MS;
use r2_mount::inode_table::{EntryKind, InodeTable, ROOT_ID};
use r2_mount::read::{
    append_slice, cache_version, check_chunk_headers, content_range_header, handle_status, observed_identity, plan_read, prefetch_after,
    range_header, read_reached_end, settle_identity, staged_read_reached_end, HandleState, ReadIdentity, ReadPlan,
};
use r2_mount::read_cache::{ReadCache, CHUNK_SIZE};
use r2_mount::stage::{PublicationGuard, StageInit, UploadSnapshot, RMW_DOWNLOAD_CAP};
use r2_mount::status::NfsStatus;

fn head(etag: &str, size: i64) -> ObjectHead {
    ObjectHead {
        etag: Some(etag.to_string()),
        size: Some(size),
        version_id: Some("null".to_string()),
        modified_secs: Some(40),
        snapshot_token: None,
        rename_token: None,
        namespace_token: None,
    }
}

fn identity(etag: &str, size: u64) -> ReadIdentity {
    ReadIdentity { etag: etag.to_string(), version_id: None, size, observed_at_ms: 0 }
}

fn snapshot(size: u64) -> UploadSnapshot {
    UploadSnapshot { path: "/s/7.g1.snapshot".to_string(), generation: 1, size, publication_guard: None }
}

// ---- identities ----

#[test]
fn an_object_without_identity_cannot_be_read() {
    assert_eq!(observed_identity(None, 0).err(), Some(NfsStatus::NoEnt));
    assert_eq!(observed_identity(Some(head("", 1)), 0).err(), Some(NfsStatus::Io));
    assert_eq!(observed_identity(Some(head("t", -1)), 0).err(), Some(NfsStatus::Io));
    let seen = observed_identity(Some(head("t", 9)), 5).ok().expect("tagged");
    assert_eq!((seen.etag.as_str(), seen.size, seen.version_id.clone()), ("t", 9, None));
    assert!(seen.is_fresh(5 + DIR_CACHE_TTL_MS - 1));
    assert!(!seen.is_fresh(5 + DIR_CACHE_TTL_MS));
    let mut expired = seen.clone();
    expired.expire(DIR_CACHE_TTL_MS);
    assert!(!expired.is_fresh(DIR_CACHE_TTL_MS));
    let mut failed = observed_identity(Some(head("t", 9)), 2 * DIR_CACHE_TTL_MS).ok().expect("tagged");
    assert!(failed.is_fresh(2 * DIR_CACHE_TTL_MS));
    failed.expire(2 * DIR_CACHE_TTL_MS);
    assert_eq!(failed.observed_at_ms, DIR_CACHE_TTL_MS);
    assert!(!failed.is_fresh(2 * DIR_CACHE_TTL_MS));
    assert!(expired.is_same_version(&seen));
    assert_eq!(cache_version(&seen), ":t");
    assert_eq!(named_version(&Some("v".to_string())).as_deref(), Some("v"));
}

#[test]
fn a_replaced_object_retires_its_handle() {
    let mut table = InodeTable::new();
    let id = table.intern("x", ROOT_ID, EntryKind::File, 9, 1);
    let known = Some(identity("t", 9));
    let same = settle_identity(&mut table, id, "x", &known, &identity("t", 9), Some(40), false);
    assert_eq!(same, HandleState::Current);
    assert_eq!(table.get(id).expect("kept").mtime_secs, 40);
    let contested = settle_identity(&mut table, id, "x", &known, &identity("u", 3), Some(50), true);
    assert_eq!(contested, HandleState::Contested);
    assert_eq!(handle_status(contested), Some(NfsStatus::Io));
    let replaced = settle_identity(&mut table, id, "x", &known, &identity("u", 3), Some(50), false);
    let new_id = table.id_of("x").expect("interned anew");
    assert_eq!(replaced, HandleState::Replaced { id: new_id, parent: ROOT_ID });
    assert_ne!(new_id, id);
    assert_eq!(handle_status(replaced), Some(NfsStatus::Stale));
    assert_eq!(table.inode(id).err(), Some(NfsStatus::Stale));
    let gone = settle_identity(&mut table, id, "x", &known, &identity("u", 3), None, false);
    assert_eq!(gone, HandleState::Gone);
    assert_eq!(handle_status(HandleState::Current), None);
}

// ---- chunks ----

#[test]
fn a_chunk_is_asked_for_and_answered_exactly() {
    assert_eq!(range_header(10, 5), "bytes=10-14");
    assert_eq!(content_range_header(10, 5, 100), "bytes 10-14/100");
    let identity = identity("t", CHUNK_SIZE + 5);
    let range = Some(format!("bytes {}-{}/{}", CHUNK_SIZE, CHUNK_SIZE + 4, CHUNK_SIZE + 5));
    let tag = Some("t".to_string());
    assert!(check_chunk_headers(&identity, 1, &range, Some(5), &tag).is_ok());
    assert!(check_chunk_headers(&identity, 1, &range, Some(4), &tag).is_err());
    assert!(check_chunk_headers(&identity, 1, &range, Some(5), &Some("u".to_string())).is_err());
    assert!(check_chunk_headers(&identity, 1, &None, Some(5), &tag).is_err());
}

#[test]
fn a_read_puts_its_bytes_together_from_chunks() {
    let object: Vec<u8> = (0..CHUNK_SIZE + 100).map(|i| (i % 251) as u8).collect();
    let size = object.len() as u64;
    for (offset, count) in [(0, 10), (CHUNK_SIZE - 3, 10), (CHUNK_SIZE + 90, 50)] {
        match plan_read(offset, count, size) {
            ReadPlan::Chunks { end, first, last } => {
                let mut data = Vec::new();
                for index in first..=last {
                    let start = (index * CHUNK_SIZE) as usize;
                    let stop = object.len().min(start + CHUNK_SIZE as usize);
                    append_slice(&mut data, &object[start..stop].to_vec(), index, offset, end);
                }
                assert_eq!(data, object[offset as usize..end as usize]);
                assert_eq!(read_reached_end(offset, data.len() as u64, end, size), end == size);
            }
            ReadPlan::Empty { .. } => panic!("there are bytes"),
        }
    }
    assert_eq!(plan_read(size, 10, size), ReadPlan::Empty { eof: true });
    assert_eq!(plan_read(0, 0, size), ReadPlan::Empty { eof: false });
    assert_eq!(plan_read(0, 0, 0), ReadPlan::Empty { eof: true });
    // An object that ends early ends the read.
    assert!(read_reached_end(0, 5, 10, 100));
    assert!(!read_reached_end(0, 10, 10, 100));
    assert!(staged_read_reached_end(0, 10, 10));
    assert!(!staged_read_reached_end(0, 9, 10));
}

#[test]
fn only_missing_chunks_are_fetched_ahead() {
    let mut cache = ReadCache::new();
    let identity = identity("t", CHUNK_SIZE * 3);
    assert_eq!(prefetch_after(&cache, 1, &identity, 0, 0), vec![1, 2]);
    assert_eq!(prefetch_after(&cache, 1, &identity, 1, 0), vec![2]);
    cache.slot_version(1, ":t", 1, 0);
    assert_eq!(prefetch_after(&cache, 1, &identity, 0, 0), vec![2]);
}

#[test]
fn a_body_has_the_promised_length() {
    let mut buffer = BodyBuffer::new(4);
    assert!(buffer.on_bytes(&b"ab".to_vec()).is_ok());
    let failure = buffer.on_bytes(&b"cde".to_vec()).err().expect("too long");
    assert!(!failure.transient);
    assert!(buffer.on_bytes(&b"cd".to_vec()).is_ok());
    assert_eq!(buffer.finish().ok().expect("whole"), b"abcd");
    let short = BodyBuffer::new(4).finish().err().expect("too short");
    assert!(short.transient);

    let mut count = DownloadCount::new(4);
    assert!(count.on_bytes(5).is_err());
    assert!(count.on_bytes(3).is_ok());
    assert!(count.finish().err().expect("too short").transient);
    assert_eq!(count.on_staged(2), Err(NfsStatus::Io));
    assert_eq!(count.finish_staging(), Err(NfsStatus::Io));
    assert_eq!(count.on_staged(1), Ok(()));
    assert_eq!(count.finish_staging(), Ok(()));
    assert!(count.finish().is_ok());
}

// ---- holding an object against a snapshot ----

#[test]
fn an_object_is_verified_only_where_it_claims_to_be_the_snapshot() {
    let snapshot = snapshot(9);
    let claiming = || ObjectHead { snapshot_token: Some("7.g1.snapshot".to_string()), ..head("t", 9) };
    assert_eq!(verification_target(&snapshot, Some(claiming())), Some(("t".to_string(), None)));
    assert_eq!(verification_target(&snapshot, None), None);
    assert_eq!(verification_target(&snapshot, Some(head("t", 9))), None);
    assert_eq!(verification_target(&snapshot, Some(ObjectHead { size: Some(8), ..claiming() })), None);
    assert_eq!(verification_target(&snapshot, Some(ObjectHead { etag: None, ..claiming() })), None);
    let tag = Some("t".to_string());
    assert!(check_verification_headers(&snapshot, "t", &tag, Some(9)).is_ok());
    assert!(check_verification_headers(&snapshot, "u", &tag, Some(9)).is_err());
    assert!(check_download_headers("t", 9, &tag, Some(9)).is_ok());
    assert!(check_download_headers("t", 9, &tag, Some(8)).is_err());
}

#[test]
fn contents_are_compared_byte_for_byte() {
    assert!(ContentCheck::begin(&snapshot(4), Some(5)).is_err());
    assert!(ContentCheck::begin(&snapshot(4), None).is_err());
    let mut check = ContentCheck::begin(&snapshot(4), Some(4)).ok().expect("same length");
    assert_eq!(check.next_count(), 4);
    let bytes = b"abcd".to_vec();
    let other = b"abcX".to_vec();
    assert_eq!(check.on_bytes(Some(&bytes), Some(&other)).err().expect("differs").message, "Snapshot content mismatch");
    assert!(check.on_bytes(Some(&bytes), None).err().expect("unread").transient);
    assert!(!check.on_bytes(None, Some(&bytes)).err().expect("unread").transient);
    assert!(check.on_bytes(Some(&bytes), Some(&bytes)).is_ok());
    assert_eq!(check.next_count(), 0);
    assert!(check.finish(true).is_ok());
    assert!(check.finish(false).is_err());
    let long = ContentCheck::begin(&snapshot(COMPARE_BYTES * 2), Some(COMPARE_BYTES * 2)).ok().expect("same length");
    assert_eq!(long.next_count() as u64, COMPARE_BYTES);
    assert!(same_bytes(&bytes, &bytes) && !same_bytes(&bytes, &other));
}

// ---- staging an object for a change ----

#[test]
fn a_stage_starts_from_the_object_that_stands_there() {
    let plan = prime_plan(Some(head("t", 9))).ok().expect("editable");
    assert!(matches!(plan.guard, PublicationGuard::Match { ref etag } if etag == "t"));
    assert_eq!((plan.size, plan.init), (9, StageInit::Download));
    assert_eq!(prime_plan(Some(head("t", 0))).ok().expect("editable").init, StageInit::Empty);
    let huge = prime_plan(Some(head("t", RMW_DOWNLOAD_CAP as i64 + 1))).ok().expect("editable");
    assert_eq!(huge.init, StageInit::TooLarge);
    assert_eq!(prime_plan(None).err(), Some(NfsStatus::NoEnt));
    assert_eq!(prime_plan(Some(head("", 9))).err(), Some(NfsStatus::Io));
    assert_eq!(download_source(&head("t", 9), 0), Ok((9, "t".to_string(), None)));
    assert_eq!(download_source(&head("t", 9), 1), Err(NfsStatus::Io));
}
