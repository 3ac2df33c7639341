use r2_mount::directories::{Directories, ViewStep};
use r2_mount::directory_listing::{
    mtime_from_seconds, page_end, resume_index, safe_name_frontier, DirChild, ListedObject, ListedPage, DIR_CACHE_TTL_MS,
};
use r2_mount::inode_table::{EntryKind, InodeTable, ROOT_ID};
use r2_mount::lookup::{
    directory_child_exists, head_attributes, lookup_child, lookup_exact_child, lookup_in_complete_listing, record_probe, LookupCache,
    LookupStep, ProbeOutcome, NEGATIVE_LOOKUP_TTL_MS,
};
use r2_mount::status::NfsStatus;

fn child(fileid: u64, name: &str) -> DirChild {
    DirChild { fileid, name: name.to_string() }
}

fn object(key: &str) -> ListedObject {
    ListedObject { key: Some(key.to_string()), size: Some(5), modified_secs: Some(7) }
}

fn response(prefixes: &[&str], keys: &[&str], next: Option<&str>) -> ListedPage {
    ListedPage {
        common_prefixes: prefixes.iter().map(|prefix| Some(prefix.to_string())).collect(),
        contents: keys.iter().map(|key| object(key)).collect(),
        is_truncated: Some(next.is_some()),
        next_continuation_token: next.map(|token| token.to_string()),
    }
}

fn fetch(directories: &mut Directories, now_ms: u64) -> (u64, Option<String>) {
    match directories.directory_view(ROOT_ID, "", None, None, true, now_ms) {
        Ok(ViewStep::Fetch { generation, continuation }) => (generation, continuation),
        _ => panic!("the listing has to be fetched"),
    }
}

fn names(children: &[DirChild]) -> Vec<String> {
    children.iter().map(|entry| entry.name.clone()).collect()
}

#[test]
fn lexical_frontier_holds_punctuation_until_a_later_directory_can_be_excluded() {
    assert_eq!(safe_name_frontier("apple"), "apple");
    assert_eq!(safe_name_frontier("a!x"), "a");
    assert_eq!(safe_name_frontier("a#z"), "a");
    assert_eq!(safe_name_frontier("a!/"), "a");
    assert_eq!(safe_name_frontier("a/"), "a");
    assert_eq!(safe_name_frontier("a0"), "a0");
    assert_eq!(safe_name_frontier("中文!a"), "中文");
}

// ---- readdir pagination ----

#[test]
fn a_zero_cookie_starts_at_the_beginning() {
    let children = vec![child(2, "a"), child(3, "b"), child(4, "c")];
    assert_eq!(resume_index(&children, None), 0);
}

#[test]
fn the_cursor_resumes_after_the_named_entry() {
    let children = vec![child(2, "a"), child(3, "b"), child(4, "c")];
    assert_eq!(resume_index(&children, Some("a")), 1);
    assert_eq!(resume_index(&children, Some("b")), 2);
    assert_eq!(resume_index(&children, Some("c")), 3);
}

#[test]
fn paging_through_a_directory_visits_every_entry_once() {
    let children: Vec<DirChild> = (0..7).map(|i| child(i as u64 + 2, &format!("f{}", i))).collect();

    let mut seen = Vec::new();
    let mut cursor: Option<String> = None;
    loop {
        let start = resume_index(&children, cursor.as_deref());
        let end = (start + 3).min(children.len());
        if start >= end {
            break;
        }
        for entry in &children[start..end] {
            seen.push(entry.name.clone());
        }
        cursor = Some(children[end - 1].name.clone());
        if end >= children.len() {
            break;
        }
    }

    let expected: Vec<String> = children.iter().map(|c| c.name.clone()).collect();
    assert_eq!(seen, expected);
}

#[test]
fn the_cursor_survives_deletion_of_the_entry_it_points_at() {
    // The client paged up to "b", then "b" disappeared before the next call.
    let after_delete = vec![child(2, "a"), child(4, "c"), child(5, "d")];
    assert_eq!(resume_index(&after_delete, Some("b")), 1);
    assert_eq!(after_delete[1].name, "c");
}

#[test]
fn the_cursor_accounts_for_entries_inserted_before_it() {
    // "aa" was uploaded while the client was paging past "b".
    let after_insert = vec![child(2, "a"), child(6, "aa"), child(3, "b"), child(4, "c")];
    assert_eq!(resume_index(&after_insert, Some("b")), 3);
    assert_eq!(after_insert[3].name, "c");
}

#[test]
fn a_cursor_past_the_last_entry_yields_an_empty_page() {
    let children = vec![child(2, "a"), child(3, "b")];
    let start = resume_index(&children, Some("z"));
    assert_eq!(start, children.len());
    assert!(children[start..].is_empty());

    // An empty page must still be flagged as the end of the directory.
    let (end, is_last) = page_end(children.len(), start, 8);
    assert_eq!(end, start);
    assert!(is_last);
}

#[test]
fn a_page_always_advances_even_when_no_entries_are_requested() {
    let (end, is_last) = page_end(5, 0, 0);
    assert_eq!(end, 1, "a zero-sized page would stall the client");
    assert!(!is_last);
}

#[test]
fn only_the_page_reaching_the_last_entry_is_flagged_as_the_end() {
    assert_eq!(page_end(5, 0, 3), (3, false));
    assert_eq!(page_end(5, 3, 3), (5, true));
    assert_eq!(page_end(5, 0, 99), (5, true));
    assert_eq!(page_end(0, 0, 3), (0, true));
}

#[test]
fn times_are_cut_to_what_a_file_time_holds() {
    assert_eq!(mtime_from_seconds(-1), 0);
    assert_eq!(mtime_from_seconds(12), 12);
    assert_eq!(mtime_from_seconds(i64::MAX), u32::MAX);
}

// ---- scanning a directory page by page ----

#[test]
fn a_scan_shows_every_name_once_and_a_directory_wins_over_a_file() {
    let mut directories = Directories::new();
    let mut inodes = InodeTable::new();
    let (generation, sent) = fetch(&mut directories, 0);
    assert_eq!(sent, None);
    // "a!x" sorts before "a/": the directory may still follow.
    let first = response(&[], &["a", "a!x"], Some("t1"));
    assert_eq!(directories.advance_directory_page(ROOT_ID, "", generation, &sent, &first, &mut inodes, 0), Ok(()));
    let held = directories.page(ROOT_ID, generation, None, 10).expect("current");
    assert!(!names(&held.children).contains(&"a".to_string()), "a directory may still follow");
    assert!(!held.end);

    let (again, sent) = fetch(&mut directories, 1);
    assert_eq!(again, generation);
    assert_eq!(sent.as_deref(), Some("t1"));
    let second = response(&["a/"], &["b"], None);
    assert_eq!(directories.advance_directory_page(ROOT_ID, "", generation, &sent, &second, &mut inodes, 1), Ok(()));
    let page = directories.page(ROOT_ID, generation, None, 10).expect("current");
    assert_eq!(names(&page.children), ["a", "a!x", "b"]);
    assert!(page.end);
    let a = inodes.inode(page.children[0].fileid).expect("interned");
    assert!(a.kind == EntryKind::Dir);
    assert_eq!(a.key, "a/");
    assert!(matches!(
        directories.directory_view(ROOT_ID, "", None, None, true, 1),
        Ok(ViewStep::Ready { complete: true, .. })
    ));
}

#[test]
fn a_page_that_cannot_follow_is_refused_and_changes_nothing() {
    let mut directories = Directories::new();
    let mut inodes = InodeTable::new();
    let (generation, sent) = fetch(&mut directories, 0);
    let first = response(&[], &["k"], Some("t1"));
    directories.advance_directory_page(ROOT_ID, "", generation, &sent, &first, &mut inodes, 0).expect("fits");
    let sent = Some("t1".to_string());

    // A token handed out twice, a page that goes back, a page of another scan.
    let looping = response(&[], &["l"], Some("t1"));
    assert_eq!(
        directories.advance_directory_page(ROOT_ID, "", generation, &sent, &looping, &mut inodes, 0),
        Err(NfsStatus::Io)
    );
    let backwards = response(&[], &["a"], None);
    assert_eq!(
        directories.advance_directory_page(ROOT_ID, "", generation, &sent, &backwards, &mut inodes, 0),
        Err(NfsStatus::Io)
    );
    let fine = response(&[], &["l"], None);
    assert_eq!(
        directories.advance_directory_page(ROOT_ID, "", generation + 1, &sent, &fine, &mut inodes, 0),
        Err(NfsStatus::BadCookie)
    );
    // A truncated page without a token cannot be continued.
    let mut open_ended = response(&[], &["l"], None);
    open_ended.is_truncated = Some(true);
    assert_eq!(
        directories.advance_directory_page(ROOT_ID, "", generation, &sent, &open_ended, &mut inodes, 0),
        Err(NfsStatus::Io)
    );
    assert_eq!(directories.advance_directory_page(ROOT_ID, "", generation, &sent, &fine, &mut inodes, 0), Ok(()));
}

#[test]
fn cookies_resume_a_reader_until_the_listing_is_dropped() {
    let mut directories = Directories::new();
    let mut inodes = InodeTable::new();
    let (generation, sent) = fetch(&mut directories, 0);
    let all = response(&[], &["a", "b", "c"], None);
    directories.advance_directory_page(ROOT_ID, "", generation, &sent, &all, &mut inodes, 0).expect("fits");
    let page = directories.page(ROOT_ID, generation, None, 2).expect("current");
    assert_eq!(names(&page.children), ["a", "b"]);
    assert!(!page.end);
    let last = page.children[1].fileid;
    assert_eq!(directories.resolve_cookie(ROOT_ID, last, &inodes), Err(NfsStatus::BadCookie));
    directories.hand_out(ROOT_ID, &page).expect("current");
    assert_eq!(directories.resolve_cookie(ROOT_ID, 0, &inodes), Ok(None));
    assert_eq!(directories.resolve_cookie(ROOT_ID, last, &inodes), Ok(Some(("b".to_string(), generation))));
    let rest = directories.page(ROOT_ID, generation, Some("b"), 2).expect("current");
    assert_eq!(names(&rest.children), ["c"]);
    assert!(rest.end);

    directories.invalidate_dir(ROOT_ID);
    assert_eq!(directories.resolve_cookie(ROOT_ID, last, &inodes), Err(NfsStatus::BadCookie));
    assert!(matches!(
        directories.directory_view(ROOT_ID, "", Some("b"), Some(generation), false, 0),
        Err(NfsStatus::BadCookie)
    ));
}

#[test]
fn an_old_listing_is_begun_anew() {
    let mut directories = Directories::new();
    let mut inodes = InodeTable::new();
    let (generation, sent) = fetch(&mut directories, 0);
    let all = response(&[], &["a"], None);
    directories.advance_directory_page(ROOT_ID, "", generation, &sent, &all, &mut inodes, 0).expect("fits");
    let (next, _) = fetch(&mut directories, DIR_CACHE_TTL_MS);
    assert_eq!(next, generation + 1);
}

// ---- looking up one name ----

#[test]
fn a_complete_listing_answers_lookups() {
    let mut directories = Directories::new();
    let mut inodes = InodeTable::new();
    let positive = LookupCache::new(DIR_CACHE_TTL_MS);
    let (generation, sent) = fetch(&mut directories, 0);
    assert!(matches!(
        lookup_child(&directories, &inodes, &positive, ROOT_ID, "", "a", 0),
        Ok(LookupStep::CompleteListing)
    ));
    let all = response(&[], &["a"], None);
    directories.advance_directory_page(ROOT_ID, "", generation, &sent, &all, &mut inodes, 0).expect("fits");
    let id = inodes.id_of("a").expect("interned");
    assert!(matches!(
        lookup_child(&directories, &inodes, &positive, ROOT_ID, "", "a", 0),
        Ok(LookupStep::Found { id: found, .. }) if found == id
    ));
    assert!(matches!(
        lookup_in_complete_listing(&directories, &inodes, ROOT_ID, "", "a", 0),
        Ok(LookupStep::Found { id: found, .. }) if found == id
    ));
    assert!(matches!(
        lookup_child(&directories, &inodes, &positive, ROOT_ID, "", "b", 0),
        Ok(LookupStep::Absent)
    ));
    // Without a fresh listing the name is looked up by itself.
    assert!(matches!(
        lookup_child(&directories, &inodes, &positive, ROOT_ID, "", "a", DIR_CACHE_TTL_MS),
        Ok(LookupStep::Exact { .. })
    ));
}

#[test]
fn only_a_fresh_and_complete_listing_establishes_absence() {
    let asked = |directories: &Directories, inodes: &InodeTable, name: &str, now_ms: u64| {
        lookup_in_complete_listing(directories, inodes, ROOT_ID, "", name, now_ms)
    };
    let mut directories = Directories::new();
    let mut inodes = InodeTable::new();
    // No listing, and one that has received nothing yet.
    assert!(matches!(asked(&directories, &inodes, "b", 0), Ok(LookupStep::CompleteListing)));
    assert_eq!(directories.complete_listing_shows(ROOT_ID, "", "b", 0), None);
    let (generation, sent) = fetch(&mut directories, 0);
    // A partial one.
    let first = response(&[], &["a", "b"], Some("next"));
    directories.advance_directory_page(ROOT_ID, "", generation, &sent, &first, &mut inodes, 0).expect("fits");
    for name in ["a", "b", "c"] {
        assert!(matches!(asked(&directories, &inodes, name, 0), Ok(LookupStep::CompleteListing)));
        assert_eq!(directories.complete_listing_shows(ROOT_ID, "", name, 0), None);
    }
    let last = response(&[], &["c"], None);
    directories
        .advance_directory_page(ROOT_ID, "", generation, &Some("next".to_string()), &last, &mut inodes, 0)
        .expect("fits");
    assert!(matches!(asked(&directories, &inodes, "c", 0), Ok(LookupStep::Found { .. })));
    assert!(matches!(asked(&directories, &inodes, "d", 0), Ok(LookupStep::Absent)));
    assert_eq!(directories.complete_listing_shows(ROOT_ID, "", "c", 0), Some(true));
    assert_eq!(directories.complete_listing_shows(ROOT_ID, "", "d", 0), Some(false));
    // One that is too old, and one that was dropped.
    assert!(matches!(asked(&directories, &inodes, "d", DIR_CACHE_TTL_MS), Ok(LookupStep::CompleteListing)));
    assert_eq!(directories.complete_listing_shows(ROOT_ID, "", "d", DIR_CACHE_TTL_MS), None);
    directories.invalidate_dir(ROOT_ID);
    assert!(matches!(asked(&directories, &inodes, "c", 0), Ok(LookupStep::CompleteListing)));
    assert_eq!(directories.complete_listing_shows(ROOT_ID, "", "c", 0), None);
}

#[test]
fn a_directory_wins_whatever_happens_to_the_inodes_between_pages() {
    let mut directories = Directories::new();
    let mut inodes = InodeTable::new();
    let (generation, sent) = fetch(&mut directories, 0);
    let first = response(&[], &["0", "a", "a!"], Some("next"));
    directories.advance_directory_page(ROOT_ID, "", generation, &sent, &first, &mut inodes, 0).expect("fits");
    // The entry that is shown goes, others come, and the colliding name is
    // known as a file by now.
    let shown = inodes.id_of("0").expect("interned");
    inodes.remove(shown);
    inodes.intern("elsewhere", ROOT_ID, EntryKind::File, 1, 0);
    let file = inodes.intern("a", ROOT_ID, EntryKind::File, 1, 0);
    let last = response(&["a/"], &["b"], None);
    directories
        .advance_directory_page(ROOT_ID, "", generation, &Some("next".to_string()), &last, &mut inodes, 0)
        .expect("fits");
    let page = directories.page(ROOT_ID, generation, None, 100).ok().expect("held");
    assert_eq!(names(&page.children), ["0", "a", "a!", "b"]);
    assert_ne!(page.children[1].fileid, file);
    assert!(inodes.inode(page.children[1].fileid).unwrap().kind == EntryKind::Dir);
    assert!(inodes.inode(page.children[2].fileid).unwrap().kind == EntryKind::File);
    assert!(page.end);
}

#[test]
fn a_probe_is_remembered_for_its_generation_only() {
    let directories = Directories::new();
    let mut inodes = InodeTable::new();
    let mut positive = LookupCache::new(DIR_CACHE_TTL_MS);
    let mut negative = LookupCache::new(NEGATIVE_LOOKUP_TTL_MS);
    let found = record_probe(
        &mut inodes,
        &mut positive,
        &mut negative,
        ROOT_ID,
        "",
        "x",
        1,
        ProbeOutcome::File { size: 3, mtime_secs: 4 },
        0,
    );
    let id = inodes.id_of("x").expect("interned");
    assert_eq!(found, Some(id));
    assert!(matches!(
        lookup_exact_child(&directories, &inodes, &positive, &negative, ROOT_ID, "", "x", 1, 0),
        Ok(LookupStep::Found { id: hit, .. }) if hit == id
    ));
    assert!(matches!(
        lookup_exact_child(&directories, &inodes, &positive, &negative, ROOT_ID, "", "x", 2, 0),
        Ok(LookupStep::Probe { generation: 2 })
    ));
    let missed = record_probe(&mut inodes, &mut positive, &mut negative, ROOT_ID, "", "y", 1, ProbeOutcome::Nothing, 0);
    assert_eq!(missed, None);
    assert!(matches!(
        lookup_exact_child(&directories, &inodes, &positive, &negative, ROOT_ID, "", "y", 1, 0),
        Ok(LookupStep::Absent)
    ));
    assert!(matches!(
        lookup_exact_child(&directories, &inodes, &positive, &negative, ROOT_ID, "", "y", 1, NEGATIVE_LOOKUP_TTL_MS),
        Ok(LookupStep::Probe { .. })
    ));
    positive.forget_dir(ROOT_ID);
    assert_eq!(positive.hit(ROOT_ID, "x", 1, 0), None);
}

#[test]
fn a_probe_leaves_what_is_known_of_other_names() {
    let mut inodes = InodeTable::new();
    let mut positive = LookupCache::new(DIR_CACHE_TTL_MS);
    let mut negative = LookupCache::new(NEGATIVE_LOOKUP_TTL_MS);
    positive.remember(ROOT_ID, "kept", 1, 40, 0);
    negative.remember(ROOT_ID, "gone", 1, 0, 0);
    record_probe(&mut inodes, &mut positive, &mut negative, ROOT_ID, "", "y", 1, ProbeOutcome::Nothing, 1);
    assert_eq!(positive.hit(ROOT_ID, "kept", 1, 1), Some(40));
    assert!(negative.hit(ROOT_ID, "gone", 1, 1).is_some());
    assert!(negative.hit(ROOT_ID, "y", 1, 1).is_some());
    let found = record_probe(
        &mut inodes,
        &mut positive,
        &mut negative,
        ROOT_ID,
        "",
        "x",
        1,
        ProbeOutcome::File { size: 3, mtime_secs: 4 },
        1,
    );
    assert_eq!(positive.hit(ROOT_ID, "x", 1, 1), found);
    assert_eq!(positive.hit(ROOT_ID, "kept", 1, 1), Some(40));
    assert!(negative.hit(ROOT_ID, "gone", 1, 1).is_some());
}

#[test]
fn a_miss_never_outranks_a_page_that_returned_the_name() {
    let mut directories = Directories::new();
    let mut inodes = InodeTable::new();
    let mut positive = LookupCache::new(DIR_CACHE_TTL_MS);
    let mut negative = LookupCache::new(NEGATIVE_LOOKUP_TTL_MS);
    let (generation, sent) = fetch(&mut directories, 0);
    record_probe(&mut inodes, &mut positive, &mut negative, ROOT_ID, "", "a", generation, ProbeOutcome::Nothing, 0);
    assert!(matches!(
        lookup_exact_child(&directories, &inodes, &positive, &negative, ROOT_ID, "", "a", generation, 0),
        Ok(LookupStep::Absent)
    ));
    // The page holds "a" back, as "a/" may follow, but it has been seen.
    let first = response(&[], &["a", "a!"], Some("t"));
    directories.advance_directory_page(ROOT_ID, "", generation, &sent, &first, &mut inodes, 0).expect("fits");
    assert!(matches!(
        lookup_exact_child(&directories, &inodes, &positive, &negative, ROOT_ID, "", "a", generation, 0),
        Ok(LookupStep::Probe { .. })
    ));
}

#[test]
fn a_directory_exists_where_anything_lies_below_it() {
    assert!(directory_child_exists(&response(&[], &["a/"], None), "a/"));
    assert!(directory_child_exists(&response(&["a/b/"], &[], None), "a/"));
    assert!(!directory_child_exists(&response(&[], &["ab"], None), "a/"));
    assert!(!directory_child_exists(&response(&[], &[], None), "a/"));
    assert_eq!(head_attributes(Some(-3), None), (0, 0));
    assert_eq!(head_attributes(Some(9), Some(11)), (9, 11));
}
