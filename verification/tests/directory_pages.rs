use std::collections::HashSet;

use r2_mount::directories::{Directories, DirectoryPage, ViewStep};
use r2_mount::directory_listing::{ListedObject, ListedPage, DIR_CACHE_TTL_MS};
use r2_mount::inode_table::{EntryKind, InodeTable, DIR_SIZE, ROOT_ID};
use r2_mount::lookup::{
    lookup_child, lookup_exact_child, lookup_in_complete_listing, record_probe, LookupCache, LookupStep, ProbeOutcome,
    NEGATIVE_LOOKUP_TTL_MS,
};
use r2_mount::status::NfsStatus;

fn directory_response(keys: &[&str], prefixes: &[&str], next: Option<&str>) -> ListedPage {
    ListedPage {
        common_prefixes: prefixes.iter().map(|prefix| Some(prefix.to_string())).collect(),
        contents: keys
            .iter()
            .map(|key| ListedObject { key: Some(key.to_string()), size: Some(1), modified_secs: None })
            .collect(),
        is_truncated: Some(next.is_some()),
        next_continuation_token: next.map(|token| token.to_string()),
    }
}

fn directory_names(page: &DirectoryPage) -> Vec<String> {
    page.children.iter().map(|entry| entry.name.clone()).collect()
}

/// A mount whose provider answers a continuation with a page.
struct Mount<F: Fn(Option<&str>, usize) -> ListedPage> {
    directories: Directories,
    inodes: InodeTable,
    provider: F,
    requests: usize,
}

impl<F: Fn(Option<&str>, usize) -> ListedPage> Mount<F> {
    fn new(provider: F) -> Self {
        Mount { directories: Directories::new(), inodes: InodeTable::new(), provider, requests: 0 }
    }

    fn view(&mut self, dirid: u64, dir_key: &str, after: Option<&str>, expected: Option<u64>, all: bool) -> Result<u64, NfsStatus> {
        loop {
            match self.directories.directory_view(dirid, dir_key, after, expected, all, 0)? {
                ViewStep::Ready { generation, .. } => return Ok(generation),
                ViewStep::Fetch { generation, continuation } => {
                    let page = (self.provider)(continuation.as_deref(), self.requests);
                    self.requests += 1;
                    self.directories.advance_directory_page(dirid, dir_key, generation, &continuation, &page, &mut self.inodes, 0)?;
                }
            }
        }
    }

    fn readdir_in(&mut self, dirid: u64, dir_key: &str, cookie: u64, max_entries: usize) -> Result<DirectoryPage, NfsStatus> {
        let resumed = self.directories.resolve_cookie(dirid, cookie, &self.inodes)?;
        let after = resumed.as_ref().map(|(name, _)| name.as_str());
        let expected = resumed.as_ref().map(|(_, generation)| *generation);
        let generation = self.view(dirid, dir_key, after, expected, false)?;
        let page = self.directories.page(dirid, generation, after, max_entries)?;
        self.directories.hand_out(dirid, &page)?;
        Ok(page)
    }

    fn readdir(&mut self, cookie: u64, max_entries: usize) -> Result<DirectoryPage, NfsStatus> {
        self.readdir_in(ROOT_ID, "", cookie, max_entries)
    }
}

#[test]
fn first_readdir_returns_before_the_next_provider_page_is_requested() {
    let mut mount = Mount::new(|token, _| match token {
        Some("next") => directory_response(&["gamma"], &[], None),
        _ => directory_response(&["alpha", "beta"], &[], Some("next")),
    });
    let first = mount.readdir(0, 100).unwrap();
    assert_eq!(directory_names(&first), ["alpha"]);
    assert!(!first.end);
    assert_eq!(mount.requests, 1);
    let last = mount.readdir(first.children[0].fileid, 100).unwrap();
    assert_eq!(directory_names(&last), ["beta", "gamma"]);
    assert!(last.end);
}

#[test]
fn incremental_readdir_cookies_cover_a_stable_directory_exactly_once() {
    let mut mount = Mount::new(|token, _| match token {
        Some("p2") => directory_response(&["e", "f"], &[], None),
        Some("p1") => directory_response(&["c", "d"], &[], Some("p2")),
        _ => directory_response(&["a", "b"], &[], Some("p1")),
    });
    let mut cookie = 0;
    let mut names = Vec::new();
    let mut ids = HashSet::new();
    loop {
        // A zero entry limit still has to make progress.
        let page = mount.readdir(cookie, 0).unwrap();
        assert_eq!(page.children.len(), 1);
        cookie = page.children[0].fileid;
        assert!(ids.insert(cookie));
        names.extend(directory_names(&page));
        if page.end {
            break;
        }
    }
    assert_eq!(names, ["a", "b", "c", "d", "e", "f"]);
    assert_eq!(mount.requests, 3);
    let eof = mount.readdir(cookie, 1).unwrap();
    assert!(eof.end && eof.children.is_empty());
    let warm = mount.readdir(0, 100).unwrap();
    assert_eq!(directory_names(&warm), names);
    assert!(warm.end);
    assert_eq!(mount.requests, 3);
}

#[test]
fn a_later_directory_prefix_wins_before_any_colliding_name_is_emitted() {
    let mut mount = Mount::new(|token, _| match token {
        Some("p2") => directory_response(&["b"], &["a/"], None),
        Some("p1") => directory_response(&["a#", "a."], &[], Some("p2")),
        _ => directory_response(&["0", "a", "a!"], &[], Some("p1")),
    });
    let first = mount.readdir(0, 100).unwrap();
    assert_eq!(directory_names(&first), ["0"]);
    assert!(!first.end);
    assert_eq!(mount.requests, 1);
    let rest = mount.readdir(first.children[0].fileid, 100).unwrap();
    assert_eq!(directory_names(&rest), ["a", "a!", "a#", "a.", "b"]);
    assert!(mount.inodes.inode(rest.children[0].fileid).unwrap().kind == EntryKind::Dir);
    assert!(rest.end);
    assert_eq!(mount.requests, 3);
}

#[test]
fn a_directory_without_a_same_named_file_can_sort_before_prior_page_files() {
    let mut mount = Mount::new(|token, _| match token {
        Some("next") => directory_response(&["b"], &["a/"], None),
        _ => directory_response(&["a!", "a#"], &[], Some("next")),
    });
    let page = mount.readdir(0, 100).unwrap();
    assert_eq!(directory_names(&page), ["a", "a!", "a#", "b"]);
    assert!(page.end);
    assert_eq!(mount.requests, 2, "the ambiguous first provider page needs lookahead");
}

#[test]
fn partial_directory_cache_does_not_establish_lookup_absence() {
    let mut mount = Mount::new(|token, _| match token {
        Some("next") => directory_response(&["later"], &[], None),
        _ => directory_response(&["a", "b"], &[], Some("next")),
    });
    let positive = LookupCache::new(DIR_CACHE_TTL_MS);
    let first = mount.readdir(0, 100).unwrap();
    assert!(!first.end);
    assert!(matches!(
        lookup_child(&mount.directories, &mount.inodes, &positive, ROOT_ID, "", "later", 0),
        Ok(LookupStep::CompleteListing)
    ));
    mount.view(ROOT_ID, "", None, None, true).unwrap();
    assert!(matches!(
        lookup_in_complete_listing(&mount.directories, &mount.inodes, ROOT_ID, "", "later", 0),
        Ok(LookupStep::Found { .. })
    ));
    assert_eq!(mount.requests, 2);
    assert!(mount.readdir(0, 100).unwrap().end);
}

#[test]
fn stale_and_foreign_directory_cookies_are_rejected_explicitly() {
    let mut mount = Mount::new(|_, _| directory_response(&["a", "b"], &[], None));
    let first = mount.readdir(0, 1).unwrap();
    let cookie = first.children[0].fileid;
    let other = mount.inodes.intern("other/", ROOT_ID, EntryKind::Dir, DIR_SIZE, 0);
    assert!(matches!(mount.readdir_in(other, "other/", cookie, 100), Err(NfsStatus::BadCookie)));
    mount.directories.invalidate_dir(ROOT_ID);
    assert!(matches!(mount.readdir(cookie, 100), Err(NfsStatus::BadCookie)));
    assert_eq!(mount.requests, 1);
    assert_eq!(directory_names(&mount.readdir(0, 100).unwrap()), ["a", "b"]);
}

#[test]
fn a_malformed_later_page_preserves_partial_rows_and_reports_an_error() {
    for malformed in ["missing", "repeated", "regressed"] {
        let mut mount = Mount::new(move |token, _| match (token, malformed) {
            (Some("next"), "missing") => {
                let mut page = directory_response(&["c"], &[], None);
                page.is_truncated = Some(true);
                page
            }
            (Some("next"), "repeated") => directory_response(&["c"], &[], Some("next")),
            (Some("next"), _) => directory_response(&["a"], &[], None),
            _ => directory_response(&["a", "b"], &[], Some("next")),
        });
        let first = mount.readdir(0, 100).unwrap();
        assert_eq!(directory_names(&first), ["a"]);
        assert!(matches!(mount.readdir(first.children[0].fileid, 100), Err(NfsStatus::Io)));
        let retained = mount.readdir(0, 100).unwrap();
        assert_eq!(directory_names(&retained), ["a"]);
        assert!(!retained.end);
        assert_eq!(mount.requests, 2);
    }
}

#[test]
fn empty_s3_path_components_are_skipped_without_losing_the_provider_cursor() {
    for dir_key in ["", "a/"] {
        let mut mount = Mount::new(move |token, _| match token {
            Some("next") => directory_response(&[&format!("{dir_key}b"), &format!("{dir_key}c")], &[], None),
            _ => directory_response(&[&format!("{dir_key}!")], &[&format!("{dir_key}/")], Some("next")),
        });
        let dirid = if dir_key.is_empty() {
            ROOT_ID
        } else {
            mount.inodes.intern(dir_key, ROOT_ID, EntryKind::Dir, DIR_SIZE, 0)
        };
        let first = mount.readdir_in(dirid, dir_key, 0, 100).unwrap();
        assert_eq!(directory_names(&first), ["!"]);
        assert!(!first.end);
        assert_eq!(mount.requests, 1);
        let last = mount.readdir_in(dirid, dir_key, first.children[0].fileid, 100).unwrap();
        assert_eq!(directory_names(&last), ["b", "c"]);
        assert!(last.end);
        assert_eq!(mount.readdir_in(dirid, dir_key, 0, 100).unwrap().children.len(), 3);
    }
}

#[test]
fn a_skipped_empty_prefix_still_sets_the_raw_pagination_watermark() {
    // The second page is not an empty directory: the provider has regressed
    // behind the continuation despite returning no visible names.
    let mut mount = Mount::new(|_, request| directory_response(&[], &["/"], if request == 0 { Some("next") } else { None }));
    assert!(matches!(mount.readdir(0, 100), Err(NfsStatus::Io)));
    assert_eq!(mount.requests, 2);
}

#[test]
fn nfs_directory_listing_rejects_nonadjacent_cursor_cycles() {
    let mut mount = Mount::new(|_, request| {
        let key = format!("file{request}");
        directory_response(&[key.as_str()], &[], Some(if request % 2 == 0 { "a" } else { "b" }))
    });
    assert!(mount.view(ROOT_ID, "", None, None, true).is_err());
    assert_eq!(mount.requests, 3);
}

#[test]
fn invalidation_rejects_the_inflight_generation_without_restarting_other_directories() {
    for invalidate_same in [true, false] {
        let mut directories = Directories::new();
        let mut inodes = InodeTable::new();
        let other = inodes.intern("other/", ROOT_ID, EntryKind::Dir, DIR_SIZE, 0);
        let Ok(ViewStep::Fetch { generation, continuation }) = directories.directory_view(ROOT_ID, "", None, None, false, 0) else {
            panic!("nothing is listed yet");
        };
        directories.invalidate_dir(if invalidate_same { ROOT_ID } else { other });
        let page = directory_response(&["a", "b"], &[], Some("next"));
        let outcome = directories.advance_directory_page(ROOT_ID, "", generation, &continuation, &page, &mut inodes, 0);
        if invalidate_same {
            assert_eq!(outcome, Err(NfsStatus::BadCookie));
        } else {
            assert_eq!(outcome, Ok(()));
            assert_eq!(directory_names(&directories.page(ROOT_ID, generation, None, 100).unwrap()), ["a"]);
        }
    }
}

/// A root in which `x` was missed, and then created elsewhere and listed.
fn listed_after_a_miss() -> (Directories, InodeTable, LookupCache, LookupCache, u64) {
    let mut inodes = InodeTable::new();
    let mut positive = LookupCache::new(DIR_CACHE_TTL_MS);
    let mut negative = LookupCache::new(NEGATIVE_LOOKUP_TTL_MS);
    let mut directories = Directories::new();
    let began = directories.generation();
    record_probe(&mut inodes, &mut positive, &mut negative, ROOT_ID, "", "x", began, ProbeOutcome::Nothing, 0);
    let Ok(ViewStep::Fetch { generation, continuation }) = directories.directory_view(ROOT_ID, "", None, None, false, 0) else {
        panic!("nothing is listed yet");
    };
    let page = directory_response(&["a", "x", "z"], &[], Some("next"));
    directories.advance_directory_page(ROOT_ID, "", generation, &continuation, &page, &mut inodes, 0).unwrap();
    assert_eq!(directory_names(&directories.page(ROOT_ID, generation, None, 100).unwrap()), ["a", "x"]);
    (directories, inodes, positive, negative, began)
}

#[test]
fn a_listing_made_after_a_cached_miss_is_not_contradicted_by_it() {
    let (directories, inodes, positive, negative, _) = listed_after_a_miss();
    let Ok(LookupStep::Exact { generation }) = lookup_child(&directories, &inodes, &positive, ROOT_ID, "", "x", 0) else {
        panic!("a partial listing does not settle a file");
    };
    assert!(matches!(
        lookup_exact_child(&directories, &inodes, &positive, &negative, ROOT_ID, "", "x", generation, 0),
        Ok(LookupStep::Probe { .. })
    ));
}

#[test]
fn a_lookup_that_waited_out_a_new_listing_does_not_answer_from_an_older_miss() {
    let (directories, inodes, positive, negative, began) = listed_after_a_miss();
    let step = lookup_exact_child(&directories, &inodes, &positive, &negative, ROOT_ID, "", "x", began, 0);
    assert!(matches!(step, Ok(LookupStep::Probe { generation }) if generation != began));
}

#[test]
fn a_whole_run_of_reads_gives_every_listed_name_once() {
    for max_entries in [0, 1, 2, 3, 100] {
        let mut mount = Mount::new(|token, _| match token {
            Some("p2") => directory_response(&["b", "c"], &["a/"], None),
            Some("p1") => directory_response(&["a#", "a."], &[], Some("p2")),
            _ => directory_response(&["0", "a", "a!"], &[], Some("p1")),
        });
        let mut cookie = 0;
        let mut names = Vec::new();
        let mut ids = HashSet::new();
        loop {
            let page = mount.readdir(cookie, max_entries).unwrap();
            names.extend(directory_names(&page));
            for child in &page.children {
                assert!(ids.insert(child.fileid));
                let expected = if child.name == "a" { EntryKind::Dir } else { EntryKind::File };
                assert!(mount.inodes.inode(child.fileid).unwrap().kind == expected);
            }
            if page.end {
                break;
            }
            assert!(!page.children.is_empty() && page.children.len() <= max_entries.max(1));
            cookie = page.children[page.children.len() - 1].fileid;
        }
        assert_eq!(names, ["0", "a", "a!", "a#", "a.", "b", "c"]);
    }
}
