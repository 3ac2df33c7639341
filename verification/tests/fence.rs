use r2_mount::fence::{fence_path_for_inode, FencePath, NamespaceFences};
use r2_mount::inode_table::{EntryKind, Inode};

#[test]
fn unrelated_subtree_proceeds_while_prefix_is_fenced() {
    let mut fences = NamespaceFences::new();
    let held = fences.acquire(&vec![FencePath::prefix("a/")], 0, 0).expect("free");

    let b = fences.acquire(&vec![FencePath::exact("b/file")], 0, 0).expect("unrelated");
    fences.drop_guard(&b, 0);

    assert!(
        fences.acquire(&vec![FencePath::exact("a/file")], 0, 0).is_none(),
        "overlapping child must wait behind prefix publication fence"
    );
    fences.drop_guard(&held, 0);
    assert!(fences.acquire(&vec![FencePath::exact("a/file")], 0, 0).is_some());
}

#[test]
fn same_key_shared_leases_do_not_block_each_other() {
    let mut fences = NamespaceFences::new();
    let first = fences.acquire_shared(&vec![FencePath::exact("same")], 0, 0).expect("free");
    let second = fences.acquire_shared(&vec![FencePath::exact("same")], 0, 0).expect("shared");
    assert!(fences.acquire(&vec![FencePath::exact("same")], 0, 0).is_none());
    fences.drop_guard(&first, 0);
    assert!(fences.acquire(&vec![FencePath::exact("same")], 0, 0).is_none());
    fences.drop_guard(&second, 0);
    assert!(fences.acquire(&vec![FencePath::exact("same")], 0, 0).is_some());
}

#[test]
fn sorted_multi_path_acquire_does_not_deadlock_opposing_renames() {
    let mut fences = NamespaceFences::new();
    let first = fences.acquire(&vec![FencePath::prefix("a/"), FencePath::prefix("b/")], 0, 0).expect("free");
    let opposing = vec![FencePath::prefix("b/"), FencePath::prefix("a/")];
    // All of it or nothing: the second holds neither path while it waits.
    assert!(fences.acquire(&opposing, 0, 5).is_none());
    fences.drop_guard(&first, 10);
    let second = fences.acquire(&opposing, 0, 10).expect("given back");
    fences.drop_guard(&second, 14);
    let metrics = fences.metrics();
    assert!(metrics.waits >= 1);
    assert_eq!(metrics.wait_ms, 10);
    assert_eq!(metrics.hold_ms, 14);
}

#[test]
fn paths_overlap_both_ways() {
    let dir = FencePath::prefix("a/");
    let file = FencePath::exact("a/x");
    let other = FencePath::exact("ab");
    assert!(dir.overlaps(&file) && file.overlaps(&dir));
    assert!(!dir.overlaps(&other) && !other.overlaps(&dir));
    assert!(FencePath::prefix("").overlaps(&other));
    assert!(FencePath::prefix("a/b/").overlaps(&dir));
    assert!(!FencePath::exact("a").overlaps(&dir));
}

#[test]
fn a_directory_is_fenced_with_what_lies_below_it() {
    let dir = Inode { key: "a/".to_string(), parent: 1, kind: EntryKind::Dir, size: 0, mtime_secs: 0 };
    let file = Inode { key: "a".to_string(), parent: 1, kind: EntryKind::File, size: 0, mtime_secs: 0 };
    let below = FencePath::exact("a/b/c");
    assert!(fence_path_for_inode(&dir).overlaps(&below));
    assert!(!fence_path_for_inode(&file).overlaps(&below));
}
