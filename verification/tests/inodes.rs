use r2_mount::inode_table::{
    attr_of, child_name, inode_matches_child, parent_key, staged_attr, EntryKind, FileAttributes, FileType, InodeTable, MountOwner,
    DIR_SIZE, ROOT_ID,
};
use r2_mount::operations::{move_directory, rename_keys};
use r2_mount::status::NfsStatus;

#[test]
fn a_file_rename_keeps_its_id_and_leaves_no_stale_key_behind() {
    let mut table = InodeTable::new();
    let dir = table.intern("photos/", ROOT_ID, EntryKind::Dir, DIR_SIZE, 0);
    let id = table.intern("note.txt", ROOT_ID, EntryKind::File, 10, 5);

    table.rekey(id, "photos/renamed.txt", dir);

    assert_eq!(table.id_of("photos/renamed.txt"), Some(id));
    assert_eq!(table.id_of("note.txt"), None);
    let inode = table.get(id).expect("inode");
    assert_eq!(inode.key, "photos/renamed.txt");
    assert_eq!(inode.parent, dir);
    // The client keeps its file handle across a rename, so the id must not
    // change.
    assert_eq!(table.intern("photos/renamed.txt", dir, EntryKind::File, 10, 5), id);
}

#[test]
fn a_directory_rename_rewrites_every_key_underneath_it() {
    let mut table = InodeTable::new();
    let dir = table.intern("a/", ROOT_ID, EntryKind::Dir, DIR_SIZE, 0);
    let sub = table.intern("a/b/", dir, EntryKind::Dir, DIR_SIZE, 0);
    let file = table.intern("a/b/note.txt", sub, EntryKind::File, 3, 0);
    let outside = table.intern("z/note.txt", ROOT_ID, EntryKind::File, 3, 0);

    let moved = table.rekey_prefix("a/", "c/");
    assert_eq!(moved, 3, "the directory and everything under it");

    assert_eq!(table.get(dir).expect("dir").key, "c/");
    assert_eq!(table.get(sub).expect("sub").key, "c/b/");
    assert_eq!(table.get(file).expect("file").key, "c/b/note.txt");
    assert_eq!(table.get(outside).expect("outside").key, "z/note.txt");

    // The reverse map has to agree, or a later listing would mint a second
    // id for a key that already has one.
    assert_eq!(table.id_of("c/b/note.txt"), Some(file));
    assert_eq!(table.id_of("a/b/note.txt"), None);
    assert_eq!(table.id_of("a/"), None);
    assert_eq!(table.key_count(), table.inode_count());
}

#[test]
fn a_rename_into_a_new_parent_updates_the_reverse_map_consistently() {
    let mut table = InodeTable::new();
    let from = table.intern("from/", ROOT_ID, EntryKind::Dir, DIR_SIZE, 0);
    let to = table.intern("to/", ROOT_ID, EntryKind::Dir, DIR_SIZE, 0);
    let file = table.intern("from/note.txt", from, EntryKind::File, 1, 0);

    table.rekey(file, "to/note.txt", to);

    assert_eq!(table.key_count(), table.inode_count());
    let keys = ["", "from/", "to/", "to/note.txt"];
    assert_eq!(table.key_count(), keys.len());
    for key in keys {
        let id = table.id_of(key).expect("every key is in the reverse map");
        assert_eq!(
            table.get(id).expect("inode").key,
            key,
            "the two maps disagree about {}",
            key
        );
    }
}

#[test]
fn root_is_id_one_and_its_own_parent() {
    let table = InodeTable::new();
    let root = table.get(ROOT_ID).expect("root inode");
    assert_eq!(ROOT_ID, 1);
    assert_eq!(root.key, "");
    assert_eq!(root.parent, ROOT_ID);
    assert_eq!(root.kind, EntryKind::Dir);
}

#[test]
fn ids_are_stable_across_relisting_and_attrs_refresh() {
    let mut table = InodeTable::new();
    let first = table.intern("a/note.txt", ROOT_ID, EntryKind::File, 10, 100);
    let second = table.intern("a/note.txt", ROOT_ID, EntryKind::File, 42, 200);

    assert_eq!(first, second, "re-listing must not renumber a known key");
    let inode = table.get(first).expect("inode");
    assert_eq!(inode.size, 42);
    assert_eq!(inode.mtime_secs, 200);
}

#[test]
fn a_flushed_upload_refreshes_the_cached_size() {
    let mut table = InodeTable::new();
    let id = table.intern("note.txt", ROOT_ID, EntryKind::File, 0, 0);
    table.set_attrs(id, 4096, 900);

    let inode = table.get(id).expect("inode");
    assert_eq!(inode.size, 4096);
    assert_eq!(inode.mtime_secs, 900);
}

#[test]
fn distinct_keys_get_distinct_monotonic_ids() {
    let mut table = InodeTable::new();
    let a = table.intern("a/", ROOT_ID, EntryKind::Dir, DIR_SIZE, 0);
    let b = table.intern("b/", ROOT_ID, EntryKind::Dir, DIR_SIZE, 0);
    let c = table.intern("a/x.txt", a, EntryKind::File, 1, 0);

    assert_ne!(a, b);
    assert_ne!(b, c);
    assert!(a > ROOT_ID && b > a && c > b);
    assert_eq!(table.get(c).expect("inode").parent, a);
}

#[test]
fn a_file_and_a_directory_of_the_same_name_are_separate_inodes() {
    let mut table = InodeTable::new();
    let file = table.intern("x", ROOT_ID, EntryKind::File, 3, 0);
    let dir = table.intern("x/", ROOT_ID, EntryKind::Dir, DIR_SIZE, 0);
    assert_ne!(file, dir);
}

#[test]
fn parenting_is_updated_when_a_key_is_re_interned() {
    let mut table = InodeTable::new();
    let dir = table.intern("a/", ROOT_ID, EntryKind::Dir, DIR_SIZE, 0);
    let id = table.intern("a/x.txt", ROOT_ID, EntryKind::File, 1, 0);
    table.intern("a/x.txt", dir, EntryKind::File, 1, 0);
    assert_eq!(table.get(id).expect("inode").parent, dir);
}

#[test]
fn a_retired_id_is_stale_and_one_never_given_out_is_absent() {
    let mut table = InodeTable::new();
    let id = table.intern("note.txt", ROOT_ID, EntryKind::File, 1, 0);
    table.remove(id);
    assert!(table.get(id).is_none());
    assert_eq!(table.inode(id).err(), Some(NfsStatus::Stale));
    assert_eq!(table.inode(id + 1).err(), Some(NfsStatus::NoEnt));
    assert_eq!(table.inode(0).err(), Some(NfsStatus::NoEnt));
    // A name that comes back gets a new id.
    let again = table.intern("note.txt", ROOT_ID, EntryKind::File, 1, 0);
    assert!(again > id);
    assert_eq!(table.dir_inode(again).err(), Some(NfsStatus::NotDir));
    assert_eq!(table.dir_inode(ROOT_ID).expect("root").key, "");
}

#[test]
fn a_moved_directory_keeps_every_handle_below_it() {
    let mut table = InodeTable::new();
    let target = table.intern("t/", ROOT_ID, EntryKind::Dir, DIR_SIZE, 0);
    let dir = table.intern("a/", ROOT_ID, EntryKind::Dir, DIR_SIZE, 0);
    let file = table.intern("a/n", dir, EntryKind::File, 3, 0);
    let moved = move_directory(&mut table, dir, "a/", "t/b/", target);
    assert_eq!(moved.len(), 2);
    assert!(moved.contains(&dir) && moved.contains(&file));
    assert_eq!(table.id_of("t/b/"), Some(dir));
    assert_eq!(table.id_of("t/b/n"), Some(file));
    assert_eq!(table.get(dir).expect("dir").parent, target);
    assert_eq!(table.get(file).expect("file").parent, dir);
}

#[test]
fn the_directories_a_rename_touches_are_both_parents_and_all_below() {
    let mut table = InodeTable::new();
    let a = table.intern("a/", ROOT_ID, EntryKind::Dir, DIR_SIZE, 0);
    let sub = table.intern("a/b/", a, EntryKind::Dir, DIR_SIZE, 0);
    let inner = table.intern("a/b/c/", sub, EntryKind::Dir, DIR_SIZE, 0);
    let other = table.intern("o/", ROOT_ID, EntryKind::Dir, DIR_SIZE, 0);
    let affected = table.rename_affected_dirs("a/b/", "o/b/");
    for id in [a, sub, inner, other] {
        assert!(affected.contains(&id), "{}", id);
    }
    assert!(!affected.contains(&ROOT_ID));
}

#[test]
fn parents_are_found_in_keys() {
    assert_eq!(parent_key("a/b/c"), "a/b/");
    assert_eq!(parent_key("a/b/"), "a/");
    assert_eq!(parent_key("a"), "");
    assert_eq!(parent_key("a/"), "");
}

#[test]
fn names_that_would_leave_their_directory_are_refused() {
    assert_eq!(child_name(b"note.txt").expect("valid"), "note.txt");
    assert_eq!(child_name("照片".as_bytes()).expect("valid"), "照片");
    for bad in ["", ".", "..", "a/b", "/"] {
        assert_eq!(child_name(bad.as_bytes()).err(), Some(NfsStatus::Inval), "{}", bad);
    }
    assert_eq!(child_name(&[0xff, 0xfe]).err(), Some(NfsStatus::Inval));
}

#[test]
fn a_child_is_matched_by_parent_and_key() {
    let mut table = InodeTable::new();
    let dir = table.intern("a/", ROOT_ID, EntryKind::Dir, DIR_SIZE, 0);
    let id = table.intern("a/x", dir, EntryKind::File, 1, 0);
    let inode = table.inode(id).expect("known");
    assert!(inode_matches_child(dir, "a/", "x", &inode));
    assert!(!inode_matches_child(dir, "a/", "y", &inode));
    assert!(!inode_matches_child(ROOT_ID, "a/", "x", &inode));
    let moved = rename_keys(&inode, "b/", "z").expect("a real move");
    assert_eq!(moved.from, "a/x");
    assert_eq!(moved.to, "b/z");
    assert!(rename_keys(&inode, "a/", "x").is_none());
}

#[test]
fn attributes_tell_files_from_directories() {
    let mut table = InodeTable::new();
    let owner = MountOwner { uid: 501, gid: 20, fsid: 3 };
    let id = table.intern("x", ROOT_ID, EntryKind::File, 7, 9);
    let inode = table.inode(id).expect("known");
    let file = attr_of(owner, id, &inode);
    assert_eq!(
        file,
        FileAttributes {
            file_type: FileType::Regular,
            mode: 0o644,
            nlink: 1,
            uid: 501,
            gid: 20,
            size: 7,
            used: 7,
            fsid: 3,
            fileid: id,
            time_secs: 9,
        }
    );
    assert_eq!(staged_attr(owner, id, &inode, 70, 90), FileAttributes { size: 70, used: 70, time_secs: 90, ..file });
    let root = table.inode(ROOT_ID).expect("root");
    let dir = attr_of(owner, ROOT_ID, &root);
    assert_eq!(dir.file_type, FileType::Directory);
    assert_eq!((dir.mode, dir.nlink, dir.size), (0o755, 2, DIR_SIZE));
}
