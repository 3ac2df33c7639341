use r2_mount::keys::{child_key, dir_listing_is_empty, encode_copy_source, entry_name, normalize_dir_key, rewrite_key};

// ---- key normalization ----

#[test]
fn root_normalizes_to_the_empty_prefix() {
    assert_eq!(normalize_dir_key(""), "");
    assert_eq!(normalize_dir_key("/"), "");
}

#[test]
fn directory_keys_always_end_with_a_single_slash() {
    assert_eq!(normalize_dir_key("photos"), "photos/");
    assert_eq!(normalize_dir_key("photos/"), "photos/");
    assert_eq!(normalize_dir_key("/photos"), "photos/");
    assert_eq!(normalize_dir_key("a/b/c"), "a/b/c/");
    assert_eq!(normalize_dir_key("a/b/c/"), "a/b/c/");
}

#[test]
fn entry_names_drop_the_parent_path_and_trailing_slash() {
    assert_eq!(entry_name("photos/"), "photos");
    assert_eq!(entry_name("a/b/c/"), "c");
    assert_eq!(entry_name("a/b/note.txt"), "note.txt");
    assert_eq!(entry_name("note.txt"), "note.txt");
    assert_eq!(entry_name(""), "");
    // A key ending in "//" names an entry with an empty name, which cannot
    // be represented over NFS and is filtered out of listings.
    assert_eq!(entry_name("a//"), "");
}

#[test]
fn child_keys_compose_from_the_parent_prefix() {
    assert_eq!(child_key("", "photos", true), "photos/");
    assert_eq!(child_key("", "note.txt", false), "note.txt");
    assert_eq!(child_key("a/b/", "c", true), "a/b/c/");
    assert_eq!(child_key("a/b/", "note.txt", false), "a/b/note.txt");
}

#[test]
fn normalized_dir_key_round_trips_through_child_key() {
    let dir = normalize_dir_key("photos");
    let nested = child_key(&dir, "2024", true);
    assert_eq!(nested, "photos/2024/");
    assert_eq!(normalize_dir_key(&nested), nested);
    assert_eq!(entry_name(&nested), "2024");
}

#[test]
fn only_one_leading_slash_is_dropped() {
    assert_eq!(normalize_dir_key("//"), "/");
    assert_eq!(normalize_dir_key("//a"), "/a/");
    assert_eq!(normalize_dir_key("a//"), "a//");
}

#[test]
fn a_child_key_gives_its_name_back() {
    for name in ["note.txt", "照片", "a b", "..."] {
        for is_dir in [true, false] {
            assert_eq!(entry_name(&child_key("x/y/", name, is_dir)), name);
        }
    }
}

#[test]
fn children_of_one_directory_have_keys_of_their_own() {
    assert_ne!(child_key("a/", "x", true), child_key("a/", "x", false));
    assert_ne!(child_key("a/", "x", true), child_key("a/", "y", true));
}

// ---- copy source encoding ----

#[test]
fn a_copy_source_keeps_its_path_separators_and_escapes_the_rest() {
    assert_eq!(encode_copy_source("photos", "a/b/note.txt"), "photos/a/b/note.txt");
    // A trailing slash is a folder marker and must survive as a separator.
    assert_eq!(encode_copy_source("photos", "a/b/"), "photos/a/b/");
}

#[test]
fn a_copy_source_escapes_what_s3_would_otherwise_decode() {
    // Every one of these means something else after S3 URL-decodes it.
    assert_eq!(encode_copy_source("b", "my file.txt"), "b/my%20file.txt");
    assert_eq!(encode_copy_source("b", "a+b.txt"), "b/a%2Bb.txt");
    assert_eq!(encode_copy_source("b", "100%.txt"), "b/100%25.txt");
    assert_eq!(encode_copy_source("b", "a?b=c"), "b/a%3Fb%3Dc");
    // A non-ASCII key is not a legal header value unescaped at all.
    assert_eq!(encode_copy_source("b", "照片.jpg"), "b/%E7%85%A7%E7%89%87.jpg");
}

#[test]
fn a_copy_source_decodes_back_to_its_key() {
    for key in ["a/b c/d+e", "100%/照片.jpg", "", "/", "a//b", "%2F"] {
        let source = encode_copy_source("bucket", key);
        let path = source.strip_prefix("bucket/").expect("the bucket comes first");
        assert_eq!(urlencoding::decode(path).expect("valid text"), key);
    }
}

#[test]
fn copy_sources_of_different_keys_differ() {
    assert_ne!(encode_copy_source("b", "a b"), encode_copy_source("b", "a+b"));
    assert_ne!(encode_copy_source("b", "a/b"), encode_copy_source("b", "a%2Fb"));
}

// ---- rename key rewriting ----

#[test]
fn renaming_a_directory_rewrites_only_its_own_subtree() {
    assert_eq!(rewrite_key("a/b/note.txt", "a/", "c/").as_deref(), Some("c/b/note.txt"));
    assert_eq!(rewrite_key("a/", "a/", "c/").as_deref(), Some("c/"));
    assert_eq!(rewrite_key("other/note.txt", "a/", "c/"), None);
    // A shared string prefix is not a shared path prefix.
    assert_eq!(rewrite_key("ab/note.txt", "a/", "c/"), None);
}

#[test]
fn renaming_there_and_back_restores_the_key() {
    let there = rewrite_key("a/b/note.txt", "a/", "c/d/").expect("inside");
    assert_eq!(there, "c/d/b/note.txt");
    assert_eq!(rewrite_key(&there, "c/d/", "a/").as_deref(), Some("a/b/note.txt"));
}

// ---- directory emptiness ----

#[test]
fn a_directory_holding_only_its_marker_is_empty() {
    assert!(dir_listing_is_empty("a/b/", &["a/b/"], 0));
    assert!(dir_listing_is_empty("a/b/", &[], 0));
}

#[test]
fn a_directory_with_a_file_or_a_subdirectory_is_not_empty() {
    assert!(!dir_listing_is_empty("a/b/", &["a/b/", "a/b/note.txt"], 0));
    assert!(!dir_listing_is_empty("a/b/", &["a/b/note.txt"], 0));
    // A subdirectory shows up as a common prefix, never as a key.
    assert!(!dir_listing_is_empty("a/b/", &["a/b/"], 1));
}
