use r2_mount::key_map::KeyMap;
use r2_mount::paths::{file_name, place_inside, with_extension};
use r2_mount::text::{
    decimal_text, has_only_blanks, has_prefix, has_suffix, hexadecimal_text, joined, parse_number, sorts_before, text_order, without_prefix,
    TextOrder,
};

#[test]
fn text_is_ordered_as_its_bytes_are() {
    let words = ["", "a", "a!", "a/", "ab", "b", "z", "é", "中", "\u{ffff}", "\u{10000}"];
    for a in words {
        for b in words {
            assert_eq!(sorts_before(a, b), a < b, "{} {}", a, b);
        }
    }
    assert!(matches!(text_order("a", "a"), TextOrder::Same));
}

#[test]
fn numbers_are_written_and_read_back() {
    for number in [0, 7, 10, 4096, u64::MAX] {
        assert_eq!(decimal_text(number), format!("{}", number));
        assert_eq!(parse_number(&decimal_text(number)), Some(number));
        assert_eq!(hexadecimal_text(number, 16), format!("{:016x}", number));
    }
    for bad in ["", "-1", "1a", "18446744073709551616"] {
        assert_eq!(parse_number(bad), None, "{}", bad);
    }
    assert_eq!(parse_number("+5"), "+5".parse::<u64>().ok());
    assert_eq!(parse_number("007"), Some(7));
}

#[test]
fn pieces_of_text_are_found() {
    assert!(has_prefix("ab", "a") && !has_prefix("ab", "b"));
    assert!(has_suffix("ab", "b") && has_suffix("ab", "") && !has_suffix("b", "ab"));
    assert_eq!(without_prefix("a/b", "a/").as_deref(), Some("b"));
    assert_eq!(without_prefix("a", "b"), None);
    assert_eq!(joined("a", "b"), "ab");
    for text in ["", " ", "\t\n", "\u{a0}", "\u{3000}", "x", " x"] {
        assert_eq!(has_only_blanks(text), text.trim().is_empty(), "{:?}", text);
    }
}

#[test]
fn a_map_keeps_its_keys_in_order() {
    let mut map: KeyMap<u32> = KeyMap::new();
    for (place, key) in ["b", "a", "c", "b"].iter().enumerate() {
        map.insert(key.to_string(), place as u32);
    }
    assert_eq!(map.len(), 3);
    assert_eq!(map.get("b"), Some(&3));
    assert_eq!(map.key_at(0), "a");
    assert_eq!(*map.value_at(1), 3);
    assert_eq!(map.remove("c"), Some(2));
    assert_eq!(map.remove("c"), None);
    assert!(!map.contains_key("c"));
    assert_eq!(map.take_first(), ("a".to_string(), 1));
    assert_eq!(map.len(), 1);
}

#[test]
fn paths_are_taken_apart_as_std_does() {
    for path in ["/s/7.data", "7.data", "/s/7", "/s/.hidden", "/s/a.b.c", "/s/x.", "/", "", "..", "/s/..", "/s/a/", "/s/a/."] {
        let std_path = std::path::Path::new(path);
        assert_eq!(file_name(path).as_deref(), std_path.file_name().and_then(|name| name.to_str()), "{}", path);
        assert_eq!(with_extension(path, "stage.json"), std_path.with_extension("stage.json").to_str().unwrap(), "{}", path);
    }
    for folder in ["/s", "/s/", "s", ""] {
        assert_eq!(place_inside(folder, "x"), std::path::Path::new(folder).join("x").to_str().unwrap(), "{}", folder);
    }
}
