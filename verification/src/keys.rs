//! Object keys seen as paths.
//!
//! The bucket root is the empty key, every other directory key ends with `/`,
//! and a file key does not.

use vstd::prelude::*;
use crate::text;
use crate::text::{chars_of, has_last, joined, same_text, text_of};

verus! {

broadcast use vstd::string::group_string_axioms;

/// `key` without one leading slash.
pub open spec fn without_leading_slash(key: Seq<char>) -> Seq<char> {
    if key.len() > 0 && key[0] == '/' {
        key.skip(1)
    } else {
        key
    }
}

/// `key` without one trailing slash.
pub open spec fn without_trailing_slash(key: Seq<char>) -> Seq<char> {
    if text::ends_with(key, '/') {
        key.drop_last()
    } else {
        key
    }
}

/// The listing prefix of a directory.
pub open spec fn dir_key_of(key: Seq<char>) -> Seq<char> {
    let bare = without_leading_slash(key);
    if bare.len() == 0 || text::ends_with(bare, '/') {
        bare
    } else {
        bare.push('/')
    }
}

/// A directory prefix is the bucket root or ends with a slash.
pub open spec fn is_dir_key(key: Seq<char>) -> bool {
    key.len() == 0 || text::ends_with(key, '/')
}

/// What follows the last slash; all of it where there is none.
pub open spec fn after_last_slash(key: Seq<char>) -> Seq<char>
    decreases key.len(),
{
    if key.len() == 0 || key.last() == '/' {
        Seq::empty()
    } else {
        after_last_slash(key.drop_last()).push(key.last())
    }
}

/// The name of the entry a key stands for.
pub open spec fn name_of(key: Seq<char>) -> Seq<char> {
    after_last_slash(without_trailing_slash(key))
}

/// The key of an entry inside a directory.
pub open spec fn child_of(dir_key: Seq<char>, name: Seq<char>, is_dir: bool) -> Seq<char> {
    if is_dir {
        (dir_key + name).push('/')
    } else {
        dir_key + name
    }
}

/// A name that one directory entry can carry.
pub open spec fn is_entry_name(name: Seq<char>) -> bool {
    name.len() > 0 && !name.contains('/')
}

/// Where a key goes when the directory holding it moves.
pub open spec fn moved_key(key: Seq<char>, from: Seq<char>, to: Seq<char>) -> Option<Seq<char>> {
    if from.is_prefix_of(key) {
        Some(to + key.skip(from.len() as int))
    } else {
        None
    }
}

/// Normalizes a directory key to the form used as a listing prefix: the
/// bucket root is `""` and every other directory ends with `/`.
pub fn normalize_dir_key(key: &str) -> (dir_key: String)
    ensures
        dir_key@ == dir_key_of(key@),
{
    let length: usize = key.unicode_len();
    let from: usize = if length > 0 && key.get_char(0) == '/' { 1 } else { 0 };
    let bare = key.substring_char(from, length);
    assert(bare@ =~= without_leading_slash(key@));
    let mut dir_key = bare.to_owned();
    if from < length && !has_last(bare, '/') {
        dir_key.push('/');
    }
    dir_key
}

/// Last path component of a key. Directory keys carry a trailing slash that is
/// not part of the name.
pub fn entry_name(key: &str) -> (name: &str)
    ensures
        name@ == name_of(key@),
{
    let chars = chars_of(key);
    let mut end: usize = chars.len();
    if end > 0 && chars[end - 1] == '/' {
        end = end - 1;
    }
    let ghost trimmed = without_trailing_slash(key@);
    assert(trimmed =~= chars@.take(end as int));
    let mut start: usize = end;
    assert(trimmed.subrange(end as int, end as int) =~= Seq::<char>::empty());
    assert(after_last_slash(trimmed) =~= after_last_slash(trimmed.take(end as int)) + trimmed.subrange(end as int, end as int)) by {
        assert(trimmed.take(end as int) =~= trimmed);
    }
    while start > 0 && chars[start - 1] != '/'
        invariant
            start <= end <= chars@.len(),
            chars@ == key@,
            trimmed == chars@.take(end as int),
            after_last_slash(trimmed) == after_last_slash(trimmed.take(start as int)) + trimmed.subrange(start as int, end as int),
        decreases start,
    {
        assert(trimmed.take(start as int).drop_last() =~= trimmed.take(start - 1));
        assert(after_last_slash(trimmed.take(start - 1)).push(trimmed[start - 1]) + trimmed.subrange(start as int, end as int)
            =~= after_last_slash(trimmed.take(start - 1)) + trimmed.subrange(start - 1, end as int));
        start = start - 1;
    }
    assert(after_last_slash(trimmed) =~= trimmed.subrange(start as int, end as int));
    assert(key@.subrange(start as int, end as int) =~= trimmed.subrange(start as int, end as int));
    key.substring_char(start, end)
}

/// Key of `name` inside the directory `dir_key` (which is `""` or ends with `/`).
pub fn child_key(dir_key: &str, name: &str, is_dir: bool) -> (key: String)
    ensures
        key@ == child_of(dir_key@, name@, is_dir),
{
    let mut key = joined(dir_key, name);
    if is_dir {
        key.push('/');
    }
    key
}

/// New key for `key` when the directory `from_prefix` is renamed to `to_prefix`,
/// or `None` when the key is not under that directory.
pub fn rewrite_key(key: &str, from_prefix: &str, to_prefix: &str) -> (rewritten: Option<String>)
    ensures
        rewritten is Some <==> moved_key(key@, from_prefix@, to_prefix@) is Some,
        rewritten matches Some(text) ==> text@ == moved_key(key@, from_prefix@, to_prefix@)->0,
{
    match text::without_prefix(key, from_prefix) {
        Some(rest) => Some(joined(to_prefix, rest.as_str())),
        None => None,
    }
}

/// Bytes that stand for themselves in an encoded path segment.
pub open spec fn is_unreserved(byte: u8) -> bool {
    ||| 0x30 <= byte <= 0x39
    ||| 0x41 <= byte <= 0x5a
    ||| 0x61 <= byte <= 0x7a
    ||| byte == 0x2d
    ||| byte == 0x2e
    ||| byte == 0x5f
    ||| byte == 0x7e
}

/// The upper-case base-sixteen digit of a value below sixteen.
pub open spec fn upper_digit(value: int) -> char {
    if value < 10 {
        (0x30 + value) as char
    } else {
        (0x41 + value - 10) as char
    }
}

/// One byte, percent-encoded unless it stands for itself.
pub open spec fn percent_byte(byte: u8) -> Seq<char> {
    if is_unreserved(byte) {
        seq![byte as char]
    } else {
        seq!['%', upper_digit(byte as int / 16), upper_digit(byte as int % 16)]
    }
}

/// Bytes, percent-encoded one by one.
pub open spec fn percent_encoded(bytes: Seq<u8>) -> Seq<char>
    decreases bytes.len(),
{
    if bytes.len() == 0 {
        Seq::empty()
    } else {
        percent_byte(bytes[0]) + percent_encoded(bytes.skip(1))
    }
}

/// A path segment as it stands in a copy source.
pub open spec fn encoded_segment(segment: Seq<char>) -> Seq<char> {
    percent_encoded(vstd::utf8::encode_utf8(segment))
}

/// How many characters stand before the first slash.
pub open spec fn segment_length(path: Seq<char>) -> nat
    decreases path.len(),
{
    if path.len() == 0 || path[0] == '/' {
        0
    } else {
        1 + segment_length(path.skip(1))
    }
}

/// A path with each of its segments encoded and each led by a slash.
pub open spec fn encoded_path(path: Seq<char>) -> Seq<char>
    decreases path.len(),
{
    let length = segment_length(path) as int;
    if length >= path.len() {
        seq!['/'] + encoded_segment(path)
    } else {
        seq!['/'] + encoded_segment(path.take(length)) + encoded_path(path.skip(length + 1))
    }
}

/// `urlencoding::encode` keeps ASCII letters, digits and `-`, `_`, `.`, `~`
/// and writes every other byte of the text's UTF-8 form as `%` and two
/// upper-case hexadecimal digits.
#[verifier::external_body]
pub(crate) fn encode_segment(segment: &str) -> (encoded: String)
    ensures
        encoded@ == encoded_segment(segment@),
{
    urlencoding::encode(segment).into_owned()
}

proof fn segment_length_is_the_first_slash(path: Seq<char>, length: int)
    requires
        0 <= length <= path.len(),
        forall|i: int| 0 <= i < length ==> path[i] != '/',
        length == path.len() || path[length] == '/',
    ensures
        segment_length(path) == length,
    decreases path.len(),
{
    if length > 0 {
        segment_length_is_the_first_slash(path.skip(1), length - 1);
    }
}

/// Value for the `x-amz-copy-source` header.
///
/// The value goes into the header as it stands and is URL-decoded by the
/// store, so the encoding is done here: an unescaped `%` or `+` changes which
/// object is copied. Slashes stay literal: they separate the bucket from the
/// key and the key's own path components.
pub fn encode_copy_source(bucket: &str, key: &str) -> (source: String)
    ensures
        source@ == bucket@ + encoded_path(key@),
{
    let chars = chars_of(key);
    let mut source = bucket.to_owned();
    let mut start: usize = 0;
    assert(key@.skip(0) =~= key@);
    loop
        invariant
            chars@ == key@,
            start <= chars@.len(),
            source@ + encoded_path(key@.skip(start as int)) == bucket@ + encoded_path(key@),
        decreases chars@.len() - start,
    {
        let mut end: usize = start;
        while end < chars.len() && chars[end] != '/'
            invariant
                start <= end <= chars@.len(),
                forall|i: int| start <= i < end ==> chars@[i] != '/',
            decreases chars@.len() - end,
        {
            end = end + 1;
        }
        let segment = text_of(&chars, start, end);
        let encoded = encode_segment(segment.as_str());
        let ghost rest = key@.skip(start as int);
        let ghost before = source@;
        proof {
            segment_length_is_the_first_slash(rest, end - start);
            assert(rest.take(end - start) =~= segment@);
        }
        source.push('/');
        source.append(encoded.as_str());
        if end == chars.len() {
            assert(segment@ =~= rest);
            assert(source@ =~= before + encoded_path(rest));
            return source;
        }
        assert(rest.skip(end - start + 1) =~= key@.skip(end + 1));
        assert(source@ + encoded_path(key@.skip(end + 1)) =~= before + encoded_path(rest));
        start = end + 1;
    }
}

/// Whether a listing page taken under `dir_key` shows nothing besides the
/// directory's own folder marker.
pub fn dir_listing_is_empty(dir_key: &str, keys: &[&str], common_prefixes: usize) -> (empty: bool)
    ensures
        empty <==> common_prefixes == 0 && forall|i: int| 0 <= i < keys@.len() ==> (#[trigger] keys@[i])@ == dir_key@,
{
    if common_prefixes != 0 {
        return false;
    }
    let mut i: usize = 0;
    while i < keys.len()
        invariant
            i <= keys@.len(),
            forall|j: int| 0 <= j < i ==> (#[trigger] keys@[j])@ == dir_key@,
        decreases keys@.len() - i,
    {
        if !same_text(keys[i], dir_key) {
            return false;
        }
        i = i + 1;
    }
    true
}

proof fn a_slash_free_tail_is_the_last_component(head: Seq<char>, tail: Seq<char>)
    requires
        is_dir_key(head),
        !tail.contains('/'),
    ensures
        after_last_slash(head + tail) == tail,
    decreases tail.len(),
{
    let whole = head + tail;
    if tail.len() == 0 {
        assert(whole =~= head);
        assert(after_last_slash(whole) =~= tail);
    } else {
        assert(whole.drop_last() =~= head + tail.drop_last());
        assert(whole.last() == tail.last());
        assert(tail.contains(tail.last()));
        assert forall|c: char| tail.drop_last().contains(c) implies tail.contains(c) by {
            let i = choose|i: int| 0 <= i < tail.drop_last().len() && tail.drop_last()[i] == c;
            assert(tail[i] == c);
        }
        a_slash_free_tail_is_the_last_component(head, tail.drop_last());
        assert(after_last_slash(whole) =~= tail);
    }
}

/// A name is part of its key.
pub proof fn a_name_is_no_longer_than_its_key(key: Seq<char>)
    ensures
        name_of(key).len() <= without_trailing_slash(key).len(),
{
    the_last_component_is_no_longer(without_trailing_slash(key));
}

proof fn the_last_component_is_no_longer(key: Seq<char>)
    ensures
        after_last_slash(key).len() <= key.len(),
    decreases key.len(),
{
    if key.len() > 0 && key.last() != '/' {
        the_last_component_is_no_longer(key.drop_last());
    }
}

/// An entry keeps its name in the key it is given, as a file and as a
/// directory.
pub proof fn a_child_key_carries_its_name(dir_key: Seq<char>, name: Seq<char>, is_dir: bool)
    requires
        is_dir_key(dir_key),
        is_entry_name(name),
    ensures
        name_of(child_of(dir_key, name, is_dir)) == name,
{
    let bare = dir_key + name;
    assert(bare.last() == name.last());
    assert(name.contains(name.last()));
    assert(bare.push('/').drop_last() =~= bare);
    a_slash_free_tail_is_the_last_component(dir_key, name);
}

/// The keys of two entries of one directory are the same only if the entries
/// have the same name and kind.
pub proof fn child_keys_are_distinct(dir_key: Seq<char>, name: Seq<char>, is_dir: bool, other: Seq<char>, other_is_dir: bool)
    requires
        is_dir_key(dir_key),
        is_entry_name(name),
        is_entry_name(other),
        child_of(dir_key, name, is_dir) == child_of(dir_key, other, other_is_dir),
    ensures
        name == other,
        is_dir == other_is_dir,
{
    a_child_key_carries_its_name(dir_key, name, is_dir);
    a_child_key_carries_its_name(dir_key, other, other_is_dir);
    assert(child_of(dir_key, name, is_dir).len() == child_of(dir_key, other, other_is_dir).len());
}

/// A directory prefix is always the root or ends with a slash.
pub proof fn a_normalized_key_is_a_directory_key(key: Seq<char>)
    ensures
        is_dir_key(dir_key_of(key)),
{
}

/// Normalizing a second time changes nothing, unless the key began with two
/// slashes.
pub proof fn normalizing_twice_changes_nothing(key: Seq<char>)
    requires
        !(key.len() >= 2 && key[0] == '/' && key[1] == '/'),
    ensures
        dir_key_of(dir_key_of(key)) == dir_key_of(key),
{
}

/// Renaming a directory there and back gives every key back.
pub proof fn a_rename_back_restores_the_key(key: Seq<char>, from: Seq<char>, to: Seq<char>)
    requires
        moved_key(key, from, to) is Some,
    ensures
        moved_key(moved_key(key, from, to)->0, to, from) == Some(key),
{
    let moved = to + key.skip(from.len() as int);
    assert(to =~= moved.subrange(0, to.len() as int));
    assert(moved.skip(to.len() as int) =~= key.skip(from.len() as int));
    assert(from + key.skip(from.len() as int) =~= key);
}

/// A rename never lets two keys fall together.
pub proof fn a_rename_keeps_keys_apart(key: Seq<char>, other: Seq<char>, from: Seq<char>, to: Seq<char>)
    requires
        moved_key(key, from, to) is Some,
        moved_key(other, from, to) == moved_key(key, from, to),
    ensures
        key == other,
{
    a_rename_back_restores_the_key(key, from, to);
    a_rename_back_restores_the_key(other, from, to);
}

/// The value of a hexadecimal digit.
pub open spec fn digit_value(character: char) -> int {
    if (character as int) < 0x41 {
        character as int - 0x30
    } else {
        character as int - 0x41 + 10
    }
}

/// Percent-decoding: `%` and two digits stand for one byte, any other
/// character for itself.
pub open spec fn percent_decoded(text: Seq<char>) -> Seq<u8>
    decreases text.len(),
{
    if text.len() == 0 {
        Seq::empty()
    } else if text[0] == '%' && text.len() >= 3 {
        seq![(digit_value(text[1]) * 16 + digit_value(text[2])) as u8] + percent_decoded(text.skip(3))
    } else {
        seq![text[0] as u8] + percent_decoded(text.skip(1))
    }
}

proof fn decoding_undoes_encoding(bytes: Seq<u8>, tail: Seq<char>)
    ensures
        percent_decoded(percent_encoded(bytes) + tail) == bytes + percent_decoded(tail),
    decreases bytes.len(),
{
    if bytes.len() == 0 {
        assert(percent_encoded(bytes) + tail =~= tail);
        assert(bytes + percent_decoded(tail) =~= percent_decoded(tail));
    } else {
        let byte = bytes[0];
        let rest = bytes.skip(1);
        let whole = percent_encoded(bytes) + tail;
        let after = percent_encoded(rest) + tail;
        decoding_undoes_encoding(rest, tail);
        assert(whole =~= percent_byte(byte) + after);
        if is_unreserved(byte) {
            assert(whole[0] == byte as char);
            assert(whole.skip(1) =~= after);
            assert(whole[0] as u8 == byte);
        } else {
            assert(whole[0] == '%');
            let high = byte as int / 16;
            let low = byte as int % 16;
            assert(0 <= high < 16 && 0 <= low < 16);
            assert(whole[1] == upper_digit(high) && whole[2] == upper_digit(low));
            assert(digit_value(upper_digit(high)) == high);
            assert(digit_value(upper_digit(low)) == low);
            assert(high * 16 + low == byte);
            assert(whole.skip(3) =~= after);
        }
        assert(percent_decoded(whole) =~= seq![byte] + percent_decoded(after));
        assert(seq![byte] + (rest + percent_decoded(tail)) =~= bytes + percent_decoded(tail));
    }
}

proof fn encoding_to_bytes_joins(a: Seq<char>, b: Seq<char>)
    ensures
        vstd::utf8::encode_utf8(a + b) == vstd::utf8::encode_utf8(a) + vstd::utf8::encode_utf8(b),
    decreases a.len(),
{
    if a.len() == 0 {
        assert(a + b =~= b);
        assert(vstd::utf8::encode_utf8(a) =~= Seq::<u8>::empty());
    } else {
        assert((a + b).drop_first() =~= a.drop_first() + b);
        encoding_to_bytes_joins(a.drop_first(), b);
        assert((a + b)[0] == a[0]);
    }
    assert(vstd::utf8::encode_utf8(a + b) =~= vstd::utf8::encode_utf8(a) + vstd::utf8::encode_utf8(b));
}

proof fn a_slash_is_one_byte()
    ensures
        vstd::utf8::encode_utf8(seq!['/']) == seq![0x2fu8],
{
    reveal_with_fuel(vstd::utf8::encode_utf8, 3);
    assert(vstd::utf8::is_ascii_chars(seq!['/']));
    vstd::utf8::is_ascii_chars_encode_utf8(seq!['/']);
    assert(vstd::utf8::encode_utf8(seq!['/']) =~= seq![0x2fu8]);
}

proof fn an_encoded_path_decodes(path: Seq<char>)
    ensures
        percent_decoded(encoded_path(path)) == vstd::utf8::encode_utf8(seq!['/'] + path),
    decreases path.len(),
{
    let length = segment_length(path) as int;
    let slash = seq!['/'];
    a_slash_is_one_byte();
    let last = length >= path.len();
    let segment = if last { path } else { path.take(length) };
    let bytes = vstd::utf8::encode_utf8(segment);
    let tail = if last { Seq::<char>::empty() } else { encoded_path(path.skip(length + 1)) };
    let whole = encoded_path(path);
    assert(whole =~= slash + (encoded_segment(segment) + tail));
    assert(whole.skip(1) =~= encoded_segment(segment) + tail);
    decoding_undoes_encoding(bytes, tail);
    assert(percent_decoded(whole) =~= seq![0x2fu8] + (bytes + percent_decoded(tail)));
    encoding_to_bytes_joins(slash, segment);
    if last {
        assert(percent_decoded(tail) =~= Seq::<u8>::empty());
        assert(percent_decoded(whole) =~= vstd::utf8::encode_utf8(slash + path));
    } else {
        let rest = path.skip(length + 1);
        the_segment_ends_at_a_slash(path);
        an_encoded_path_decodes(rest);
        encoding_to_bytes_joins(slash + segment, slash + rest);
        assert(slash + path =~= (slash + segment) + (slash + rest));
        assert(percent_decoded(whole) =~= vstd::utf8::encode_utf8(slash + path));
    }
}

proof fn the_segment_ends_at_a_slash(path: Seq<char>)
    ensures
        segment_length(path) <= path.len(),
        segment_length(path) < path.len() ==> path[segment_length(path) as int] == '/',
    decreases path.len(),
{
    if path.len() > 0 && path[0] != '/' {
        the_segment_ends_at_a_slash(path.skip(1));
    }
}

/// Decoding a copy source gives back exactly the key that it was made for.
pub proof fn a_copy_source_decodes_to_its_key(key: Seq<char>)
    ensures
        vstd::utf8::decode_utf8(percent_decoded(encoded_path(key))) == seq!['/'] + key,
{
    an_encoded_path_decodes(key);
    vstd::utf8::encode_utf8_decode_utf8(seq!['/'] + key);
}

/// Two keys never share a copy source.
pub proof fn copy_sources_keep_keys_apart(key: Seq<char>, other: Seq<char>)
    requires
        encoded_path(key) == encoded_path(other),
    ensures
        key == other,
{
    a_copy_source_decodes_to_its_key(key);
    a_copy_source_decodes_to_its_key(other);
    assert((seq!['/'] + key).skip(1) =~= key);
    assert((seq!['/'] + other).skip(1) =~= other);
}

/// A key is normalised by at most one slash in front and one behind; the
/// bucket root is the empty key.
pub proof fn a_directory_key_gains_only_slashes(key: Seq<char>)
    ensures
        dir_key_of(Seq::empty()) == Seq::<char>::empty(),
        key.len() > 0 && key[0] != '/' && key.last() == '/' ==> dir_key_of(key) == key,
        key.len() > 0 && key[0] != '/' && key.last() != '/' ==> dir_key_of(key) == key.push('/'),
        dir_key_of(seq!['/'] + key) == if key.len() == 0 || key.last() == '/' {
            key
        } else {
            key.push('/')
        },
{
    let slashed = seq!['/'] + key;
    assert(slashed[0] == '/');
    assert(slashed.skip(1) =~= key);
}

/// The name of an entry is what follows the last slash before its end: of a
/// file what follows its directory, of a directory the same without the slash
/// behind it.
pub proof fn a_key_ends_in_its_name(dir_key: Seq<char>, name: Seq<char>)
    requires
        is_dir_key(dir_key),
        is_entry_name(name),
    ensures
        name_of(dir_key + name) == name,
        name_of((dir_key + name).push('/')) == name,
        child_of(dir_key, name, false) == dir_key + name,
        child_of(dir_key, name, true) == (dir_key + name).push('/'),
{
    a_child_key_carries_its_name(dir_key, name, false);
    a_child_key_carries_its_name(dir_key, name, true);
}

/// What lies under a directory moves with it and keeps what follows the
/// directory; what does not lie under it does not move.
pub proof fn a_moved_key_keeps_its_rest(from: Seq<char>, to: Seq<char>, rest: Seq<char>, other: Seq<char>)
    requires
        !from.is_prefix_of(other),
    ensures
        moved_key(from + rest, from, to) == Some(to + rest),
        moved_key(other, from, to) is None,
{
    assert((from + rest).subrange(0, from.len() as int) =~= from);
    assert((from + rest).skip(from.len() as int) =~= rest);
}

/// Letters, digits and four marks stand for themselves in a copy source;
/// every other byte becomes a percent sign and two upper-case digits.
pub proof fn a_byte_is_encoded_unless_it_is_plain(byte: u8)
    ensures
        percent_byte(byte).len() == 1 <==> ('0' as u8 <= byte <= '9' as u8) || ('A' as u8 <= byte <= 'Z' as u8) || ('a' as u8 <= byte <= 'z' as u8)
            || byte == '-' as u8 || byte == '.' as u8 || byte == '_' as u8 || byte == '~' as u8,
        percent_byte(byte).len() == 1 ==> percent_byte(byte)[0] == byte as char,
        percent_byte(byte).len() == 1 || percent_byte(byte).len() == 3,
        percent_byte(byte).len() == 3 ==> percent_byte(byte)[0] == '%',
{
}

} // verus!
