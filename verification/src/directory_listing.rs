//! Incremental directory generations over delimiter-based listing.
//!
//! A provider returns a directory in pages, ordered by raw key: a file `n` as
//! `n`, a directory `n` as `n/`. The client wants names in name order, in
//! which `n/` counts as `n`. The two orders differ where a name holds a
//! character below `/`, so names are held back until no later page can bring
//! one that sorts before them.

use vstd::prelude::*;
use crate::inode_table;
use crate::inode_table::{EntryKind, InodeTable, DIR_SIZE};
use crate::key_map;
use crate::key_map::KeyMap;
use crate::keys;
use crate::keys::child_key;
use crate::status::NfsStatus;
use crate::text;
use crate::text::{chars_of, has_char, has_last, same_text, sorts_before, without_prefix};

verus! {

broadcast use vstd::string::group_string_axioms;

/// How long a directory listing is served before it is fetched again.
pub const DIR_CACHE_TTL_MS: u64 = 30_000;

/// Keys asked for in one listing request.
pub const LIST_PAGE_SIZE: i32 = 1000;

/// A raw key without the delimiter that marks a directory. `/` alone is kept:
/// it is an unrepresentable empty directory name, but a real watermark.
pub open spec fn undelimited(raw: Seq<char>) -> Seq<char> {
    if text::ends_with(raw, '/') && raw.len() > 1 {
        raw.drop_last()
    } else {
        raw
    }
}

/// The first place from `start` on that holds a character below `/`; the
/// length where there is none.
pub open spec fn ordinary_length(name: Seq<char>, start: int) -> int
    decreases name.len() - start,
{
    if start >= name.len() {
        name.len() as int
    } else if (name[start] as int) < ('/' as int) {
        start
    } else {
        ordinary_length(name, start + 1)
    }
}

/// The longest beginning of the watermark's name that no directory still to
/// come can sort before.
pub open spec fn frontier_of(raw_watermark: Seq<char>) -> Seq<char> {
    let name = undelimited(raw_watermark);
    name.take(ordinary_length(name, 1))
}

/// The raw key under which a provider lists an entry.
pub open spec fn raw_key(name: Seq<char>, is_dir: bool) -> Seq<char> {
    if is_dir {
        name.push('/')
    } else {
        name
    }
}

proof fn ordinary_length_is_in_range(name: Seq<char>, start: int)
    requires
        1 <= start,
    ensures
        0 <= ordinary_length(name, start) <= name.len(),
        start <= name.len() ==> start <= ordinary_length(name, start),
        forall|i: int| start <= i < ordinary_length(name, start) ==> (name[i] as int) >= ('/' as int),
    decreases name.len() - start,
{
    if start < name.len() && (name[start] as int) >= ('/' as int) {
        ordinary_length_is_in_range(name, start + 1);
    }
}

/// No name that a later page can bring sorts before the frontier.
pub proof fn later_names_do_not_precede_the_frontier(raw_watermark: Seq<char>, name: Seq<char>, is_dir: bool)
    requires
        name.len() > 0,
        text::precedes(raw_watermark, raw_key(name, is_dir)),
    ensures
        !text::precedes(name, frontier_of(raw_watermark)),
{
    let frontier = frontier_of(raw_watermark);
    let raw = raw_key(name, is_dir);
    ordinary_length_is_in_range(undelimited(raw_watermark), 1);
    assert(frontier =~= raw_watermark.take(frontier.len() as int));
    if text::precedes(name, frontier) {
        let i = choose|i: int| text::smaller_at(name, frontier, i);
        text::precedes_is_asymmetric(raw_watermark, raw);
        assert(frontier[i] == raw_watermark[i]);
        if i < name.len() || !is_dir {
            assert(text::smaller_at(raw, raw_watermark, i));
        } else if raw_watermark[i] == '/' {
            if raw.len() == raw_watermark.len() {
                assert(raw =~= raw_watermark);
            } else {
                assert(text::smaller_at(raw, raw_watermark, raw.len() as int));
            }
        } else {
            assert(text::smaller_at(raw, raw_watermark, i));
        }
    }
}

/// A future common prefix can sort before an already received file when its
/// trailing slash is removed. For example `a!`, `a#`, ... precede `a/` in key
/// order, but the eventual directory `a` precedes all of them in name order.
/// The frontier is the earliest such ambiguous prefix; with only ordinary
/// letters it is simply the last name.
pub fn safe_name_frontier(raw_watermark: &str) -> (frontier: &str)
    ensures
        frontier@ == frontier_of(raw_watermark@),
{
    let chars = chars_of(raw_watermark);
    let mut length: usize = chars.len();
    if length > 1 && chars[length - 1] == '/' {
        length = length - 1;
    }
    let ghost name = undelimited(raw_watermark@);
    assert(name =~= chars@.take(length as int));
    let mut end: usize = 1;
    while end < length && chars[end] >= '/'
        invariant
            chars@ == raw_watermark@,
            length <= chars@.len(),
            name == chars@.take(length as int),
            1 <= end,
            end <= length || length == 0 && end == 1,
            ordinary_length(name, 1) == ordinary_length(name, end as int),
        decreases length - end,
    {
        end = end + 1;
    }
    if end > length {
        end = length;
    }
    assert(raw_watermark@.subrange(0, end as int) =~= frontier_of(raw_watermark@));
    raw_watermark.substring_char(0, end)
}

/// What a listing says of one entry.
#[derive(Clone, Copy, Debug, PartialEq, Eq, Structural)]
pub struct EntryAttributes {
    pub kind: EntryKind,
    pub size: u64,
    pub mtime_secs: u32,
}

/// What is said of every directory.
pub open spec fn directory_attributes() -> EntryAttributes {
    EntryAttributes { kind: EntryKind::Dir, size: DIR_SIZE, mtime_secs: 0 }
}

/// One object of a listing page, as the provider sent it.
pub struct ListedObject {
    pub key: Option<String>,
    pub size: Option<i64>,
    pub modified_secs: Option<i64>,
}

/// One listing page, as the provider sent it.
pub struct ListedPage {
    pub common_prefixes: Vec<Option<String>>,
    pub contents: Vec<ListedObject>,
    pub is_truncated: Option<bool>,
    pub next_continuation_token: Option<String>,
}

/// Seconds since the epoch, cut to what a file time can hold.
pub open spec fn clamped_seconds(seconds: int) -> u32 {
    if seconds < 0 {
        0
    } else if seconds > u32::MAX {
        u32::MAX
    } else {
        seconds as u32
    }
}

/// Seconds since the epoch, cut to what a file time can hold.
pub fn mtime_from_seconds(seconds: i64) -> (mtime: u32)
    ensures
        mtime == clamped_seconds(seconds as int),
{
    if seconds < 0 {
        0
    } else if seconds > u32::MAX as i64 {
        u32::MAX
    } else {
        seconds as u32
    }
}

/// The directory name that a common prefix stands for.
pub open spec fn prefix_name(prefix: Option<Seq<char>>, dir_key: Seq<char>) -> Option<Seq<char>> {
    match prefix {
        Some(full) => {
            let relative = full.skip(dir_key.len() as int);
            if dir_key.is_prefix_of(full) && text::ends_with(relative, '/') && !relative.drop_last().contains('/') {
                Some(relative.drop_last())
            } else {
                None
            }
        },
        None => None,
    }
}

/// What an object stands for inside a directory.
pub ghost enum Listed {
    /// It has no business on this page.
    Invalid,
    /// It is the directory's own marker.
    Marker,
    /// An entry under this raw key.
    Entry { raw: Seq<char>, attributes: EntryAttributes },
}

/// What an object stands for inside a directory.
pub open spec fn listed(object: ListedObject, dir_key: Seq<char>) -> Listed {
    match object.key {
        Some(text) => {
            let key = text@;
            let relative = key.skip(dir_key.len() as int);
            if key == dir_key {
                Listed::Marker
            } else if !dir_key.is_prefix_of(key) || keys::without_trailing_slash(relative).contains('/') {
                Listed::Invalid
            } else if text::ends_with(relative, '/') {
                Listed::Entry { raw: relative, attributes: directory_attributes() }
            } else {
                match object.size {
                    Some(size) => if size >= 0 {
                        Listed::Entry {
                            raw: relative,
                            attributes: EntryAttributes {
                                kind: EntryKind::File,
                                size: size as u64,
                                mtime_secs: clamped_seconds(
                                    match object.modified_secs {
                                        Some(seconds) => seconds as int,
                                        None => 0,
                                    },
                                ),
                            },
                        }
                    } else {
                        Listed::Invalid
                    },
                    None => Listed::Invalid,
                }
            }
        },
        None => Listed::Invalid,
    }
}

/// The raw entries that common prefixes stand for.
pub open spec fn raw_of_prefixes(prefixes: Seq<Option<String>>, dir_key: Seq<char>) -> Map<Seq<char>, EntryAttributes>
    decreases prefixes.len(),
{
    if prefixes.len() == 0 {
        Map::empty()
    } else {
        raw_of_prefixes(prefixes.drop_last(), dir_key).insert(
            prefix_name(text::optional(prefixes.last()), dir_key)->0.push('/'),
            directory_attributes(),
        )
    }
}

/// `raw` with the entries that objects stand for, later ones first.
pub open spec fn raw_with_objects(
    raw: Map<Seq<char>, EntryAttributes>,
    objects: Seq<ListedObject>,
    dir_key: Seq<char>,
) -> Map<Seq<char>, EntryAttributes>
    decreases objects.len(),
{
    if objects.len() == 0 {
        raw
    } else {
        let before = raw_with_objects(raw, objects.drop_last(), dir_key);
        match listed(objects.last(), dir_key) {
            Listed::Entry { raw: key, attributes } => before.insert(key, attributes),
            _ => before,
        }
    }
}

/// The raw entries of a page.
pub open spec fn raw_entries(page: ListedPage, dir_key: Seq<char>) -> Map<Seq<char>, EntryAttributes> {
    raw_with_objects(raw_of_prefixes(page.common_prefixes@, dir_key), page.contents@, dir_key)
}

/// The entries by name: where a name stands for both a file and a directory,
/// the directory is shown. A raw key with an empty name cannot be shown.
pub open spec fn by_name(raw: Map<Seq<char>, EntryAttributes>) -> Map<Seq<char>, EntryAttributes> {
    Map::new(
        |name: Seq<char>| keys::is_entry_name(name) && (raw.contains_key(name) || raw.contains_key(name.push('/'))),
        |name: Seq<char>| if raw.contains_key(name.push('/')) { raw[name.push('/')] } else { raw[name] },
    )
}

/// Every row of the page belongs to the directory, and a truncated page says
/// where to go on.
pub open spec fn is_valid_page(page: ListedPage, dir_key: Seq<char>) -> bool {
    &&& forall|i: int| 0 <= i < page.common_prefixes@.len() ==> prefix_name(
        text::optional(#[trigger] page.common_prefixes@[i]),
        dir_key,
    ) is Some
    &&& forall|i: int| 0 <= i < page.contents@.len() ==> !(listed(#[trigger] page.contents@[i], dir_key) is Invalid)
    &&& page.is_truncated == Some(true) ==> page.next_continuation_token is Some && page.next_continuation_token->0@.len() > 0
}

/// Where the listing goes on after this page.
pub open spec fn continuation_of(page: ListedPage) -> Option<Seq<char>> {
    if page.is_truncated == Some(true) {
        text::optional(page.next_continuation_token)
    } else {
        None
    }
}

/// A page as this directory's listing takes it in.
pub struct ProviderPage {
    pub entries: KeyMap<EntryAttributes>,
    pub first_key: Option<String>,
    pub last_key: Option<String>,
    pub continuation: Option<String>,
}

/// `first` is the smallest key of `raw`.
pub open spec fn is_first(raw: Map<Seq<char>, EntryAttributes>, first: Option<Seq<char>>) -> bool {
    match first {
        Some(key) => raw.contains_key(key) && forall|other: Seq<char>| #[trigger] raw.contains_key(other) ==> text::precedes_or_same(key, other),
        None => forall|other: Seq<char>| !#[trigger] raw.contains_key(other),
    }
}

/// `last` is the largest key of `raw`.
pub open spec fn is_last(raw: Map<Seq<char>, EntryAttributes>, last: Option<Seq<char>>) -> bool {
    match last {
        Some(key) => raw.contains_key(key) && forall|other: Seq<char>| #[trigger] raw.contains_key(other) ==> text::precedes_or_same(other, key),
        None => forall|other: Seq<char>| !#[trigger] raw.contains_key(other),
    }
}

/// The smallest key of a finite map.
pub open spec fn first_of(raw: Map<Seq<char>, EntryAttributes>) -> Option<Seq<char>> {
    let sorted = key_map::sorted_entries(raw);
    if sorted.len() == 0 {
        None
    } else {
        Some(sorted[0].0)
    }
}

/// The largest key of a finite map.
pub open spec fn last_of(raw: Map<Seq<char>, EntryAttributes>) -> Option<Seq<char>> {
    let sorted = key_map::sorted_entries(raw);
    if sorted.len() == 0 {
        None
    } else {
        Some(sorted.last().0)
    }
}

/// Raw keys are names without a slash, with one behind them for directories.
pub open spec fn is_raw(raw: Map<Seq<char>, EntryAttributes>) -> bool {
    forall|key: Seq<char>| #[trigger] raw.contains_key(key) ==> {
        &&& key.len() > 0
        &&& !keys::without_trailing_slash(key).contains('/')
        &&& raw[key].kind == EntryKind::Dir <==> text::ends_with(key, '/')
    }
}

impl ProviderPage {
    /// What the page was made of.
    pub open spec fn holds(&self, raw: Map<Seq<char>, EntryAttributes>) -> bool {
        &&& self.entries.well_formed()
        &&& self.entries@ == by_name(raw)
        &&& is_first(raw, text::optional(self.first_key))
        &&& is_last(raw, text::optional(self.last_key))
        &&& text::optional(self.first_key) == first_of(raw)
        &&& text::optional(self.last_key) == last_of(raw)
        &&& is_raw(raw)
        &&& raw.dom().finite()
    }

    /// The page was made of some raw keys.
    pub open spec fn well_formed(&self) -> bool {
        exists|raw: Map<Seq<char>, EntryAttributes>| self.holds(raw)
    }

    fn raw_prefixes(response: &ListedPage, dir_key: &str) -> (raw: Option<KeyMap<EntryAttributes>>)
        ensures
            raw is Some <==> forall|i: int| 0 <= i < response.common_prefixes@.len() ==> prefix_name(
                text::optional(#[trigger] response.common_prefixes@[i]),
                dir_key@,
            ) is Some,
            raw matches Some(map) ==> map.well_formed() && map@ == raw_of_prefixes(response.common_prefixes@, dir_key@) && is_raw(map@),
    {
        let mut raw: KeyMap<EntryAttributes> = KeyMap::new();
        let mut i: usize = 0;
        while i < response.common_prefixes.len()
            invariant
                i <= response.common_prefixes@.len(),
                raw.well_formed(),
                raw@ == raw_of_prefixes(response.common_prefixes@.take(i as int), dir_key@),
                is_raw(raw@),
                forall|j: int| 0 <= j < i ==> prefix_name(text::optional(#[trigger] response.common_prefixes@[j]), dir_key@) is Some,
            decreases response.common_prefixes@.len() - i,
        {
            let relative = match &response.common_prefixes[i] {
                Some(prefix) => without_prefix(prefix.as_str(), dir_key),
                None => None,
            };
            let relative = match relative {
                Some(relative) => relative,
                None => {
                    assert(prefix_name(text::optional(response.common_prefixes@[i as int]), dir_key@) is None);
                    return None;
                },
            };
            let length: usize = relative.as_str().unicode_len();
            if !has_last(relative.as_str(), '/') {
                assert(prefix_name(text::optional(response.common_prefixes@[i as int]), dir_key@) is None);
                return None;
            }
            let name = relative.as_str().substring_char(0, length - 1);
            assert(name@ =~= relative@.drop_last());
            if has_char(name, '/') {
                assert(prefix_name(text::optional(response.common_prefixes@[i as int]), dir_key@) is None);
                return None;
            }
            assert(name@.push('/') =~= relative@);
            assert(prefix_name(text::optional(response.common_prefixes@[i as int]), dir_key@) == Some(name@));
            raw.insert(relative, EntryAttributes { kind: EntryKind::Dir, size: DIR_SIZE, mtime_secs: 0 });
            assert(response.common_prefixes@.take(i + 1).drop_last() =~= response.common_prefixes@.take(i as int));
            i = i + 1;
        }
        assert(response.common_prefixes@.take(i as int) =~= response.common_prefixes@);
        Some(raw)
    }

    fn add_objects(response: &ListedPage, dir_key: &str, raw: KeyMap<EntryAttributes>) -> (all: Option<KeyMap<EntryAttributes>>)
        requires
            raw.well_formed(),
            is_raw(raw@),
        ensures
            all is Some <==> forall|i: int| 0 <= i < response.contents@.len() ==> !(listed(#[trigger] response.contents@[i], dir_key@) is Invalid),
            all matches Some(map) ==> map.well_formed() && map@ == raw_with_objects(raw@, response.contents@, dir_key@) && is_raw(map@),
    {
        let ghost start = raw@;
        let mut raw = raw;
        let mut i: usize = 0;
        while i < response.contents.len()
            invariant
                i <= response.contents@.len(),
                raw.well_formed(),
                raw@ == raw_with_objects(start, response.contents@.take(i as int), dir_key@),
                is_raw(raw@),
                forall|j: int| 0 <= j < i ==> !(listed(#[trigger] response.contents@[j], dir_key@) is Invalid),
            decreases response.contents@.len() - i,
        {
            let object = &response.contents[i];
            assert(response.contents@.take(i + 1).drop_last() =~= response.contents@.take(i as int));
            assert(response.contents@.take(i + 1).last() == response.contents@[i as int]);
            let key = match &object.key {
                Some(key) => key,
                None => {
                    assert(listed(response.contents@[i as int], dir_key@) is Invalid);
                    return None;
                },
            };
            if same_text(key.as_str(), dir_key) {
                i = i + 1;
                continue;
            }
            let relative = match without_prefix(key.as_str(), dir_key) {
                Some(relative) => relative,
                None => {
                    assert(listed(response.contents@[i as int], dir_key@) is Invalid);
                    return None;
                },
            };
            let length: usize = relative.as_str().unicode_len();
            assert(length > 0) by {
                if length == 0 {
                    assert(key@ =~= dir_key@);
                }
            }
            let is_dir = has_last(relative.as_str(), '/');
            let name = relative.as_str().substring_char(0, if is_dir { length - 1 } else { length });
            assert(name@ =~= keys::without_trailing_slash(relative@));
            if has_char(name, '/') {
                assert(listed(response.contents@[i as int], dir_key@) is Invalid);
                return None;
            }
            let attributes = if is_dir {
                EntryAttributes { kind: EntryKind::Dir, size: DIR_SIZE, mtime_secs: 0 }
            } else {
                let size: i64 = match object.size {
                    Some(size) => size,
                    None => {
                        assert(listed(response.contents@[i as int], dir_key@) is Invalid);
                        return None;
                    },
                };
                if size < 0 {
                    assert(listed(response.contents@[i as int], dir_key@) is Invalid);
                    return None;
                }
                let seconds: i64 = match object.modified_secs {
                    Some(seconds) => seconds,
                    None => 0,
                };
                EntryAttributes { kind: EntryKind::File, size: size as u64, mtime_secs: mtime_from_seconds(seconds) }
            };
            assert(listed(response.contents@[i as int], dir_key@) == (Listed::Entry { raw: relative@, attributes }));
            raw.insert(relative, attributes);
            i = i + 1;
        }
        assert(response.contents@.take(i as int) =~= response.contents@);
        Some(raw)
    }

    fn named(raw: &KeyMap<EntryAttributes>) -> (entries: KeyMap<EntryAttributes>)
        requires
            raw.well_formed(),
            is_raw(raw@),
        ensures
            entries.well_formed(),
            entries@ == by_name(raw@),
    {
        let ghost all = raw.entries();
        let mut entries: KeyMap<EntryAttributes> = KeyMap::new();
        let mut i: usize = 0;
        proof {
            assert(key_map::map_of(all.take(0)) =~= Map::<Seq<char>, EntryAttributes>::empty());
            assert(entries@ =~= by_name(key_map::map_of(all.take(0))));
        }
        while i < raw.len()
            invariant
                raw.well_formed(),
                is_raw(raw@),
                all == raw.entries(),
                i <= all.len(),
                entries.well_formed(),
                entries@ == by_name(key_map::map_of(all.take(i as int))),
            decreases all.len() - i,
        {
            let key = raw.key_at(i);
            let attributes = *raw.value_at(i);
            let ghost taken = key_map::map_of(all.take(i as int));
            let ghost more = key_map::map_of(all.take(i + 1));
            proof {
                key_map::taking_one_more(all, i as int);
                key_map::the_map_holds_each_entry(all, i as int);
            }
            let length: usize = key.as_str().unicode_len();
            let is_dir = has_last(key.as_str(), '/');
            let name = key.as_str().substring_char(0, if is_dir { length - 1 } else { length });
            assert(name@ =~= keys::without_trailing_slash(key@));
            assert(key@ =~= raw_key(name@, is_dir));
            let ghost before = entries@;
            if !name.is_empty() && (is_dir || !entries.contains_key(name)) {
                entries.insert(name.to_owned(), attributes);
            }
            proof {
                assert forall|n: Seq<char>| #[trigger] by_name(more).contains_key(n) <==> by_name(taken).contains_key(n) || (n == name@ && name@.len() > 0) by {
                    assert(n.push('/').drop_last() =~= n);
                    if n.push('/') == key@ {
                        assert(n =~= name@);
                    }
                }
                assert forall|n: Seq<char>| #[trigger] by_name(more).contains_key(n) implies by_name(more)[n] == entries@[n] by {
                    assert(n.push('/').drop_last() =~= n);
                    if n.push('/') == key@ {
                        assert(n =~= name@);
                    }
                    if is_dir && n == name@ {
                        assert(n.push('/') =~= key@);
                    }
                }
                assert(before == by_name(taken));
                assert forall|n: Seq<char>| #[trigger] entries@.contains_key(n) <==> by_name(more).contains_key(n) by {
                    assert(before.contains_key(n) == by_name(taken).contains_key(n));
                    assert(entries@.contains_key(n) <==> before.contains_key(n) || (n == name@ && name@.len() > 0));
                }
                assert(entries@ =~= by_name(more));
            }
            i = i + 1;
        }
        assert(all.take(i as int) =~= all);
        entries
    }

    /// Takes in a page listed under `dir_key`. A page with a row that does not
    /// belong there, or one that is truncated without saying where to go on,
    /// is refused.
    pub fn parse(response: &ListedPage, dir_key: &str) -> (page: Result<Self, NfsStatus>)
        ensures
            page is Ok <==> is_valid_page(*response, dir_key@),
            page matches Err(status) ==> status == NfsStatus::Io,
            page matches Ok(p) ==> {
                &&& p.holds(raw_entries(*response, dir_key@))
                &&& text::optional(p.continuation) == continuation_of(*response)
            },
    {
        let raw = match ProviderPage::raw_prefixes(response, dir_key) {
            Some(raw) => raw,
            None => {
                return Err(NfsStatus::Io);
            },
        };
        let raw = match ProviderPage::add_objects(response, dir_key, raw) {
            Some(raw) => raw,
            None => {
                return Err(NfsStatus::Io);
            },
        };
        let truncated = match response.is_truncated {
            Some(truncated) => truncated,
            None => false,
        };
        let continuation = if truncated {
            match &response.next_continuation_token {
                Some(token) => {
                    if token.as_str().is_empty() {
                        return Err(NfsStatus::Io);
                    }
                    Some(token.clone())
                },
                None => {
                    return Err(NfsStatus::Io);
                },
            }
        } else {
            None
        };
        let ghost all = raw.entries();
        proof {
            raw.keys_are_finite();
        }
        let count: usize = raw.len();
        let first_key = if count > 0 { Some(raw.key_at(0).clone()) } else { None };
        let last_key = if count > 0 { Some(raw.key_at(count - 1).clone()) } else { None };
        proof {
            if count > 0 {
                key_map::the_map_holds_each_entry(all, 0);
                key_map::the_map_holds_each_entry(all, count - 1);
            }
            assert forall|other: Seq<char>| #[trigger] raw@.contains_key(other) implies count > 0 && text::precedes_or_same(
                all[0].0,
                other,
            ) && text::precedes_or_same(other, all[count - 1].0) by {
                let place = key_map::each_key_stands_somewhere(all, other);
            }
        }
        let entries = ProviderPage::named(&raw);
        Ok(ProviderPage { entries, first_key, last_key, continuation })
    }
}

/// One entry that a directory shows.
pub struct DirChild {
    pub fileid: u64,
    pub name: String,
}

impl View for DirChild {
    type V = (u64, Seq<char>);

    open spec fn view(&self) -> (u64, Seq<char>) {
        (self.fileid, self.name@)
    }
}

impl Clone for DirChild {
    fn clone(&self) -> (copy: Self)
        ensures
            copy@ == self@,
    {
        DirChild { fileid: self.fileid, name: self.name.clone() }
    }
}

/// The children, each as its id and name.
pub open spec fn children_view(children: Seq<DirChild>) -> Seq<(u64, Seq<char>)> {
    children.map_values(|child: DirChild| child@)
}

/// The names stand in strictly increasing order.
pub open spec fn in_name_order(children: Seq<(u64, Seq<char>)>) -> bool {
    forall|i: int, j: int| 0 <= i < j < children.len() ==> text::precedes(#[trigger] children[i].1, #[trigger] children[j].1)
}

/// What a listing of one directory has come to.
#[verifier::ext_equal]
pub ghost struct ListingModel {
    /// The entries that were settled, in name order.
    pub children: Seq<(u64, Seq<char>)>,
    /// The directory's key.
    pub key: Seq<char>,
    pub generation: u64,
    pub complete: bool,
    /// Where the listing goes on.
    pub token: Option<Seq<char>>,
    /// Every continuation that was ever handed out.
    pub seen: Set<Seq<char>>,
    /// Names whose kind or order a later page may still change.
    pub pending: Map<Seq<char>, EntryAttributes>,
    /// The last raw key received.
    pub watermark: Option<Seq<char>>,
    pub fetched_at_ms: u64,
    /// The name behind each cookie that was handed out.
    pub cookies: Map<u64, Seq<char>>,
}

/// Names that came with a page, added to those held back: a directory takes
/// the place of a file of the same name.
pub open spec fn merged(
    pending: Map<Seq<char>, EntryAttributes>,
    page: Map<Seq<char>, EntryAttributes>,
) -> Map<Seq<char>, EntryAttributes> {
    Map::new(
        |name: Seq<char>| pending.contains_key(name) || page.contains_key(name),
        |name: Seq<char>|
            if page.contains_key(name) && (page[name].kind == EntryKind::Dir || !pending.contains_key(name)) {
                page[name]
            } else {
                pending[name]
            },
    )
}

/// An entry can be shown: nothing still to come changes it or sorts before
/// it.
pub open spec fn is_ready(complete: bool, watermark: Option<Seq<char>>, name: Seq<char>, kind: EntryKind) -> bool {
    complete || match watermark {
        Some(raw) => text::precedes(name, frontier_of(raw)) || (name == frontier_of(raw) && kind == EntryKind::Dir),
        None => false,
    }
}

/// The inode that a listed entry stands for.
pub open spec fn listed_inode(dirid: u64, dir_key: Seq<char>, name: Seq<char>, attributes: EntryAttributes) -> inode_table::InodeModel {
    inode_table::InodeModel {
        key: keys::child_of(dir_key, name, attributes.kind == EntryKind::Dir),
        parent: dirid,
        kind: attributes.kind,
        size: attributes.size,
        mtime_secs: attributes.mtime_secs,
    }
}

/// The table and the children after entries were given their ids, in order.
pub open spec fn interned_entries(
    table: inode_table::TableModel,
    dirid: u64,
    dir_key: Seq<char>,
    entries: Seq<(Seq<char>, EntryAttributes)>,
) -> (inode_table::TableModel, Seq<(u64, Seq<char>)>)
    decreases entries.len(),
{
    if entries.len() == 0 {
        (table, Seq::empty())
    } else {
        let (before, children) = interned_entries(table, dirid, dir_key, entries.drop_last());
        let inode = listed_inode(dirid, dir_key, entries.last().0, entries.last().1);
        (before.interned(inode), children.push((before.id_for(inode.key), entries.last().0)))
    }
}

proof fn interned_entries_keep_their_names(
    table: inode_table::TableModel,
    dirid: u64,
    dir_key: Seq<char>,
    entries: Seq<(Seq<char>, EntryAttributes)>,
)
    ensures
        interned_entries(table, dirid, dir_key, entries).1.len() == entries.len(),
        forall|i: int| 0 <= i < entries.len() ==> (#[trigger] interned_entries(table, dirid, dir_key, entries).1[i]).1 == entries[i].0,
    decreases entries.len(),
{
    if entries.len() > 0 {
        interned_entries_keep_their_names(table, dirid, dir_key, entries.drop_last());
    }
}

impl ListingModel {
    /// A listing in which nothing was received yet.
    pub open spec fn fresh(key: Seq<char>, generation: u64, now_ms: u64) -> ListingModel {
        ListingModel {
            children: Seq::empty(),
            key,
            generation,
            complete: false,
            token: None,
            seen: Set::empty(),
            pending: Map::empty(),
            watermark: None,
            fetched_at_ms: now_ms,
            cookies: Map::empty(),
        }
    }

    /// Every later raw key comes after all that was received.
    pub open spec fn may_still_come(self, name: Seq<char>, is_dir: bool) -> bool {
        match self.watermark {
            Some(raw) => text::precedes(raw, raw_key(name, is_dir)),
            None => true,
        }
    }

    /// What was shown is in order, and stays so whatever still comes.
    pub open spec fn valid(self) -> bool {
        &&& in_name_order(self.children)
        &&& self.pending.dom().finite()
        &&& forall|i: int| 0 <= i < self.children.len() ==> keys::is_entry_name(#[trigger] self.children[i].1)
        &&& forall|name: Seq<char>| #[trigger] self.pending.contains_key(name) ==> keys::is_entry_name(name)
        &&& forall|i: int, name: Seq<char>|
            0 <= i < self.children.len() && #[trigger] self.pending.contains_key(name) ==> text::precedes(#[trigger] self.children[i].1, name)
        &&& self.complete ==> self.pending == Map::<Seq<char>, EntryAttributes>::empty()
        &&& !self.complete ==> forall|name: Seq<char>| #[trigger] self.pending.contains_key(name) ==> self.watermark is Some
            && text::precedes_or_same(raw_key(name, self.pending[name].kind == EntryKind::Dir), self.watermark->0)
        &&& !self.complete ==> forall|i: int, name: Seq<char>, is_dir: bool|
            0 <= i < self.children.len() && keys::is_entry_name(name) && #[trigger] self.may_still_come(name, is_dir)
                ==> text::precedes(#[trigger] self.children[i].1, name)
        &&& forall|id: u64| #[trigger] self.cookies.contains_key(id) ==> self.children.contains((id, self.cookies[id]))
    }

    /// `next` is the same listing further on: what is shown stays in its place,
    /// and no cookie is taken back.
    pub open spec fn grows_to(self, next: ListingModel) -> bool {
        &&& next.key == self.key
        &&& next.generation == self.generation
        &&& self.children.is_prefix_of(next.children)
        &&& self.cookies.dom().subset_of(next.cookies.dom())
    }

    /// A page cannot follow: it hands out a continuation a second time, or
    /// goes back behind what was received.
    pub open spec fn regresses(self, first_key: Option<Seq<char>>, continuation: Option<Seq<char>>) -> bool {
        ||| continuation is Some && self.seen.contains(continuation->0)
        ||| first_key is Some && self.watermark is Some && text::precedes_or_same(first_key->0, self.watermark->0)
    }

    /// The listing can answer for `dir_key` now.
    pub open spec fn is_fresh(self, dir_key: Seq<char>, now_ms: u64) -> bool {
        self.key == dir_key && now_ms < self.fetched_at_ms + DIR_CACHE_TTL_MS
    }

    /// The listing holds what a reader asked for.
    pub open spec fn is_enough(self, after: Option<Seq<char>>, all: bool) -> bool {
        self.complete || (!all && resume_point(self.children, after) < self.children.len())
    }

    /// The id that a shown name stands for.
    pub open spec fn id_of(self, name: Seq<char>) -> u64 {
        choose|id: u64| self.children.contains((id, name))
    }

    /// Some page received so far returned `name`.
    pub open spec fn mentions(self, name: Seq<char>) -> bool {
        is_shown(self.children, name) || self.pending.contains_key(name)
    }

    /// Where a page that starts after `after` ends.
    pub open spec fn page_stop(self, after: Option<Seq<char>>, max_entries: usize) -> int {
        let wanted = resume_point(self.children, after) + (if max_entries == 0 { 1int } else { max_entries as int });
        if wanted < self.children.len() {
            wanted
        } else {
            self.children.len() as int
        }
    }

    /// The entries of the page that starts after `after`.
    pub open spec fn page(self, after: Option<Seq<char>>, max_entries: usize) -> Seq<(u64, Seq<char>)> {
        self.children.subrange(resume_point(self.children, after), self.page_stop(after, max_entries))
    }

    /// The page reaches the end of what was received.
    pub open spec fn page_reaches_end(self, after: Option<Seq<char>>, max_entries: usize) -> bool {
        self.page_stop(after, max_entries) == self.children.len()
    }

    /// The watermark after a page.
    pub open spec fn next_watermark(self, last_key: Option<Seq<char>>) -> Option<Seq<char>> {
        if last_key is Some {
            last_key
        } else {
            self.watermark
        }
    }
}

/// How many entries from the front can be shown.
pub open spec fn ready_count(entries: Seq<(Seq<char>, EntryAttributes)>, complete: bool, watermark: Option<Seq<char>>) -> int
    decreases entries.len(),
{
    if entries.len() == 0 || !is_ready(complete, watermark, entries[0].0, entries[0].1.kind) {
        0
    } else {
        1 + ready_count(entries.skip(1), complete, watermark)
    }
}

proof fn ready_entries_are_ready(entries: Seq<(Seq<char>, EntryAttributes)>, complete: bool, watermark: Option<Seq<char>>)
    ensures
        0 <= ready_count(entries, complete, watermark) <= entries.len(),
        forall|i: int|
            0 <= i < ready_count(entries, complete, watermark) ==> is_ready(complete, watermark, (#[trigger] entries[i]).0, entries[i].1.kind),
        complete ==> ready_count(entries, complete, watermark) == entries.len(),
    decreases entries.len(),
{
    if entries.len() > 0 && is_ready(complete, watermark, entries[0].0, entries[0].1.kind) {
        let rest = entries.skip(1);
        ready_entries_are_ready(rest, complete, watermark);
        assert forall|i: int| 0 <= i < ready_count(entries, complete, watermark) implies is_ready(
            complete,
            watermark,
            (#[trigger] entries[i]).0,
            entries[i].1.kind,
        ) by {
            if i > 0 {
                assert(entries[i] == rest[i - 1]);
            }
        }
    }
}

proof fn the_ready_count_is_the_first_stop(
    entries: Seq<(Seq<char>, EntryAttributes)>,
    complete: bool,
    watermark: Option<Seq<char>>,
    count: int,
)
    requires
        0 <= count <= entries.len(),
        forall|i: int| 0 <= i < count ==> is_ready(complete, watermark, (#[trigger] entries[i]).0, entries[i].1.kind),
        count == entries.len() || !is_ready(complete, watermark, entries[count].0, entries[count].1.kind),
    ensures
        ready_count(entries, complete, watermark) == count,
    decreases entries.len(),
{
    if count > 0 {
        let rest = entries.skip(1);
        assert forall|i: int| 0 <= i < count - 1 implies is_ready(complete, watermark, (#[trigger] rest[i]).0, rest[i].1.kind) by {
            assert(rest[i] == entries[i + 1]);
        }
        the_ready_count_is_the_first_stop(rest, complete, watermark, count - 1);
    }
}

/// A listing and the inode table after a page was taken in.
pub open spec fn after_page(
    listing: ListingModel,
    table: inode_table::TableModel,
    dirid: u64,
    page: Map<Seq<char>, EntryAttributes>,
    last_key: Option<Seq<char>>,
    continuation: Option<Seq<char>>,
    now_ms: u64,
) -> (ListingModel, inode_table::TableModel) {
    let all = key_map::sorted_entries(merged(listing.pending, page));
    let complete = continuation is None;
    let watermark = listing.next_watermark(last_key);
    let count = ready_count(all, complete, watermark);
    let (table_after, shown) = interned_entries(table, dirid, listing.key, all.take(count));
    let listing_after = ListingModel {
        children: listing.children + shown,
        complete,
        token: continuation,
        seen: if continuation is Some { listing.seen.insert(continuation->0) } else { listing.seen },
        pending: key_map::map_of(all.skip(count)),
        watermark,
        fetched_at_ms: now_ms,
        ..listing
    };
    (listing_after, table_after)
}

/// A page's names, and what the listing knows of them, come from raw keys
/// behind the watermark.
proof fn a_page_lies_behind_the_watermark(
    listing: ListingModel,
    raw: Map<Seq<char>, EntryAttributes>,
    first_key: Option<Seq<char>>,
    last_key: Option<Seq<char>>,
    continuation: Option<Seq<char>>,
    key: Seq<char>,
)
    requires
        is_first(raw, first_key),
        is_last(raw, last_key),
        !listing.regresses(first_key, continuation),
        raw.contains_key(key),
    ensures
        listing.watermark is Some ==> text::precedes(listing.watermark->0, key),
        last_key is Some,
        text::precedes_or_same(key, last_key->0),
{
    if listing.watermark is Some {
        let first = first_key->0;
        text::precedes_is_total(listing.watermark->0, first);
        if first != key {
            text::precedes_is_transitive(listing.watermark->0, first, key);
        }
    }
}

/// What a name is held under was received, at the latest with this page.
proof fn merged_names_were_received(
    listing: ListingModel,
    raw: Map<Seq<char>, EntryAttributes>,
    first_key: Option<Seq<char>>,
    last_key: Option<Seq<char>>,
    continuation: Option<Seq<char>>,
    name: Seq<char>,
)
    requires
        listing.valid(),
        !listing.complete,
        is_raw(raw),
        is_first(raw, first_key),
        is_last(raw, last_key),
        !listing.regresses(first_key, continuation),
        merged(listing.pending, by_name(raw)).contains_key(name),
    ensures
        keys::is_entry_name(name),
        listing.next_watermark(last_key) is Some,
        text::precedes_or_same(
            raw_key(name, merged(listing.pending, by_name(raw))[name].kind == EntryKind::Dir),
            listing.next_watermark(last_key)->0,
        ),
        forall|i: int| 0 <= i < listing.children.len() ==> text::precedes(#[trigger] listing.children[i].1, name),
{
    let page = by_name(raw);
    let all = merged(listing.pending, page);
    let key = raw_key(name, all[name].kind == EntryKind::Dir);
    assert(name.push('/').last() == '/');
    if page.contains_key(name) {
        let listed_key = if raw.contains_key(name.push('/')) { name.push('/') } else { name };
        assert(raw.contains_key(listed_key));
        assert(name.contains('/') || name.last() != '/') by {
            if name.last() == '/' {
                assert(name[name.len() - 1] == '/');
            }
        }
        a_page_lies_behind_the_watermark(listing, raw, first_key, last_key, continuation, listed_key);
        assert(listing.may_still_come(name, listed_key != name));
    }
    if page.contains_key(name) && (page[name].kind == EntryKind::Dir || !listing.pending.contains_key(name)) {
        assert(raw.contains_key(key));
        a_page_lies_behind_the_watermark(listing, raw, first_key, last_key, continuation, key);
    } else {
        assert(listing.pending.contains_key(name));
        if last_key is Some {
            a_page_lies_behind_the_watermark(listing, raw, first_key, last_key, continuation, last_key->0);
            let w = listing.watermark->0;
            if key != w {
                text::precedes_is_transitive(key, w, last_key->0);
            }
        }
    }
}

proof fn names_are_finite(raw: Map<Seq<char>, EntryAttributes>)
    requires
        raw.dom().finite(),
    ensures
        by_name(raw).dom().finite(),
{
    let bare = raw.dom().map(|key: Seq<char>| key);
    let cut = raw.dom().map(|key: Seq<char>| key.drop_last());
    raw.dom().lemma_map_finite(|key: Seq<char>| key);
    raw.dom().lemma_map_finite(|key: Seq<char>| key.drop_last());
    assert(by_name(raw).dom().subset_of(bare.union(cut))) by {
        assert forall|name: Seq<char>| by_name(raw).dom().contains(name) implies bare.union(cut).contains(name) by {
            if raw.contains_key(name.push('/')) {
                assert(name.push('/').drop_last() =~= name);
                assert(raw.dom().contains(name.push('/')));
            } else {
                assert(raw.dom().contains(name));
            }
        }
    }
    vstd::set_lib::lemma_set_subset_finite(bare.union(cut), by_name(raw).dom());
}

/// Whatever pages follow each other without going back, what is shown stays
/// in strict name order, and no later page changes or precedes it. The page
/// that names no continuation ends the listing, and leaves no name held back.
pub proof fn what_is_shown_stays_in_order(
    listing: ListingModel,
    table: inode_table::TableModel,
    dirid: u64,
    raw: Map<Seq<char>, EntryAttributes>,
    first_key: Option<Seq<char>>,
    last_key: Option<Seq<char>>,
    continuation: Option<Seq<char>>,
    now_ms: u64,
)
    requires
        listing.valid(),
        !listing.complete,
        is_raw(raw),
        is_first(raw, first_key),
        is_last(raw, last_key),
        !listing.regresses(first_key, continuation),
        raw.dom().finite(),
    ensures
        after_page(listing, table, dirid, by_name(raw), last_key, continuation, now_ms).0.valid(),
        listing.children.is_prefix_of(after_page(listing, table, dirid, by_name(raw), last_key, continuation, now_ms).0.children),
        ({
            let after = after_page(listing, table, dirid, by_name(raw), last_key, continuation, now_ms).0;
            &&& after.complete <==> continuation is None
            &&& after.complete ==> after.pending == Map::<Seq<char>, EntryAttributes>::empty()
        }),
{
    let page = by_name(raw);
    let m = merged(listing.pending, page);
    let all = key_map::sorted_entries(m);
    names_are_finite(raw);
    assert(m.dom() =~= listing.pending.dom().union(page.dom()));
    key_map::a_finite_map_can_be_sorted(m);
    let complete = continuation is None;
    let watermark = listing.next_watermark(last_key);
    let count = ready_count(all, complete, watermark);
    let shown = interned_entries(table, dirid, listing.key, all.take(count)).1;
    let after = after_page(listing, table, dirid, page, last_key, continuation, now_ms).0;
    ready_entries_are_ready(all, complete, watermark);
    interned_entries_keep_their_names(table, dirid, listing.key, all.take(count));
    key_map::splitting_keeps_order(all, count);
    key_map::the_map_has_one_key_per_entry(all.skip(count));
    assert(listing.children =~= after.children.subrange(0, listing.children.len() as int));
    assert forall|i: int| 0 <= i < all.len() implies m.contains_key((#[trigger] all[i]).0) && m[all[i].0] == all[i].1 by {
        key_map::the_map_holds_each_entry(all, i);
    }
    assert forall|name: Seq<char>| #[trigger] m.contains_key(name) implies keys::is_entry_name(name) && watermark is Some
        && text::precedes_or_same(raw_key(name, m[name].kind == EntryKind::Dir), watermark->0)
        && (forall|i: int| 0 <= i < listing.children.len() ==> text::precedes(#[trigger] listing.children[i].1, name)) by {
        merged_names_were_received(listing, raw, first_key, last_key, continuation, name);
    }
    let old_count = listing.children.len() as int;
    assert forall|i: int| old_count <= i < after.children.len() implies (#[trigger] after.children[i]).1 == all[i - old_count].0 by {
        assert(after.children[i] == shown[i - old_count]);
        assert(all.take(count)[i - old_count] == all[i - old_count]);
    }
    assert forall|i: int, j: int| 0 <= i < j < after.children.len() implies text::precedes(
        #[trigger] after.children[i].1,
        #[trigger] after.children[j].1,
    ) by {
        if j < old_count {
            assert(text::precedes(listing.children[i].1, listing.children[j].1));
        } else if i < old_count {
            assert(m.contains_key(all[j - old_count].0));
            assert(text::precedes(listing.children[i].1, all[j - old_count].0));
        } else {
            assert(text::precedes(all[i - old_count].0, all[j - old_count].0));
        }
    }
    assert forall|i: int, name: Seq<char>| 0 <= i < after.children.len() && #[trigger] after.pending.contains_key(name) implies text::precedes(
        #[trigger] after.children[i].1,
        name,
    ) by {
        assert(m.contains_key(name));
        if i < old_count {
            assert(text::precedes(listing.children[i].1, name));
        } else {
            assert(text::precedes(all[i - old_count].0, name));
        }
    }
    if complete {
        assert(all.skip(count) =~= Seq::<(Seq<char>, EntryAttributes)>::empty());
        assert(after.pending =~= Map::<Seq<char>, EntryAttributes>::empty());
    } else {
        assert forall|i: int, name: Seq<char>, is_dir: bool|
            0 <= i < after.children.len() && keys::is_entry_name(name) && #[trigger] after.may_still_come(name, is_dir) implies text::precedes(
            #[trigger] after.children[i].1,
            name,
        ) by {
            if i < old_count {
                if last_key is Some && listing.watermark is Some {
                    a_page_lies_behind_the_watermark(listing, raw, first_key, last_key, continuation, last_key->0);
                    text::precedes_is_transitive(listing.watermark->0, last_key->0, raw_key(name, is_dir));
                }
                assert(listing.may_still_come(name, is_dir));
            } else {
                let shown_name = all[i - old_count].0;
                let frontier = frontier_of(watermark->0);
                later_names_do_not_precede_the_frontier(watermark->0, name, is_dir);
                text::precedes_is_total(name, frontier);
                assert(is_ready(complete, watermark, shown_name, all[i - old_count].1.kind));
                if text::precedes(shown_name, frontier) {
                    if name != frontier {
                        text::precedes_is_transitive(shown_name, frontier, name);
                    }
                } else {
                    if name == frontier {
                        let dir_key = shown_name.push('/');
                        assert(m.contains_key(shown_name));
                        assert(text::precedes_or_same(dir_key, watermark->0));
                        if dir_key != watermark->0 {
                            text::precedes_is_transitive(dir_key, watermark->0, raw_key(name, is_dir));
                        }
                        assert(shown_name =~= dir_key.subrange(0, shown_name.len() as int));
                        text::a_prefix_never_sorts_after(shown_name, dir_key);
                        text::precedes_is_asymmetric(dir_key, raw_key(name, is_dir));
                    }
                }
            }
        }
    }
    assert forall|id: u64| #[trigger] after.cookies.contains_key(id) implies after.children.contains((id, after.cookies[id])) by {
        let i = choose|i: int| 0 <= i < listing.children.len() && listing.children[i] == (id, listing.cookies[id]);
        assert(after.children[i] == (id, after.cookies[id]));
    }
}

/// How many children from the front have a name up to `after`.
pub open spec fn passed(children: Seq<(u64, Seq<char>)>, after: Seq<char>) -> int
    decreases children.len(),
{
    if children.len() == 0 || text::precedes(after, children[0].1) {
        0
    } else {
        1 + passed(children.skip(1), after)
    }
}

/// Where a continuation resumes in a name-sorted child list.
pub open spec fn resume_point(children: Seq<(u64, Seq<char>)>, after: Option<Seq<char>>) -> int {
    match after {
        None => 0,
        Some(name) => passed(children, name),
    }
}

proof fn the_split_is_where_names_pass(children: Seq<(u64, Seq<char>)>, after: Seq<char>, index: int)
    requires
        0 <= index <= children.len(),
        forall|i: int| 0 <= i < index ==> !text::precedes(after, (#[trigger] children[i]).1),
        index == children.len() || text::precedes(after, children[index].1),
    ensures
        passed(children, after) == index,
    decreases children.len(),
{
    if index > 0 {
        let rest = children.skip(1);
        assert forall|i: int| 0 <= i < index - 1 implies !text::precedes(after, (#[trigger] rest[i]).1) by {
            assert(rest[i] == children[i + 1]);
        }
        the_split_is_where_names_pass(rest, after, index - 1);
    }
}

/// Where a `readdir` continuation resumes in a name-sorted child list.
///
/// The cursor is resolved by name rather than by position so a directory that
/// was re-listed between two calls still resumes at the right place, even if
/// the entry the client last saw has since been deleted.
pub fn resume_index(children: &[DirChild], after_name: Option<&str>) -> (index: usize)
    requires
        in_name_order(children_view(children@)),
    ensures
        index == resume_point(
            children_view(children@),
            match after_name {
                Some(name) => Some(name@),
                None => None,
            },
        ),
        index <= children@.len(),
{
    let name = match after_name {
        Some(name) => name,
        None => {
            return 0;
        },
    };
    let ghost all = children_view(children@);
    let mut low: usize = 0;
    let mut high: usize = children.len();
    while low < high
        invariant
            all == children_view(children@),
            in_name_order(all),
            low <= high <= all.len(),
            all.len() == children@.len(),
            forall|i: int| 0 <= i < low ==> !text::precedes(name@, (#[trigger] all[i]).1),
            forall|i: int| high <= i < all.len() ==> text::precedes(name@, (#[trigger] all[i]).1),
        decreases high - low,
    {
        let middle: usize = low + (high - low) / 2;
        assert(all[middle as int] == children@[middle as int]@);
        if sorts_before(name, children[middle].name.as_str()) {
            assert forall|i: int| middle <= i < all.len() implies text::precedes(name@, (#[trigger] all[i]).1) by {
                if i > middle {
                    text::precedes_is_transitive(name@, all[middle as int].1, all[i].1);
                }
            }
            high = middle;
        } else {
            assert forall|i: int| 0 <= i < middle + 1 implies !text::precedes(name@, (#[trigger] all[i]).1) by {
                if i < middle && text::precedes(name@, all[i].1) {
                    text::precedes_is_transitive(name@, all[i].1, all[middle as int].1);
                }
            }
            low = middle + 1;
        }
    }
    proof {
        the_split_is_where_names_pass(all, name@, low as int);
    }
    low
}

/// End index of the `readdir` page starting at `start`, and whether it reaches
/// the end of the directory.
///
/// `max_entries` is clamped to at least one entry: a page of nothing that is
/// not flagged as the end would make the client re-issue the same cookie
/// forever.
pub fn page_end(total: usize, start: usize, max_entries: usize) -> (page: (usize, bool))
    ensures
        page.0 == (if start + (if max_entries == 0 { 1int } else { max_entries as int }) < total {
            start + (if max_entries == 0 { 1int } else { max_entries as int })
        } else {
            total as int
        }),
        page.1 == (page.0 >= total),
        start < total ==> start < page.0,
{
    let step: usize = if max_entries == 0 { 1 } else { max_entries };
    let end: usize = if start < total && step < total - start { start + step } else { total };
    (end, end >= total)
}

/// A page that does not end the directory, read from a listing that holds
/// enough, carries at least one entry and no more than were asked for.
pub proof fn a_page_before_the_end_has_entries(listing: ListingModel, after: Option<Seq<char>>, max_entries: usize)
    requires
        listing.valid(),
        listing.is_enough(after, false),
        !(listing.page_reaches_end(after, max_entries) && listing.complete),
    ensures
        0 <= resume_point(listing.children, after) < listing.page_stop(after, max_entries) <= listing.children.len(),
        1 <= listing.page(after, max_entries).len(),
        listing.page(after, max_entries).len() <= (if max_entries == 0 {
            1
        } else {
            max_entries
        }),
{
    a_page_starts_within_the_listing(listing, after);
}

/// A reader resumes within what a listing shows.
pub proof fn a_page_starts_within_the_listing(listing: ListingModel, after: Option<Seq<char>>)
    requires
        listing.valid(),
    ensures
        0 <= resume_point(listing.children, after) <= listing.children.len(),
{
    if after is Some {
        names_have_passed(listing.children, after->0);
    }
}

/// A client that resumes after the last entry of a page gets the entry that
/// follows it, also if the listing has grown behind it meanwhile: no entry is
/// shown twice and none is left out.
pub proof fn the_next_page_starts_where_the_last_ended(
    children: Seq<(u64, Seq<char>)>,
    grown: Seq<(u64, Seq<char>)>,
    end: int,
)
    requires
        in_name_order(grown),
        children.is_prefix_of(grown),
        0 < end <= children.len(),
    ensures
        resume_point(grown, Some(children[end - 1].1)) == end,
        resume_point(children, Some(children[end - 1].1)) == end,
{
    let after = children[end - 1].1;
    assert forall|i: int| 0 <= i < children.len() implies children[i] == grown[i] by {
        assert(grown.subrange(0, children.len() as int)[i] == grown[i]);
    }
    assert forall|i: int| 0 <= i < end implies !text::precedes(after, (#[trigger] grown[i]).1) by {
        if i == end - 1 {
            text::precedes_is_irreflexive(after);
        } else {
            text::precedes_is_asymmetric(grown[i].1, grown[end - 1].1);
        }
    }
    if end < grown.len() {
        assert(text::precedes(grown[end - 1].1, grown[end].1));
    }
    the_split_is_where_names_pass(grown, after, end);
    the_split_is_where_names_pass(children, after, end);
}

/// A continuation survives the removal of the entry it points at: it resumes
/// at the first name behind it.
pub proof fn a_continuation_survives_its_entry(children: Seq<(u64, Seq<char>)>, index: int)
    requires
        in_name_order(children),
        0 <= index < children.len(),
    ensures
        resume_point(children.remove(index), Some(children[index].1)) == index,
{
    let left = children.remove(index);
    let after = children[index].1;
    assert forall|i: int| 0 <= i < index implies !text::precedes(after, (#[trigger] left[i]).1) by {
        assert(left[i] == children[i]);
        text::precedes_is_asymmetric(children[i].1, children[index].1);
    }
    if index < left.len() {
        assert(left[index] == children[index + 1]);
        assert(text::precedes(children[index].1, children[index + 1].1));
    }
    the_split_is_where_names_pass(left, after, index);
}

/// The cookies after those of a page were added, in order.
pub open spec fn with_cookies(cookies: Map<u64, Seq<char>>, page: Seq<(u64, Seq<char>)>) -> Map<u64, Seq<char>>
    decreases page.len(),
{
    if page.len() == 0 {
        cookies
    } else {
        with_cookies(cookies, page.drop_last()).insert(page.last().0, page.last().1)
    }
}

/// One accepted page: its raw keys, where the listing goes on, and the inode
/// table that it found.
pub ghost struct PageModel {
    pub raw: Map<Seq<char>, EntryAttributes>,
    pub first_key: Option<Seq<char>>,
    pub last_key: Option<Seq<char>>,
    pub continuation: Option<Seq<char>>,
    pub received_ms: u64,
    pub inodes: inode_table::TableModel,
}

/// A page as the provider sent it, taken in under `dir_key`.
pub open spec fn page_of(response: ListedPage, dir_key: Seq<char>, inodes: inode_table::TableModel, now_ms: u64) -> PageModel {
    let raw = raw_entries(response, dir_key);
    PageModel {
        raw,
        first_key: first_of(raw),
        last_key: last_of(raw),
        continuation: continuation_of(response),
        received_ms: now_ms,
        inodes,
    }
}

impl PageModel {
    /// The raw keys have the shape of a listing, and the first and last are
    /// named.
    pub open spec fn valid(self) -> bool {
        &&& self.raw.dom().finite()
        &&& is_raw(self.raw)
        &&& is_first(self.raw, self.first_key)
        &&& is_last(self.raw, self.last_key)
    }

    /// The listing and the inode table after this page was taken in.
    pub open spec fn taken_in(self, listing: ListingModel, dirid: u64) -> (ListingModel, inode_table::TableModel) {
        after_page(listing, self.inodes, dirid, by_name(self.raw), self.last_key, self.continuation, self.received_ms)
    }

    /// The table that this page found is in order, and has ids left for what
    /// the page shows.
    pub open spec fn finds_room(self, listing: ListingModel, dirid: u64) -> bool {
        &&& self.inodes.consistent()
        &&& 0 < self.inodes.next_id
        &&& self.taken_in(listing, dirid).1.next_id <= u64::MAX
    }

    /// This page can be the next one of a listing.
    pub open spec fn can_follow(self, listing: ListingModel) -> bool {
        &&& !listing.complete
        &&& self.valid()
        &&& !listing.regresses(self.first_key, self.continuation)
    }
}

/// The listing after pages were taken in one after the other, whatever else
/// happened to the inode table between them; `None` where one of them could
/// not follow.
pub open spec fn after_pages(listing: ListingModel, dirid: u64, pages: Seq<PageModel>) -> Option<ListingModel>
    decreases pages.len(),
{
    if pages.len() == 0 {
        Some(listing)
    } else {
        match after_pages(listing, dirid, pages.drop_last()) {
            Some(before) => if pages.last().can_follow(before) {
                Some(pages.last().taken_in(before, dirid).0)
            } else {
                None
            },
            None => None,
        }
    }
}

/// The listing that pages lead to.
pub open spec fn scanned(listing: ListingModel, dirid: u64, pages: Seq<PageModel>) -> ListingModel {
    match after_pages(listing, dirid, pages) {
        Some(after) => after,
        None => listing,
    }
}

/// A name was listed by one of the pages.
pub open spec fn was_listed(pages: Seq<PageModel>, name: Seq<char>) -> bool {
    exists|p: int| 0 <= p < pages.len() && by_name((#[trigger] pages[p]).raw).contains_key(name)
}

/// A name is among those shown.
pub open spec fn is_shown(children: Seq<(u64, Seq<char>)>, name: Seq<char>) -> bool {
    exists|i: int| 0 <= i < children.len() && (#[trigger] children[i]).1 == name
}

proof fn a_page_keeps_every_name(listing: ListingModel, dirid: u64, page: PageModel, name: Seq<char>)
    requires
        listing.valid(),
        page.can_follow(listing),
    ensures
        ({
            let after = page.taken_in(listing, dirid).0;
            (is_shown(after.children, name) || after.pending.contains_key(name)) <==> (is_shown(listing.children, name)
                || listing.pending.contains_key(name) || by_name(page.raw).contains_key(name))
        }),
{
    let m = merged(listing.pending, by_name(page.raw));
    let all = key_map::sorted_entries(m);
    names_are_finite(page.raw);
    assert(m.dom() =~= listing.pending.dom().union(by_name(page.raw).dom()));
    key_map::a_finite_map_can_be_sorted(m);
    let count = ready_count(all, page.continuation is None, listing.next_watermark(page.last_key));
    ready_entries_are_ready(all, page.continuation is None, listing.next_watermark(page.last_key));
    key_map::splitting_keeps_order(all, count);
    let shown = interned_entries(page.inodes, dirid, listing.key, all.take(count)).1;
    interned_entries_keep_their_names(page.inodes, dirid, listing.key, all.take(count));
    let after = page.taken_in(listing, dirid).0;
    let old_count = listing.children.len() as int;
    if is_shown(listing.children, name) {
        let i = choose|i: int| 0 <= i < listing.children.len() && (#[trigger] listing.children[i]).1 == name;
        assert(after.children[i].1 == name);
    }
    if m.contains_key(name) && !after.pending.contains_key(name) {
        let i = choose|i: int| 0 <= i < count && (#[trigger] all[i]).0 == name;
        assert(all.take(count)[i] == all[i]);
        assert(after.children[old_count + i] == shown[i]);
        assert(after.children[old_count + i].1 == name);
    }
    if is_shown(after.children, name) {
        let i = choose|i: int| 0 <= i < after.children.len() && (#[trigger] after.children[i]).1 == name;
        if i < old_count {
            assert(listing.children[i].1 == name);
        } else {
            assert(after.children[i] == shown[i - old_count]);
            assert(all.take(count)[i - old_count] == all[i - old_count]);
            key_map::the_map_holds_each_entry(all, i - old_count);
        }
    }
}

proof fn pages_keep_every_name(listing: ListingModel, dirid: u64, pages: Seq<PageModel>, name: Seq<char>)
    requires
        listing.valid(),
        listing.children.len() == 0,
        listing.pending == Map::<Seq<char>, EntryAttributes>::empty(),
        after_pages(listing, dirid, pages) is Some,
    ensures
        scanned(listing, dirid, pages).valid(),
        scanned(listing, dirid, pages).key == listing.key,
        scanned(listing, dirid, pages).mentions(name) <==> was_listed(pages, name),
    decreases pages.len(),
{
    if pages.len() > 0 {
        let earlier = pages.drop_last();
        let page = pages.last();
        pages_keep_every_name(listing, dirid, earlier, name);
        let before = scanned(listing, dirid, earlier);
        what_is_shown_stays_in_order(
            before,
            page.inodes,
            dirid,
            page.raw,
            page.first_key,
            page.last_key,
            page.continuation,
            page.received_ms,
        );
        a_page_keeps_every_name(before, dirid, page, name);
        if was_listed(earlier, name) {
            let p = choose|p: int| 0 <= p < earlier.len() && by_name((#[trigger] earlier[p]).raw).contains_key(name);
            assert(pages[p] == earlier[p]);
        }
        if by_name(page.raw).contains_key(name) {
            assert(pages[pages.len() - 1] == page);
        }
        if was_listed(pages, name) && !by_name(page.raw).contains_key(name) {
            let p = choose|p: int| 0 <= p < pages.len() && by_name((#[trigger] pages[p]).raw).contains_key(name);
            assert(earlier[p] == pages[p]);
        }
    }
}

/// A scan that reaches the end of a directory shows every name that any page
/// listed, and no other, each exactly once and in strict name order.
pub proof fn a_complete_scan_shows_every_name_once(
    key: Seq<char>,
    generation: u64,
    now_ms: u64,
    dirid: u64,
    pages: Seq<PageModel>,
    name: Seq<char>,
)
    requires
        after_pages(ListingModel::fresh(key, generation, now_ms), dirid, pages) is Some,
        scanned(ListingModel::fresh(key, generation, now_ms), dirid, pages).complete,
    ensures
        in_name_order(scanned(ListingModel::fresh(key, generation, now_ms), dirid, pages).children),
        is_shown(scanned(ListingModel::fresh(key, generation, now_ms), dirid, pages).children, name) <==> was_listed(pages, name),
{
    let fresh = ListingModel::fresh(key, generation, now_ms);
    assert(fresh.valid());
    pages_keep_every_name(fresh, dirid, pages, name);
}

/// A page lists this name as a directory.
pub open spec fn lists_as_dir(page: PageModel, name: Seq<char>) -> bool {
    keys::is_entry_name(name) && page.raw.contains_key(name.push('/'))
}

/// Some page lists this name as a directory.
pub open spec fn is_listed_as_dir(pages: Seq<PageModel>, name: Seq<char>) -> bool {
    exists|p: int| 0 <= p < pages.len() && lists_as_dir(#[trigger] pages[p], name)
}

/// Every child stands for an inode of its name in this directory.
pub open spec fn children_stand(children: Seq<(u64, Seq<char>)>, dirid: u64, dir_key: Seq<char>, table: inode_table::TableModel) -> bool {
    forall|i: int|
        0 <= i < children.len() ==> {
            let inode = table.inodes[(#[trigger] children[i]).0];
            &&& table.inodes.contains_key(children[i].0)
            &&& inode.parent == dirid
            &&& inode.key == keys::child_of(dir_key, children[i].1, inode.kind == EntryKind::Dir)
        }
}

/// What a listing holds back is a directory exactly where a page listed it as
/// one, and no such name was lost.
pub open spec fn kinds_agree(listing: ListingModel, pages: Seq<PageModel>) -> bool {
    &&& forall|name: Seq<char>| #[trigger]
        listing.pending.contains_key(name) ==> (listing.pending[name].kind == EntryKind::Dir <==> is_listed_as_dir(pages, name))
    &&& forall|name: Seq<char>| #[trigger] is_listed_as_dir(pages, name) ==> listing.mentions(name)
}

proof fn interning_one_leaves_the_others(table: inode_table::TableModel, inode: inode_table::InodeModel)
    requires
        table.consistent(),
        0 < table.next_id <= u64::MAX,
    ensures
        table.interned(inode).consistent(),
        table.interned(inode).inodes.contains_key(table.id_for(inode.key)),
        table.interned(inode).inodes[table.id_for(inode.key)] == inode,
        table.next_id <= table.interned(inode).next_id,
        forall|id: u64| #[trigger]
            table.inodes.contains_key(id) && table.inodes[id].key != inode.key ==> table.interned(inode).inodes.contains_key(id)
                && table.interned(inode).inodes[id] == table.inodes[id],
{
    let id = table.id_for(inode.key);
    let after = table.interned(inode);
    assert forall|key: Seq<char>| #[trigger] after.ids.contains_key(key) implies after.inodes.contains_key(after.ids[key])
        && after.inodes[after.ids[key]].key == key by {
        if key != inode.key {
            assert(table.ids.contains_key(key));
            assert(table.inodes.contains_key(table.ids[key]));
        }
    }
    assert forall|other: u64| #[trigger] after.inodes.contains_key(other) implies 0 < other < after.next_id by {
        if other != id {
            assert(table.inodes.contains_key(other));
        } else if table.ids.contains_key(inode.key) {
            assert(table.inodes.contains_key(table.ids[inode.key]));
        }
    }
}

proof fn interned_entries_stand(
    table: inode_table::TableModel,
    dirid: u64,
    dir_key: Seq<char>,
    entries: Seq<(Seq<char>, EntryAttributes)>,
)
    requires
        table.consistent(),
        0 < table.next_id,
        interned_entries(table, dirid, dir_key, entries).0.next_id <= u64::MAX,
        keys::is_dir_key(dir_key),
        key_map::in_key_order(entries),
        forall|i: int| 0 <= i < entries.len() ==> keys::is_entry_name((#[trigger] entries[i]).0),
    ensures
        ({
            let (after, children) = interned_entries(table, dirid, dir_key, entries);
            &&& after.consistent()
            &&& table.next_id <= after.next_id
            &&& children.len() == entries.len()
            &&& forall|i: int|
                0 <= i < entries.len() ==> after.inodes.contains_key((#[trigger] children[i]).0) && after.inodes[children[i].0] == listed_inode(
                    dirid,
                    dir_key,
                    entries[i].0,
                    entries[i].1,
                )
            &&& forall|id: u64| #[trigger]
                table.inodes.contains_key(id) && (forall|i: int|
                    0 <= i < entries.len() ==> table.inodes[id].key != listed_inode(dirid, dir_key, (#[trigger] entries[i]).0, entries[i].1).key)
                    ==> after.inodes.contains_key(id) && after.inodes[id] == table.inodes[id]
        }),
    decreases entries.len(),
{
    if entries.len() > 0 {
        let fewer = entries.drop_last();
        let last = entries.last();
        let (before, earlier) = interned_entries(table, dirid, dir_key, fewer);
        let inode = listed_inode(dirid, dir_key, last.0, last.1);
        let (after, children) = interned_entries(table, dirid, dir_key, entries);
        assert(before.next_id <= after.next_id);
        assert forall|i: int, j: int| 0 <= i < j < fewer.len() implies text::precedes(#[trigger] fewer[i].0, #[trigger] fewer[j].0) by {
            assert(text::precedes(entries[i].0, entries[j].0));
        }
        assert forall|i: int| 0 <= i < fewer.len() implies keys::is_entry_name((#[trigger] fewer[i]).0) by {
            assert(fewer[i] == entries[i]);
        }
        interned_entries_stand(table, dirid, dir_key, fewer);
        interning_one_leaves_the_others(before, inode);
        assert forall|i: int| 0 <= i < entries.len() implies after.inodes.contains_key((#[trigger] children[i]).0) && after.inodes[children[i].0]
            == listed_inode(dirid, dir_key, entries[i].0, entries[i].1) by {
            if i < fewer.len() {
                assert(children[i] == earlier[i]);
                assert(fewer[i] == entries[i]);
                let own = listed_inode(dirid, dir_key, entries[i].0, entries[i].1);
                assert(before.inodes[earlier[i].0] == own);
                if own.key == inode.key {
                    keys::child_keys_are_distinct(
                        dir_key,
                        entries[i].0,
                        entries[i].1.kind == EntryKind::Dir,
                        last.0,
                        last.1.kind == EntryKind::Dir,
                    );
                    assert(text::precedes(entries[i].0, entries[entries.len() - 1].0));
                    text::precedes_is_irreflexive(last.0);
                }
            }
        }
        assert forall|id: u64| #[trigger]
            table.inodes.contains_key(id) && (forall|i: int|
                0 <= i < entries.len() ==> table.inodes[id].key != listed_inode(dirid, dir_key, (#[trigger] entries[i]).0, entries[i].1).key) implies after.inodes.contains_key(
            id,
        ) && after.inodes[id] == table.inodes[id] by {
            assert forall|i: int| 0 <= i < fewer.len() implies table.inodes[id].key != listed_inode(dirid, dir_key, (#[trigger] fewer[i]).0, fewer[i].1).key by {
                assert(fewer[i] == entries[i]);
            }
            assert(entries[entries.len() - 1] == last);
            assert(before.inodes.contains_key(id));
        }
    }
}

/// Taking in a page only adds to a listing: what is shown stays in its place,
/// and every child that is added stands for an inode with the attributes it
/// was listed with. Where the children that were shown before still stand for
/// inodes of their names, they keep them, and all children stand.
pub proof fn a_page_only_adds(listing: ListingModel, dirid: u64, page: PageModel)
    requires
        listing.valid(),
        page.can_follow(listing),
        keys::is_dir_key(listing.key),
        page.finds_room(listing, dirid),
    ensures
        ({
            let (after, inodes) = page.taken_in(listing, dirid);
            let known = merged(listing.pending, by_name(page.raw));
            &&& after.valid()
            &&& listing.grows_to(after)
            &&& inodes.consistent()
            &&& page.inodes.next_id <= inodes.next_id
            &&& forall|i: int| 0 <= i < listing.children.len() ==> #[trigger] after.children[i] == listing.children[i]
            &&& forall|i: int|
                listing.children.len() <= i < after.children.len() ==> known.contains_key((#[trigger] after.children[i]).1)
                    && inodes.inodes.contains_key(after.children[i].0) && inodes.inodes[after.children[i].0] == listed_inode(
                    dirid,
                    listing.key,
                    after.children[i].1,
                    known[after.children[i].1],
                )
            &&& children_stand(listing.children, dirid, listing.key, page.inodes) ==> {
                &&& children_stand(after.children, dirid, listing.key, inodes)
                &&& forall|i: int|
                    0 <= i < listing.children.len() ==> inodes.inodes[(#[trigger] after.children[i]).0]
                        == page.inodes.inodes[listing.children[i].0]
            }
        }),
{
    let table = page.inodes;
    let named = by_name(page.raw);
    let m = merged(listing.pending, named);
    let all = key_map::sorted_entries(m);
    names_are_finite(page.raw);
    assert(m.dom() =~= listing.pending.dom().union(named.dom()));
    key_map::a_finite_map_can_be_sorted(m);
    let complete = page.continuation is None;
    let watermark = listing.next_watermark(page.last_key);
    let count = ready_count(all, complete, watermark);
    ready_entries_are_ready(all, complete, watermark);
    key_map::splitting_keeps_order(all, count);
    let first = all.take(count);
    let (after_table, shown) = interned_entries(table, dirid, listing.key, first);
    let after = page.taken_in(listing, dirid).0;
    let old_count = listing.children.len() as int;
    what_is_shown_stays_in_order(
        listing,
        table,
        dirid,
        page.raw,
        page.first_key,
        page.last_key,
        page.continuation,
        page.received_ms,
    );
    assert forall|i: int| 0 <= i < all.len() implies m.contains_key((#[trigger] all[i]).0) && m[all[i].0] == all[i].1
        && keys::is_entry_name(all[i].0) && (forall|k: int| 0 <= k < old_count ==> text::precedes(#[trigger] listing.children[k].1, all[i].0)) by {
        key_map::the_map_holds_each_entry(all, i);
        merged_names_were_received(listing, page.raw, page.first_key, page.last_key, page.continuation, all[i].0);
    }
    assert forall|i: int| 0 <= i < first.len() implies keys::is_entry_name((#[trigger] first[i]).0) by {
        assert(first[i] == all[i]);
    }
    interned_entries_stand(table, dirid, listing.key, first);
    interned_entries_keep_their_names(table, dirid, listing.key, first);
    assert forall|i: int| old_count <= i < after.children.len() implies m.contains_key((#[trigger] after.children[i]).1)
        && after_table.inodes.contains_key(after.children[i].0) && after_table.inodes[after.children[i].0] == listed_inode(
        dirid,
        listing.key,
        after.children[i].1,
        m[after.children[i].1],
    ) by {
        assert(after.children[i] == shown[i - old_count]);
        assert(first[i - old_count] == all[i - old_count]);
    }    if children_stand(listing.children, dirid, listing.key, table) {
        assert forall|i: int| 0 <= i < old_count implies #[trigger] after.children[i] == listing.children[i] && after_table.inodes.contains_key(
            after.children[i].0,
        ) && after_table.inodes[after.children[i].0] == table.inodes[listing.children[i].0] by {
            let child = listing.children[i];
            assert(table.inodes.contains_key(child.0));
            let inode = table.inodes[child.0];
            assert forall|k: int| 0 <= k < first.len() implies inode.key != listed_inode(dirid, listing.key, (#[trigger] first[k]).0, first[k].1).key by {
                assert(first[k] == all[k]);
                assert(text::precedes(listing.children[i].1, all[k].0));
                if inode.key == listed_inode(dirid, listing.key, first[k].0, first[k].1).key {
                    keys::child_keys_are_distinct(
                        listing.key,
                        child.1,
                        inode.kind == EntryKind::Dir,
                        first[k].0,
                        first[k].1.kind == EntryKind::Dir,
                    );
                    text::precedes_is_irreflexive(child.1);
                }
            }
        }
    }
}

/// A page that follows keeps the kinds in agreement: what it shows or holds
/// back is a directory exactly where one of the pages so far listed it as one,
/// and it lists no name again that was shown before.
pub proof fn a_page_keeps_the_kinds(listing: ListingModel, dirid: u64, pages: Seq<PageModel>)
    requires
        pages.len() > 0,
        listing.valid(),
        pages.last().can_follow(listing),
        kinds_agree(listing, pages.drop_last()),
    ensures
        kinds_agree(pages.last().taken_in(listing, dirid).0, pages),
        forall|name: Seq<char>| #[trigger]
            merged(listing.pending, by_name(pages.last().raw)).contains_key(name) ==> (merged(listing.pending, by_name(pages.last().raw))[name].kind
                == EntryKind::Dir <==> is_listed_as_dir(pages, name)),
        forall|i: int|
            0 <= i < listing.children.len() ==> !by_name(pages.last().raw).contains_key((#[trigger] listing.children[i]).1) && (is_listed_as_dir(
                pages,
                listing.children[i].1,
            ) <==> is_listed_as_dir(pages.drop_last(), listing.children[i].1)),
{
    let page = pages.last();
    let earlier = pages.drop_last();
    let named = by_name(page.raw);
    let m = merged(listing.pending, named);
    let all = key_map::sorted_entries(m);
    names_are_finite(page.raw);
    assert(m.dom() =~= listing.pending.dom().union(named.dom()));
    key_map::a_finite_map_can_be_sorted(m);
    let complete = page.continuation is None;
    let watermark = listing.next_watermark(page.last_key);
    let count = ready_count(all, complete, watermark);
    ready_entries_are_ready(all, complete, watermark);
    key_map::splitting_keeps_order(all, count);
    let after = page.taken_in(listing, dirid).0;
    let old_count = listing.children.len() as int;
    assert forall|name: Seq<char>| #[trigger] is_listed_as_dir(pages, name) <==> is_listed_as_dir(earlier, name) || lists_as_dir(page, name) by {
        if is_listed_as_dir(pages, name) {
            let p = choose|p: int| 0 <= p < pages.len() && lists_as_dir(#[trigger] pages[p], name);
            if p < earlier.len() {
                assert(earlier[p] == pages[p]);
            }
        }
        if is_listed_as_dir(earlier, name) {
            let p = choose|p: int| 0 <= p < earlier.len() && lists_as_dir(#[trigger] earlier[p], name);
            assert(pages[p] == earlier[p]);
        }
        assert(pages[pages.len() - 1] == page);
    }
    assert forall|name: Seq<char>| #[trigger] m.contains_key(name) implies keys::is_entry_name(name) && (m[name].kind == EntryKind::Dir
        <==> is_listed_as_dir(pages, name)) && (forall|i: int| 0 <= i < old_count ==> text::precedes(#[trigger] listing.children[i].1, name)) by {
        merged_names_were_received(listing, page.raw, page.first_key, page.last_key, page.continuation, name);
        assert(name.push('/').last() == '/');
        if name.last() == '/' {
            assert(name[name.len() - 1] == '/');
        }
        if page.raw.contains_key(name.push('/')) {
            assert(page.raw[name.push('/')].kind == EntryKind::Dir);
        }
        if page.raw.contains_key(name) {
            assert(page.raw[name].kind != EntryKind::Dir);
        }
        if !listing.pending.contains_key(name) && is_listed_as_dir(earlier, name) {
            let i = choose|i: int| 0 <= i < listing.children.len() && (#[trigger] listing.children[i]).1 == name;
            assert(text::precedes(listing.children[i].1, name));
            text::precedes_is_irreflexive(name);
        }
    }
    assert forall|i: int| 0 <= i < all.len() implies m.contains_key((#[trigger] all[i]).0) && m[all[i].0] == all[i].1 by {
        key_map::the_map_holds_each_entry(all, i);
    }
    assert forall|i: int| 0 <= i < listing.children.len() implies !named.contains_key((#[trigger] listing.children[i]).1) && (is_listed_as_dir(
        pages,
        listing.children[i].1,
    ) <==> is_listed_as_dir(earlier, listing.children[i].1)) by {
        let child = listing.children[i];
        if named.contains_key(child.1) {
            assert(m.contains_key(child.1));
            assert(text::precedes(listing.children[i].1, child.1));
            text::precedes_is_irreflexive(child.1);
        }
    }
    assert forall|name: Seq<char>| #[trigger] is_listed_as_dir(pages, name) implies after.mentions(name) by {
        a_page_keeps_every_name(listing, dirid, page, name);
        if lists_as_dir(page, name) {
            assert(named.contains_key(name));
        }
    }
}

proof fn pages_keep_the_kinds(listing: ListingModel, dirid: u64, pages: Seq<PageModel>)
    requires
        listing.valid(),
        listing.children.len() == 0,
        listing.pending == Map::<Seq<char>, EntryAttributes>::empty(),
        after_pages(listing, dirid, pages) is Some,
    ensures
        scanned(listing, dirid, pages).valid(),
        scanned(listing, dirid, pages).key == listing.key,
        kinds_agree(scanned(listing, dirid, pages), pages),
    decreases pages.len(),
{
    pages_keep_every_name(listing, dirid, pages, Seq::empty());
    if pages.len() > 0 {
        pages_keep_the_kinds(listing, dirid, pages.drop_last());
        a_page_keeps_the_kinds(scanned(listing, dirid, pages.drop_last()), dirid, pages);
    }
}

/// What was shown after some pages is in its place after all of them, and no
/// later page says anything new of it.
proof fn later_pages_leave_what_is_shown(listing: ListingModel, dirid: u64, pages: Seq<PageModel>, count: int)
    requires
        listing.valid(),
        listing.children.len() == 0,
        listing.pending == Map::<Seq<char>, EntryAttributes>::empty(),
        after_pages(listing, dirid, pages) is Some,
        0 <= count <= pages.len(),
    ensures
        after_pages(listing, dirid, pages.take(count)) is Some,
        scanned(listing, dirid, pages.take(count)).children.len() <= scanned(listing, dirid, pages).children.len(),
        forall|i: int|
            0 <= i < scanned(listing, dirid, pages.take(count)).children.len() ==> {
                let child = #[trigger] scanned(listing, dirid, pages.take(count)).children[i];
                &&& scanned(listing, dirid, pages).children[i] == child
                &&& is_listed_as_dir(pages, child.1) <==> is_listed_as_dir(pages.take(count), child.1)
            },
    decreases pages.len(),
{
    if count == pages.len() {
        assert(pages.take(count) =~= pages);
    } else {
        let earlier = pages.drop_last();
        let page = pages.last();
        assert(earlier.take(count) =~= pages.take(count));
        later_pages_leave_what_is_shown(listing, dirid, earlier, count);
        pages_keep_the_kinds(listing, dirid, earlier);
        let before = scanned(listing, dirid, earlier);
        let after = scanned(listing, dirid, pages);
        assert(after == page.taken_in(before, dirid).0);
        a_page_keeps_the_kinds(before, dirid, pages);
        assert forall|i: int| 0 <= i < scanned(listing, dirid, pages.take(count)).children.len() implies {
            let child = #[trigger] scanned(listing, dirid, pages.take(count)).children[i];
            &&& after.children[i] == child
            &&& is_listed_as_dir(pages, child.1) <==> is_listed_as_dir(pages.take(count), child.1)
        } by {
            assert(before.children[i] == scanned(listing, dirid, pages.take(count)).children[i]);
            assert(after.children[i] == before.children[i]);
        }
    }
}

proof fn interning_never_takes_ids_back(
    table: inode_table::TableModel,
    dirid: u64,
    dir_key: Seq<char>,
    entries: Seq<(Seq<char>, EntryAttributes)>,
)
    ensures
        table.next_id <= interned_entries(table, dirid, dir_key, entries).0.next_id,
    decreases entries.len(),
{
    if entries.len() > 0 {
        interning_never_takes_ids_back(table, dirid, dir_key, entries.drop_last());
    }
}

/// However the pages of a directory fall, and whatever else happens to the
/// inode table between them, an entry is shown with an inode of its name that
/// is a directory exactly where some page, earlier or later, lists the name as
/// one: a name that the provider returns both as a file and as a prefix, on
/// whatever pages, is shown once, as a directory. `at` is the page that brings
/// the entry at `index`.
pub proof fn a_directory_wins_over_a_file_of_its_name(
    key: Seq<char>,
    generation: u64,
    now_ms: u64,
    dirid: u64,
    pages: Seq<PageModel>,
    at: int,
    index: int,
)
    requires
        keys::is_dir_key(key),
        after_pages(ListingModel::fresh(key, generation, now_ms), dirid, pages) is Some,
        0 <= at < pages.len(),
        pages[at].finds_room(scanned(ListingModel::fresh(key, generation, now_ms), dirid, pages.take(at)), dirid),
        scanned(ListingModel::fresh(key, generation, now_ms), dirid, pages.take(at)).children.len() <= index,
        index < scanned(ListingModel::fresh(key, generation, now_ms), dirid, pages.take(at + 1)).children.len(),
    ensures
        ({
            let fresh = ListingModel::fresh(key, generation, now_ms);
            let children = scanned(fresh, dirid, pages).children;
            let inodes = pages[at].taken_in(scanned(fresh, dirid, pages.take(at)), dirid).1;
            let (id, name) = children[index];
            let is_dir = is_listed_as_dir(pages, name);
            &&& index < children.len()
            &&& scanned(fresh, dirid, pages.take(at + 1)).children[index] == children[index]
            &&& inodes.inodes.contains_key(id)
            &&& inodes.inodes[id].kind == (if is_dir {
                EntryKind::Dir
            } else {
                EntryKind::File
            })
            &&& inodes.inodes[id].key == keys::child_of(key, name, is_dir)
            &&& inodes.inodes[id].parent == dirid
            &&& forall|other: int| 0 <= other < children.len() && other != index ==> (#[trigger] children[other]).1 != name
        }),
{
    let fresh = ListingModel::fresh(key, generation, now_ms);
    assert(fresh.valid());
    let until = pages.take(at + 1);
    assert(until.drop_last() =~= pages.take(at));
    assert(until.last() == pages[at]);
    later_pages_leave_what_is_shown(fresh, dirid, pages, at);
    later_pages_leave_what_is_shown(fresh, dirid, pages, at + 1);
    let before = scanned(fresh, dirid, pages.take(at));
    pages_keep_the_kinds(fresh, dirid, pages.take(at));
    pages_keep_the_kinds(fresh, dirid, pages);
    a_page_keeps_the_kinds(before, dirid, until);
    a_page_only_adds(before, dirid, pages[at]);
    let children = scanned(fresh, dirid, pages).children;
    assert(scanned(fresh, dirid, until).children[index] == children[index]);
    assert forall|other: int| 0 <= other < children.len() && other != index implies (#[trigger] children[other]).1 != children[index].1 by {
        text::precedes_is_irreflexive(children[index].1);
        if other < index {
            assert(text::precedes(children[other].1, children[index].1));
        } else {
            assert(text::precedes(children[index].1, children[other].1));
        }
    }
}

/// Cookies that are handed out between pages decide nothing: a page can follow
/// with them where it can without, and shows, holds back and interns the same.
pub proof fn cookies_decide_nothing(listing: ListingModel, cookies: Map<u64, Seq<char>>, dirid: u64, page: PageModel)
    ensures
        page.can_follow(ListingModel { cookies, ..listing }) == page.can_follow(listing),
        page.taken_in(ListingModel { cookies, ..listing }, dirid) == (
            ListingModel { cookies, ..page.taken_in(listing, dirid).0 },
            page.taken_in(listing, dirid).1,
        ),
{
}

/// The inode table after pages were taken in and nothing else changed it.
pub open spec fn table_after(listing: ListingModel, table: inode_table::TableModel, dirid: u64, pages: Seq<PageModel>) -> inode_table::TableModel {
    if pages.len() == 0 {
        table
    } else {
        pages.last().taken_in(scanned(listing, dirid, pages.drop_last()), dirid).1
    }
}

/// Each page found the table as the one before it left it.
pub open spec fn is_undisturbed(listing: ListingModel, table: inode_table::TableModel, dirid: u64, pages: Seq<PageModel>) -> bool
    decreases pages.len(),
{
    pages.len() > 0 ==> is_undisturbed(listing, table, dirid, pages.drop_last()) && pages.last().inodes == table_after(
        listing,
        table,
        dirid,
        pages.drop_last(),
    )
}

/// While nothing but its pages changes the inode table, every entry that a
/// listing shows goes on standing for an inode of its name, and for a directory
/// exactly where some page lists the name as one.
pub proof fn an_undisturbed_scan_stands(
    key: Seq<char>,
    generation: u64,
    now_ms: u64,
    table: inode_table::TableModel,
    dirid: u64,
    pages: Seq<PageModel>,
)
    requires
        keys::is_dir_key(key),
        table.consistent(),
        0 < table.next_id,
        after_pages(ListingModel::fresh(key, generation, now_ms), dirid, pages) is Some,
        is_undisturbed(ListingModel::fresh(key, generation, now_ms), table, dirid, pages),
        table_after(ListingModel::fresh(key, generation, now_ms), table, dirid, pages).next_id <= u64::MAX,
    ensures
        ({
            let fresh = ListingModel::fresh(key, generation, now_ms);
            let inodes = table_after(fresh, table, dirid, pages);
            let children = scanned(fresh, dirid, pages).children;
            &&& inodes.consistent()
            &&& 0 < inodes.next_id
            &&& children_stand(children, dirid, key, inodes)
            &&& forall|i: int|
                0 <= i < children.len() ==> (inodes.inodes[(#[trigger] children[i]).0].kind == EntryKind::Dir <==> is_listed_as_dir(
                    pages,
                    children[i].1,
                ))
        }),
    decreases pages.len(),
{
    let fresh = ListingModel::fresh(key, generation, now_ms);
    if pages.len() > 0 {
        let earlier = pages.drop_last();
        let page = pages.last();
        let before = scanned(fresh, dirid, earlier);
        let all = key_map::sorted_entries(merged(before.pending, by_name(page.raw)));
        let count = ready_count(all, page.continuation is None, before.next_watermark(page.last_key));
        interning_never_takes_ids_back(page.inodes, dirid, before.key, all.take(count));
        an_undisturbed_scan_stands(key, generation, now_ms, table, dirid, earlier);
        assert(fresh.valid());
        pages_keep_the_kinds(fresh, dirid, earlier);
        a_page_only_adds(before, dirid, page);
        a_page_keeps_the_kinds(before, dirid, pages);
        let (after, inodes) = page.taken_in(before, dirid);
        assert forall|i: int| 0 <= i < after.children.len() implies (inodes.inodes[(#[trigger] after.children[i]).0].kind == EntryKind::Dir
            <==> is_listed_as_dir(pages, after.children[i].1)) by {
            if i < before.children.len() {
                assert(after.children[i] == before.children[i]);
            }
        }
    }
}

/// No two children share an id: each stands for an inode of its own name.
pub proof fn shown_ids_are_distinct(
    children: Seq<(u64, Seq<char>)>,
    dirid: u64,
    dir_key: Seq<char>,
    table: inode_table::TableModel,
    one: int,
    other: int,
)
    requires
        in_name_order(children),
        keys::is_dir_key(dir_key),
        children_stand(children, dirid, dir_key, table),
        forall|i: int| 0 <= i < children.len() ==> keys::is_entry_name(#[trigger] children[i].1),
        0 <= one < children.len(),
        0 <= other < children.len(),
        one != other,
    ensures
        children[one].1 != children[other].1,
        children[one].0 != children[other].0,
{
    text::precedes_is_irreflexive(children[one].1);
    if one < other {
        assert(text::precedes(children[one].1, children[other].1));
    } else {
        assert(text::precedes(children[other].1, children[one].1));
    }
    if children[one].0 == children[other].0 {
        let inode = table.inodes[children[one].0];
        keys::child_keys_are_distinct(
            dir_key,
            children[one].1,
            inode.kind == EntryKind::Dir,
            children[other].1,
            inode.kind == EntryKind::Dir,
        );
    }
}

/// The listing of one directory, as far as it has come.
pub struct DirListing {
    children: Vec<DirChild>,
    fetched_at_ms: u64,
    key: String,
    generation: u64,
    complete: bool,
    continuation_token: Option<String>,
    seen_tokens: KeyMap<bool>,
    pending: KeyMap<EntryAttributes>,
    watermark: Option<String>,
    cookies: std::collections::HashMap<u64, String>,
}

impl View for DirListing {
    type V = ListingModel;

    open spec fn view(&self) -> ListingModel {
        self.model()
    }
}

impl DirListing {
    /// What the listing has come to.
    pub closed spec fn model(&self) -> ListingModel {
        ListingModel {
            children: children_view(self.children@),
            key: self.key@,
            generation: self.generation,
            complete: self.complete,
            token: text::optional(self.continuation_token),
            seen: self.seen_tokens@.dom(),
            pending: self.pending@,
            watermark: text::optional(self.watermark),
            fetched_at_ms: self.fetched_at_ms,
            cookies: self.cookies@.map_values(|name: String| name@),
        }
    }

    pub closed spec fn well_formed(&self) -> bool {
        &&& self.seen_tokens.well_formed()
        &&& self.pending.well_formed()
        &&& self@.valid()
    }

    /// A listing keeps what it shows in order.
    pub proof fn is_valid(&self)
        requires
            self.well_formed(),
        ensures
            self@.valid(),
    {
    }

    /// A listing in which nothing was received yet.
    pub fn new(key: &str, generation: u64, now_ms: u64) -> (listing: Self)
        ensures
            listing.well_formed(),
            listing@ == ListingModel::fresh(key@, generation, now_ms),
    {
        broadcast use vstd::std_specs::hash::group_hash_axioms;
        let listing = DirListing {
            children: Vec::new(),
            fetched_at_ms: now_ms,
            key: key.to_owned(),
            generation,
            complete: false,
            continuation_token: None,
            seen_tokens: KeyMap::new(),
            pending: KeyMap::new(),
            watermark: None,
            cookies: std::collections::HashMap::new(),
        };
        assert(listing@ =~= ListingModel::fresh(key@, generation, now_ms));
        listing
    }

    fn merge(pending: KeyMap<EntryAttributes>, page: &KeyMap<EntryAttributes>) -> (all: KeyMap<EntryAttributes>)
        requires
            pending.well_formed(),
            page.well_formed(),
        ensures
            all.well_formed(),
            all@ == merged(pending@, page@),
    {
        let ghost start = pending@;
        let ghost rows = page.entries();
        let mut all = pending;
        let mut i: usize = 0;
        proof {
            assert(key_map::map_of(rows.take(0)) =~= Map::<Seq<char>, EntryAttributes>::empty());
            assert(all@ =~= merged(start, key_map::map_of(rows.take(0))));
        }
        while i < page.len()
            invariant
                page.well_formed(),
                rows == page.entries(),
                i <= rows.len(),
                all.well_formed(),
                all@ == merged(start, key_map::map_of(rows.take(i as int))),
            decreases rows.len() - i,
        {
            let name = page.key_at(i);
            let attributes = *page.value_at(i);
            let ghost before = all@;
            proof {
                key_map::taking_one_more(rows, i as int);
            }
            if attributes.kind == EntryKind::Dir || !all.contains_key(name.as_str()) {
                all.insert(name.clone(), attributes);
            }
            assert(all@ =~= merged(start, key_map::map_of(rows.take(i + 1))));
            i = i + 1;
        }
        assert(rows.take(i as int) =~= rows);
        all
    }

    fn count_ready(all: &KeyMap<EntryAttributes>, complete: bool, watermark: &Option<String>) -> (count: usize)
        requires
            all.well_formed(),
        ensures
            count == ready_count(all.entries(), complete, text::optional(*watermark)),
            count <= all.entries().len(),
    {
        let ghost rows = all.entries();
        let ghost mark = text::optional(*watermark);
        let frontier = match watermark {
            Some(raw) => Some(safe_name_frontier(raw.as_str())),
            None => None,
        };
        let mut count: usize = 0;
        while count < all.len()
            invariant
                rows == all.entries(),
                mark == text::optional(*watermark),
                count <= rows.len(),
                frontier is Some <==> mark is Some,
                frontier is Some ==> frontier->0@ == frontier_of(mark->0),
                forall|i: int| 0 <= i < count ==> is_ready(complete, mark, (#[trigger] rows[i]).0, rows[i].1.kind),
            decreases rows.len() - count,
        {
            let name = all.key_at(count);
            let kind = all.value_at(count).kind;
            let ready = complete || match frontier {
                Some(limit) => sorts_before(name.as_str(), limit) || (same_text(name.as_str(), limit) && kind == EntryKind::Dir),
                None => false,
            };
            assert(ready == is_ready(complete, mark, rows[count as int].0, rows[count as int].1.kind));
            if !ready {
                proof {
                    the_ready_count_is_the_first_stop(rows, complete, mark, count as int);
                }
                return count;
            }
            count = count + 1;
        }
        proof {
            the_ready_count_is_the_first_stop(rows, complete, mark, count as int);
        }
        count
    }

    /// Takes in a page that was asked for with `sent` as its continuation.
    ///
    /// A page for another key, generation or continuation, or for a listing
    /// that is already complete, is a page for a listing that is gone. A page
    /// that hands out a continuation a second time, or goes back behind what
    /// was received, is an error of the provider. In both cases nothing
    /// changes. Otherwise every entry that no later page can change or precede
    /// gets its id and is shown.
    pub fn advance(
        &mut self,
        dirid: u64,
        dir_key: &str,
        generation: u64,
        sent: &Option<String>,
        page: ProviderPage,
        inodes: &mut InodeTable,
        now_ms: u64,
    ) -> (outcome: Result<(), NfsStatus>)
        requires
            old(self).well_formed(),
            old(inodes).well_formed(),
            page.well_formed(),
        ensures
            final(self).well_formed(),
            final(inodes).well_formed(),
            outcome == (if old(self)@.generation != generation || old(self)@.key != dir_key@ || old(self)@.token != text::optional(*sent)
                || old(self)@.complete {
                Err::<(), NfsStatus>(NfsStatus::BadCookie)
            } else if old(self)@.regresses(text::optional(page.first_key), text::optional(page.continuation)) {
                Err(NfsStatus::Io)
            } else {
                Ok(())
            }),
            outcome is Err ==> final(self)@ == old(self)@ && final(inodes)@ == old(inodes)@,
            outcome is Ok ==> (final(self)@, final(inodes)@) == after_page(
                old(self)@,
                old(inodes)@,
                dirid,
                page.entries@,
                text::optional(page.last_key),
                text::optional(page.continuation),
                now_ms,
            ),
    {
        if self.generation != generation || !same_text(self.key.as_str(), dir_key) || !text::same_optional(&self.continuation_token, sent)
            || self.complete {
            return Err(NfsStatus::BadCookie);
        }
        let repeated = match &page.continuation {
            Some(next) => self.seen_tokens.contains_key(next.as_str()),
            None => false,
        };
        let behind = match (&page.first_key, &self.watermark) {
            (Some(first), Some(previous)) => !sorts_before(previous.as_str(), first.as_str()),
            _ => false,
        };
        proof {
            if page.first_key is Some && self.watermark is Some {
                text::precedes_is_total(page.first_key->0@, self.watermark->0@);
                if text::precedes(self.watermark->0@, page.first_key->0@) {
                    text::precedes_is_asymmetric(self.watermark->0@, page.first_key->0@);
                }
            }
        }
        if repeated || behind {
            return Err(NfsStatus::Io);
        }
        let ghost before = self@;
        let ghost table = inodes@;
        let ghost raw = choose|raw: Map<Seq<char>, EntryAttributes>| page.holds(raw);
        let ghost last_key = text::optional(page.last_key);
        let ghost next = text::optional(page.continuation);
        proof {
            what_is_shown_stays_in_order(before, table, dirid, raw, text::optional(page.first_key), last_key, next, now_ms);
        }
        let mut pending: KeyMap<EntryAttributes> = KeyMap::new();
        std::mem::swap(&mut pending, &mut self.pending);
        let mut all = DirListing::merge(pending, &page.entries);
        if page.last_key.is_some() {
            self.watermark = page.last_key;
        }
        self.complete = page.continuation.is_none();
        match &page.continuation {
            Some(token) => {
                self.seen_tokens.insert(token.clone(), true);
            },
            None => {},
        }
        self.continuation_token = page.continuation;
        let count: usize = DirListing::count_ready(&all, self.complete, &self.watermark);
        let ghost rows = all.entries();
        proof {
            all.keys_are_finite();
        }
        let mut shown: usize = 0;
        let ghost start = self.children@;
        assert(rows.skip(0) =~= rows);
        assert(rows.take(0) =~= Seq::<(Seq<char>, EntryAttributes)>::empty());
        assert(children_view(start) + Seq::<(u64, Seq<char>)>::empty() =~= children_view(start));
        while shown < count
            invariant
                shown <= count <= rows.len(),
                all.well_formed(),
                all.entries() == rows.skip(shown as int),
                inodes.well_formed(),
                inodes@ == interned_entries(table, dirid, dir_key@, rows.take(shown as int)).0,
                children_view(self.children@) == children_view(start) + interned_entries(table, dirid, dir_key@, rows.take(shown as int)).1,
                self.key@ == dir_key@,
                self.generation == before.generation,
                self.complete == (next is None),
                text::optional(self.continuation_token) == next,
                self.seen_tokens.well_formed(),
                self.seen_tokens@.dom() == (if next is Some { before.seen.insert(next->0) } else { before.seen }),
                text::optional(self.watermark) == before.next_watermark(last_key),
                self.cookies@.map_values(|name: String| name@) == before.cookies,
            decreases count - shown,
        {
            let (name, attributes) = all.take_first();
            let is_dir = attributes.kind == EntryKind::Dir;
            let key = child_key(dir_key, name.as_str(), is_dir);
            let ghost children_before = self.children@;
            let fileid: u64 = inodes.intern(key.as_str(), dirid, attributes.kind, attributes.size, attributes.mtime_secs);
            let child = DirChild { fileid, name };
            let ghost shown_child = child@;
            self.children.push(child);
            proof {
                assert(rows.take(shown + 1).drop_last() =~= rows.take(shown as int));
                assert(rows.take(shown + 1).last() == rows[shown as int]);
                assert(rows.skip(shown as int).skip(1) =~= rows.skip(shown + 1));
                assert(children_view(self.children@) =~= children_view(children_before).push(shown_child));
                assert(children_view(self.children@) =~= children_view(start) + interned_entries(
                    table,
                    dirid,
                    dir_key@,
                    rows.take(shown + 1),
                ).1);
            }
            shown = shown + 1;
        }
        self.pending = all;
        self.fetched_at_ms = now_ms;
        proof {
            assert(self@ =~= after_page(before, table, dirid, page.entries@, last_key, next, now_ms).0);
        }
        Ok(())
    }

    /// Whether the listing can answer for `dir_key` now: it is a listing of
    /// that key and has not outlived its time.
    pub fn is_fresh(&self, dir_key: &str, now_ms: u64) -> (fresh: bool)
        ensures
            fresh == self@.is_fresh(dir_key@, now_ms),
    {
        same_text(self.key.as_str(), dir_key) && now_ms.saturating_sub(self.fetched_at_ms) < DIR_CACHE_TTL_MS
    }

    /// Whether the listing holds what a reader resuming after `after_name`
    /// asked for: everything, or at least one entry.
    pub fn is_enough(&self, after_name: Option<&str>, all: bool) -> (enough: bool)
        requires
            self.well_formed(),
        ensures
            enough == self@.is_enough(
                match after_name {
                    Some(name) => Some(name@),
                    None => None,
                },
                all,
            ),
    {
        self.complete || (!all && resume_index(self.children.as_slice(), after_name) < self.children.len())
    }

    /// The generation that the listing belongs to.
    pub fn generation(&self) -> (generation: u64)
        ensures
            generation == self@.generation,
    {
        self.generation
    }

    /// Whether every page was received.
    pub fn is_complete(&self) -> (complete: bool)
        ensures
            complete == self@.complete,
    {
        self.complete
    }

    /// Where the listing goes on.
    pub fn continuation(&self) -> (token: Option<String>)
        ensures
            text::optional(token) == self@.token,
    {
        self.continuation_token.clone()
    }

    /// The child with this name, if it was shown.
    pub fn child_named(&self, name: &str) -> (child: Option<DirChild>)
        requires
            self.well_formed(),
        ensures
            child is Some <==> is_shown(self@.children, name@),
            child matches Some(found) ==> found.name@ == name@ && self@.children.contains(found@) && found.fileid == self@.id_of(name@),
    {
        let index: usize = resume_index(self.children.as_slice(), Some(name));
        let ghost all = self@.children;
        proof {
            names_have_passed(all, name@);
        }
        if index > 0 && same_text(self.children[index - 1].name.as_str(), name) {
            assert(all[index - 1] == self.children@[index - 1]@);
            proof {
                a_shown_name_has_one_id(all, index - 1);
            }
            return Some(self.children[index - 1].clone());
        }
        proof {
            if is_shown(all, name@) {
                let i = choose|i: int| 0 <= i < all.len() && (#[trigger] all[i]).1 == name@;
                text::precedes_is_irreflexive(name@);
                assert(i < index);
                if i < index - 1 {
                    assert(text::precedes(all[i].1, all[index - 1].1));
                    assert(!text::precedes(name@, all[index - 1].1));
                }
                assert(all[index - 1] == self.children@[index - 1]@);
            }
        }
        None
    }

    /// Whether any page received so far returned `name`, shown or still held
    /// back until the next page settles its order.
    pub fn mentions(&self, name: &str) -> (mentioned: bool)
        requires
            self.well_formed(),
        ensures
            mentioned == self@.mentions(name@),
    {
        self.child_named(name).is_some() || self.pending.contains_key(name)
    }

    /// The entries that a reader resuming after `after_name` is handed, and
    /// whether they reach the end of what was received.
    pub fn page(&self, after_name: Option<&str>, max_entries: usize) -> (page: (Vec<DirChild>, bool))
        requires
            self.well_formed(),
        ensures
            children_view(page.0@) == self@.page(
                match after_name {
                    Some(name) => Some(name@),
                    None => None,
                },
                max_entries,
            ),
            page.1 == self@.page_reaches_end(
                match after_name {
                    Some(name) => Some(name@),
                    None => None,
                },
                max_entries,
            ),
    {
        let start: usize = resume_index(self.children.as_slice(), after_name);
        let (end, exhausted) = page_end(self.children.len(), start, max_entries);
        let mut page: Vec<DirChild> = Vec::new();
        let mut i: usize = start;
        assert(children_view(page@) =~= self@.children.subrange(start as int, start as int));
        while i < end
            invariant
                start <= i <= end,
                end <= self.children@.len(),
                children_view(page@) == self@.children.subrange(start as int, i as int),
            decreases end - i,
        {
            let child = self.children[i].clone();
            let ghost before = page@;
            let ghost shown = child@;
            page.push(child);
            assert(children_view(page@) =~= children_view(before).push(shown));
            assert(self@.children[i as int] == shown);
            assert(children_view(page@) =~= self@.children.subrange(start as int, i + 1));
            i = i + 1;
        }
        (page, exhausted)
    }

    /// The name behind a cookie of this listing.
    pub fn cookie(&self, fileid: u64) -> (name: Option<String>)
        requires
            self.well_formed(),
        ensures
            name is Some <==> self@.cookies.contains_key(fileid),
            name matches Some(text) ==> text@ == self@.cookies[fileid],
    {
        broadcast use vstd::std_specs::hash::group_hash_axioms;
        match self.cookies.get(&fileid) {
            Some(name) => Some(name.clone()),
            None => None,
        }
    }

    /// Remembers the cookies of a page that is handed to the client.
    pub fn record_cookies(&mut self, page: &Vec<DirChild>)
        requires
            old(self).well_formed(),
            forall|i: int| 0 <= i < page@.len() ==> old(self)@.children.contains((#[trigger] page@[i])@),
        ensures
            final(self).well_formed(),
            final(self)@ == (ListingModel { cookies: with_cookies(old(self)@.cookies, children_view(page@)), ..old(self)@ }),
    {
        broadcast use vstd::std_specs::hash::group_hash_axioms;
        let ghost before = self@;
        let ghost rows = children_view(page@);
        let mut i: usize = 0;
        assert(rows.take(0) =~= Seq::<(u64, Seq<char>)>::empty());
        while i < page.len()
            invariant
                i <= page@.len(),
                rows == children_view(page@),
                before.valid(),
                self.seen_tokens.well_formed(),
                self.pending.well_formed(),
                self@ == (ListingModel { cookies: with_cookies(before.cookies, rows.take(i as int)), ..before }),
                forall|id: u64| #[trigger] self@.cookies.contains_key(id) ==> before.children.contains((id, self@.cookies[id])),
                forall|j: int| 0 <= j < page@.len() ==> before.children.contains((#[trigger] page@[j])@),
            decreases page@.len() - i,
        {
            let child = &page[i];
            let ghost cookies_before = self@.cookies;
            self.cookies.insert(child.fileid, child.name.clone());
            proof {
                assert(rows.take(i + 1).drop_last() =~= rows.take(i as int));
                assert(rows.take(i + 1).last() == child@);
                assert(self@.cookies =~= cookies_before.insert(child.fileid, child.name@));
                assert(before.children.contains(page@[i as int]@));
                assert(self@ =~= (ListingModel { cookies: with_cookies(before.cookies, rows.take(i + 1)), ..before }));
            }
            i = i + 1;
        }
        assert(rows.take(i as int) =~= rows);
        assert forall|k: int, name: Seq<char>, is_dir: bool|
            !self@.complete && 0 <= k < self@.children.len() && keys::is_entry_name(name) && #[trigger] self@.may_still_come(name, is_dir) implies text::precedes(
            #[trigger] self@.children[k].1,
            name,
        ) by {
            assert(before.may_still_come(name, is_dir));
            assert(before.children[k] == self@.children[k]);
        }
    }
}

/// A name that is shown stands for one id.
pub proof fn a_shown_name_has_one_id(children: Seq<(u64, Seq<char>)>, index: int)
    requires
        in_name_order(children),
        0 <= index < children.len(),
    ensures
        (choose|id: u64| children.contains((id, children[index].1))) == children[index].0,
{
    let name = children[index].1;
    assert(children.contains((children[index].0, name)));
    let id = choose|id: u64| children.contains((id, name));
    let i = choose|i: int| 0 <= i < children.len() && children[i] == (id, name);
    if i != index {
        text::precedes_is_irreflexive(name);
        if i < index {
            assert(text::precedes(children[i].1, children[index].1));
        } else {
            assert(text::precedes(children[index].1, children[i].1));
        }
    }
}

proof fn names_have_passed(children: Seq<(u64, Seq<char>)>, after: Seq<char>)
    requires
        in_name_order(children),
    ensures
        0 <= passed(children, after) <= children.len(),
        forall|i: int| 0 <= i < passed(children, after) ==> !text::precedes(after, (#[trigger] children[i]).1),
        forall|i: int| passed(children, after) <= i < children.len() ==> text::precedes(after, (#[trigger] children[i]).1),
    decreases children.len(),
{
    if children.len() > 0 {
        if text::precedes(after, children[0].1) {
            assert forall|i: int| 0 <= i < children.len() implies text::precedes(after, (#[trigger] children[i]).1) by {
                if i > 0 {
                    text::precedes_is_transitive(after, children[0].1, children[i].1);
                }
            }
        } else {
            let rest = children.skip(1);
            assert(in_name_order(rest)) by {
                assert forall|i: int, j: int| 0 <= i < j < rest.len() implies text::precedes(#[trigger] rest[i].1, #[trigger] rest[j].1) by {
                    assert(text::precedes(children[i + 1].1, children[j + 1].1));
                }
            }
            names_have_passed(rest, after);
            assert forall|i: int| 0 <= i < passed(children, after) implies !text::precedes(after, (#[trigger] children[i]).1) by {
                if i > 0 {
                    assert(children[i] == rest[i - 1]);
                }
            }
            assert forall|i: int| passed(children, after) <= i < children.len() implies text::precedes(after, (#[trigger] children[i]).1) by {
                assert(children[i] == rest[i - 1]);
            }
        }
    }
}

/// A time is shown as it is, as far as a file time can hold it.
pub proof fn a_time_is_cut_to_what_a_file_can_hold(seconds: int)
    ensures
        0 <= seconds <= 4_294_967_295 ==> clamped_seconds(seconds) == seconds,
        seconds < 0 ==> clamped_seconds(seconds) == 0,
        seconds > 4_294_967_295 ==> clamped_seconds(seconds) == 4_294_967_295,
{
}

/// A directory of a page is shown by its name: what lies between the listed
/// directory and the slash behind it. A prefix that lies elsewhere, or deeper,
/// names none.
pub proof fn a_prefix_names_a_directory(dir_key: Seq<char>, name: Seq<char>, other: Seq<char>)
    requires
        !dir_key.is_prefix_of(other),
    ensures
        prefix_name(None, dir_key) is None,
        prefix_name(Some(other), dir_key) is None,
        !name.contains('/') ==> prefix_name(Some(dir_key + name.push('/')), dir_key) == Some(name),
        name.contains('/') ==> prefix_name(Some(dir_key + name.push('/')), dir_key) is None,
        name.len() > 0 && name.last() != '/' ==> prefix_name(Some(dir_key + name), dir_key) is None,
{
    let full = dir_key + name.push('/');
    assert(full.subrange(0, dir_key.len() as int) =~= dir_key);
    assert(full.skip(dir_key.len() as int) =~= name.push('/'));
    assert(name.push('/').drop_last() =~= name);
    assert((dir_key + name).skip(dir_key.len() as int) =~= name);
}

/// An object in a directory is a file of its size and time under its name; the
/// directory's own marker is none; one that lies elsewhere or deeper, or
/// without a size, does not belong on the page.
pub proof fn an_object_of_a_directory_is_its_file(object: ListedObject, dir_key: Seq<char>, name: Seq<char>)
    requires
        object.key is Some,
        name.len() > 0,
        !name.contains('/'),
    ensures
        object.key->0@ == dir_key ==> listed(object, dir_key) is Marker,
        object.key->0@ == dir_key + name && object.size is Some && object.size->0 >= 0 ==> listed(object, dir_key) == (Listed::Entry {
            raw: name,
            attributes: EntryAttributes {
                kind: EntryKind::File,
                size: object.size->0 as u64,
                mtime_secs: clamped_seconds(
                    if object.modified_secs is Some {
                        object.modified_secs->0 as int
                    } else {
                        0
                    },
                ),
            },
        }),
        object.key->0@ == dir_key + name && (object.size is None || object.size->0 < 0) ==> listed(object, dir_key) is Invalid,
        object.key->0@ == dir_key + name.push('/') ==> listed(object, dir_key) == (Listed::Entry {
            raw: name.push('/'),
            attributes: EntryAttributes { kind: EntryKind::Dir, size: 4096, mtime_secs: 0 },
        }),
        !dir_key.is_prefix_of(object.key->0@) ==> listed(object, dir_key) is Invalid,
{
    let key = dir_key + name;
    assert(key.subrange(0, dir_key.len() as int) =~= dir_key);
    assert(key.skip(dir_key.len() as int) =~= name);
    assert(key.len() != dir_key.len());
    assert(name.contains(name.last())) by {
        assert(name[name.len() - 1] == name.last());
    }
    let deeper = dir_key + name.push('/');
    assert(deeper.subrange(0, dir_key.len() as int) =~= dir_key);
    assert(deeper.skip(dir_key.len() as int) =~= name.push('/'));
    assert(name.push('/').drop_last() =~= name);
    assert(deeper.len() != dir_key.len());
    assert(dir_key.subrange(0, dir_key.len() as int) =~= dir_key);
}

/// An object without a key does not belong on a page.
pub proof fn an_object_without_a_key_is_refused(object: ListedObject, dir_key: Seq<char>)
    requires
        object.key is None,
    ensures
        listed(object, dir_key) is Invalid,
{
}

/// A name is shown as what was listed of it, as a directory where both a file
/// and a directory were; an empty name is not shown.
pub proof fn a_name_is_shown_as_it_was_listed(raw: Map<Seq<char>, EntryAttributes>, name: Seq<char>)
    requires
        name.len() > 0,
        !name.contains('/'),
    ensures
        by_name(raw).contains_key(name) <==> raw.contains_key(name) || raw.contains_key(name.push('/')),
        raw.contains_key(name.push('/')) ==> by_name(raw)[name] == raw[name.push('/')],
        raw.contains_key(name) && !raw.contains_key(name.push('/')) ==> by_name(raw)[name] == raw[name],
        !by_name(raw).contains_key(Seq::empty()),
{
}

/// A listing goes on exactly where the provider says that there is more.
pub proof fn a_listing_goes_on_where_there_is_more(page: ListedPage)
    ensures
        page.is_truncated != Some(true) ==> continuation_of(page) is None,
        page.is_truncated == Some(true) && page.next_continuation_token is Some ==> continuation_of(page) == Some(
            (page.next_continuation_token->0)@,
        ),
{
}

/// A page that says there is more without saying where is refused, and so is
/// one with a row that does not belong to the directory.
pub proof fn a_page_that_leads_nowhere_is_refused(page: ListedPage, dir_key: Seq<char>, row: int)
    ensures
        page.is_truncated == Some(true) && page.next_continuation_token is None ==> !is_valid_page(page, dir_key),
        page.is_truncated == Some(true) && page.next_continuation_token is Some && (page.next_continuation_token->0)@.len() == 0
            ==> !is_valid_page(page, dir_key),
        0 <= row < page.contents@.len() && listed(page.contents@[row], dir_key) is Invalid ==> !is_valid_page(page, dir_key),
        0 <= row < page.common_prefixes@.len() && prefix_name(text::optional(page.common_prefixes@[row]), dir_key) is None ==> !is_valid_page(
            page,
            dir_key,
        ),
{
}

/// An empty page that ends a listing is in order.
pub proof fn an_empty_last_page_is_in_order(page: ListedPage, dir_key: Seq<char>)
    requires
        page.contents@.len() == 0,
        page.common_prefixes@.len() == 0,
        page.is_truncated != Some(true),
    ensures
        is_valid_page(page, dir_key),
{
}

/// Of what was held back and what a page brings nothing is lost; a directory
/// takes the place of a file of its name, never the other way round.
pub proof fn nothing_is_lost_between_pages(
    pending: Map<Seq<char>, EntryAttributes>,
    page: Map<Seq<char>, EntryAttributes>,
    name: Seq<char>,
)
    ensures
        merged(pending, page).contains_key(name) <==> pending.contains_key(name) || page.contains_key(name),
        page.contains_key(name) && !pending.contains_key(name) ==> merged(pending, page)[name] == page[name],
        pending.contains_key(name) && !page.contains_key(name) ==> merged(pending, page)[name] == pending[name],
        page.contains_key(name) && page[name].kind == EntryKind::Dir ==> merged(pending, page)[name] == page[name],
        page.contains_key(name) && pending.contains_key(name) && page[name].kind == EntryKind::File ==> merged(pending, page)[name]
            == pending[name],
{
}

/// A listed entry stands for the child of that name, of that kind, in that
/// directory.
pub proof fn a_listed_entry_stands_for_its_child(dirid: u64, dir_key: Seq<char>, name: Seq<char>, attributes: EntryAttributes)
    ensures
        attributes.kind == EntryKind::File ==> listed_inode(dirid, dir_key, name, attributes).key == dir_key + name,
        attributes.kind == EntryKind::Dir ==> listed_inode(dirid, dir_key, name, attributes).key == (dir_key + name).push('/'),
        listed_inode(dirid, dir_key, name, attributes).parent == dirid,
        listed_inode(dirid, dir_key, name, attributes).kind == attributes.kind,
        listed_inode(dirid, dir_key, name, attributes).size == attributes.size,
        listed_inode(dirid, dir_key, name, attributes).mtime_secs == attributes.mtime_secs,
{
}

/// A listing that begins shows nothing, and has not ended.
pub proof fn a_new_listing_shows_nothing(key: Seq<char>, generation: u64, now_ms: u64)
    ensures
        ListingModel::fresh(key, generation, now_ms).children.len() == 0,
        !ListingModel::fresh(key, generation, now_ms).complete,
        ListingModel::fresh(key, generation, now_ms).key == key,
        ListingModel::fresh(key, generation, now_ms).generation == generation,
        ListingModel::fresh(key, generation, now_ms).token is None,
        ListingModel::fresh(key, generation, now_ms).watermark is None,
        ListingModel::fresh(key, generation, now_ms).fetched_at_ms == now_ms,
        ListingModel::fresh(key, generation, now_ms).pending == Map::<Seq<char>, EntryAttributes>::empty(),
        ListingModel::fresh(key, generation, now_ms).cookies == Map::<u64, Seq<char>>::empty(),
{
}

/// A page cannot follow that hands out a continuation again, or whose first
/// key does not lie behind all that was received; every other can.
pub proof fn a_page_has_to_lead_on(listing: ListingModel, first: Seq<char>, continuation: Seq<char>)
    ensures
        listing.seen.contains(continuation) ==> listing.regresses(Some(first), Some(continuation)) && listing.regresses(
            None,
            Some(continuation),
        ),
        listing.watermark == Some(first) ==> listing.regresses(Some(first), None),
        listing.watermark is Some && text::precedes(first, listing.watermark->0) ==> listing.regresses(Some(first), None),
        !listing.regresses(None, None),
        listing.watermark is None && !listing.seen.contains(continuation) ==> !listing.regresses(Some(first), Some(continuation)),
        listing.watermark is Some && text::precedes(listing.watermark->0, first) && !listing.seen.contains(continuation)
            ==> !listing.regresses(Some(first), Some(continuation)),
{
    if listing.watermark is Some && text::precedes(listing.watermark->0, first) {
        text::precedes_is_asymmetric(listing.watermark->0, first);
    }
}

/// A listing answers for its own directory, for thirty seconds.
pub proof fn a_listing_answers_for_its_directory_for_a_while(listing: ListingModel, dir_key: Seq<char>, now_ms: u64)
    ensures
        listing.is_fresh(dir_key, now_ms) <==> listing.key == dir_key && now_ms < listing.fetched_at_ms + 30_000,
{
}

/// A whole listing is enough for every reader; one that has not ended is
/// enough for a reader that asks for a page and finds an entry, and never for
/// one that asks for all.
pub proof fn a_listing_that_goes_on_is_not_all(listing: ListingModel, after: Option<Seq<char>>)
    ensures
        listing.complete ==> listing.is_enough(after, true) && listing.is_enough(after, false),
        !listing.complete ==> !listing.is_enough(after, true),
        !listing.complete && listing.children.len() > 0 ==> listing.is_enough(None, false),
        !listing.complete && listing.children.len() == 0 ==> !listing.is_enough(None, false),
{
}

/// A page from the beginning holds the first entries, as many as were asked
/// for or as there are, and one at least where there is one.
pub proof fn a_page_holds_what_was_asked_for(listing: ListingModel, max_entries: usize)
    ensures
        max_entries > 0 && max_entries <= listing.children.len() ==> listing.page(None, max_entries) == listing.children.take(
            max_entries as int,
        ),
        max_entries >= listing.children.len() ==> listing.page(None, max_entries) == listing.children || max_entries == 0,
        max_entries == 0 && listing.children.len() > 0 ==> listing.page(None, max_entries) == listing.children.take(1),
        max_entries > 0 ==> (listing.page_reaches_end(None, max_entries) <==> max_entries >= listing.children.len()),
{
    assert(listing.children.subrange(0, listing.children.len() as int) =~= listing.children);
}

/// What was received is remembered as far as the last key that came.
pub proof fn the_watermark_is_the_last_key(listing: ListingModel, last_key: Option<Seq<char>>)
    ensures
        last_key is Some ==> listing.next_watermark(last_key) == last_key,
        last_key is None ==> listing.next_watermark(last_key) == listing.watermark,
{
}

/// A listing that takes in a page has ended exactly where the page says so,
/// keeps what it showed, and shows at the end everything that it held back.
pub proof fn a_listing_ends_with_its_last_page(
    listing: ListingModel,
    table: inode_table::TableModel,
    dirid: u64,
    page: Map<Seq<char>, EntryAttributes>,
    last_key: Option<Seq<char>>,
    continuation: Option<Seq<char>>,
    now_ms: u64,
)
    ensures
        ({
            let after = after_page(listing, table, dirid, page, last_key, continuation, now_ms).0;
            &&& after.complete <==> continuation is None
            &&& after.token == continuation
            &&& after.key == listing.key
            &&& after.generation == listing.generation
            &&& after.fetched_at_ms == now_ms
            &&& after.cookies == listing.cookies
            &&& listing.children.is_prefix_of(after.children)
            &&& continuation is Some ==> after.seen.contains(continuation->0)
            &&& listing.seen.subset_of(after.seen)
        }),
{
    let after = after_page(listing, table, dirid, page, last_key, continuation, now_ms).0;
    let all = key_map::sorted_entries(merged(listing.pending, page));
    let count = ready_count(all, continuation is None, listing.next_watermark(last_key));
    let shown = interned_entries(table, dirid, listing.key, all.take(count)).1;
    assert((listing.children + shown).subrange(0, listing.children.len() as int) =~= listing.children);
}

/// A cookie of a page leads to its name; those of other pages stay.
pub proof fn a_cookie_leads_to_its_name(cookies: Map<u64, Seq<char>>, page: Seq<(u64, Seq<char>)>, id: u64, name: Seq<char>, other: u64)
    requires
        other != id,
    ensures
        with_cookies(cookies, page.push((id, name))).contains_pair(id, name),
        with_cookies(cookies, page.push((id, name))).contains_key(other) <==> with_cookies(cookies, page).contains_key(other),
        with_cookies(cookies, Seq::empty()) == cookies,
{
    assert(page.push((id, name)).drop_last() =~= page);
}

/// A page shows the directories of its prefixes and the files of its objects,
/// one by one; of two with one key the later is shown, and a marker shows
/// nothing.
pub proof fn a_page_shows_its_rows(
    raw: Map<Seq<char>, EntryAttributes>,
    prefixes: Seq<Option<String>>,
    prefix: Option<String>,
    objects: Seq<ListedObject>,
    object: ListedObject,
    dir_key: Seq<char>,
    name: Seq<char>,
)
    ensures
        raw_of_prefixes(Seq::empty(), dir_key) == Map::<Seq<char>, EntryAttributes>::empty(),
        prefix_name(text::optional(prefix), dir_key) == Some(name) ==> raw_of_prefixes(prefixes.push(prefix), dir_key) == raw_of_prefixes(
            prefixes,
            dir_key,
        ).insert(name.push('/'), EntryAttributes { kind: EntryKind::Dir, size: 4096, mtime_secs: 0 }),
        raw_with_objects(raw, Seq::empty(), dir_key) == raw,
        listed(object, dir_key) matches Listed::Entry { raw: key, attributes } ==> raw_with_objects(raw, objects.push(object), dir_key)
            == raw_with_objects(raw, objects, dir_key).insert(key, attributes),
        listed(object, dir_key) is Marker ==> raw_with_objects(raw, objects.push(object), dir_key) == raw_with_objects(raw, objects, dir_key),
{
    assert(prefixes.push(prefix).drop_last() =~= prefixes);
    assert(objects.push(object).drop_last() =~= objects);
}

} // verus!
