//! File paths as text, with `/` between components.
//!
//! Empty components and `.` components at the end of a path name nothing and
//! are passed over; a path that ends in `..` has no file name.

use vstd::prelude::*;
use crate::text;
use crate::text::{chars_of, has_last, same_text, text_of};

verus! {

/// Where the last component that names something ends.
pub open spec fn name_end(path: Seq<char>, length: int) -> int
    decreases length,
{
    if length <= 0 {
        0
    } else if path[length - 1] == '/' {
        name_end(path, length - 1)
    } else if path[length - 1] == '.' && (length == 1 || path[length - 2] == '/') {
        name_end(path, length - 1)
    } else {
        length
    }
}

/// Where the component that ends at `end` starts.
pub open spec fn name_start(path: Seq<char>, end: int) -> int
    decreases end,
{
    if end <= 0 || path[end - 1] == '/' {
        end
    } else {
        name_start(path, end - 1)
    }
}

/// The last component of a path, if it is a name.
pub open spec fn file_name_of(path: Seq<char>) -> Option<Seq<char>> {
    let end = name_end(path, path.len() as int);
    let name = path.subrange(name_start(path, end), end);
    if end == 0 || name == seq!['.', '.'] {
        None
    } else {
        Some(name)
    }
}

/// Where the extension's dot stands in a path whose name spans `start..end`;
/// `end` where the name has none. A dot that begins the name starts no
/// extension.
pub open spec fn stem_end(path: Seq<char>, start: int, position: int, end: int) -> int
    decreases position - start,
{
    if position <= start {
        end
    } else if path[position] == '.' {
        position
    } else {
        stem_end(path, start, position - 1, end)
    }
}

/// The path with its name's extension replaced.
pub open spec fn extended(path: Seq<char>, extension: Seq<char>) -> Seq<char> {
    match file_name_of(path) {
        Some(_) => {
            let end = name_end(path, path.len() as int);
            let stem = path.take(stem_end(path, name_start(path, end), end - 1, end));
            if extension.len() == 0 {
                stem
            } else {
                stem.push('.') + extension
            }
        },
        None => path,
    }
}

proof fn name_bounds(path: Seq<char>, length: int)
    requires
        0 <= length <= path.len(),
    ensures
        0 <= name_end(path, length) <= length,
        0 <= name_start(path, name_end(path, length)) <= name_end(path, length),
        name_end(path, length) > 0 ==> name_start(path, name_end(path, length)) < name_end(path, length),
    decreases length,
{
    if length > 0 {
        name_bounds(path, length - 1);
        start_bounds(path, length);
    }
}

proof fn start_bounds(path: Seq<char>, end: int)
    requires
        0 <= end <= path.len(),
    ensures
        0 <= name_start(path, end) <= end,
        end > 0 && path[end - 1] != '/' ==> name_start(path, end) < end,
    decreases end,
{
    if end > 0 && path[end - 1] != '/' {
        start_bounds(path, end - 1);
    }
}

/// Where the last component of a path starts and ends.
pub fn name_span(chars: &Vec<char>) -> (span: (usize, usize))
    ensures
        span.1 == name_end(chars@, chars@.len() as int),
        span.0 == name_start(chars@, span.1 as int),
        span.0 <= span.1 <= chars@.len(),
        span.1 > 0 ==> span.0 < span.1,
{
    let mut end: usize = chars.len();
    while end > 0 && (chars[end - 1] == '/' || (chars[end - 1] == '.' && (end == 1 || chars[end - 2] == '/')))
        invariant
            end <= chars@.len(),
            name_end(chars@, chars@.len() as int) == name_end(chars@, end as int),
        decreases end,
    {
        end = end - 1;
    }
    proof {
        name_bounds(chars@, chars@.len() as int);
    }
    let mut start: usize = end;
    while start > 0 && chars[start - 1] != '/'
        invariant
            start <= end <= chars@.len(),
            name_start(chars@, end as int) == name_start(chars@, start as int),
        decreases start,
    {
        start = start - 1;
    }
    (start, end)
}

/// The last component of a path, if it is a name.
pub fn file_name(path: &str) -> (name: Option<String>)
    ensures
        text::optional(name) == file_name_of(path@),
{
    let chars = chars_of(path);
    let (start, end) = name_span(&chars);
    if end == 0 {
        return None;
    }
    let name = text_of(&chars, start, end);
    proof {
        reveal_strlit("..");
        assert(".."@ =~= seq!['.', '.']);
    }
    if same_text(name.as_str(), "..") {
        None
    } else {
        Some(name)
    }
}

/// The path with its name's extension replaced.
pub fn with_extension(path: &str, extension: &str) -> (replaced: String)
    ensures
        replaced@ == extended(path@, extension@),
{
    if file_name(path).is_none() {
        return path.to_owned();
    }
    let chars = chars_of(path);
    let (start, end) = name_span(&chars);
    let mut position: usize = end - 1;
    while position > start && chars[position] != '.'
        invariant
            start <= position < end <= chars@.len(),
            stem_end(chars@, start as int, end - 1, end as int) == stem_end(chars@, start as int, position as int, end as int),
        decreases position,
    {
        position = position - 1;
    }
    let stop: usize = if position > start { position } else { end };
    let mut replaced = text_of(&chars, 0, stop);
    assert(replaced@ =~= path@.take(stop as int));
    if !extension.is_empty() {
        replaced.push('.');
        replaced.append(extension);
    }
    replaced
}

/// A name placed inside a folder.
pub open spec fn inside(folder: Seq<char>, name: Seq<char>) -> Seq<char> {
    if folder.len() == 0 || text::ends_with(folder, '/') {
        folder + name
    } else {
        folder.push('/') + name
    }
}

/// A name placed inside a folder.
pub fn place_inside(folder: &str, name: &str) -> (path: String)
    ensures
        path@ == inside(folder@, name@),
{
    let mut path = folder.to_owned();
    if !folder.is_empty() && !has_last(folder, '/') {
        path.push('/');
    }
    path.append(name);
    path
}

/// Two extensions of one path that differ give different paths.
pub proof fn extensions_keep_paths_apart(path: Seq<char>, extension: Seq<char>, other: Seq<char>)
    requires
        file_name_of(path) is Some,
        extension.len() > 0,
        other.len() > 0,
        extended(path, extension) == extended(path, other),
    ensures
        extension == other,
{
    let end = name_end(path, path.len() as int);
    let stem = path.take(stem_end(path, name_start(path, end), end - 1, end));
    let dotted = stem.push('.');
    assert((dotted + extension).skip(dotted.len() as int) =~= extension);
    assert((dotted + other).skip(dotted.len() as int) =~= other);
}

proof fn a_plain_name_ends_its_path(folder: Seq<char>, name: Seq<char>, length: int)
    requires
        name.len() > 0,
        !name.contains('/'),
        0 <= length <= name.len(),
    ensures
        name_start(folder.push('/') + name, folder.len() + 1 + length) == folder.len() + 1,
    decreases length,
{
    let path = folder.push('/') + name;
    if length == 0 {
        assert(path[folder.len() as int] == '/');
    } else {
        assert(path[folder.len() + length] == name[length - 1]);
        assert(name.contains(name[length - 1]));
        a_plain_name_ends_its_path(folder, name, length - 1);
    }
}

/// What was placed inside a folder is found there under its name.
pub proof fn a_placed_name_is_the_last_component(folder: Seq<char>, name: Seq<char>)
    requires
        name.len() > 0,
        !name.contains('/'),
        name != seq!['.'],
        name != seq!['.', '.'],
        folder.len() > 0,
        !text::ends_with(folder, '/'),
    ensures
        inside(folder, name) == folder.push('/') + name,
        file_name_of(inside(folder, name)) == Some(name),
{
    let path = folder.push('/') + name;
    let length = path.len() as int;
    assert(path[length - 1] == name.last());
    assert(name.contains(name.last())) by {
        assert(name[name.len() - 1] == name.last());
    }
    if name.len() == 1 {
        assert(name =~= seq![name[0]]);
    } else {
        assert(path[length - 2] == name[name.len() - 2]);
        assert(name.contains(name[name.len() - 2]));
    }
    assert(name_end(path, length) == length);
    a_plain_name_ends_its_path(folder, name, name.len() as int);
    assert(path.subrange(folder.len() as int + 1, length) =~= name);
}

/// Two names in one folder have different paths.
pub proof fn names_in_a_folder_are_apart(folder: Seq<char>, name: Seq<char>, other: Seq<char>)
    requires
        inside(folder, name) == inside(folder, other),
    ensures
        name == other,
{
    let head = if folder.len() == 0 || text::ends_with(folder, '/') {
        folder
    } else {
        folder.push('/')
    };
    assert((head + name).skip(head.len() as int) =~= name);
    assert((head + other).skip(head.len() as int) =~= other);
}

proof fn a_name_without_dots_has_no_extension(path: Seq<char>, start: int, position: int, end: int)
    requires
        0 <= start,
        position < path.len(),
        forall|i: int| start < i <= position ==> path[i] != '.',
    ensures
        stem_end(path, start, position, end) == end,
    decreases position - start,
{
    if position > start {
        a_name_without_dots_has_no_extension(path, start, position - 1, end);
    }
}

/// A name without a dot gets its extension behind a dot.
pub proof fn an_extension_follows_the_name(folder: Seq<char>, name: Seq<char>, extension: Seq<char>)
    requires
        name.len() > 0,
        !name.contains('/'),
        !name.contains('.'),
        folder.len() > 0,
        !text::ends_with(folder, '/'),
        extension.len() > 0,
    ensures
        extended(inside(folder, name), extension) == inside(folder, name).push('.') + extension,
{
    assert(name[0] != '.') by {
        assert(name.contains(name[0]));
    }
    a_placed_name_is_the_last_component(folder, name);
    let path = folder.push('/') + name;
    let length = path.len() as int;
    assert(path[length - 1] == name.last());
    assert(name.contains(name.last())) by {
        assert(name[name.len() - 1] == name.last());
    }
    assert(name_end(path, length) == length);
    a_plain_name_ends_its_path(folder, name, name.len() as int);
    let start = folder.len() as int + 1;
    assert forall|i: int| start < i <= length - 1 implies path[i] != '.' by {
        assert(path[i] == name[i - start]);
        assert(name.contains(name[i - start]));
    }
    a_name_without_dots_has_no_extension(path, start, length - 1, length);
    assert(path.take(length) =~= path);
}

} // verus!
