//! Per-OS NFS client command construction.
//!
//! The mount itself is performed by the operating system's built-in NFSv3
//! client talking to a server on this machine. Every command is built here as
//! a plain argument vector, for all platforms alike.

use vstd::prelude::*;
use crate::text;
use crate::text::{chars_of, decimal_text, is_blank_char};

verus! {

/// Operating systems with a built-in NFSv3 client we can drive.
#[derive(Clone, Copy, Debug, PartialEq, Eq, Structural)]
pub enum MountPlatform {
    MacOs,
    Linux,
    Windows,
}

/// NFS client options for the unix mount commands.
pub open spec fn options_of(platform: MountPlatform, port: u16, read_only: bool) -> Seq<char> {
    let access = if read_only {
        "ro,"@
    } else {
        Seq::empty()
    };
    let sizes = if platform == MountPlatform::MacOs {
        "rsize=131072,wsize=131072,readahead=128"@
    } else {
        "rsize=1048576,wsize=1048576"@
    };
    let number = text::decimal(port as nat);
    access + "vers=3,tcp,"@ + sizes + ",actimeo=120,port="@ + number + ",mountport="@ + number
}

/// NFS client options for the unix mount commands. `actimeo` keeps attribute
/// lookups off the network for two minutes, which matters a lot when every
/// miss is a round trip to the store.
///
/// The transfer sizes are per-OS maxima: Linux negotiates up to the server's
/// 1 MiB, while the macOS client caps a transfer at 128 KiB. macOS compensates
/// with `readahead=128`, the most reads it will pipeline ahead of a sequential
/// reader. Linux read-ahead is kernel-managed and has no mount option.
///
/// A read-only mount is marked `ro` so the client greys out the affordances
/// that would fail, instead of letting the user try and collect an I/O error.
fn unix_options(platform: MountPlatform, port: u16, read_only: bool) -> (options: String)
    ensures
        options@ == options_of(platform, port, read_only),
{
    let mut options = String::new();
    if read_only {
        options.append("ro,");
        assert(options@ =~= "ro,"@);
    } else {
        assert(options@ =~= Seq::empty());
    }
    options.append("vers=3,tcp,");
    if platform == MountPlatform::MacOs {
        options.append("rsize=131072,wsize=131072,readahead=128");
    } else {
        options.append("rsize=1048576,wsize=1048576");
    }
    let number = decimal_text(port as u64);
    options.append(",actimeo=120,port=");
    options.append(number.as_str());
    options.append(",mountport=");
    options.append(number.as_str());
    options
}

/// Command that mounts the local NFS server.
pub open spec fn mount_command(
    platform: MountPlatform,
    server_ip: Seq<char>,
    port: u16,
    target: Seq<char>,
    read_only: bool,
) -> Seq<Seq<char>> {
    match platform {
        MountPlatform::MacOs => seq![
            "/sbin/mount_nfs"@,
            "-o"@,
            "nolocks,"@ + options_of(platform, port, read_only),
            server_ip + ":/"@,
            target,
        ],
        MountPlatform::Linux => seq![
            "mount.nfs"@,
            "-o"@,
            "user,noacl,nolock,"@ + options_of(platform, port, read_only),
            server_ip + ":/"@,
            target,
        ],
        MountPlatform::Windows => seq![
            "mount.exe"@,
            "-o"@,
            "anon,nolock,mtype=soft,fileaccess=6,casesensitive,lang=ansi,rsize=128,wsize=128,timeout=60,retry=2"@,
            "\\\\"@ + server_ip + "\\"@,
            target,
        ],
    }
}

/// Command that mounts the local NFS server at `server_ip`:`port` on `target`.
///
/// `target` is a directory path on macOS/Linux and a drive specifier such as
/// `Z:` on Windows. The Windows NFS client has no `port=` option: it resolves
/// the server through the portmapper on port 111 of `server_ip`. It has no
/// `ro` either, so the server enforces read-only alone.
pub fn mount_argv(platform: MountPlatform, server_ip: &str, port: u16, target: &str, read_only: bool) -> (argv: Vec<String>)
    ensures
        text::texts(argv@) == mount_command(platform, server_ip@, port, target@, read_only),
{
    let mut argv: Vec<String> = Vec::new();
    match platform {
        MountPlatform::MacOs => {
            let mut options = "nolocks,".to_owned();
            options.append(unix_options(platform, port, read_only).as_str());
            let mut server = server_ip.to_owned();
            server.append(":/");
            argv.push("/sbin/mount_nfs".to_owned());
            argv.push("-o".to_owned());
            argv.push(options);
            argv.push(server);
            argv.push(target.to_owned());
        },
        MountPlatform::Linux => {
            let mut options = "user,noacl,nolock,".to_owned();
            options.append(unix_options(platform, port, read_only).as_str());
            let mut server = server_ip.to_owned();
            server.append(":/");
            argv.push("mount.nfs".to_owned());
            argv.push("-o".to_owned());
            argv.push(options);
            argv.push(server);
            argv.push(target.to_owned());
        },
        MountPlatform::Windows => {
            let mut server = "\\\\".to_owned();
            server.append(server_ip);
            server.append("\\");
            argv.push("mount.exe".to_owned());
            argv.push("-o".to_owned());
            argv.push(
                "anon,nolock,mtype=soft,fileaccess=6,casesensitive,lang=ansi,rsize=128,wsize=128,timeout=60,retry=2".to_owned(),
            );
            argv.push(server);
            argv.push(target.to_owned());
        },
    }
    assert(text::texts(argv@) =~= mount_command(platform, server_ip@, port, target@, read_only));
    argv
}

/// Unmount commands to try in order.
pub open spec fn umount_commands(platform: MountPlatform, target: Seq<char>) -> Seq<Seq<Seq<char>>> {
    match platform {
        MountPlatform::MacOs => seq![
            seq!["umount"@, target],
            seq!["diskutil"@, "unmount"@, target],
            seq!["umount"@, "-f"@, target],
        ],
        MountPlatform::Linux => seq![seq!["umount"@, target], seq!["umount"@, "-l"@, target]],
        MountPlatform::Windows => seq![seq!["umount"@, target], seq!["umount"@, "-f"@, target]],
    }
}

/// Commands, taken as text.
pub open spec fn commands(list: Seq<Vec<String>>) -> Seq<Seq<Seq<char>>> {
    list.map_values(|argv: Vec<String>| text::texts(argv@))
}

fn two(first: &str, second: &str) -> (argv: Vec<String>)
    ensures
        text::texts(argv@) == seq![first@, second@],
{
    let mut argv: Vec<String> = Vec::new();
    argv.push(first.to_owned());
    argv.push(second.to_owned());
    assert(text::texts(argv@) =~= seq![first@, second@]);
    argv
}

fn three(first: &str, second: &str, third: &str) -> (argv: Vec<String>)
    ensures
        text::texts(argv@) == seq![first@, second@, third@],
{
    let mut argv = two(first, second);
    let ghost before = argv@;
    argv.push(third.to_owned());
    assert(text::texts(argv@) =~= text::texts(before).push(third@));
    assert(text::texts(argv@) =~= seq![first@, second@, third@]);
    argv
}

/// Unmount commands to try in order; the first one that exits 0 wins.
pub fn umount_argvs(platform: MountPlatform, target: &str) -> (argvs: Vec<Vec<String>>)
    ensures
        commands(argvs@) == umount_commands(platform, target@),
{
    let mut argvs: Vec<Vec<String>> = Vec::new();
    argvs.push(two("umount", target));
    match platform {
        MountPlatform::MacOs => {
            argvs.push(three("diskutil", "unmount", target));
            argvs.push(three("umount", "-f", target));
        },
        MountPlatform::Linux => {
            argvs.push(three("umount", "-l", target));
        },
        MountPlatform::Windows => {
            argvs.push(three("umount", "-f", target));
        },
    }
    assert(commands(argvs@) =~= umount_commands(platform, target@));
    argvs
}

/// A character that a shell takes as itself.
pub open spec fn is_shell_safe(character: char) -> bool {
    let code = character as int;
    ||| 'a' as int <= code <= 'z' as int
    ||| 'A' as int <= code <= 'Z' as int
    ||| '0' as int <= code <= '9' as int
    ||| "/._-:,=@"@.contains(character)
}

fn is_safe_char(character: char) -> (safe: bool)
    ensures
        safe == is_shell_safe(character),
{
    proof {
        reveal_strlit("/._-:,=@");
        let others = "/._-:,=@"@;
        assert(others[0] == '/' && others[1] == '.' && others[2] == '_' && others[3] == '-' && others[4] == ':' && others[5] == ',' && others[6]
            == '=' && others[7] == '@');
    }
    ('a' <= character && character <= 'z') || ('A' <= character && character <= 'Z') || ('0' <= character && character <= '9') || character
        == '/' || character == '.' || character == '_' || character == '-' || character == ':' || character == ',' || character == '='
        || character == '@'
}

/// A text as it stands between single quotes: a single quote itself cannot, so
/// the quotes are closed around an escaped one.
pub open spec fn quoted_inside(arg: Seq<char>) -> Seq<char>
    decreases arg.len(),
{
    if arg.len() == 0 {
        Seq::empty()
    } else if arg.last() == '\'' {
        quoted_inside(arg.drop_last()) + "'\\''"@
    } else {
        quoted_inside(arg.drop_last()).push(arg.last())
    }
}

/// A shell takes every character of the text as itself.
pub open spec fn is_plain(arg: Seq<char>) -> bool {
    arg.len() > 0 && forall|i: int| 0 <= i < arg.len() ==> is_shell_safe(#[trigger] arg[i])
}

/// An argument as a shell reads it back.
pub open spec fn quoted(arg: Seq<char>) -> Seq<char> {
    if is_plain(arg) {
        arg
    } else {
        "'"@ + quoted_inside(arg) + "'"@
    }
}

/// POSIX single-quote escaping so a path with spaces survives copy-paste.
pub fn shell_quote(arg: &str) -> (rendered: String)
    ensures
        rendered@ == quoted(arg@),
{
    let chars = chars_of(arg);
    let mut safe = chars.len() > 0;
    let mut inside = String::new();
    let mut i: usize = 0;
    assert(inside@ =~= Seq::empty());
    assert(arg@.take(0) =~= Seq::empty());
    while i < chars.len()
        invariant
            chars@ == arg@,
            i <= chars.len(),
            inside@ == quoted_inside(arg@.take(i as int)),
            safe == (chars.len() > 0 && forall|j: int| 0 <= j < i ==> is_shell_safe(#[trigger] arg@[j])),
        decreases chars.len() - i,
    {
        let character = chars[i];
        proof {
            assert(arg@.take(i + 1).drop_last() =~= arg@.take(i as int));
            assert(arg@.take(i + 1).last() == character);
        }
        if !is_safe_char(character) {
            safe = false;
        }
        if character == '\'' {
            inside.append("'\\''");
        } else {
            inside.push(character);
        }
        i = i + 1;
    }
    assert(arg@.take(i as int) =~= arg@);
    if safe {
        return arg.to_owned();
    }
    let mut rendered = "'".to_owned();
    rendered.append(inside.as_str());
    rendered.append("'");
    rendered
}

/// What a shell takes a word to be: outside single quotes a backslash stands
/// for the character behind it, and inside them every character but the quote
/// stands for itself. None where the word ends early or means something else.
pub open spec fn shell_word(word: Seq<char>, inside: bool) -> Option<Seq<char>>
    decreases word.len(),
{
    if word.len() == 0 {
        if inside {
            None
        } else {
            Some(Seq::empty())
        }
    } else if word[0] == '\'' {
        shell_word(word.skip(1), !inside)
    } else if inside || is_shell_safe(word[0]) {
        match shell_word(word.skip(1), inside) {
            Some(rest) => Some(seq![word[0]] + rest),
            None => None,
        }
    } else if word[0] == '\\' && word.len() > 1 {
        match shell_word(word.skip(2), inside) {
            Some(rest) => Some(seq![word[1]] + rest),
            None => None,
        }
    } else {
        None
    }
}

proof fn plain_words_stand_for_themselves(word: Seq<char>)
    requires
        forall|i: int| 0 <= i < word.len() ==> is_shell_safe(#[trigger] word[i]),
    ensures
        shell_word(word, false) == Some(word),
    decreases word.len(),
{
    if word.len() > 0 {
        let rest = word.skip(1);
        assert forall|i: int| 0 <= i < rest.len() implies is_shell_safe(#[trigger] rest[i]) by {
            assert(rest[i] == word[i + 1]);
        }
        plain_words_stand_for_themselves(rest);
        assert(is_shell_safe(word[0]));
        assert(word[0] != '\'') by {
            reveal_strlit("/._-:,=@");
        }
        assert(seq![word[0]] + rest =~= word);
    } else {
        assert(word =~= Seq::empty());
    }
}

proof fn what_stands_in_quotes_reads_back(arg: Seq<char>, rest: Seq<char>)
    ensures
        shell_word(quoted_inside(arg) + rest, true) == (match shell_word(rest, true) {
            Some(tail) => Some(arg + tail),
            None => None,
        }),
    decreases arg.len(),
{
    if arg.len() == 0 {
        assert(quoted_inside(arg) + rest =~= rest);
        if shell_word(rest, true) is Some {
            assert(arg + shell_word(rest, true)->0 =~= shell_word(rest, true)->0);
        }
    } else {
        let fewer = arg.drop_last();
        let last = arg.last();
        if last == '\'' {
            reveal_strlit("'\\''");
            let escaped = "'\\''"@;
            assert(escaped.len() == 4 && escaped[0] == '\'' && escaped[1] == '\\' && escaped[2] == '\'' && escaped[3] == '\'');
            let more = escaped + rest;
            assert(quoted_inside(arg) + rest =~= quoted_inside(fewer) + more);
            what_stands_in_quotes_reads_back(fewer, more);
            let one = more.skip(1);
            let three = one.skip(2);
            assert(three.skip(1) =~= rest);
            assert(one[0] == '\\' && one[1] == '\'');
            assert(three[0] == '\'');
            assert(!is_shell_safe('\\')) by {
                reveal_strlit("/._-:,=@");
            }
            assert(shell_word(three, false) == shell_word(rest, true));
            assert(more[0] == '\'');
            assert(shell_word(more, true) == shell_word(one, false));
            assert(one.len() > 1);
            assert(shell_word(one, false) == (match shell_word(three, false) {
                Some(tail) => Some(seq!['\''] + tail),
                None => None,
            }));
            if shell_word(rest, true) is Some {
                let tail = shell_word(rest, true)->0;
                assert(fewer + (seq!['\''] + tail) =~= arg + tail);
            }
        } else {
            let more = seq![last] + rest;
            assert(quoted_inside(arg) + rest =~= quoted_inside(fewer) + more);
            what_stands_in_quotes_reads_back(fewer, more);
            assert(more.skip(1) =~= rest);
            assert(more[0] == last);
            if shell_word(rest, true) is Some {
                let tail = shell_word(rest, true)->0;
                assert(fewer + (seq![last] + tail) =~= arg + tail);
            }
        }
    }
}

/// An argument survives copy-paste: a shell reads back what was quoted,
/// whatever characters it has.
pub proof fn a_quoted_argument_reads_back(arg: Seq<char>)
    ensures
        shell_word(quoted(arg), false) == Some(arg),
{
    if is_plain(arg) {
        plain_words_stand_for_themselves(arg);
    } else {
        reveal_strlit("'");
        assert("'"@.len() == 1 && "'"@[0] == '\'');
        what_stands_in_quotes_reads_back(arg, "'"@);
        let word = quoted(arg);
        assert(word.skip(1) =~= quoted_inside(arg) + "'"@);
        assert(word[0] == '\'');
        assert("'"@.skip(1) =~= Seq::empty());
        assert(shell_word(Seq::<char>::empty(), false) == Some(Seq::<char>::empty()));
        assert(shell_word("'"@, true) == Some(Seq::<char>::empty()));
        assert(arg + Seq::<char>::empty() =~= arg);
    }
}

/// Arguments as a shell reads them back, with spaces between.
pub open spec fn rendered(argv: Seq<Seq<char>>) -> Seq<char>
    decreases argv.len(),
{
    if argv.len() == 0 {
        Seq::empty()
    } else if argv.len() == 1 {
        quoted(argv[0])
    } else {
        rendered(argv.drop_last()) + " "@ + quoted(argv.last())
    }
}

/// Copy-pasteable mount command shown to the user when the automatic mount
/// fails. Linux distributions commonly require root for `mount.nfs`, so the
/// suggestion is prefixed with `sudo` there.
pub fn manual_mount_command(platform: MountPlatform, server_ip: &str, port: u16, target: &str, read_only: bool) -> (command: String)
    ensures
        ({
            let line = rendered(mount_command(platform, server_ip@, port, target@, read_only));
            command@ == (if platform == MountPlatform::Linux {
                "sudo "@ + line
            } else {
                line
            })
        }),
{
    let argv = mount_argv(platform, server_ip, port, target, read_only);
    let ghost all = text::texts(argv@);
    let mut line = String::new();
    let mut i: usize = 0;
    assert(line@ =~= Seq::empty());
    assert(all.take(0) =~= Seq::empty());
    while i < argv.len()
        invariant
            all == text::texts(argv@),
            i <= argv.len(),
            line@ == rendered(all.take(i as int)),
        decreases argv.len() - i,
    {
        let ghost before = line@;
        proof {
            assert(all.take(i + 1).drop_last() =~= all.take(i as int));
            assert(all.take(i + 1).last() == argv@[i as int]@);
        }
        if i > 0 {
            line.append(" ");
        }
        line.append(shell_quote(argv[i].as_str()).as_str());
        assert(i == 0 ==> line@ =~= quoted(argv@[i as int]@));
        i = i + 1;
    }
    assert(all.take(i as int) =~= all);
    match platform {
        MountPlatform::Linux => {
            let mut command = "sudo ".to_owned();
            command.append(line.as_str());
            command
        },
        _ => line,
    }
}

/// The text without the white space at its start.
pub open spec fn without_leading_blanks(text: Seq<char>) -> Seq<char>
    decreases text.len(),
{
    if text.len() > 0 && text::is_blank(text[0]) {
        without_leading_blanks(text.skip(1))
    } else {
        text
    }
}

/// The text without the white space at its end.
pub open spec fn without_trailing_blanks(text: Seq<char>) -> Seq<char>
    decreases text.len(),
{
    if text.len() > 0 && text::is_blank(text.last()) {
        without_trailing_blanks(text.drop_last())
    } else {
        text
    }
}

/// The text without the slashes of either kind at its end.
pub open spec fn without_trailing_separators(text: Seq<char>) -> Seq<char>
    decreases text.len(),
{
    if text.len() > 0 && (text.last() == '/' || text.last() == '\\') {
        without_trailing_separators(text.drop_last())
    } else {
        text
    }
}

/// Where a letter stands in the alphabet.
pub open spec fn letter_of(character: char) -> Option<int> {
    let code = character as int;
    if 'a' as int <= code <= 'z' as int {
        Some(code - 'a' as int)
    } else if 'A' as int <= code <= 'Z' as int {
        Some(code - 'A' as int)
    } else {
        None
    }
}

/// A drive by the place of its letter in the alphabet.
pub open spec fn drive_name(letter: int) -> Seq<char> {
    seq!["ABCDEFGHIJKLMNOPQRSTUVWXYZ"@[letter], ':']
}

/// The drive that a mount target names, if it names one.
pub open spec fn drive_of(target: Seq<char>) -> Option<int> {
    let bare = without_trailing_separators(without_trailing_blanks(without_leading_blanks(target)));
    if bare.len() == 2 && bare[1] == ':' {
        letter_of(bare[0])
    } else {
        None
    }
}

fn drive_letter(target: &str) -> (letter: Option<usize>)
    ensures
        letter is Some <==> drive_of(target@) is Some,
        letter matches Some(index) ==> drive_of(target@) == Some(index as int) && index < 26,
{
    let chars = chars_of(target);
    let mut from: usize = 0;
    assert(target@.skip(0) =~= target@);
    while from < chars.len() && is_blank_char(chars[from])
        invariant
            chars@ == target@,
            from <= chars.len(),
            without_leading_blanks(target@.skip(from as int)) == without_leading_blanks(target@),
        decreases chars.len() - from,
    {
        assert(target@.skip(from as int).skip(1) =~= target@.skip(from + 1));
        assert(target@.skip(from as int)[0] == target@[from as int]);
        from = from + 1;
    }
    proof {
        if from < chars.len() {
            assert(target@.skip(from as int)[0] == target@[from as int]);
        }
    }
    let ghost led = target@.skip(from as int);
    assert(without_leading_blanks(target@) == led);
    let mut to: usize = chars.len();
    assert(target@.subrange(from as int, to as int) =~= led);
    while to > from && is_blank_char(chars[to - 1])
        invariant
            chars@ == target@,
            from <= to <= chars.len(),
            without_trailing_blanks(target@.subrange(from as int, to as int)) == without_trailing_blanks(led),
        decreases to,
    {
        assert(target@.subrange(from as int, to as int).drop_last() =~= target@.subrange(from as int, to - 1));
        assert(target@.subrange(from as int, to as int).last() == target@[to - 1]);
        to = to - 1;
    }
    proof {
        if to > from {
            assert(target@.subrange(from as int, to as int).last() == target@[to - 1]);
        }
    }
    let ghost trimmed = target@.subrange(from as int, to as int);
    assert(without_trailing_blanks(led) == trimmed);
    while to > from && (chars[to - 1] == '/' || chars[to - 1] == '\\')
        invariant
            chars@ == target@,
            from <= to <= chars.len(),
            without_trailing_separators(target@.subrange(from as int, to as int)) == without_trailing_separators(trimmed),
        decreases to,
    {
        assert(target@.subrange(from as int, to as int).drop_last() =~= target@.subrange(from as int, to - 1));
        assert(target@.subrange(from as int, to as int).last() == target@[to - 1]);
        to = to - 1;
    }
    let ghost bare = target@.subrange(from as int, to as int);
    proof {
        if to > from {
            assert(bare.last() == target@[to - 1]);
        }
        assert(without_trailing_separators(trimmed) == bare);
    }
    if to - from != 2 || chars[from + 1] != ':' {
        return None;
    }
    let letter = chars[from];
    assert(bare[0] == letter);
    if 'a' <= letter && letter <= 'z' {
        Some((letter as u32 - 'a' as u32) as usize)
    } else if 'A' <= letter && letter <= 'Z' {
        Some((letter as u32 - 'A' as u32) as usize)
    } else {
        None
    }
}

fn drive_text(letter: usize) -> (name: String)
    requires
        letter < 26,
    ensures
        name@ == drive_name(letter as int),
{
    proof {
        reveal_strlit("ABCDEFGHIJKLMNOPQRSTUVWXYZ");
    }
    let mut name = String::new();
    name.push("ABCDEFGHIJKLMNOPQRSTUVWXYZ".get_char(letter));
    name.push(':');
    assert(name@ =~= drive_name(letter as int));
    name
}

/// Normalizes a Windows mount target to the bare `X:` drive specifier the NFS
/// client expects, rejecting anything that is not a drive letter.
pub fn normalize_drive_spec(target: &str) -> (drive: Option<String>)
    ensures
        text::optional(drive) == (match drive_of(target@) {
            Some(letter) => Some(drive_name(letter)),
            None => None,
        }),
{
    match drive_letter(target) {
        Some(letter) => Some(drive_text(letter)),
        None => None,
    }
}

/// Why a drive is not used for a trial mount.
pub open spec fn drive_complaint(value: Option<Seq<char>>, assigned_drives: u32) -> Option<Seq<char>> {
    match value {
        None => Some("Set R2_NFS_TEST_DRIVE to an explicitly reserved, unused drive letter"@),
        Some(target) => match drive_of(target) {
            None => Some("R2_NFS_TEST_DRIVE must be a drive letter such as Z:, not a folder or share"@),
            Some(letter) => if assigned_drives & (1u32 << letter as u32) != 0 {
                Some("Refusing native NFS smoke: drive "@ + drive_name(letter) + " is already assigned"@)
            } else {
                None
            },
        },
    }
}

/// The drive for a trial mount. It is named explicitly and held against the
/// letters that are in use, a bit for each from `A` on, rather than opened to
/// see whether it is there.
pub fn explicit_test_drive(value: Option<&str>, assigned_drives: u32) -> (drive: Result<String, String>)
    ensures
        ({
            let named = match value {
                Some(target) => Some(target@),
                None => None,
            };
            match drive {
                Ok(name) => drive_complaint(named, assigned_drives) is None && name@ == drive_name(drive_of(named->0)->0),
                Err(message) => drive_complaint(named, assigned_drives) == Some(message@),
            }
        }),
{
    let target = match value {
        Some(target) => target,
        None => {
            return Err("Set R2_NFS_TEST_DRIVE to an explicitly reserved, unused drive letter".to_owned());
        },
    };
    match drive_letter(target) {
        None => Err("R2_NFS_TEST_DRIVE must be a drive letter such as Z:, not a folder or share".to_owned()),
        Some(letter) => {
            let name = drive_text(letter);
            let bit: u32 = letter as u32;
            if assigned_drives & (1u32 << bit) != 0 {
                let mut message = "Refusing native NFS smoke: drive ".to_owned();
                message.append(name.as_str());
                message.append(" is already assigned");
                Err(message)
            } else {
                Ok(name)
            }
        },
    }
}

/// Options as a mount command takes them, with commas between.
pub open spec fn comma_joined(options: Seq<Seq<char>>) -> Seq<char>
    decreases options.len(),
{
    if options.len() == 0 {
        Seq::empty()
    } else if options.len() == 1 {
        options[0]
    } else {
        comma_joined(options.drop_last()).push(',') + options.last()
    }
}

proof fn one_more_option(options: Seq<Seq<char>>, option: Seq<char>)
    requires
        options.len() > 0,
    ensures
        comma_joined(options.push(option)) == comma_joined(options).push(',') + option,
{
    assert(options.push(option).drop_last() =~= options);
}

proof fn the_joints_are_commas()
    ensures
        "ro,"@ == "ro"@.push(','),
        "nolocks,"@ == "nolocks"@.push(','),
        "user,noacl,nolock,"@ == ("user"@.push(',') + "noacl"@.push(',') + "nolock"@.push(',')),
        "vers=3,tcp,"@ == ("vers=3"@.push(',') + "tcp"@.push(',')),
        "rsize=131072,wsize=131072,readahead=128"@ == ("rsize=131072"@.push(',') + "wsize=131072"@.push(',') + "readahead=128"@),
        "rsize=1048576,wsize=1048576"@ == ("rsize=1048576"@.push(',') + "wsize=1048576"@),
        ",actimeo=120,port="@ == (seq![','] + "actimeo=120"@.push(',') + "port="@),
        ",mountport="@ == (seq![','] + "mountport="@),
{
    reveal_strlit("ro,");
    reveal_strlit("ro");
    reveal_strlit("nolocks,");
    reveal_strlit("nolocks");
    reveal_strlit("user,noacl,nolock,");
    reveal_strlit("user");
    reveal_strlit("noacl");
    reveal_strlit("nolock");
    reveal_strlit("vers=3,tcp,");
    reveal_strlit("vers=3");
    reveal_strlit("tcp");
    assert("ro,"@ =~= "ro"@.push(','));
    assert("nolocks,"@ =~= "nolocks"@.push(','));
    assert("user,noacl,nolock,"@ =~= ("user"@.push(',') + "noacl"@.push(',') + "nolock"@.push(',')));
    assert("vers=3,tcp,"@ =~= ("vers=3"@.push(',') + "tcp"@.push(',')));
    assert("rsize=131072,wsize=131072,readahead=128"@ =~= ("rsize=131072"@.push(',') + "wsize=131072"@.push(',') + "readahead=128"@)) by {
        reveal_strlit("rsize=131072,wsize=131072,readahead=128");
        reveal_strlit("rsize=131072");
        reveal_strlit("wsize=131072");
        reveal_strlit("readahead=128");
    }
    assert("rsize=1048576,wsize=1048576"@ =~= ("rsize=1048576"@.push(',') + "wsize=1048576"@)) by {
        reveal_strlit("rsize=1048576,wsize=1048576");
        reveal_strlit("rsize=1048576");
        reveal_strlit("wsize=1048576");
    }
    assert(",actimeo=120,port="@ =~= (seq![','] + "actimeo=120"@.push(',') + "port="@)) by {
        reveal_strlit(",actimeo=120,port=");
        reveal_strlit("actimeo=120");
        reveal_strlit("port=");
    }
    assert(",mountport="@ =~= (seq![','] + "mountport="@)) by {
        reveal_strlit(",mountport=");
        reveal_strlit("mountport=");
    }
}

proof fn the_options_stand_one_by_one(
    client: Seq<char>,
    access: Seq<char>,
    head: Seq<char>,
    version: Seq<char>,
    transport: Seq<char>,
    sizes: Seq<char>,
    age: Seq<char>,
    port: Seq<char>,
    mountport: Seq<char>,
    number: Seq<char>,
)
    requires
        client + access == head.push(','),
    ensures
        client + (access + (version.push(',') + transport.push(',')) + sizes + (seq![','] + age.push(',') + port) + number + (seq![',']
            + mountport) + number) == ((((((head.push(',') + version).push(',') + transport).push(',') + sizes).push(',') + age).push(',') + (port
            + number)).push(',') + (mountport + number)),
{
    let left = client + (access + (version.push(',') + transport.push(',')) + sizes + (seq![','] + age.push(',') + port) + number + (seq![',']
        + mountport) + number);
    let middle = (client + access) + (version.push(',') + transport.push(',')) + sizes + (seq![','] + age.push(',') + port) + number + (seq![
        ',',
    ] + mountport) + number;
    assert(left =~= middle);
    let right = ((((((head.push(',') + version).push(',') + transport).push(',') + sizes).push(',') + age).push(',') + (port + number)).push(
        ',',
    ) + (mountport + number));
    assert(middle =~= right);
}

/// The options that a unix client is given, one by one: those of the client
/// itself, `ro` exactly for a read-only mount, the protocol that the server
/// speaks, the sizes that the client can take, and the port of the server for
/// both of its services. Nothing else depends on the access.
pub proof fn a_unix_mount_asks_for_what_the_server_speaks(
    platform: MountPlatform,
    server_ip: Seq<char>,
    port: u16,
    target: Seq<char>,
    read_only: bool,
)
    requires
        platform != MountPlatform::Windows,
    ensures
        ({
            let number = text::decimal(port as nat);
            let client = if platform == MountPlatform::MacOs {
                seq!["nolocks"@]
            } else {
                seq!["user"@, "noacl"@, "nolock"@]
            };
            let access = if read_only {
                seq!["ro"@]
            } else {
                Seq::empty()
            };
            let sizes = if platform == MountPlatform::MacOs {
                seq!["rsize=131072"@, "wsize=131072"@, "readahead=128"@]
            } else {
                seq!["rsize=1048576"@, "wsize=1048576"@]
            };
            mount_command(platform, server_ip, port, target, read_only)[2] == comma_joined(
                client + access + seq!["vers=3"@, "tcp"@] + sizes + seq!["actimeo=120"@, "port="@ + number, "mountport="@ + number],
            )
        }),
{
    let number = text::decimal(port as nat);
    let mac = platform == MountPlatform::MacOs;
    let client = if mac {
        seq!["nolocks"@]
    } else {
        seq!["user"@, "noacl"@, "nolock"@]
    };
    let access = if read_only {
        seq!["ro"@]
    } else {
        Seq::empty()
    };
    let sizes = if mac {
        seq!["rsize=131072"@, "wsize=131072"@, "readahead=128"@]
    } else {
        seq!["rsize=1048576"@, "wsize=1048576"@]
    };
    let head = client + access;
    let before = head + seq!["vers=3"@, "tcp"@];
    let sized = before + sizes;
    let all = sized + seq!["actimeo=120"@, "port="@ + number, "mountport="@ + number];
    the_first_options_are_joined(mac, read_only);
    the_sizes_are_joined(before, mac);
    assert(before =~= head.push("vers=3"@).push("tcp"@));
    one_more_option(head, "vers=3"@);
    one_more_option(head.push("vers=3"@), "tcp"@);
    assert(all =~= sized.push("actimeo=120"@).push("port="@ + number).push("mountport="@ + number));
    one_more_option(sized, "actimeo=120"@);
    one_more_option(sized.push("actimeo=120"@), "port="@ + number);
    one_more_option(sized.push("actimeo=120"@).push("port="@ + number), "mountport="@ + number);
    the_joints_are_commas();
    the_options_stand_one_by_one(
        if mac {
            "nolocks,"@
        } else {
            "user,noacl,nolock,"@
        },
        if read_only {
            "ro,"@
        } else {
            Seq::empty()
        },
        comma_joined(head),
        "vers=3"@,
        "tcp"@,
        if mac {
            "rsize=131072,wsize=131072,readahead=128"@
        } else {
            "rsize=1048576,wsize=1048576"@
        },
        "actimeo=120"@,
        "port="@,
        "mountport="@,
        number,
    );
    assert(client + access + seq!["vers=3"@, "tcp"@] + sizes + seq!["actimeo=120"@, "port="@ + number, "mountport="@ + number] == all);
}

proof fn the_first_options_are_joined(mac: bool, read_only: bool)
    ensures
        ({
            let client = if mac {
                seq!["nolocks"@]
            } else {
                seq!["user"@, "noacl"@, "nolock"@]
            };
            let access = if read_only {
                seq!["ro"@]
            } else {
                Seq::empty()
            };
            (if mac {
                "nolocks,"@
            } else {
                "user,noacl,nolock,"@
            }) + (if read_only {
                "ro,"@
            } else {
                Seq::empty()
            }) == comma_joined(client + access).push(',')
        }),
{
    the_joints_are_commas();
    let client = if mac {
        seq!["nolocks"@]
    } else {
        seq!["user"@, "noacl"@, "nolock"@]
    };
    if mac {
        assert(comma_joined(client) == "nolocks"@);
        assert(comma_joined(client).push(',') =~= "nolocks,"@);
    } else {
        assert(comma_joined(seq!["user"@]) == "user"@);
        one_more_option(seq!["user"@], "noacl"@);
        one_more_option(seq!["user"@].push("noacl"@), "nolock"@);
        assert(client =~= seq!["user"@].push("noacl"@).push("nolock"@));
        assert(comma_joined(client).push(',') =~= "user,noacl,nolock,"@);
    }
    if read_only {
        one_more_option(client, "ro"@);
        assert(client + seq!["ro"@] =~= client.push("ro"@));
        assert(comma_joined(client).push(',') + "ro,"@ =~= comma_joined(client.push("ro"@)).push(','));
    } else {
        assert(client + Seq::<Seq<char>>::empty() =~= client);
        assert(comma_joined(client).push(',') + Seq::<char>::empty() =~= comma_joined(client).push(','));
    }
}

proof fn the_sizes_are_joined(before: Seq<Seq<char>>, mac: bool)
    requires
        before.len() > 0,
    ensures
        comma_joined(
            before + (if mac {
                seq!["rsize=131072"@, "wsize=131072"@, "readahead=128"@]
            } else {
                seq!["rsize=1048576"@, "wsize=1048576"@]
            }),
        ) == comma_joined(before).push(',') + (if mac {
            "rsize=131072,wsize=131072,readahead=128"@
        } else {
            "rsize=1048576,wsize=1048576"@
        }),
{
    the_joints_are_commas();
    let start = comma_joined(before).push(',');
    if mac {
        one_more_option(before, "rsize=131072"@);
        one_more_option(before.push("rsize=131072"@), "wsize=131072"@);
        one_more_option(before.push("rsize=131072"@).push("wsize=131072"@), "readahead=128"@);
        assert(before + seq!["rsize=131072"@, "wsize=131072"@, "readahead=128"@] =~= before.push("rsize=131072"@).push("wsize=131072"@).push(
            "readahead=128"@,
        ));
        assert(start + ("rsize=131072"@.push(',') + "wsize=131072"@.push(',') + "readahead=128"@) =~= ((start + "rsize=131072"@).push(',')
            + "wsize=131072"@).push(',') + "readahead=128"@);
    } else {
        one_more_option(before, "rsize=1048576"@);
        one_more_option(before.push("rsize=1048576"@), "wsize=1048576"@);
        assert(before + seq!["rsize=1048576"@, "wsize=1048576"@] =~= before.push("rsize=1048576"@).push("wsize=1048576"@));
        assert(start + ("rsize=1048576"@.push(',') + "wsize=1048576"@) =~= (start + "rsize=1048576"@).push(',') + "wsize=1048576"@);
    }
}

/// No option holds a comma of its own, so each of them is read as it is.
pub proof fn a_port_holds_no_comma(port: u16)
    ensures
        !text::decimal(port as nat).contains(','),
{
    let number = text::decimal(port as nat);
    if number.contains(',') {
        let i = choose|i: int| 0 <= i < number.len() && number[i] == ',';
        text::a_written_number_has_only_digits(port as nat, i);
    }
}

/// A mount command names its program, the server and, last, the very target
/// that it was made for. Only Windows takes no port and no access: its client
/// has no such options.
pub proof fn a_mount_command_ends_in_its_target(
    platform: MountPlatform,
    server_ip: Seq<char>,
    port: u16,
    target: Seq<char>,
    read_only: bool,
)
    ensures
        ({
            let command = mount_command(platform, server_ip, port, target, read_only);
            &&& command.len() == 5
            &&& command[0] == (match platform {
                MountPlatform::MacOs => "/sbin/mount_nfs"@,
                MountPlatform::Linux => "mount.nfs"@,
                MountPlatform::Windows => "mount.exe"@,
            })
            &&& command[1] == "-o"@
            &&& command[3] == (if platform == MountPlatform::Windows {
                "\\\\"@ + server_ip + "\\"@
            } else {
                server_ip + ":/"@
            })
            &&& command[4] == target
            &&& platform == MountPlatform::Windows ==> command[2]
                == "anon,nolock,mtype=soft,fileaccess=6,casesensitive,lang=ansi,rsize=128,wsize=128,timeout=60,retry=2"@
        }),
{
}

/// A mount is taken down gently first and by force last, and every command is
/// about the target alone.
pub proof fn a_mount_is_taken_down_gently_first(platform: MountPlatform, target: Seq<char>, index: int)
    requires
        0 <= index < umount_commands(platform, target).len(),
    ensures
        umount_commands(platform, target)[0] == seq!["umount"@, target],
        umount_commands(platform, target)[index].last() == target,
        platform == MountPlatform::MacOs ==> umount_commands(platform, target).len() == 3 && umount_commands(platform, target)[1]
            == seq!["diskutil"@, "unmount"@, target],
        platform != MountPlatform::MacOs ==> umount_commands(platform, target).len() == 2,
        umount_commands(platform, target).last() == seq![
            "umount"@,
            if platform == MountPlatform::Linux {
                "-l"@
            } else {
                "-f"@
            },
            target,
        ],
{
}

/// A character goes unquoted only where no shell reads anything into it.
pub proof fn what_is_not_quoted_means_nothing_to_a_shell(character: char)
    requires
        is_shell_safe(character),
    ensures
        'a' as int <= character as int <= 'z' as int || 'A' as int <= character as int <= 'Z' as int || '0' as int <= character as int <= '9'
            as int || character == '/' || character == '.' || character == '_' || character == '-' || character == ':' || character == ','
            || character == '=' || character == '@',
{
    reveal_strlit("/._-:,=@");
}

/// A command is shown with its arguments in order, each quoted by itself, and a
/// single space between them.
pub proof fn a_command_is_shown_argument_by_argument(argv: Seq<Seq<char>>, argument: Seq<char>)
    ensures
        rendered(seq![argument]) == quoted(argument),
        argv.len() > 0 ==> rendered(argv.push(argument)) == rendered(argv) + seq![' '] + quoted(argument),
{
    reveal_strlit(" ");
    assert(" "@ =~= seq![' ']);
    assert(argv.push(argument).drop_last() =~= argv);
}

/// A drive is named by its letter, of either case, and a colon; the letters
/// count from `A`.
pub proof fn a_drive_is_a_letter_and_a_colon(letter: char, place: int)
    requires
        0 <= place < 26,
    ensures
        drive_name(place).len() == 2,
        drive_name(place)[0] as int == 'A' as int + place,
        drive_name(place)[1] == ':',
        drive_of(seq![letter, ':']) == Some(place) <==> letter as int == 'A' as int + place || letter as int == 'a' as int + place,
{
    reveal_strlit("ABCDEFGHIJKLMNOPQRSTUVWXYZ");
    let bare = seq![letter, ':'];
    if text::is_blank(letter) {
        assert(bare.skip(1) =~= seq![':']);
        assert(without_leading_blanks(seq![':']) == seq![':']);
        assert(without_leading_blanks(bare) == seq![':']);
        assert(without_trailing_blanks(seq![':']) == seq![':']);
        assert(without_trailing_separators(seq![':']) == seq![':']);
    } else {
        assert(without_leading_blanks(bare) == bare);
        assert(without_trailing_blanks(bare) == bare);
        assert(without_trailing_separators(bare) == bare);
    }
}

/// White space around a drive changes nothing, and neither does one more slash
/// of either kind behind it. What has neither and is no letter with a colon is
/// no drive.
pub proof fn only_a_drive_letter_is_a_drive(target: Seq<char>, blank: char)
    ensures
        text::is_blank(blank) ==> drive_of(seq![blank] + target) == drive_of(target),
        text::is_blank(blank) && target.len() > 0 && !text::is_blank(target[0]) ==> drive_of(target.push(blank)) == drive_of(target),
        target.len() > 0 && !text::is_blank(target[0]) && !text::is_blank(target.last()) ==> drive_of(target.push('/')) == drive_of(target)
            && drive_of(target.push('\\')) == drive_of(target),
        target.len() > 0 && !text::is_blank(target[0]) && !text::is_blank(target.last()) && target.last() != '/' && target.last() != '\\' && (
        target.len() != 2 || target[1] != ':') ==> drive_of(target) is None,
        target.len() == 0 ==> drive_of(target) is None,
{
    let led = seq![blank] + target;
    assert(led.skip(1) =~= target);
    if text::is_blank(blank) {
        assert(without_leading_blanks(led) == without_leading_blanks(target));
    }
    if target.len() > 0 && !text::is_blank(target[0]) {
        assert(without_leading_blanks(target) == target);
        assert(target.push(blank)[0] == target[0]);
        assert(without_leading_blanks(target.push(blank)) == target.push(blank));
        assert(target.push(blank).drop_last() =~= target);
        if !text::is_blank(target.last()) {
            assert(without_trailing_blanks(target) == target);
            assert(target.push('/').drop_last() =~= target);
            assert(target.push('\\').drop_last() =~= target);
            assert(without_leading_blanks(target.push('/')) == target.push('/'));
            assert(without_leading_blanks(target.push('\\')) == target.push('\\'));
            assert(without_trailing_blanks(target.push('/')) == target.push('/'));
            assert(without_trailing_blanks(target.push('\\')) == target.push('\\'));
        }
    }
}

/// A drive is used for a trial exactly where it is named, is a drive, and is
/// not in use.
pub proof fn a_trial_needs_a_drive_of_its_own(value: Option<Seq<char>>, assigned_drives: u32)
    ensures
        drive_complaint(value, assigned_drives) is None <==> value is Some && drive_of(value->0) is Some && assigned_drives & (1u32 << drive_of(
            value->0,
        )->0 as u32) == 0,
{
}

/// The command that mounts asks for just the options that the server speaks.
pub proof fn a_mount_command_carries_its_options(
    platform: MountPlatform,
    server_ip: &str,
    port: u16,
    target: &str,
    read_only: bool,
    argv: Vec<String>,
)
    requires
        platform != MountPlatform::Windows,
        call_ensures(mount_argv, (platform, server_ip, port, target, read_only), argv),
    ensures
        ({
            let number = text::decimal(port as nat);
            let client = if platform == MountPlatform::MacOs {
                seq!["nolocks"@]
            } else {
                seq!["user"@, "noacl"@, "nolock"@]
            };
            let access = if read_only {
                seq!["ro"@]
            } else {
                Seq::empty()
            };
            let sizes = if platform == MountPlatform::MacOs {
                seq!["rsize=131072"@, "wsize=131072"@, "readahead=128"@]
            } else {
                seq!["rsize=1048576"@, "wsize=1048576"@]
            };
            text::texts(argv@)[2] == comma_joined(
                client + access + seq!["vers=3"@, "tcp"@] + sizes + seq!["actimeo=120"@, "port="@ + number, "mountport="@ + number],
            )
        }),
{
    a_unix_mount_asks_for_what_the_server_speaks(platform, server_ip@, port, target@, read_only);
}

/// Letters, digits and a few marks need no quotes; every other character
/// does.
pub proof fn plain_characters_need_no_quotes(character: char)
    requires
        'a' as int <= character as int <= 'z' as int || 'A' as int <= character as int <= 'Z' as int || '0' as int <= character as int <= '9'
            as int || character == '/' || character == '.' || character == '_' || character == '-' || character == ':' || character == ','
            || character == '=' || character == '@',
    ensures
        is_shell_safe(character),
        quoted(seq![character]) == seq![character],
{
    reveal_strlit("/._-:,=@");
    let marks = "/._-:,=@"@;
    assert(marks[0] == '/' && marks[1] == '.' && marks[2] == '_' && marks[3] == '-' && marks[4] == ':' && marks[5] == ',' && marks[6] == '='
        && marks[7] == '@');
}

/// A quoted argument stands between single quotes as it is, but for its own
/// single quotes, each of which ends the quotes, stands escaped, and begins
/// them again.
pub proof fn a_quoted_argument_is_read_back(arg: Seq<char>, character: char)
    ensures
        quoted_inside(Seq::empty()) == Seq::<char>::empty(),
        character != '\'' ==> quoted_inside(arg.push(character)) == quoted_inside(arg).push(character),
        quoted_inside(arg.push('\'')) == quoted_inside(arg) + seq!['\'', '\\', '\'', '\''],
        !is_shell_safe(character) ==> quoted(arg.push(character)) == seq!['\''] + quoted_inside(arg.push(character)) + seq!['\''],
        quoted(Seq::empty()) == seq!['\'', '\''],
{
    reveal_strlit("'\\''");
    reveal_strlit("'");
    assert("'\\''"@ =~= seq!['\'', '\\', '\'', '\'']);
    assert("'"@ =~= seq!['\'']);
    assert(arg.push(character).drop_last() =~= arg);
    assert(arg.push('\'').drop_last() =~= arg);
    assert(arg.push(character).last() == character);
    assert(arg.push('\'').last() == '\'');
    if !is_shell_safe(character) {
        assert(arg.push(character)[arg.len() as int] == character);
        assert(!is_plain(arg.push(character)));
    }
    assert(seq!['\''] + Seq::<char>::empty() + seq!['\''] =~= seq!['\'', '\'']);
}

/// The command that is shown is the one that mounts; only Linux needs to be
/// asked for rights first.
pub proof fn the_shown_command_is_the_one_that_mounts(
    platform: MountPlatform,
    server_ip: &str,
    port: u16,
    target: &str,
    read_only: bool,
    command: String,
)
    requires
        call_ensures(manual_mount_command, (platform, server_ip, port, target, read_only), command),
    ensures
        platform == MountPlatform::Linux ==> command@ == "sudo "@ + rendered(mount_command(platform, server_ip@, port, target@, read_only)),
        platform != MountPlatform::Linux ==> command@ == rendered(mount_command(platform, server_ip@, port, target@, read_only)),
{
}

} // verus!
