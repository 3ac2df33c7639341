//! What the file operations decide: what a request asks for, whether it may go
//! ahead over what is there, and what it leaves of a staged file.

use vstd::prelude::*;
use crate::content::ObjectHead;
use crate::inode_table;
use crate::inode_table::{utf8_text, EntryKind, Inode, InodeTable, DIR_SIZE};
use crate::keys;
use crate::keys::{child_key, normalize_dir_key};
use crate::rename::{create_action, is_journal_of, CreateAction, RenameJournal};
use crate::stage;
use crate::stage::PublicationGuard;
use crate::stage_state::Stage;
use crate::status::NfsStatus;
use crate::text::same_text;

verus! {

/// Staged-size growth that earns a queued transfer another progress event: a
/// large copy reports often enough for a live total, and nowhere near once per
/// write.
pub const WAITING_REPORT_STEP: u64 = 8 * 1024 * 1024;

/// Room that is reserved beside a staged file's content for its records.
pub const RECORD_RESERVE: u64 = 4096;

/// Whether a mount can be written to.
#[derive(Clone, Copy, Debug, PartialEq, Eq, Structural)]
pub enum Capabilities {
    ReadOnly,
    ReadWrite,
}

/// What a mount says of itself.
pub fn capabilities(read_only: bool) -> (capabilities: Capabilities)
    ensures
        capabilities == (if read_only {
            Capabilities::ReadOnly
        } else {
            Capabilities::ReadWrite
        }),
{
    if read_only {
        Capabilities::ReadOnly
    } else {
        Capabilities::ReadWrite
    }
}

/// What a name in a lookup stands for.
pub enum LookupName {
    /// The directory itself.
    Itself,
    /// The directory above.
    Parent,
    /// A child.
    Child(String),
}

/// What a name in a lookup stands for. A name that is no text names nothing.
pub fn lookup_name(filename: &[u8]) -> (name: Result<LookupName, NfsStatus>)
    ensures
        if !vstd::utf8::valid_utf8(filename@) {
            name is Err && name->Err_0 == NfsStatus::NoEnt
        } else {
            let text = vstd::utf8::decode_utf8(filename@);
            &&& name is Ok
            &&& if text.len() == 0 || text == "."@ {
                name->Ok_0 is Itself
            } else if text == ".."@ {
                name->Ok_0 is Parent
            } else {
                name->Ok_0 is Child && (name->Ok_0->Child_0)@ == text
            }
        },
{
    match utf8_text(filename) {
        None => Err(NfsStatus::NoEnt),
        Some(name) => {
            if name.as_str().unicode_len() == 0 || same_text(name.as_str(), ".") {
                Ok(LookupName::Itself)
            } else if same_text(name.as_str(), "..") {
                Ok(LookupName::Parent)
            } else {
                Ok(LookupName::Child(name))
            }
        },
    }
}

/// Whether an entry can be read: a directory cannot.
pub fn check_readable(kind: EntryKind) -> (check: Result<(), NfsStatus>)
    ensures
        check == (if kind == EntryKind::File {
            Ok::<(), NfsStatus>(())
        } else {
            Err(NfsStatus::IsDir)
        }),
{
    match kind {
        EntryKind::File => Ok(()),
        EntryKind::Dir => Err(NfsStatus::IsDir),
    }
}

/// Whether an entry can be written to: a directory cannot.
pub fn check_writable(kind: EntryKind) -> (check: Result<(), NfsStatus>)
    ensures
        check == (if kind == EntryKind::File {
            Ok::<(), NfsStatus>(())
        } else {
            Err(NfsStatus::Inval)
        }),
{
    match kind {
        EntryKind::File => Ok(()),
        EntryKind::Dir => Err(NfsStatus::Inval),
    }
}

/// What a file that is cut to nothing may replace: the object that stands
/// there now. Its old bytes are not needed.
pub fn truncate_guard(head: Option<ObjectHead>) -> (guard: Result<PublicationGuard, NfsStatus>)
    ensures
        match head {
            None => guard is Err && guard->Err_0 == NfsStatus::Stale,
            Some(there) => if there@.etag is Some && there@.etag->0.len() > 0 {
                guard is Ok && guard->Ok_0@ == (stage::GuardModel::Match { etag: there@.etag->0 })
            } else {
                guard is Err && guard->Err_0 == NfsStatus::Io
            },
        },
{
    match head {
        None => Err(NfsStatus::Stale),
        Some(there) => match there.etag {
            Some(etag) => {
                if etag.as_str().unicode_len() > 0 {
                    Ok(PublicationGuard::Match { etag })
                } else {
                    Err(NfsStatus::Io)
                }
            },
            None => Err(NfsStatus::Io),
        },
    }
}

/// The size of the snapshot that a stage has, if any.
pub open spec fn snapshot_size(stage: Stage) -> u64 {
    match stage.snapshot {
        Some(snapshot) => snapshot.size,
        None => 0,
    }
}

fn size_of_snapshot(stage: &Stage) -> (size: u64)
    ensures
        size == snapshot_size(*stage),
{
    match &stage.snapshot {
        Some(snapshot) => snapshot.size,
        None => 0,
    }
}

/// The sum, but no more than can be counted.
pub open spec fn capped_sum(a: int, b: int) -> int {
    if a + b > u64::MAX {
        u64::MAX as int
    } else {
        a + b
    }
}

/// The larger of two sizes.
pub open spec fn larger(a: int, b: int) -> int {
    if a > b {
        a
    } else {
        b
    }
}

/// The room that a stage needs to be resized: for its content or its snapshot,
/// whichever is larger, and for its records.
pub fn resize_reservation(stage: &Stage, size: u64) -> (bytes: u64)
    ensures
        bytes == capped_sum(larger(size as int, snapshot_size(*stage) as int), RECORD_RESERVE as int),
{
    let snapshot: u64 = size_of_snapshot(stage);
    let content: u64 = if size > snapshot { size } else { snapshot };
    content.saturating_add(RECORD_RESERVE)
}

/// What a write needs: the size that is reported while it is under way, and
/// the room for it.
pub struct WriteReservation {
    pub size: u64,
    pub bytes: u64,
}

/// What a write of so many bytes needs. One that ends past what can be counted
/// is refused as too large.
pub fn write_reservation(stage: &Stage, offset: u64, length: usize) -> (reservation: Result<WriteReservation, NfsStatus>)
    ensures
        if offset + length > u64::MAX {
            reservation is Err && reservation->Err_0 == NfsStatus::FBig
        } else {
            let size = larger(larger(stage.size as int, offset + length), snapshot_size(*stage) as int);
            &&& reservation is Ok
            &&& reservation->Ok_0.size == size
            &&& reservation->Ok_0.bytes == capped_sum(capped_sum(size, length as int), RECORD_RESERVE as int)
        },
{
    let end: u64 = match offset.checked_add(length as u64) {
        Some(end) => end,
        None => {
            return Err(NfsStatus::FBig);
        },
    };
    let snapshot: u64 = size_of_snapshot(stage);
    let content: u64 = if stage.size > end { stage.size } else { end };
    let size: u64 = if content > snapshot { content } else { snapshot };
    Ok(WriteReservation { size, bytes: size.saturating_add(length as u64).saturating_add(RECORD_RESERVE) })
}

/// Takes that a write was staged. Returns whether the queued upload is to be
/// reported with its new size: at the first write, and then in steps.
pub fn after_write(stage: &mut Stage, newly_dirty: bool) -> (report: bool)
    ensures
        report == (newly_dirty || old(stage).size >= old(stage).reported_size + WAITING_REPORT_STEP),
        *final(stage) == (Stage {
            reported_size: (if report {
                old(stage).size
            } else {
                old(stage).reported_size
            }),
            ..*old(stage)
        }),
{
    if newly_dirty || stage.size.saturating_sub(stage.reported_size) >= WAITING_REPORT_STEP {
        stage.reported_size = stage.size;
        true
    } else {
        false
    }
}

/// Takes that a stage was resized. A request that also sets a file time is the
/// end of a copy: the upload need not wait. Returns whether the queued upload
/// is to be reported.
pub fn after_resize(stage: &mut Stage, newly_dirty: bool, times_touched: bool) -> (report: bool)
    ensures
        report == newly_dirty,
        *final(stage) == (Stage {
            flush_requested: times_touched,
            reported_size: (if newly_dirty {
                old(stage).size
            } else {
                old(stage).reported_size
            }),
            ..*old(stage)
        }),
{
    stage.flush_requested = times_touched;
    if newly_dirty {
        stage.reported_size = stage.size;
    }
    newly_dirty
}

/// Takes that a client set attributes of a staged file other than its size.
/// The time that a client sets when it finishes copying a file is the only
/// end-of-write signal there is, so it asks for the upload at once. Returns
/// whether the queued upload is to be reported with its final size.
pub fn after_touch(stage: &mut Stage, times_touched: bool) -> (report: bool)
    ensures
        report == (old(stage).dirty && times_touched),
        *final(stage) == (if report {
            Stage { flush_requested: true, reported_size: old(stage).size, ..*old(stage) }
        } else {
            *old(stage)
        }),
{
    if stage.dirty && times_touched {
        stage.flush_requested = true;
        stage.reported_size = stage.size;
        true
    } else {
        false
    }
}

/// What a stage may replace is settled when it is made; a later request does
/// not change it.
pub fn adopt_guard(stage: &mut Stage, guard: Option<PublicationGuard>)
    ensures
        *final(stage) == (Stage {
            publication_guard: (if old(stage).publication_guard is Some {
                old(stage).publication_guard
            } else {
                guard
            }),
            ..*old(stage)
        }),
{
    if stage.publication_guard.is_none() {
        stage.publication_guard = guard;
    }
}

/// What a CREATE does.
#[derive(Clone, Copy, Debug, PartialEq, Eq, Structural)]
pub enum CreatePlan {
    /// Hands out the file that is there, with the size and time it has.
    Open {
        size: u64,
        mtime_secs: u32,
    },
    /// Writes an empty object.
    Write {
        replace: bool,
    },
}

/// What a CREATE does about what is there. A client also sends it for a name
/// that exists, and the object must come through that untouched.
pub fn create_plan(existing: Option<(u64, u32)>, truncating: bool) -> (plan: CreatePlan)
    ensures
        plan == (match existing {
            Some((size, mtime_secs)) => if truncating {
                CreatePlan::Write { replace: true }
            } else {
                CreatePlan::Open { size, mtime_secs }
            },
            None => CreatePlan::Write { replace: truncating },
        }),
{
    match (create_action(existing.is_some(), truncating), existing) {
        (CreateAction::OpenExisting, Some((size, mtime_secs))) => CreatePlan::Open { size, mtime_secs },
        _ => CreatePlan::Write { replace: truncating },
    }
}

/// Whether an exclusive CREATE may go ahead.
pub fn check_exclusive(exists_already: bool) -> (check: Result<(), NfsStatus>)
    ensures
        check == (if exists_already {
            Err::<(), NfsStatus>(NfsStatus::Exist)
        } else {
            Ok(())
        }),
{
    if exists_already {
        Err(NfsStatus::Exist)
    } else {
        Ok(())
    }
}

/// What a REMOVE deletes: a file's object, or the marker of an empty
/// directory.
pub fn remove_plan(kind: EntryKind, key: &str, dir_is_empty: bool) -> (target: Result<String, NfsStatus>)
    ensures
        match kind {
            EntryKind::File => target is Ok && target->Ok_0@ == key@,
            EntryKind::Dir => if dir_is_empty {
                target is Ok && target->Ok_0@ == keys::dir_key_of(key@)
            } else {
                target is Err && target->Err_0 == NfsStatus::NotEmpty
            },
        },
{
    match kind {
        EntryKind::File => Ok(key.to_owned()),
        EntryKind::Dir => {
            if dir_is_empty {
                Ok(normalize_dir_key(key))
            } else {
                Err(NfsStatus::NotEmpty)
            }
        },
    }
}

/// Whether what a fence was taken for is still there: the directory has its
/// key, and the name stands for the same file under the same key. Otherwise a
/// rename moved it during the wait, and acting on the id alone would hit the
/// file under its new name.
pub fn is_same_child(
    dir_key: &str,
    dir_key_now: &str,
    id: u64,
    key: &str,
    id_now: u64,
    key_now: &str,
) -> (same: bool)
    ensures
        same == (dir_key@ == dir_key_now@ && id == id_now && key@ == key_now@),
{
    same_text(dir_key, dir_key_now) && id == id_now && same_text(key, key_now)
}

/// Whether what the fences of a rename were taken for is still there: both
/// directories have their keys, and the source has its key.
pub fn is_same_rename(
    from_dir_key: &str,
    from_dir_key_now: &str,
    to_dir_key: &str,
    to_dir_key_now: &str,
    key: &str,
    key_now: &str,
) -> (same: bool)
    ensures
        same == (from_dir_key@ == from_dir_key_now@ && to_dir_key@ == to_dir_key_now@ && key@ == key_now@),
{
    same_text(from_dir_key, from_dir_key_now) && same_text(to_dir_key, to_dir_key_now) && same_text(key, key_now)
}

/// The keys that a rename moves between.
pub struct RenameKeys {
    pub from: String,
    pub to: String,
}

/// Where a rename of an entry leads: none where it is there already.
pub fn rename_keys(source: &Inode, to_dir_key: &str, to_name: &str) -> (moved: Option<RenameKeys>)
    ensures
        ({
            let target = keys::child_of(to_dir_key@, to_name@, source.kind == EntryKind::Dir);
            match moved {
                None => target == source.key@,
                Some(keys) => target != source.key@ && keys.from@ == source.key@ && keys.to@ == target,
            }
        }),
{
    let target = child_key(to_dir_key, to_name, source.kind == EntryKind::Dir);
    if same_text(target.as_str(), source.key.as_str()) {
        None
    } else {
        Some(RenameKeys { from: source.key.clone(), to: target })
    }
}

/// The size under which the source of an interrupted rename is known again.
/// A journal that belongs to another rename is refused.
pub fn recovered_size(journal: &RenameJournal, from_key: &str, to_key: &str, kind: EntryKind) -> (size: Result<u64, NfsStatus>)
    ensures
        if journal@.from != from_key@ || journal@.to != to_key@ {
            size is Err && size->Err_0 == NfsStatus::Io
        } else {
            size is Ok && size->Ok_0 == (if kind == EntryKind::Dir {
                DIR_SIZE
            } else if journal@.objects.len() > 0 {
                journal@.objects[0].size
            } else {
                0
            })
        },
{
    if !is_journal_of(journal, from_key, to_key) {
        return Err(NfsStatus::Io);
    }
    if kind == EntryKind::Dir {
        Ok(DIR_SIZE)
    } else if journal.objects.len() > 0 {
        assert(journal@.objects[0] == journal.objects@[0]@);
        Ok(journal.objects[0].size)
    } else {
        Ok(0)
    }
}

/// The inodes after a directory moved.
pub open spec fn moved_inodes(
    inodes: Map<u64, inode_table::InodeModel>,
    id: u64,
    from: Seq<char>,
    to: Seq<char>,
    parent: u64,
) -> Map<u64, inode_table::InodeModel> {
    let moved = inodes.map_entries(
        |other: u64, inode: inode_table::InodeModel|
            if from.is_prefix_of(inode.key) {
                inode_table::InodeModel { key: to + inode.key.skip(from.len() as int), ..inode }
            } else {
                inode
            },
    );
    if moved.contains_key(id) {
        moved.insert(id, inode_table::InodeModel { key: to, parent, ..moved[id] })
    } else {
        moved
    }
}

/// Moves a directory and everything below it to its new place. Returns the ids
/// of what lies there now: what was cached for them is stale.
pub fn move_directory(table: &mut InodeTable, id: u64, from_prefix: &str, to_prefix: &str, to_dirid: u64) -> (moved: Vec<u64>)
    requires
        old(table).well_formed(),
    ensures
        final(table).well_formed(),
        final(table)@.consistent(),
        final(table)@.next_id == old(table)@.next_id,
        final(table)@.inodes == moved_inodes(old(table)@.inodes, id, from_prefix@, to_prefix@, to_dirid),
        final(table)@.inodes.contains_key(id) ==> final(table)@.ids.contains_pair(to_prefix@, id),
        exists|between: inode_table::TableModel|
            {
                &&& #[trigger] between.is_moved_from(old(table)@, from_prefix@, to_prefix@)
                &&& final(table)@ == between.rekeyed(id, to_prefix@, to_dirid)
            },
        forall|other: u64| #[trigger] moved@.contains(other) <==> final(table)@.moves(to_prefix@, other),
{
    let _ = table.rekey_prefix(from_prefix, to_prefix);
    assert(table@.is_moved_from(old(table)@, from_prefix@, to_prefix@));
    table.rekey(id, to_prefix, to_dirid);
    table.ids_under(to_prefix)
}

/// A directory's move keeps every handle inside it: each id that stood for
/// something below stands for the same thing at its new place.
pub proof fn a_moved_tree_keeps_its_handles(
    inodes: Map<u64, inode_table::InodeModel>,
    id: u64,
    from: Seq<char>,
    to: Seq<char>,
    parent: u64,
    other: u64,
)
    requires
        inodes.contains_key(other),
        other != id,
    ensures
        ({
            let after = moved_inodes(inodes, id, from, to, parent);
            &&& after.contains_key(other)
            &&& after[other].kind == inodes[other].kind
            &&& after[other].size == inodes[other].size
            &&& from.is_prefix_of(inodes[other].key) ==> after[other].key == to + inodes[other].key.skip(from.len() as int)
            &&& !from.is_prefix_of(inodes[other].key) ==> after[other] == inodes[other]
        }),
{
}

/// What lay below a moved directory is found under its new key, by the id that
/// it had, and no longer under its old one.
pub proof fn what_was_moved_is_found_at_its_new_key(
    before: inode_table::TableModel,
    between: inode_table::TableModel,
    after: inode_table::TableModel,
    id: u64,
    from: Seq<char>,
    to: Seq<char>,
    parent: u64,
    key: Seq<char>,
)
    requires
        before.consistent(),
        between.is_moved_from(before, from, to),
        after == between.rekeyed(id, to, parent),
        before.ids.contains_key(key),
        from.is_prefix_of(key),
        before.ids[key] != id,
        key.len() > from.len(),
        forall|other: u64| #[trigger] before.moves(from, other) && before.new_key_of(from, to, other) == to + key.skip(from.len() as int) ==> other
            == before.ids[key],
    ensures
        after.ids.contains_pair(to + key.skip(from.len() as int), before.ids[key]),
        key != to && !before.is_target(from, to, before.next_id as int, key) ==> !after.ids.contains_key(key),
{
    let own = before.ids[key];
    let place = to + key.skip(from.len() as int);
    assert(before.moves(from, own));
    assert(before.new_key_of(from, to, own) == place);
    assert(before.is_target(from, to, before.next_id as int, place));
    assert(between.ids.contains_key(place));
    assert(place.len() > to.len());
}

/// A moved directory is found at its new key under its new parent; what lies
/// below it keeps what follows the directory; everything else stays.
pub proof fn a_moved_directory_takes_its_content_along(
    inodes: Map<u64, inode_table::InodeModel>,
    id: u64,
    from: Seq<char>,
    to: Seq<char>,
    parent: u64,
    other: u64,
    rest: Seq<char>,
)
    requires
        inodes.contains_key(id),
        inodes.contains_key(other),
        other != id,
    ensures
        moved_inodes(inodes, id, from, to, parent).contains_key(id),
        moved_inodes(inodes, id, from, to, parent)[id].key == to,
        moved_inodes(inodes, id, from, to, parent)[id].parent == parent,
        moved_inodes(inodes, id, from, to, parent)[id].kind == inodes[id].kind,
        moved_inodes(inodes, id, from, to, parent).contains_key(other),
        inodes[other].key == from + rest ==> moved_inodes(inodes, id, from, to, parent)[other].key == to + rest,
        !from.is_prefix_of(inodes[other].key) ==> moved_inodes(inodes, id, from, to, parent)[other] == inodes[other],
        moved_inodes(inodes, id, from, to, parent)[other].parent == inodes[other].parent,
        moved_inodes(inodes, id, from, to, parent)[other].kind == inodes[other].kind,
        moved_inodes(inodes, id, from, to, parent)[other].size == inodes[other].size,
{
    assert((from + rest).subrange(0, from.len() as int) =~= from);
    assert((from + rest).skip(from.len() as int) =~= rest);
}

/// Room is reserved for the larger of a stage's content and its snapshot, and
/// four kibibytes for its records.
pub proof fn a_resize_reserves_the_larger_size(stage: Stage, size: u64, bytes: u64)
    requires
        call_ensures(resize_reservation, (&stage, size), bytes),
        size + 4096 <= u64::MAX,
        stage.snapshot is Some ==> stage.snapshot->0.size + 4096 <= u64::MAX,
    ensures
        stage.snapshot is None ==> bytes == size + 4096,
        stage.snapshot is Some && stage.snapshot->0.size <= size ==> bytes == size + 4096,
        stage.snapshot is Some && stage.snapshot->0.size > size ==> bytes == stage.snapshot->0.size + 4096,
{
}

/// A client asks for a directory itself by an empty name or a dot, for the one
/// above by two dots, and for a child by any other name; a name that is no
/// text is no child's.
pub proof fn a_client_asks_for_an_entry_by_name(filename: &[u8], name: Result<LookupName, NfsStatus>)
    requires
        call_ensures(lookup_name, (filename,), name),
    ensures
        name is Err <==> !vstd::utf8::valid_utf8(filename@),
        name is Err ==> name->Err_0 == NfsStatus::NoEnt,
        name is Ok && vstd::utf8::decode_utf8(filename@) == seq!['.'] ==> name->Ok_0 is Itself,
        name is Ok && vstd::utf8::decode_utf8(filename@).len() == 0 ==> name->Ok_0 is Itself,
        name is Ok && vstd::utf8::decode_utf8(filename@) == seq!['.', '.'] ==> name->Ok_0 is Parent,
        name is Ok && name->Ok_0 is Child ==> (name->Ok_0->Child_0)@ == vstd::utf8::decode_utf8(filename@) && vstd::utf8::decode_utf8(
            filename@,
        ).len() > 0,
        name is Ok && vstd::utf8::decode_utf8(filename@).len() > 2 ==> name->Ok_0 is Child,
{
    reveal_strlit(".");
    reveal_strlit("..");
    assert("."@ =~= seq!['.']);
    assert(".."@ =~= seq!['.', '.']);
    assert(seq!['.'].len() == 1 && seq!['.', '.'].len() == 2);
}

/// Only a file can be read and only a file can be written to.
pub proof fn only_a_file_is_read_and_written(kind: EntryKind, read: Result<(), NfsStatus>, write: Result<(), NfsStatus>)
    requires
        call_ensures(check_readable, (kind,), read),
        call_ensures(check_writable, (kind,), write),
    ensures
        kind == EntryKind::File ==> read is Ok && write is Ok,
        kind == EntryKind::Dir ==> read == Err::<(), NfsStatus>(NfsStatus::IsDir) && write == Err::<(), NfsStatus>(NfsStatus::Inval),
{
}

/// A mount that may only be read says so.
pub proof fn a_mount_says_what_it_can_do(read_only: bool, can: Capabilities)
    requires
        call_ensures(capabilities, (read_only,), can),
    ensures
        can == Capabilities::ReadOnly <==> read_only,
        can == Capabilities::ReadWrite <==> !read_only,
{
}

/// A file is cut to nothing only over the object that stands there, under its
/// tag.
pub proof fn a_truncation_replaces_only_what_stands_there(head: Option<ObjectHead>, guard: Result<PublicationGuard, NfsStatus>)
    requires
        call_ensures(truncate_guard, (head,), guard),
    ensures
        head is None ==> guard is Err && guard->Err_0 == NfsStatus::Stale,
        head is Some && head->0.etag is Some && (head->0.etag->0)@.len() > 0 ==> guard is Ok && guard->Ok_0@ == (stage::GuardModel::Match {
            etag: (head->0.etag->0)@,
        }),
        head is Some && (head->0.etag is None || (head->0.etag->0)@.len() == 0) ==> guard is Err && guard->Err_0 == NfsStatus::Io,
{
}

/// A write needs room for the file as it leaves it, or for its snapshot where
/// that is larger, for the bytes once more in the log, and for its record. A
/// write whose end cannot be counted is refused.
pub proof fn a_write_reserves_what_it_needs(stage: Stage, offset: u64, length: usize, reservation: Result<WriteReservation, NfsStatus>)
    requires
        call_ensures(write_reservation, (&stage, offset, length), reservation),
    ensures
        reservation is Err <==> offset + length > u64::MAX,
        reservation is Err ==> reservation->Err_0 == NfsStatus::FBig,
        reservation is Ok ==> reservation->Ok_0.size >= stage.size && reservation->Ok_0.size >= offset + length,
        reservation is Ok && stage.snapshot is Some ==> reservation->Ok_0.size >= stage.snapshot->0.size,
        reservation is Ok && stage.snapshot is None && offset + length <= stage.size ==> reservation->Ok_0.size == stage.size,
        reservation is Ok && stage.snapshot is None && offset + length > stage.size ==> reservation->Ok_0.size == offset + length,
        reservation is Ok && reservation->Ok_0.size + length + 4096 <= u64::MAX ==> reservation->Ok_0.bytes == reservation->Ok_0.size + length
            + 4096,
{
}

/// A write is reported where the file has just become dirty or has grown by
/// eight mebibytes since the last report; nothing but that report is kept.
pub proof fn growth_is_reported_in_steps(newly_dirty: bool)
    ensures
        forall|stage: &mut Stage, report: bool| #[trigger]
            call_ensures(after_write, (stage, newly_dirty), report) ==> {
                &&& report <==> newly_dirty || (*stage).size >= (*stage).reported_size + 8_388_608
                &&& report ==> final(stage).reported_size == (*stage).size
                &&& !report ==> final(stage).reported_size == (*stage).reported_size
                &&& final(stage).size == (*stage).size
                &&& final(stage).dirty == (*stage).dirty
                &&& final(stage).flush_requested == (*stage).flush_requested
                &&& final(stage).publication_guard == (*stage).publication_guard
            },
{
}

/// A resize is reported where the file has just become dirty; it is uploaded
/// at once only where its times were set along with it.
pub proof fn a_resize_is_uploaded_at_once_with_its_times(newly_dirty: bool, times_touched: bool)
    ensures
        forall|stage: &mut Stage, report: bool| #[trigger]
            call_ensures(after_resize, (stage, newly_dirty, times_touched), report) ==> {
                &&& report == newly_dirty
                &&& final(stage).flush_requested == times_touched
                &&& newly_dirty ==> final(stage).reported_size == (*stage).size
                &&& final(stage).size == (*stage).size
                &&& final(stage).dirty == (*stage).dirty
                &&& final(stage).publication_guard == (*stage).publication_guard
            },
        forall|stage: &mut Stage, report: bool| #[trigger]
            call_ensures(after_touch, (stage, times_touched), report) ==> {
                &&& report <==> (*stage).dirty && times_touched
                &&& report ==> final(stage).flush_requested
                &&& !report ==> *final(stage) == *stage
                &&& final(stage).dirty == (*stage).dirty
                &&& final(stage).size == (*stage).size
            },
{
}

/// A stage keeps the guard that it has, and takes one only where it has none.
pub proof fn a_stage_keeps_its_guard(guard: Option<PublicationGuard>)
    ensures
        forall|stage: &mut Stage| #[trigger]
            call_ensures(adopt_guard, (stage, guard), ()) ==> {
                &&& (*stage).publication_guard is Some ==> *final(stage) == *stage
                &&& (*stage).publication_guard is None ==> final(stage).publication_guard == guard
                &&& final(stage).dirty == (*stage).dirty
                &&& final(stage).size == (*stage).size
                &&& final(stage).snapshot == (*stage).snapshot
            },
{
}

/// A file that is there is opened, unless it is to be cut to nothing; only
/// where it is to be cut may anything be replaced.
pub proof fn an_existing_file_is_opened(existing: Option<(u64, u32)>, truncating: bool, plan: CreatePlan)
    requires
        call_ensures(create_plan, (existing, truncating), plan),
    ensures
        existing is Some && !truncating ==> plan == (CreatePlan::Open { size: (existing->0).0, mtime_secs: (existing->0).1 }),
        existing is None || truncating ==> plan == (CreatePlan::Write { replace: truncating }),
{
}

/// An exclusive creation is refused exactly where the file is there.
pub proof fn an_exclusive_creation_creates(exists_already: bool, check: Result<(), NfsStatus>)
    requires
        call_ensures(check_exclusive, (exists_already,), check),
    ensures
        check is Ok <==> !exists_already,
        check is Err ==> check->Err_0 == NfsStatus::Exist,
{
}

/// A directory is removed only where it is empty, and then its own marker is;
/// a file is removed under its key.
pub proof fn only_an_empty_directory_is_removed(kind: EntryKind, key: &str, dir_is_empty: bool, target: Result<String, NfsStatus>)
    requires
        call_ensures(remove_plan, (kind, key, dir_is_empty), target),
    ensures
        target is Err <==> kind == EntryKind::Dir && !dir_is_empty,
        target is Err ==> target->Err_0 == NfsStatus::NotEmpty,
        kind == EntryKind::File ==> (target->Ok_0)@ == key@,
        kind == EntryKind::Dir && dir_is_empty && key@.len() > 0 && key@[0] != '/' && key@.last() == '/' ==> (target->Ok_0)@ == key@,
{
}

/// What was found is still the same where neither the directories nor the
/// entry have moved.
pub proof fn an_entry_that_moved_is_another(
    dir_key: &str,
    dir_key_now: &str,
    id: u64,
    key: &str,
    id_now: u64,
    key_now: &str,
    same: bool,
    to_dir_key: &str,
    to_dir_key_now: &str,
    same_rename: bool,
)
    requires
        call_ensures(is_same_child, (dir_key, dir_key_now, id, key, id_now, key_now), same),
        call_ensures(is_same_rename, (dir_key, dir_key_now, to_dir_key, to_dir_key_now, key, key_now), same_rename),
    ensures
        same <==> dir_key@ == dir_key_now@ && id == id_now && key@ == key_now@,
        same_rename <==> dir_key@ == dir_key_now@ && to_dir_key@ == to_dir_key_now@ && key@ == key_now@,
{
}

/// A rename leads from the entry's key to that of its new name in the new
/// directory, as the kind it is; one that leads nowhere is none.
pub proof fn a_rename_leads_to_the_new_name(source: Inode, to_dir_key: &str, to_name: &str, moved: Option<RenameKeys>)
    requires
        call_ensures(rename_keys, (&source, to_dir_key, to_name), moved),
    ensures
        moved is Some ==> moved->0.from@ == source.key@ && moved->0.from@ != moved->0.to@,
        moved is Some && source.kind == EntryKind::File ==> moved->0.to@ == to_dir_key@ + to_name@,
        moved is Some && source.kind == EntryKind::Dir ==> moved->0.to@ == (to_dir_key@ + to_name@).push('/'),
        moved is None <==> source.key@ == (if source.kind == EntryKind::Dir {
            (to_dir_key@ + to_name@).push('/')
        } else {
            to_dir_key@ + to_name@
        }),
{
}

/// A rename that is taken up has to be the one its journal was made for; what
/// it moved is as large as the journal says.
pub proof fn a_rename_is_taken_up_with_its_own_journal(
    journal: RenameJournal,
    from_key: &str,
    to_key: &str,
    kind: EntryKind,
    size: Result<u64, NfsStatus>,
)
    requires
        call_ensures(recovered_size, (&journal, from_key, to_key, kind), size),
    ensures
        size is Ok <==> journal@.from == from_key@ && journal@.to == to_key@,
        size is Err ==> size->Err_0 == NfsStatus::Io,
        size is Ok && kind == EntryKind::Dir ==> size->Ok_0 == 4096,
        size is Ok && kind == EntryKind::File && journal@.objects.len() > 0 ==> size->Ok_0 == journal@.objects[0].size,
        size is Ok && kind == EntryKind::File && journal@.objects.len() == 0 ==> size->Ok_0 == 0,
{
}

} // verus!
