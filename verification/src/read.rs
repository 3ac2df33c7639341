//! Reading an object through its chunks.
//!
//! A file handle stands for one version of one object. What a read serves is
//! pinned to that version, every response is held against it before its bytes
//! are used, and a handle whose object was replaced is retired instead of
//! being pointed at other bytes.

use vstd::prelude::*;
use crate::content;
use crate::content::{named_version, AttemptFailure, ObjectHead};
use crate::directory_listing;
use crate::directory_listing::{mtime_from_seconds, DIR_CACHE_TTL_MS};
use crate::inode_table;
use crate::inode_table::InodeTable;
use crate::journal::copy_text;
use crate::read_cache;
use crate::read_cache::{chunk_len, chunk_start, chunks_covering, ReadCache, CHUNK_SIZE, PREFETCH_CHUNKS};
use crate::status::NfsStatus;
use crate::text;
use crate::text::{decimal_text, same_optional, same_text};

verus! {

/// The version of an object that a handle stands for.
pub struct ReadIdentity {
    pub etag: String,
    pub version_id: Option<String>,
    pub size: u64,
    /// When the object was last found to be this one.
    pub observed_at_ms: u64,
}

/// An identity with its texts taken as characters.
pub ghost struct IdentityModel {
    pub etag: Seq<char>,
    pub version_id: Option<Seq<char>>,
    pub size: u64,
    pub observed_at_ms: u64,
}

impl View for ReadIdentity {
    type V = IdentityModel;

    open spec fn view(&self) -> IdentityModel {
        IdentityModel {
            etag: self.etag@,
            version_id: text::optional(self.version_id),
            size: self.size,
            observed_at_ms: self.observed_at_ms,
        }
    }
}

impl Clone for ReadIdentity {
    fn clone(&self) -> (copy: Self)
        ensures
            copy@ == self@,
    {
        ReadIdentity {
            etag: self.etag.clone(),
            version_id: copy_text(&self.version_id),
            size: self.size,
            observed_at_ms: self.observed_at_ms,
        }
    }
}

impl IdentityModel {
    /// The same version of the object.
    pub open spec fn same_version(self, other: IdentityModel) -> bool {
        self.etag == other.etag && self.version_id == other.version_id && self.size == other.size
    }

    /// Recent enough to be relied on without asking again.
    pub open spec fn is_fresh(self, now_ms: u64) -> bool {
        now_ms < self.observed_at_ms + DIR_CACHE_TTL_MS
    }
}

impl ReadIdentity {
    /// Whether the identity may be relied on without asking the store again.
    pub fn is_fresh(&self, now_ms: u64) -> (fresh: bool)
        ensures
            fresh == self@.is_fresh(now_ms),
    {
        now_ms.saturating_sub(self.observed_at_ms) < DIR_CACHE_TTL_MS
    }

    /// Makes the identity one that has to be asked for again: a read failed
    /// against it.
    pub fn expire(&mut self, now_ms: u64)
        requires
            now_ms >= DIR_CACHE_TTL_MS,
        ensures
            final(self)@ == (IdentityModel { observed_at_ms: (now_ms - DIR_CACHE_TTL_MS) as u64, ..old(self)@ }),
            forall|later_ms: u64| now_ms <= later_ms ==> !#[trigger] final(self)@.is_fresh(later_ms),
    {
        self.observed_at_ms = now_ms - DIR_CACHE_TTL_MS;
    }

    /// Whether two observations are of the same version.
    pub fn is_same_version(&self, other: &ReadIdentity) -> (same: bool)
        ensures
            same == self@.same_version(other@),
    {
        same_text(self.etag.as_str(), other.etag.as_str()) && same_optional(&self.version_id, &other.version_id) && self.size == other.size
    }
}

/// The version that an object has, by what the store says of it. An object
/// without a tag or without a size cannot be read.
pub fn observed_identity(head: Option<ObjectHead>, now_ms: u64) -> (identity: Result<ReadIdentity, NfsStatus>)
    ensures
        match head {
            None => identity == Err::<ReadIdentity, NfsStatus>(NfsStatus::NoEnt),
            Some(head) => if head@.etag is Some && head@.etag->0.len() > 0 && head.size is Some && head.size->0 >= 0 {
                identity is Ok && identity->Ok_0@ == (IdentityModel {
                    etag: head@.etag->0,
                    version_id: content::real_version(head@.version_id),
                    size: head.size->0 as u64,
                    observed_at_ms: now_ms,
                })
            } else {
                identity == Err::<ReadIdentity, NfsStatus>(NfsStatus::Io)
            },
        },
{
    match head {
        None => Err(NfsStatus::NoEnt),
        Some(head) => {
            let version_id = named_version(&head.version_id);
            match (head.etag, head.size) {
                (Some(etag), Some(size)) => {
                    if etag.as_str().unicode_len() > 0 && size >= 0 {
                        Ok(ReadIdentity { etag, version_id, size: size as u64, observed_at_ms: now_ms })
                    } else {
                        Err(NfsStatus::Io)
                    }
                },
                _ => Err(NfsStatus::Io),
            }
        },
    }
}

/// What became of a handle after its object was looked at.
#[derive(Clone, Copy, Debug, PartialEq, Eq, Structural)]
pub enum HandleState {
    /// It stands for what is there.
    Current,
    /// The object was replaced while the file has content of its own that is
    /// not uploaded.
    Contested,
    /// It stands for nothing any more.
    Gone,
    /// The object was replaced: the handle was retired, and the key has a new
    /// id.
    Replaced {
        id: u64,
        parent: u64,
    },
}

/// The object that the handle was last seen to stand for was replaced.
pub open spec fn was_replaced(known: Option<IdentityModel>, seen: IdentityModel) -> bool {
    known is Some && !known->0.same_version(seen)
}

/// An optional identity, taken as text.
pub open spec fn identity_view(identity: Option<ReadIdentity>) -> Option<IdentityModel> {
    match identity {
        Some(i) => Some(i@),
        None => None,
    }
}

/// Holds a handle against the object as it was just seen.
///
/// Pointing an old handle at a new version of the object could mix pages that
/// the client has cached, so such a handle is retired and the client has to
/// look the name up again.
pub fn settle_identity(
    table: &mut InodeTable,
    id: u64,
    key: &str,
    known: &Option<ReadIdentity>,
    seen: &ReadIdentity,
    modified_secs: Option<i64>,
    staged: bool,
) -> (state: HandleState)
    requires
        old(table).well_formed(),
    ensures
        final(table).well_formed(),
        ({
            let before = old(table)@;
            if !was_replaced(identity_view(*known), seen@) {
                &&& state == HandleState::Current
                &&& final(table)@ == before.with_attrs(
                    id,
                    seen.size,
                    match modified_secs {
                        Some(seconds) => directory_listing::clamped_seconds(seconds as int),
                        None => 0,
                    },
                )
            } else if staged {
                state == HandleState::Contested && final(table)@ == before
            } else if !(before.inodes.contains_key(id) && before.inodes[id].key == key@) {
                state == HandleState::Gone && final(table)@ == before
            } else {
                let inode = before.inodes[id];
                let retired = before.retired(id);
                &&& state == (HandleState::Replaced { id: retired.id_for(key@), parent: inode.parent })
                &&& final(table)@ == retired.interned(
                    inode_table::InodeModel {
                        size: seen.size,
                        mtime_secs: match modified_secs {
                            Some(seconds) => if seconds < 0 {
                                0
                            } else {
                                seconds as u32
                            },
                            None => inode.mtime_secs,
                        },
                        ..inode
                    },
                )
            }
        }),
{
    let replaced = match known {
        Some(identity) => !identity.is_same_version(seen),
        None => false,
    };
    if !replaced {
        let mtime_secs: u32 = match modified_secs {
            Some(seconds) => mtime_from_seconds(seconds),
            None => 0,
        };
        table.set_attrs(id, seen.size, mtime_secs);
        return HandleState::Current;
    }
    if staged {
        return HandleState::Contested;
    }
    let inode = match table.get(id) {
        Some(inode) => inode.clone(),
        None => {
            return HandleState::Gone;
        },
    };
    if !same_text(inode.key.as_str(), key) {
        return HandleState::Gone;
    }
    let mtime_secs: u32 = match modified_secs {
        Some(seconds) => {
            if seconds < 0 {
                0
            } else {
                #[verifier::truncate]
                (seconds as u32)
            }
        },
        None => inode.mtime_secs,
    };
    table.remove(id);
    let new_id: u64 = table.intern(key, inode.parent, inode.kind, seen.size, mtime_secs);
    HandleState::Replaced { id: new_id, parent: inode.parent }
}

/// The status that a read of such a handle is answered with, if it cannot go
/// on.
pub fn handle_status(state: HandleState) -> (status: Option<NfsStatus>)
    ensures
        status == (match state {
            HandleState::Current => None,
            HandleState::Contested => Some(NfsStatus::Io),
            _ => Some(NfsStatus::Stale),
        }),
{
    match state {
        HandleState::Current => None,
        HandleState::Contested => Some(NfsStatus::Io),
        _ => Some(NfsStatus::Stale),
    }
}

/// A handle whose object was replaced never serves the new bytes: it is
/// retired for good, and the key's new id is another one.
pub proof fn a_replaced_object_gets_a_new_handle(table: inode_table::TableModel, id: u64, inode: inode_table::InodeModel)
    requires
        table.consistent(),
        table.is_current(id),
        table.next_id <= u64::MAX,
        inode.key == table.inodes[id].key,
    ensures
        table.retired(id).id_for(inode.key) != id,
        !table.retired(id).interned(inode).inodes.contains_key(id),
        table.retired(id).interned(inode).ids[inode.key] != id,
{
    assert(!table.retired(id).ids.contains_key(inode.key));
}

/// How a version of a file is named in the cache.
pub open spec fn cache_name(identity: IdentityModel) -> Seq<char> {
    (match identity.version_id {
        Some(version) => version,
        None => Seq::empty(),
    }) + ":"@ + identity.etag
}

/// How a version of a file is named in the cache.
pub fn cache_version(identity: &ReadIdentity) -> (name: String)
    ensures
        name@ == cache_name(identity@),
{
    let mut name = match &identity.version_id {
        Some(version) => version.clone(),
        None => String::new(),
    };
    name.append(":");
    name.append(identity.etag.as_str());
    name
}

/// The range header that asks for a chunk.
pub open spec fn range_of(start: int, length: int) -> Seq<char> {
    "bytes="@ + text::decimal(start as nat) + "-"@ + text::decimal((start + length - 1) as nat)
}

/// The range header that a response about that chunk carries.
pub open spec fn content_range_of(start: int, length: int, size: int) -> Seq<char> {
    "bytes "@ + text::decimal(start as nat) + "-"@ + text::decimal((start + length - 1) as nat) + "/"@ + text::decimal(size as nat)
}

/// The range header that asks for the bytes of a chunk.
pub fn range_header(start: u64, length: u64) -> (header: String)
    requires
        0 < length,
        start + length <= u64::MAX + 1,
    ensures
        header@ == range_of(start as int, length as int),
{
    let mut header = "bytes=".to_owned();
    header.append(decimal_text(start).as_str());
    header.append("-");
    header.append(decimal_text(start + (length - 1)).as_str());
    header
}

/// The range header that a response with those bytes carries.
pub fn content_range_header(start: u64, length: u64, size: u64) -> (header: String)
    requires
        0 < length,
        start + length <= u64::MAX + 1,
    ensures
        header@ == content_range_of(start as int, length as int, size as int),
{
    let mut header = "bytes ".to_owned();
    header.append(decimal_text(start).as_str());
    header.append("-");
    header.append(decimal_text(start + (length - 1)).as_str());
    header.append("/");
    header.append(decimal_text(size).as_str());
    header
}

/// A response carries the very bytes that were asked for.
pub open spec fn is_chunk_response(
    identity: IdentityModel,
    index: int,
    range: Option<Seq<char>>,
    length: Option<i64>,
    etag: Option<Seq<char>>,
) -> bool {
    let bytes = read_cache::chunk_length(index, identity.size as int);
    &&& range == Some(content_range_of(index * CHUNK_SIZE, bytes, identity.size as int))
    &&& length == Some(bytes as i64)
    &&& etag == Some(identity.etag)
}

/// Checks the headers of a response to a request for one chunk.
pub fn check_chunk_headers(
    identity: &ReadIdentity,
    index: u64,
    range: &Option<String>,
    length: Option<i64>,
    etag: &Option<String>,
) -> (check: Result<(), AttemptFailure>)
    requires
        index * CHUNK_SIZE < identity.size,
    ensures
        content::check_view(check) == (if is_chunk_response(
            identity@,
            index as int,
            text::optional(*range),
            length,
            text::optional(*etag),
        ) {
            Ok::<(), content::AttemptModel>(())
        } else {
            Err(
                content::AttemptModel {
                    message: "GET returned headers outside the frozen read identity"@,
                    transient: false,
                },
            )
        }),
{
    let start: u64 = chunk_start(index);
    let bytes: u64 = chunk_len(index, identity.size);
    let expected = content_range_header(start, bytes, identity.size);
    let ranged = match range {
        Some(header) => same_text(header.as_str(), expected.as_str()),
        None => false,
    };
    let tagged = match etag {
        Some(tag) => same_text(tag.as_str(), identity.etag.as_str()),
        None => false,
    };
    if ranged && length == Some(bytes as i64) && tagged {
        Ok(())
    } else {
        Err(
            AttemptFailure {
                message: "GET returned headers outside the frozen read identity".to_owned(),
                transient: false,
            },
        )
    }
}

/// What a read is answered from.
#[derive(Clone, Copy, Debug, PartialEq, Eq, Structural)]
pub enum ReadPlan {
    /// No byte is read: nothing lies there, or nothing was asked for.
    Empty {
        eof: bool,
    },
    /// The bytes before `end`, which lie in the chunks from `first` to `last`.
    Chunks {
        end: u64,
        first: u64,
        last: u64,
    },
}

/// Where a read of so many bytes ends.
pub open spec fn read_end(offset: u64, count: u32, size: u64) -> int {
    if offset + count < size {
        offset + count
    } else {
        size as int
    }
}

/// Which chunks a read of an object touches.
pub fn plan_read(offset: u64, count: u32, size: u64) -> (plan: ReadPlan)
    ensures
        plan == (if count == 0 || offset >= size {
            ReadPlan::Empty { eof: offset >= size }
        } else {
            let end = read_end(offset, count, size);
            ReadPlan::Chunks {
                end: end as u64,
                first: (offset as int / CHUNK_SIZE as int) as u64,
                last: ((end - 1) / CHUNK_SIZE as int) as u64,
            }
        }),
{
    if count == 0 || offset >= size {
        return ReadPlan::Empty { eof: offset >= size };
    }
    let wanted: u64 = offset.saturating_add(count as u64);
    let end: u64 = if wanted < size { wanted } else { size };
    let (first, last) = chunks_covering(offset, end);
    ReadPlan::Chunks { end, first, last }
}

/// The bytes of one chunk that belong to a read.
pub open spec fn slice_of(chunk: Seq<u8>, index: int, offset: int, end: int) -> Seq<u8> {
    let start = index * CHUNK_SIZE;
    let from = if offset > start {
        offset - start
    } else {
        0
    };
    let to = if end - start < chunk.len() {
        end - start
    } else {
        chunk.len() as int
    };
    if to > from {
        chunk.subrange(from, to)
    } else {
        Seq::empty()
    }
}

/// Appends the bytes of one chunk that belong to a read.
pub fn append_slice(data: &mut Vec<u8>, chunk: &Vec<u8>, index: u64, offset: u64, end: u64)
    requires
        index * CHUNK_SIZE <= end,
    ensures
        final(data)@ == old(data)@ + slice_of(chunk@, index as int, offset as int, end as int),
{
    let start: u64 = chunk_start(index);
    let from: u64 = if offset > start { offset - start } else { 0 };
    let left: u64 = end - start;
    let to: u64 = if left < chunk.len() as u64 { left } else { chunk.len() as u64 };
    let ghost before = data@;
    let mut i: u64 = from;
    while i < to
        invariant
            from <= i,
            to <= chunk.len(),
            from <= to ==> i <= to,
            to <= from ==> i == from,
            data@ == before + (if i > from {
                chunk@.subrange(from as int, i as int)
            } else {
                Seq::empty()
            }),
        decreases to - i,
    {
        let byte: u8 = chunk[i as usize];
        let ghost now = data@;
        data.push(byte);
        proof {
            let so_far = if i > from {
                chunk@.subrange(from as int, i as int)
            } else {
                Seq::empty()
            };
            assert(chunk@.subrange(from as int, i + 1) =~= so_far.push(byte));
            assert(data@ =~= before + so_far.push(byte));
        }
        i = i + 1;
    }
    assert(data@ =~= before + slice_of(chunk@, index as int, offset as int, end as int));
}

/// A read that was to end at `end` reached the end of the file. Fewer bytes
/// than the request spans mean that the object ends earlier than it says, and
/// that is the true end: answering "no data, not the end" would make the client
/// ask forever.
pub open spec fn reached_end(offset: int, produced: int, end: int, size: int) -> bool {
    offset + produced >= size || offset + produced < end
}

/// Whether a read reached the end of the file.
pub fn read_reached_end(offset: u64, produced: u64, end: u64, size: u64) -> (eof: bool)
    ensures
        eof == reached_end(offset as int, produced as int, end as int, size as int),
{
    let reached: u64 = offset.saturating_add(produced);
    reached >= size || reached < end
}

/// Whether a read of staged content reached its end.
pub fn staged_read_reached_end(offset: u64, produced: u64, size: u64) -> (eof: bool)
    ensures
        eof == (offset + produced >= size),
{
    offset.saturating_add(produced) >= size
}

/// The bytes of an object that one of its chunks holds.
pub open spec fn chunk_content(object: Seq<u8>, index: int) -> Seq<u8> {
    object.subrange(index * CHUNK_SIZE, index * CHUNK_SIZE + read_cache::chunk_length(index, object.len() as int))
}

/// What a read puts together from the chunks `first` to `first + count - 1`.
pub open spec fn assembled(object: Seq<u8>, offset: int, end: int, first: int, count: nat) -> Seq<u8>
    decreases count,
{
    if count == 0 {
        Seq::empty()
    } else {
        assembled(object, offset, end, first, (count - 1) as nat) + slice_of(
            chunk_content(object, first + count - 1),
            first + count - 1,
            offset,
            end,
        )
    }
}

proof fn assembled_so_far(object: Seq<u8>, offset: int, end: int, first: int, count: nat)
    requires
        0 <= offset < end <= object.len(),
        first == offset / CHUNK_SIZE as int,
        1 <= count,
        (first + count - 1) * CHUNK_SIZE < end,
    ensures
        assembled(object, offset, end, first, count) == object.subrange(
            offset,
            (if (first + count) * CHUNK_SIZE < end {
                (first + count) * CHUNK_SIZE
            } else {
                end
            }),
        ),
    decreases count,
{
    vstd::arithmetic::div_mod::lemma_fundamental_div_mod(offset, CHUNK_SIZE as int);
    let index = first + count - 1;
    assert((first + count) * CHUNK_SIZE == index * CHUNK_SIZE + CHUNK_SIZE) by (nonlinear_arith)
        requires
            first + count == index + 1,
    ;
    assert(index * CHUNK_SIZE >= first * CHUNK_SIZE) by (nonlinear_arith)
        requires
            index >= first,
    ;
    let slice = slice_of(chunk_content(object, index), index, offset, end);
    let stop = if (first + count) * CHUNK_SIZE < end {
        (first + count) * CHUNK_SIZE
    } else {
        end
    };
    if count == 1 {
        assert(assembled(object, offset, end, first, 0) =~= Seq::empty());
        assert(CHUNK_SIZE as int * (offset / CHUNK_SIZE as int) == first * CHUNK_SIZE) by (nonlinear_arith)
            requires
                first == offset / CHUNK_SIZE as int,
        ;
        assert(slice =~= object.subrange(offset, stop));
        assert(assembled(object, offset, end, first, count) =~= slice);
    } else {
        let fewer = (count - 1) as nat;
        assert((first + fewer - 1) * CHUNK_SIZE < end) by (nonlinear_arith)
            requires
                first + fewer == index,
                index * CHUNK_SIZE < end,
        ;
        assembled_so_far(object, offset, end, first, fewer);
        assert(first * CHUNK_SIZE + CHUNK_SIZE <= index * CHUNK_SIZE) by (nonlinear_arith)
            requires
                first + 1 <= index,
        ;
        assert(CHUNK_SIZE as int * (offset / CHUNK_SIZE as int) == first * CHUNK_SIZE) by (nonlinear_arith)
            requires
                first == offset / CHUNK_SIZE as int,
        ;
        assert(slice =~= object.subrange(index * CHUNK_SIZE, stop));
        assert(assembled(object, offset, end, first, count) =~= object.subrange(offset, stop));
    }
}

/// A read gives back exactly the bytes of the object that it asked for,
/// whichever chunks they lie in, and says that it reached the end exactly
/// where the object ends.
pub proof fn a_read_gives_back_the_bytes_of_the_object(object: Seq<u8>, offset: u64, count: u32)
    requires
        object.len() <= u64::MAX,
        offset < object.len(),
        0 < count,
    ensures
        ({
            let end = read_end(offset, count, object.len() as u64);
            let first = offset as int / CHUNK_SIZE as int;
            let last = (end - 1) / CHUNK_SIZE as int;
            &&& assembled(object, offset as int, end, first, (last - first + 1) as nat) == object.subrange(offset as int, end)
            &&& reached_end(offset as int, end - offset, end, object.len() as int) == (end == object.len())
        }),
{
    let end = read_end(offset, count, object.len() as u64);
    let first = offset as int / CHUNK_SIZE as int;
    let last = (end - 1) / CHUNK_SIZE as int;
    vstd::arithmetic::div_mod::lemma_div_is_ordered(offset as int, end - 1, CHUNK_SIZE as int);
    vstd::arithmetic::div_mod::lemma_fundamental_div_mod(end - 1, CHUNK_SIZE as int);
    assert(CHUNK_SIZE as int * last == last * CHUNK_SIZE) by (nonlinear_arith);
    assert((last + 1) * CHUNK_SIZE == last * CHUNK_SIZE + CHUNK_SIZE) by (nonlinear_arith);
    assembled_so_far(object, offset as int, end, first, (last - first + 1) as nat);
}

/// A chunk is worth fetching ahead: it lies within the object and is neither
/// there nor under way.
pub open spec fn is_wanted(cache: read_cache::CacheModel, file: u64, version: Seq<char>, index: int, size: int, now_ms: u64) -> bool {
    read_cache::chunk_length(index, size) > 0 && !cache.live(
        read_cache::ChunkKeyModel { file, version, index: index as u64 },
        now_ms,
    )
}

/// The chunks after `served` that are worth fetching ahead, in order: those of
/// the next few that lie within the object and are neither there nor under
/// way.
pub fn prefetch_after(cache: &ReadCache, file: u64, identity: &ReadIdentity, served: u64, now_ms: u64) -> (wanted: Vec<u64>)
    requires
        cache@.valid(),
        (served + PREFETCH_CHUNKS) * CHUNK_SIZE <= u64::MAX,
    ensures
        wanted@ == Seq::new(PREFETCH_CHUNKS as nat, |step: int| (served + 1 + step) as u64).filter(
            |index: u64| is_wanted(cache@, file, cache_name(identity@), index as int, identity.size as int, now_ms),
        ),
{
    let version = cache_version(identity);
    let ghost pick = |index: u64| is_wanted(cache@, file, cache_name(identity@), index as int, identity.size as int, now_ms);
    let ghost all = Seq::new(PREFETCH_CHUNKS as nat, |step: int| (served + 1 + step) as u64);
    let mut wanted: Vec<u64> = Vec::new();
    let mut step: u64 = 0;
    proof {
        assert(all.take(0) =~= Seq::empty());
        reveal(Seq::filter);
        assert(all.take(0).filter(pick) =~= Seq::empty());
    }
    while step < PREFETCH_CHUNKS
        invariant
            cache@.valid(),
            step <= PREFETCH_CHUNKS,
            version@ == cache_name(identity@),
            (served + PREFETCH_CHUNKS) * CHUNK_SIZE <= u64::MAX,
            all == Seq::new(PREFETCH_CHUNKS as nat, |step: int| (served + 1 + step) as u64),
            pick == (|index: u64| is_wanted(cache@, file, cache_name(identity@), index as int, identity.size as int, now_ms)),
            wanted@ == all.take(step as int).filter(pick),
        decreases PREFETCH_CHUNKS - step,
    {
        assert((served + 1 + step) * CHUNK_SIZE <= (served + PREFETCH_CHUNKS) * CHUNK_SIZE) by (nonlinear_arith)
            requires
                step + 1 <= PREFETCH_CHUNKS,
        ;
        assert(served + 1 + step <= (served + 1 + step) * CHUNK_SIZE) by (nonlinear_arith)
            requires
                CHUNK_SIZE >= 1,
        ;
        let index: u64 = served + 1 + step;
        proof {
            assert(all.take(step + 1).drop_last() =~= all.take(step as int));
            assert(all.take(step + 1).last() == index);
            reveal(Seq::filter);
        }
        if chunk_len(index, identity.size) > 0 && !cache.is_present_version(file, version.as_str(), index, now_ms) {
            wanted.push(index);
        }
        step = step + 1;
    }
    assert(all.take(step as int) =~= all);
    wanted
}

/// An object is the same version where its tag, its version and its size are;
/// when it was seen does not matter.
pub proof fn a_version_is_known_by_tag_version_and_size(a: IdentityModel, b: IdentityModel)
    ensures
        a.same_version(b) <==> a == (IdentityModel { observed_at_ms: a.observed_at_ms, ..b }),
        was_replaced(None, b) == false,
        was_replaced(Some(a), b) <==> a.etag != b.etag || a.version_id != b.version_id || a.size != b.size,
{
}

/// What was seen of an object is relied on for thirty seconds.
pub proof fn an_identity_is_relied_on_for_a_while(identity: IdentityModel, now_ms: u64)
    ensures
        identity.is_fresh(now_ms) <==> now_ms < identity.observed_at_ms + 30_000,
{
}

/// A version is named by its version and its tag, the version first; one
/// without a version by its tag alone, behind the same mark.
pub proof fn a_version_is_named_by_version_and_tag(identity: IdentityModel)
    ensures
        identity.version_id is Some ==> cache_name(identity) == identity.version_id->0 + seq![':'] + identity.etag,
        identity.version_id is None ==> cache_name(identity) == seq![':'] + identity.etag,
{
    reveal_strlit(":");
    assert(":"@ =~= seq![':']);
    assert(Seq::<char>::empty() + ":"@ =~= seq![':']);
}

/// The bytes from `first` to `last`, both included, are asked for as such.
pub proof fn a_range_names_its_first_and_last_byte(first: nat, last: nat, size: nat)
    requires
        first <= last,
    ensures
        range_of(first as int, last - first + 1) == "bytes="@ + text::decimal(first) + "-"@ + text::decimal(last),
        content_range_of(first as int, last - first + 1, size as int) == "bytes "@ + text::decimal(first) + "-"@ + text::decimal(last) + "/"@
            + text::decimal(size),
{
}

/// A response is taken as a chunk only where it has the object's tag, and says
/// that it carries just the bytes of that chunk.
pub proof fn a_chunk_response_is_of_the_object(
    identity: IdentityModel,
    index: int,
    range: Option<Seq<char>>,
    length: Option<i64>,
    etag: Option<Seq<char>>,
)
    requires
        0 <= index,
        index * 4_194_304 + 4_194_304 <= identity.size,
    ensures
        is_chunk_response(identity, index, range, length, etag) <==> {
            &&& etag == Some(identity.etag)
            &&& length == Some(4_194_304i64)
            &&& range == Some(
                "bytes "@ + text::decimal((index * 4_194_304) as nat) + "-"@ + text::decimal((index * 4_194_304 + 4_194_303) as nat) + "/"@
                    + text::decimal(identity.size as nat),
            )
        },
{
    assert(index * CHUNK_SIZE == index * 4_194_304) by (nonlinear_arith)
        requires
            CHUNK_SIZE == 4_194_304,
    ;
}

/// A read ends where it was asked to, or at the end of the object.
pub proof fn a_read_ends_within_the_object(offset: u64, count: u32, size: u64)
    ensures
        read_end(offset, count, size) <= size,
        read_end(offset, count, size) <= offset + count,
        read_end(offset, count, size) == size || read_end(offset, count, size) == offset + count,
{
}

/// A read that gave everything it was asked for, before the end of the object,
/// did not reach the end; one that reached the object's end, or was cut short,
/// did.
pub proof fn a_short_read_is_the_end(offset: int, produced: int, end: int, size: int)
    requires
        end <= size,
    ensures
        offset + produced == end && end < size ==> !reached_end(offset, produced, end, size),
        offset + produced == size ==> reached_end(offset, produced, end, size),
        offset + produced < end ==> reached_end(offset, produced, end, size),
{
}

/// A read touches the chunks from the one its first byte lies in to the one
/// its last byte lies in; an empty read touches none, and ends the file where
/// it lies at or behind the end.
pub proof fn a_read_touches_the_chunks_of_its_bytes(offset: u64, count: u32, size: u64, plan: ReadPlan)
    requires
        call_ensures(plan_read, (offset, count, size), plan),
    ensures
        plan is Empty <==> count == 0 || offset >= size,
        plan matches ReadPlan::Empty { eof } ==> (eof <==> offset >= size),
        plan matches ReadPlan::Chunks { end, first, last } ==> {
            &&& offset < end <= size
            &&& end == size || end == offset + count
            &&& first * 4_194_304 <= offset < first * 4_194_304 + 4_194_304
            &&& last * 4_194_304 < end <= last * 4_194_304 + 4_194_304
        },
{
    if let ReadPlan::Chunks { end, first, last } = plan {
        vstd::arithmetic::div_mod::lemma_fundamental_div_mod(offset as int, 4_194_304);
        vstd::arithmetic::div_mod::lemma_fundamental_div_mod(end - 1, 4_194_304);
        vstd::arithmetic::div_mod::lemma_div_pos_is_pos(end - 1, 4_194_304);
        vstd::arithmetic::div_mod::lemma_div_nonincreasing(end - 1, 4_194_304);
        vstd::arithmetic::div_mod::lemma_div_nonincreasing(offset as int, 4_194_304);
        vstd::arithmetic::div_mod::lemma_div_pos_is_pos(offset as int, 4_194_304);
    }
}

/// A read of staged content has reached the end where nothing is left.
pub proof fn staged_content_ends_where_nothing_is_left(offset: u64, produced: u64, size: u64, eof: bool)
    requires
        call_ensures(staged_read_reached_end, (offset, produced, size), eof),
    ensures
        eof <==> offset + produced >= size,
{
}

/// A chunk is fetched ahead where some of the object lies in it and it is not
/// there yet.
pub proof fn a_chunk_is_fetched_ahead_where_it_is_missing(
    cache: read_cache::CacheModel,
    file: u64,
    version: Seq<char>,
    index: u64,
    size: int,
    now_ms: u64,
)
    ensures
        is_wanted(cache, file, version, index as int, size, now_ms) ==> index * 4_194_304 < size,
        index * 4_194_304 < size && !cache.live(read_cache::ChunkKeyModel { file, version, index }, now_ms) ==> is_wanted(
            cache,
            file,
            version,
            index as int,
            size,
            now_ms,
        ),
        cache.live(read_cache::ChunkKeyModel { file, version, index }, now_ms) ==> !is_wanted(
            cache,
            file,
            version,
            index as int,
            size,
            now_ms,
        ),
{
}

/// An object is read as what the store says it is: with its tag, its version
/// and its size. One without them cannot be read.
pub proof fn an_object_is_read_as_the_store_has_it(head: Option<ObjectHead>, now_ms: u64, identity: Result<ReadIdentity, NfsStatus>)
    requires
        call_ensures(observed_identity, (head, now_ms), identity),
    ensures
        head is None ==> identity is Err && identity->Err_0 == NfsStatus::NoEnt,
        identity is Ok ==> head is Some && head->0.etag is Some && (identity->Ok_0).etag@ == (head->0.etag->0)@ && head->0.size is Some
            && identity->Ok_0.size == head->0.size->0 && identity->Ok_0.observed_at_ms == now_ms,
        identity is Ok && identity->Ok_0.version_id is Some ==> head->0.version_id is Some && (identity->Ok_0.version_id->0)@ == (
        head->0.version_id->0)@ && (identity->Ok_0.version_id->0)@ != "null"@,
        head is Some && head->0.etag is Some && (head->0.etag->0)@.len() > 0 && head->0.size is Some && head->0.size->0 >= 0 ==> identity is Ok,
        head is Some && identity is Err ==> identity->Err_0 == NfsStatus::Io,
{
}

/// A handle that stands for what is there is good; one that stands for what
/// was replaced is stale, and one over content of its own is in conflict.
pub proof fn a_replaced_handle_is_stale(state: HandleState, status: Option<NfsStatus>)
    requires
        call_ensures(handle_status, (state,), status),
    ensures
        status is None <==> state is Current,
        state is Contested ==> status == Some(NfsStatus::Io),
        state is Gone || state is Replaced ==> status == Some(NfsStatus::Stale),
{
}

/// A handle keeps standing for the same version; for another version it is
/// retired, unless there is content of its own to lose.
pub proof fn a_handle_never_changes_its_version(id: u64, key: &str, known: ReadIdentity, seen: ReadIdentity, modified_secs: Option<i64>, staged: bool)
    ensures
        forall|table: &mut InodeTable, state: HandleState| #[trigger]
            call_ensures(settle_identity, (table, id, key, &Some(known), &seen, modified_secs, staged), state) ==> {
                let same = known.etag@ == seen.etag@ && known@.version_id == seen@.version_id && known.size == seen.size;
                &&& same ==> state is Current
                &&& !same && staged ==> state is Contested && final(table)@ == (*table)@
                &&& !same && !staged ==> state is Gone || state is Replaced
                &&& state is Replaced ==> !staged && (*table)@.inodes.contains_key(id) && (*table)@.inodes[id].key == key@
                &&& same && (*table)@.inodes.contains_key(id) ==> final(table)@.inodes.contains_key(id) && final(table)@.inodes[id].size
                    == seen.size
            },
        forall|table: &mut InodeTable, state: HandleState| #[trigger]
            call_ensures(settle_identity, (table, id, key, &None, &seen, modified_secs, staged), state) ==> state is Current,
{
}

/// A chunk is taken only from the object that is read.
pub proof fn a_chunk_of_another_object_is_refused(
    identity: ReadIdentity,
    index: u64,
    range: Option<String>,
    length: Option<i64>,
    etag: Option<String>,
    check: Result<(), AttemptFailure>,
)
    requires
        call_ensures(check_chunk_headers, (&identity, index, &range, length, &etag), check),
    ensures
        check is Ok ==> etag is Some && (etag->0)@ == identity.etag@,
        check is Ok ==> range is Some && length is Some,
        check is Err ==> !(check->Err_0).transient,
{
}

} // verus!
