//! Chunked read cache for a mounted bucket.
//!
//! Reads are served from fixed-size chunks fetched once each: one chunk covers
//! dozens of client transfers, and concurrent transfers into the same chunk
//! share a single fetch. This module keeps the registry of chunks and its byte
//! accounting; the bytes themselves are held by whoever fetched them, under
//! the ticket of their slot.
//!
//! The cache is capped with least-recently-used eviction, and a chunk is only
//! served for a limited time before it is fetched again, because the bucket
//! can change underneath a mount.

use vstd::prelude::*;
use std::collections::HashMap;
use crate::text::same_text;

verus! {

broadcast use vstd::std_specs::hash::group_hash_axioms;

/// Bytes fetched per chunk. Large enough to amortize the per-request round
/// trip across dozens of client transfers, small enough that a random peek
/// into a big file does not cost tens of megabytes.
pub const CHUNK_SIZE: u64 = 4 * 1024 * 1024;

/// Ceiling on cached bytes per mount before least-recently-used chunks go.
pub const MAX_CACHE_BYTES: u64 = 64 * 1024 * 1024;

/// How long a fetched chunk may be served before it is fetched again.
pub const CHUNK_TTL_MS: u64 = 30_000;

/// Chunks fetched ahead of a sequential reader.
pub const PREFETCH_CHUNKS: u64 = 2;

/// Prefetches in flight at once for one mount, demand reads not counted.
pub const PREFETCH_CONCURRENCY: usize = 2;

/// Chunk index holding byte `offset`.
pub fn chunk_index(offset: u64) -> (index: u64)
    ensures
        index == offset as int / CHUNK_SIZE as int,
{
    offset / CHUNK_SIZE
}

/// First byte of chunk `index`.
pub fn chunk_start(index: u64) -> (start: u64)
    requires
        index * CHUNK_SIZE <= u64::MAX,
    ensures
        start == index * CHUNK_SIZE,
{
    index * CHUNK_SIZE
}

/// Length of a chunk: the final one is short, and one past the end is empty.
pub open spec fn chunk_length(index: int, object_size: int) -> int {
    let left = object_size - index * CHUNK_SIZE;
    if left <= 0 {
        0
    } else if left < CHUNK_SIZE {
        left
    } else {
        CHUNK_SIZE as int
    }
}

/// Length of chunk `index` of an object `object_size` bytes long: the final
/// chunk is short, and a chunk past the end is empty.
pub fn chunk_len(index: u64, object_size: u64) -> (length: u64)
    requires
        index * CHUNK_SIZE <= u64::MAX,
    ensures
        length == chunk_length(index as int, object_size as int),
{
    let left: u64 = object_size.saturating_sub(chunk_start(index));
    if left < CHUNK_SIZE {
        left
    } else {
        CHUNK_SIZE
    }
}

/// Inclusive chunk range a read of `[offset, end)` touches. Empty reads are
/// answered before the cache is involved.
pub fn chunks_covering(offset: u64, end: u64) -> (range: (u64, u64))
    ensures
        range.0 == offset as int / CHUNK_SIZE as int,
        range.1 == (if end == 0 { 0 } else { (end - 1) / CHUNK_SIZE as int }),
        offset < end ==> range.0 <= range.1,
{
    proof {
        if offset < end {
            vstd::arithmetic::div_mod::lemma_div_is_ordered(offset as int, end - 1, CHUNK_SIZE as int);
        }
    }
    (chunk_index(offset), chunk_index(end.saturating_sub(1)))
}

/// A reader has proven sequential: it crossed into the next chunk, or has
/// consumed half of the chunk it was in before.
pub open spec fn is_sequential(previous: Option<u64>, current: u64, bytes_into_chunk: int) -> bool {
    match previous {
        Some(p) => current == (if p == u64::MAX { 0 } else { p + 1 }) || (current == p && bytes_into_chunk * 2 >= CHUNK_SIZE),
        None => false,
    }
}

/// Whether a read that just finished in `current` justifies prefetching the
/// chunks after it.
///
/// Only a reader that has *proven* sequential earns read-ahead. A cold first
/// touch prefetches nothing, because on a metered backend speculative
/// megabytes for one small read are pure cost.
pub fn should_prefetch(previous: Option<u64>, current: u64, bytes_into_chunk: u64) -> (earned: bool)
    ensures
        earned == is_sequential(previous, current, bytes_into_chunk as int),
{
    match previous {
        Some(p) => {
            let next: u64 = if p == u64::MAX { 0 } else { p + 1 };
            current == next || (current == p && bytes_into_chunk >= CHUNK_SIZE / 2)
        },
        None => false,
    }
}

/// The bytes that the first `count` chunks hold together.
pub open spec fn covered(count: nat, object_size: int) -> int
    decreases count,
{
    if count == 0 {
        0
    } else {
        covered((count - 1) as nat, object_size) + chunk_length(count - 1, object_size)
    }
}

/// Chunks cover an object exactly once: chunk after chunk holds the bytes that
/// follow, so that a chunk which is not empty starts where those before it
/// end, and the chunks up to the first empty one hold the whole object.
pub proof fn chunks_cover_every_byte_exactly_once(count: nat, object_size: int)
    requires
        0 <= object_size,
    ensures
        chunk_length(count as int, object_size) > 0 ==> covered(count, object_size) == count * CHUNK_SIZE,
        chunk_length(count as int, object_size) == 0 ==> covered(count, object_size) == object_size,
    decreases count,
{
    if count > 0 {
        let before = (count - 1) as nat;
        chunks_cover_every_byte_exactly_once(before, object_size);
        assert(count * CHUNK_SIZE == before * CHUNK_SIZE + CHUNK_SIZE) by (nonlinear_arith)
            requires
                count == before + 1,
        ;
    }
}

/// Every byte of a read lies in one of the chunks that the read touches.
pub proof fn a_read_touches_the_chunks_its_bytes_live_in(offset: int, end: int, byte: int)
    requires
        0 <= offset <= byte < end,
    ensures
        offset / CHUNK_SIZE as int <= byte / CHUNK_SIZE as int <= (end - 1) / CHUNK_SIZE as int,
        (byte / CHUNK_SIZE as int) * CHUNK_SIZE <= byte < (byte / CHUNK_SIZE as int) * CHUNK_SIZE + CHUNK_SIZE,
{
    vstd::arithmetic::div_mod::lemma_div_is_ordered(offset, byte, CHUNK_SIZE as int);
    vstd::arithmetic::div_mod::lemma_div_is_ordered(byte, end - 1, CHUNK_SIZE as int);
    vstd::arithmetic::div_mod::lemma_fundamental_div_mod(byte, CHUNK_SIZE as int);
}

/// Which bytes a chunk holds: of which file, in which version, at which
/// place.
pub ghost struct ChunkKeyModel {
    pub file: u64,
    pub version: Seq<char>,
    pub index: u64,
}

/// One chunk in the registry.
struct Chunk {
    file: u64,
    version: String,
    index: u64,
    /// What tells this chunk from one that took its place.
    ticket: u64,
    /// The fetch has delivered its bytes.
    initialized: bool,
    /// When the fetch that fills this chunk began.
    fetched_at_ms: u64,
    /// Byte count as accounted, so every removal frees exactly that.
    len: u64,
    /// Tick of the last touch.
    last_access: u64,
}

/// A chunk, its version taken as text.
pub ghost struct ChunkModel {
    pub key: ChunkKeyModel,
    pub ticket: u64,
    pub initialized: bool,
    pub fetched_at_ms: u64,
    pub len: u64,
    pub last_access: u64,
}

impl Chunk {
    spec fn model(&self) -> ChunkModel {
        ChunkModel {
            key: ChunkKeyModel { file: self.file, version: self.version@, index: self.index },
            ticket: self.ticket,
            initialized: self.initialized,
            fetched_at_ms: self.fetched_at_ms,
            len: self.len,
            last_access: self.last_access,
        }
    }
}

impl ChunkModel {
    /// Only a delivered chunk expires: one in flight is as fresh as a
    /// replacement would be.
    pub open spec fn is_expired(self, now_ms: u64) -> bool {
        self.initialized && now_ms >= self.fetched_at_ms + CHUNK_TTL_MS
    }
}

/// The bytes that were accounted for chunks.
pub open spec fn accounted(chunks: Seq<ChunkModel>) -> int
    decreases chunks.len(),
{
    if chunks.len() == 0 {
        0
    } else {
        accounted(chunks.drop_last()) + chunks.last().len
    }
}

/// The chunk under `key`.
pub open spec fn stands_at(chunks: Seq<ChunkModel>, key: ChunkKeyModel, index: int) -> bool {
    0 <= index < chunks.len() && chunks[index].key == key
}

/// No key occurs twice, no ticket, and no two chunks were touched last at the
/// same tick.
pub open spec fn all_distinct(chunks: Seq<ChunkModel>) -> bool {
    forall|i: int, j: int|
        0 <= i < j < chunks.len() ==> (#[trigger] chunks[i]).key != (#[trigger] chunks[j]).key && chunks[i].ticket != chunks[j].ticket
            && chunks[i].last_access != chunks[j].last_access
}

/// A chunk that may go to make room for the one just filled.
pub open spec fn is_candidate(chunks: Seq<ChunkModel>, kept: ChunkKeyModel, index: int) -> bool {
    0 <= index < chunks.len() && chunks[index].key != kept && chunks[index].initialized
}

/// The candidate that was touched longest ago.
pub open spec fn is_oldest(chunks: Seq<ChunkModel>, kept: ChunkKeyModel, index: int) -> bool {
    &&& is_candidate(chunks, kept, index)
    &&& forall|other: int| #[trigger] is_candidate(chunks, kept, other) ==> chunks[index].last_access < chunks[other].last_access || (
    chunks[index].last_access == chunks[other].last_access && index <= other)
}

/// The difference, but never below zero.
pub open spec fn without(total: int, freed: int) -> int {
    if total > freed {
        total - freed
    } else {
        0
    }
}

/// The chunks and the total after the longest untouched ones went until the
/// cache fits its cap again.
pub open spec fn trimmed(chunks: Seq<ChunkModel>, total: int, kept: ChunkKeyModel) -> (Seq<ChunkModel>, int)
    decreases chunks.len(),
{
    if total > MAX_CACHE_BYTES && exists|i: int| is_oldest(chunks, kept, i) {
        let oldest = choose|i: int| is_oldest(chunks, kept, i);
        trimmed(chunks.remove(oldest), without(total, chunks[oldest].len as int), kept)
    } else {
        (chunks, total)
    }
}

/// What the cache holds.
#[verifier::ext_equal]
pub ghost struct CacheModel {
    pub chunks: Seq<ChunkModel>,
    /// Chunk index of the last read served per file.
    pub last_read: Map<u64, u64>,
    pub total_bytes: u64,
    pub tick: u64,
    pub next_ticket: u64,
}

impl CacheModel {
    /// Keys, tickets and touches are unique, and tickets and ticks were given
    /// out before.
    pub open spec fn valid(self) -> bool {
        &&& all_distinct(self.chunks)
        &&& forall|i: int| 0 <= i < self.chunks.len() ==> (#[trigger] self.chunks[i]).ticket < self.next_ticket && self.chunks[i].last_access
            <= self.tick
    }

    /// The total is what the chunks were accounted with.
    pub open spec fn balanced(self) -> bool {
        self.total_bytes == accounted(self.chunks)
    }

    /// Some chunk stands under this key.
    pub open spec fn has(self, key: ChunkKeyModel) -> bool {
        exists|i: int| stands_at(self.chunks, key, i)
    }

    /// Where the chunk under this key stands.
    pub open spec fn place(self, key: ChunkKeyModel) -> int {
        choose|i: int| stands_at(self.chunks, key, i)
    }

    /// The chunk that stands under this key.
    pub open spec fn chunk(self, key: ChunkKeyModel) -> ChunkModel {
        self.chunks[self.place(key)]
    }

    /// One chunk dropped, and what was accounted for it freed.
    pub open spec fn dropped(self, place: int) -> CacheModel {
        CacheModel {
            chunks: self.chunks.remove(place),
            total_bytes: without(self.total_bytes as int, self.chunks[place].len as int) as u64,
            ..self
        }
    }

    /// The chunk under this key dropped, if there is one.
    pub open spec fn removed(self, key: ChunkKeyModel) -> CacheModel {
        if self.has(key) {
            self.dropped(self.place(key))
        } else {
            self
        }
    }

    /// The chunk under this key may be served, or is being fetched.
    pub open spec fn live(self, key: ChunkKeyModel, now_ms: u64) -> bool {
        self.has(key) && !self.chunk(key).is_expired(now_ms)
    }

    /// A slot asked for: a live chunk is touched, and an empty one takes the
    /// place of any other.
    pub open spec fn slotted(self, key: ChunkKeyModel, now_ms: u64) -> CacheModel {
        let tick = (self.tick + 1) as u64;
        if self.live(key, now_ms) {
            CacheModel {
                chunks: self.chunks.update(self.place(key), ChunkModel { last_access: tick, ..self.chunk(key) }),
                tick,
                ..self
            }
        } else {
            CacheModel {
                chunks: self.removed(key).chunks.push(
                    ChunkModel {
                        key,
                        ticket: self.next_ticket,
                        initialized: false,
                        fetched_at_ms: now_ms,
                        len: 0,
                        last_access: tick,
                    },
                ),
                tick,
                next_ticket: (self.next_ticket + 1) as u64,
                ..self.removed(key)
            }
        }
    }

    /// The slot with this ticket still stands under this key.
    pub open spec fn holds(self, key: ChunkKeyModel, ticket: u64) -> bool {
        self.has(key) && self.chunk(key).ticket == ticket
    }

    /// The bytes of a slot are there. A slot that lost its place is no longer
    /// of interest.
    pub open spec fn stored(self, key: ChunkKeyModel, ticket: u64) -> CacheModel {
        if self.holds(key, ticket) {
            CacheModel {
                chunks: self.chunks.update(self.place(key), ChunkModel { initialized: true, ..self.chunk(key) }),
                ..self
            }
        } else {
            self
        }
    }

    /// A fill accounted, before anything makes room for it.
    pub open spec fn credited(self, key: ChunkKeyModel, ticket: u64, len: u64) -> CacheModel {
        if self.holds(key, ticket) {
            CacheModel {
                chunks: self.chunks.update(self.place(key), ChunkModel { len, ..self.chunk(key) }),
                total_bytes: (if self.total_bytes + len > u64::MAX {
                    u64::MAX
                } else {
                    (self.total_bytes + len) as u64
                }),
                ..self
            }
        } else {
            self
        }
    }

    /// A fill accounted, and room made for it.
    pub open spec fn filled(self, key: ChunkKeyModel, ticket: u64, len: u64) -> CacheModel {
        let credited = self.credited(key, ticket, len);
        let kept = trimmed(credited.chunks, credited.total_bytes as int, key);
        CacheModel { chunks: kept.0, total_bytes: kept.1 as u64, ..credited }
    }

    /// Every chunk of a file dropped, and its reading history.
    pub open spec fn forgotten(self, file: u64) -> CacheModel {
        let kept = without_file(self.chunks, self.total_bytes as int, file);
        CacheModel { chunks: kept.0, total_bytes: kept.1 as u64, last_read: self.last_read.remove(file), ..self }
    }
}

/// The chunks and the total after every chunk of a file went.
pub open spec fn without_file(chunks: Seq<ChunkModel>, total: int, file: u64) -> (Seq<ChunkModel>, int)
    decreases chunks.len(),
{
    if chunks.len() == 0 {
        (chunks, total)
    } else {
        let last = chunks.last();
        if last.key.file == file {
            without_file(chunks.drop_last(), without(total, last.len as int), file)
        } else {
            let rest = without_file(chunks.drop_last(), total, file);
            (rest.0.push(last), rest.1)
        }
    }
}

/// Per-mount chunk registry with byte accounting.
pub struct ReadCache {
    chunks: Vec<Chunk>,
    last_read: HashMap<u64, u64>,
    total_bytes: u64,
    tick: u64,
    next_ticket: u64,
}

spec fn chunks_view(chunks: Seq<Chunk>) -> Seq<ChunkModel> {
    chunks.map_values(|chunk: Chunk| chunk.model())
}

impl View for ReadCache {
    type V = CacheModel;

    closed spec fn view(&self) -> CacheModel {
        CacheModel {
            chunks: chunks_view(self.chunks@),
            last_read: self.last_read@,
            total_bytes: self.total_bytes,
            tick: self.tick,
            next_ticket: self.next_ticket,
        }
    }
}

proof fn taking_one_out(chunks: Seq<ChunkModel>, index: int)
    requires
        0 <= index < chunks.len(),
    ensures
        accounted(chunks) == accounted(chunks.remove(index)) + chunks[index].len,
        accounted(chunks.remove(index)) >= 0,
    decreases chunks.len(),
{
    let shorter = chunks.remove(index);
    if index < chunks.len() - 1 {
        taking_one_out(chunks.drop_last(), index);
        assert(shorter.drop_last() =~= chunks.drop_last().remove(index));
        assert(shorter.last() == chunks.last());
    } else {
        assert(shorter =~= chunks.drop_last());
    }
    accounts_are_not_negative(shorter);
}

proof fn accounts_are_not_negative(chunks: Seq<ChunkModel>)
    ensures
        accounted(chunks) >= 0,
    decreases chunks.len(),
{
    if chunks.len() > 0 {
        accounts_are_not_negative(chunks.drop_last());
    }
}

proof fn changing_one_account(chunks: Seq<ChunkModel>, index: int, chunk: ChunkModel)
    requires
        0 <= index < chunks.len(),
    ensures
        accounted(chunks.update(index, chunk)) == accounted(chunks) - chunks[index].len + chunk.len,
    decreases chunks.len(),
{
    let changed = chunks.update(index, chunk);
    if index < chunks.len() - 1 {
        changing_one_account(chunks.drop_last(), index, chunk);
        assert(changed.drop_last() =~= chunks.drop_last().update(index, chunk));
    } else {
        assert(changed.drop_last() =~= chunks.drop_last());
    }
}

proof fn removing_keeps_distinct(chunks: Seq<ChunkModel>, index: int)
    requires
        all_distinct(chunks),
        0 <= index < chunks.len(),
    ensures
        all_distinct(chunks.remove(index)),
        forall|i: int| 0 <= i < chunks.len() - 1 ==> (#[trigger] chunks.remove(index)[i]).key != chunks[index].key,
        forall|i: int| 0 <= i < chunks.len() - 1 ==> (#[trigger] chunks.remove(index)[i]) == chunks[if i < index { i } else { i + 1 }],
{
    let shorter = chunks.remove(index);
    assert forall|i: int, j: int| 0 <= i < j < shorter.len() implies (#[trigger] shorter[i]).key != (#[trigger] shorter[j]).key && shorter[i].ticket
        != shorter[j].ticket && shorter[i].last_access != shorter[j].last_access by {
        let x = if i < index { i } else { i + 1 };
        let y = if j < index { j } else { j + 1 };
        assert(shorter[i] == chunks[x] && shorter[j] == chunks[y]);
    }
    assert forall|i: int| 0 <= i < chunks.len() - 1 implies (#[trigger] shorter[i]).key != chunks[index].key by {
        let x = if i < index { i } else { i + 1 };
        assert(shorter[i] == chunks[x]);
        if x < index {
            assert(chunks[x].key != chunks[index].key);
        } else {
            assert(chunks[index].key != chunks[x].key);
        }
    }
}

proof fn a_key_stands_in_one_place(chunks: Seq<ChunkModel>, key: ChunkKeyModel, one: int, other: int)
    requires
        all_distinct(chunks),
        stands_at(chunks, key, one),
        stands_at(chunks, key, other),
    ensures
        one == other,
{
    if one < other {
        assert(chunks[one].key != chunks[other].key);
    } else if other < one {
        assert(chunks[other].key != chunks[one].key);
    }
}

proof fn the_oldest_is_unique(chunks: Seq<ChunkModel>, kept: ChunkKeyModel, one: int, other: int)
    requires
        is_oldest(chunks, kept, one),
        is_oldest(chunks, kept, other),
    ensures
        one == other,
{
    assert(is_candidate(chunks, kept, one));
    assert(is_candidate(chunks, kept, other));
}

impl ReadCache {
    /// An empty cache.
    pub fn new() -> (cache: Self)
        ensures
            cache@.valid(),
            cache@.balanced(),
            cache@ == (CacheModel { chunks: Seq::empty(), last_read: Map::empty(), total_bytes: 0, tick: 0, next_ticket: 1 }),
    {
        let cache = ReadCache { chunks: Vec::new(), last_read: HashMap::new(), total_bytes: 0, tick: 0, next_ticket: 1 };
        assert(cache@ =~= (CacheModel { chunks: Seq::empty(), last_read: Map::empty(), total_bytes: 0, tick: 0, next_ticket: 1 }));
        cache
    }

    fn find(&self, file: u64, version: &str, index: u64) -> (place: Option<usize>)
        requires
            self@.valid(),
        ensures
            place is Some <==> self@.has(ChunkKeyModel { file, version: version@, index }),
            place matches Some(p) ==> stands_at(self@.chunks, ChunkKeyModel { file, version: version@, index }, p as int) && self@.place(
                ChunkKeyModel { file, version: version@, index },
            ) == p && p < self.chunks.len(),
    {
        let ghost key = ChunkKeyModel { file, version: version@, index };
        let mut i: usize = 0;
        while i < self.chunks.len()
            invariant
                i <= self.chunks@.len(),
                self@.valid(),
                key == (ChunkKeyModel { file, version: version@, index }),
                forall|j: int| 0 <= j < i ==> !stands_at(self@.chunks, key, j),
            decreases self.chunks@.len() - i,
        {
            let chunk = &self.chunks[i];
            assert(self@.chunks[i as int] == chunk.model());
            if chunk.file == file && chunk.index == index && same_text(chunk.version.as_str(), version) {
                assert(stands_at(self@.chunks, key, i as int));
                proof {
                    a_key_stands_in_one_place(self@.chunks, key, self@.place(key), i as int);
                }
                return Some(i);
            }
            i = i + 1;
        }
        None
    }

    fn drop_at(&mut self, place: usize)
        requires
            place < old(self)@.chunks.len(),
            old(self)@.valid(),
        ensures
            final(self)@ == old(self)@.dropped(place as int),
            final(self)@.valid(),
            old(self)@.balanced() ==> final(self)@.balanced(),
    {
        proof {
            taking_one_out(self@.chunks, place as int);
            removing_keeps_distinct(self@.chunks, place as int);
        }
        let ghost before = self@;
        let chunk = self.chunks.remove(place);
        self.total_bytes = self.total_bytes.saturating_sub(chunk.len);
        assert(chunk.model() == before.chunks[place as int]);
        assert(self@.chunks =~= before.chunks.remove(place as int));
        assert(self@ =~= before.dropped(place as int));
    }

    fn replace(&mut self, place: usize, initialized: bool, len: u64, last_access: u64)
        requires
            place < old(self)@.chunks.len(),
            old(self)@.valid(),
            last_access <= old(self)@.tick,
            forall|i: int| 0 <= i < old(self)@.chunks.len() && i != place ==> (#[trigger] old(self)@.chunks[i]).last_access != last_access,
        ensures
            final(self)@ == (CacheModel {
                chunks: old(self)@.chunks.update(
                    place as int,
                    ChunkModel { initialized, len, last_access, ..old(self)@.chunks[place as int] },
                ),
                ..old(self)@
            }),
            final(self)@.valid(),
            old(self)@.balanced() && len == old(self)@.chunks[place as int].len ==> final(self)@.balanced(),
    {
        let ghost before = self@;
        assert(before.chunks[place as int] == self.chunks@[place as int].model());
        let changed = Chunk {
            file: self.chunks[place].file,
            version: self.chunks[place].version.clone(),
            index: self.chunks[place].index,
            ticket: self.chunks[place].ticket,
            initialized,
            fetched_at_ms: self.chunks[place].fetched_at_ms,
            len,
            last_access,
        };
        let ghost model = changed.model();
        self.chunks.set(place, changed);
        proof {
            changing_one_account(before.chunks, place as int, model);
            assert(self@.chunks =~= before.chunks.update(place as int, model));
            assert(self@ =~= (CacheModel { chunks: before.chunks.update(place as int, model), ..before }));
            let now = self@.chunks;
            assert forall|i: int, j: int| 0 <= i < j < now.len() implies (#[trigger] now[i]).key != (#[trigger] now[j]).key && now[i].ticket
                != now[j].ticket && now[i].last_access != now[j].last_access by {
                assert(before.chunks[i].key != before.chunks[j].key);
            }
            assert forall|i: int| 0 <= i < now.len() implies (#[trigger] now[i]).ticket < self@.next_ticket && now[i].last_access <= self@.tick by {
                assert(before.chunks[i].ticket < before.next_ticket);
            }
        }
    }

    /// The slot for a chunk, created empty on first sight and re-created when
    /// the existing chunk has outlived its time. Touching a slot marks it most
    /// recently used. Returns the slot's ticket, and whether its bytes are
    /// there already.
    pub fn slot_version(&mut self, file: u64, version: &str, index: u64, now_ms: u64) -> (slot: (u64, bool))
        requires
            old(self)@.valid(),
            old(self)@.tick < u64::MAX,
            old(self)@.next_ticket < u64::MAX,
        ensures
            final(self)@.valid(),
            old(self)@.balanced() ==> final(self)@.balanced(),
            final(self)@ == old(self)@.slotted(ChunkKeyModel { file, version: version@, index }, now_ms),
            ({
                let key = ChunkKeyModel { file, version: version@, index };
                slot == (if old(self)@.live(key, now_ms) {
                    (old(self)@.chunk(key).ticket, old(self)@.chunk(key).initialized)
                } else {
                    (old(self)@.next_ticket, false)
                })
            }),
    {
        let ghost key = ChunkKeyModel { file, version: version@, index };
        let ghost before = self@;
        match self.find(file, version, index) {
            Some(place) => {
                let expired = self.chunks[place].initialized && now_ms.saturating_sub(self.chunks[place].fetched_at_ms) >= CHUNK_TTL_MS;
                assert(self@.chunks[place as int] == self.chunks@[place as int].model());
                assert(expired == before.chunk(key).is_expired(now_ms));
                if !expired {
                    let ticket: u64 = self.chunks[place].ticket;
                    let initialized = self.chunks[place].initialized;
                    let len: u64 = self.chunks[place].len;
                    let tick: u64 = self.tick + 1;
                    self.tick = tick;
                    self.replace(place, initialized, len, tick);
                    assert(self@ =~= before.slotted(key, now_ms));
                    return (ticket, initialized);
                }
                self.drop_at(place);
            },
            None => {},
        }
        let ghost kept = self@;
        assert(kept == before.removed(key));
        let tick: u64 = self.tick + 1;
        self.tick = tick;
        let ticket: u64 = self.next_ticket;
        self.next_ticket = self.next_ticket + 1;
        let chunk = Chunk {
            file,
            version: version.to_owned(),
            index,
            ticket,
            initialized: false,
            fetched_at_ms: now_ms,
            len: 0,
            last_access: tick,
        };
        let ghost model = chunk.model();
        self.chunks.push(chunk);
        proof {
            assert(self@.chunks =~= kept.chunks.push(model));
            assert(self@ =~= before.slotted(key, now_ms));
            assert(kept.chunks.push(model).drop_last() =~= kept.chunks);
            if before.has(key) {
                removing_keeps_distinct(before.chunks, before.place(key));
            } else {
                assert forall|i: int| 0 <= i < before.chunks.len() implies (#[trigger] before.chunks[i]).key != key by {
                    assert(!stands_at(before.chunks, key, i));
                }
            }
        }
        (ticket, false)
    }

    /// The slot for a chunk of a file that has one version only.
    pub fn slot(&mut self, file: u64, index: u64, now_ms: u64) -> (slot: (u64, bool))
        requires
            old(self)@.valid(),
            old(self)@.tick < u64::MAX,
            old(self)@.next_ticket < u64::MAX,
        ensures
            final(self)@.valid(),
            old(self)@.balanced() ==> final(self)@.balanced(),
            final(self)@ == old(self)@.slotted(ChunkKeyModel { file, version: Seq::empty(), index }, now_ms),
            ({
                let key = ChunkKeyModel { file, version: Seq::empty(), index };
                slot == (if old(self)@.live(key, now_ms) {
                    (old(self)@.chunk(key).ticket, old(self)@.chunk(key).initialized)
                } else {
                    (old(self)@.next_ticket, false)
                })
            }),
    {
        proof {
            reveal_strlit("");
            assert(""@ =~= Seq::empty());
        }
        self.slot_version(file, "", index, now_ms)
    }

    /// Whether a live (unexpired) slot exists, filled or mid-fetch, without
    /// creating one. Prefetchers use this so probing costs nothing.
    pub fn is_present_version(&self, file: u64, version: &str, index: u64, now_ms: u64) -> (present: bool)
        requires
            self@.valid(),
        ensures
            present == self@.live(ChunkKeyModel { file, version: version@, index }, now_ms),
    {
        match self.find(file, version, index) {
            Some(place) => {
                assert(self@.chunks[place as int] == self.chunks@[place as int].model());
                !self.chunks[place].initialized || now_ms.saturating_sub(self.chunks[place].fetched_at_ms) < CHUNK_TTL_MS
            },
            None => false,
        }
    }

    /// Whether a live slot exists for a chunk of a file that has one version
    /// only.
    pub fn is_present(&self, file: u64, index: u64, now_ms: u64) -> (present: bool)
        requires
            self@.valid(),
        ensures
            present == self@.live(ChunkKeyModel { file, version: Seq::empty(), index }, now_ms),
    {
        proof {
            reveal_strlit("");
            assert(""@ =~= Seq::empty());
        }
        self.is_present_version(file, "", index, now_ms)
    }

    /// Records the chunk a read just finished in and answers whether the
    /// chunks after it deserve prefetching.
    pub fn note_read(&mut self, file: u64, current: u64, bytes_into_chunk: u64) -> (earned: bool)
        requires
            old(self)@.valid(),
        ensures
            final(self)@.valid(),
            final(self)@ == (CacheModel { last_read: old(self)@.last_read.insert(file, current), ..old(self)@ }),
            earned == is_sequential(
                (if old(self)@.last_read.contains_key(file) {
                    Some(old(self)@.last_read[file])
                } else {
                    None
                }),
                current,
                bytes_into_chunk as int,
            ),
    {
        let previous = self.last_read.insert(file, current);
        should_prefetch(previous, current, bytes_into_chunk)
    }

    /// Records that the bytes of a slot are there to be served.
    pub fn note_stored_version(&mut self, file: u64, version: &str, index: u64, ticket: u64)
        requires
            old(self)@.valid(),
        ensures
            final(self)@.valid(),
            old(self)@.balanced() ==> final(self)@.balanced(),
            final(self)@ == old(self)@.stored(ChunkKeyModel { file, version: version@, index }, ticket),
    {
        let ghost key = ChunkKeyModel { file, version: version@, index };
        match self.find(file, version, index) {
            Some(place) => {
                assert(self@.chunks[place as int] == self.chunks@[place as int].model());
                if self.chunks[place].ticket == ticket {
                    let len: u64 = self.chunks[place].len;
                    let last_access: u64 = self.chunks[place].last_access;
                    self.replace(place, true, len, last_access);
                }
            },
            None => {},
        }
    }

    fn oldest(&self, file: u64, version: &str, index: u64) -> (place: Option<usize>)
        requires
            self@.valid(),
        ensures
            ({
                let key = ChunkKeyModel { file, version: version@, index };
                match place {
                    Some(p) => is_oldest(self@.chunks, key, p as int) && p < self.chunks.len(),
                    None => forall|i: int| !is_candidate(self@.chunks, key, i),
                }
            }),
    {
        let ghost key = ChunkKeyModel { file, version: version@, index };
        let mut found: Option<usize> = None;
        let mut i: usize = 0;
        while i < self.chunks.len()
            invariant
                i <= self.chunks@.len(),
                key == (ChunkKeyModel { file, version: version@, index }),
                match found {
                    Some(p) => {
                        &&& p < i
                        &&& is_candidate(self@.chunks, key, p as int)
                        &&& forall|other: int|
                            other < i && #[trigger] is_candidate(self@.chunks, key, other) ==> self@.chunks[p as int].last_access
                                < self@.chunks[other].last_access || (self@.chunks[p as int].last_access == self@.chunks[other].last_access && p
                                <= other)
                    },
                    None => forall|other: int| other < i ==> !is_candidate(self@.chunks, key, other),
                },
            decreases self.chunks@.len() - i,
        {
            let chunk = &self.chunks[i];
            assert(self@.chunks[i as int] == chunk.model());
            let own = chunk.file == file && chunk.index == index && same_text(chunk.version.as_str(), version);
            assert((chunk.initialized && !own) == is_candidate(self@.chunks, key, i as int));
            if chunk.initialized && !own {
                match found {
                    Some(p) => {
                        assert(self@.chunks[p as int] == self.chunks@[p as int].model());
                        if chunk.last_access < self.chunks[p].last_access {
                            found = Some(i);
                        }
                    },
                    None => {
                        found = Some(i);
                    },
                }
            }
            i = i + 1;
        }
        found
    }

    /// Records that a slot was just filled with `len` bytes, then evicts
    /// least-recently-used chunks until the cache fits its cap again. Called
    /// once per fill.
    ///
    /// The bytes only count when the slot still stands: an invalidation that
    /// raced the fetch already dropped it, and accounting an orphan would
    /// inflate the total for the life of the mount.
    pub fn note_filled_version(&mut self, file: u64, version: &str, index: u64, ticket: u64, len: u64)
        requires
            old(self)@.valid(),
        ensures
            final(self)@.valid(),
            final(self)@ == old(self)@.filled(ChunkKeyModel { file, version: version@, index }, ticket, len),
            ({
                let key = ChunkKeyModel { file, version: version@, index };
                old(self)@.balanced() && old(self)@.total_bytes + len <= u64::MAX && (old(self)@.holds(key, ticket) ==> old(self)@.chunk(key).len == 0)
                    ==> final(self)@.balanced()
            }),
    {
        let ghost key = ChunkKeyModel { file, version: version@, index };
        let ghost before = self@;
        match self.find(file, version, index) {
            Some(place) => {
                assert(self@.chunks[place as int] == self.chunks@[place as int].model());
                if self.chunks[place].ticket == ticket {
                    let initialized = self.chunks[place].initialized;
                    let last_access: u64 = self.chunks[place].last_access;
                    proof {
                        changing_one_account(
                            before.chunks,
                            place as int,
                            ChunkModel { len, ..before.chunks[place as int] },
                        );
                    }
                    self.replace(place, initialized, len, last_access);
                    self.total_bytes = self.total_bytes.saturating_add(len);
                    assert(self@ =~= before.credited(key, ticket, len));
                }
            },
            None => {},
        }
        let ghost credited = before.credited(key, ticket, len);
        assert(self@ == credited);
        let ghost goal = trimmed(credited.chunks, credited.total_bytes as int, key);
        let mut more = true;
        while more && self.total_bytes > MAX_CACHE_BYTES
            invariant
                key == (ChunkKeyModel { file, version: version@, index }),
                self@.valid(),
                credited.balanced() ==> self@.balanced(),
                goal == trimmed(self@.chunks, self@.total_bytes as int, key),
                self@ == (CacheModel { chunks: self@.chunks, total_bytes: self@.total_bytes, ..credited }),
                !more ==> forall|i: int| !is_candidate(self@.chunks, key, i),
            decreases self.chunks.len() + (if more { 1int } else { 0int }),
        {
            match self.oldest(file, version, index) {
                Some(place) => {
                    proof {
                        let chosen = choose|i: int| is_oldest(self@.chunks, key, i);
                        the_oldest_is_unique(self@.chunks, key, chosen, place as int);
                    }
                    self.drop_at(place);
                },
                None => {
                    more = false;
                },
            }
        }
        assert(goal == (self@.chunks, self@.total_bytes as int)) by {
            if self@.total_bytes > MAX_CACHE_BYTES {
                assert forall|i: int| !is_oldest(self@.chunks, key, i) by {
                    assert(!is_candidate(self@.chunks, key, i));
                }
            }
        }
        assert(self@ =~= before.filled(key, ticket, len));
    }

    /// Records a fill of a chunk of a file that has one version only.
    pub fn note_filled(&mut self, file: u64, index: u64, ticket: u64, len: u64)
        requires
            old(self)@.valid(),
        ensures
            final(self)@.valid(),
            final(self)@ == old(self)@.filled(ChunkKeyModel { file, version: Seq::empty(), index }, ticket, len),
            ({
                let key = ChunkKeyModel { file, version: Seq::empty(), index };
                old(self)@.balanced() && old(self)@.total_bytes + len <= u64::MAX && (old(self)@.holds(key, ticket) ==> old(self)@.chunk(key).len == 0)
                    ==> final(self)@.balanced()
            }),
    {
        proof {
            reveal_strlit("");
            assert(""@ =~= Seq::empty());
        }
        self.note_filled_version(file, "", index, ticket, len)
    }

    /// Drops one slot, used when its fetch failed (so the next read retries)
    /// or when its content proved stale.
    pub fn remove_slot_version(&mut self, file: u64, version: &str, index: u64)
        requires
            old(self)@.valid(),
        ensures
            final(self)@.valid(),
            old(self)@.balanced() ==> final(self)@.balanced(),
            final(self)@ == old(self)@.removed(ChunkKeyModel { file, version: version@, index }),
    {
        match self.find(file, version, index) {
            Some(place) => {
                self.drop_at(place);
            },
            None => {},
        }
    }

    /// Drops one slot of a file that has one version only.
    pub fn remove_slot(&mut self, file: u64, index: u64)
        requires
            old(self)@.valid(),
        ensures
            final(self)@.valid(),
            old(self)@.balanced() ==> final(self)@.balanced(),
            final(self)@ == old(self)@.removed(ChunkKeyModel { file, version: Seq::empty(), index }),
    {
        proof {
            reveal_strlit("");
            assert(""@ =~= Seq::empty());
        }
        self.remove_slot_version(file, "", index)
    }

    /// Drops every chunk of one file, used whenever the object's content in
    /// the bucket is replaced (a finished upload, a delete, a truncate) so a
    /// later read cannot see the old bytes.
    pub fn forget_file(&mut self, file: u64)
        requires
            old(self)@.valid(),
        ensures
            final(self)@.valid(),
            old(self)@.balanced() ==> final(self)@.balanced(),
            final(self)@ == old(self)@.forgotten(file),
    {
        let ghost before = self@;
        let ghost goal = without_file(before.chunks, before.total_bytes as int, file);
        let mut i: usize = self.chunks.len();
        proof {
            assert(before.chunks.take(i as int) =~= before.chunks);
            assert(before.chunks.skip(i as int) =~= Seq::empty());
            assert(without_file(before.chunks, before.total_bytes as int, file).0 + Seq::<ChunkModel>::empty() =~= goal.0);
        }
        while i > 0
            invariant
                i <= self.chunks@.len(),
                self@.valid(),
                before.balanced() ==> self@.balanced(),
                self@ == (CacheModel { chunks: self@.chunks, total_bytes: self@.total_bytes, ..before }),
                ({
                    let rest = without_file(self@.chunks.take(i as int), self@.total_bytes as int, file);
                    goal == (rest.0 + self@.chunks.skip(i as int), rest.1)
                }),
            decreases i,
        {
            i = i - 1;
            let ghost now = self@;
            let ghost rest = without_file(now.chunks.take(i + 1), now.total_bytes as int, file);
            assert(self@.chunks[i as int] == self.chunks@[i as int].model());
            assert(now.chunks.take(i + 1).drop_last() =~= now.chunks.take(i as int));
            if self.chunks[i].file == file {
                self.drop_at(i);
                proof {
                    assert(self@.chunks.take(i as int) =~= now.chunks.take(i as int));
                    assert(self@.chunks.skip(i as int) =~= now.chunks.skip(i + 1));
                }
            } else {
                proof {
                    let fewer = without_file(now.chunks.take(i as int), now.total_bytes as int, file);
                    assert(rest.0 + now.chunks.skip(i + 1) =~= fewer.0 + now.chunks.skip(i as int));
                }
            }
        }
        proof {
            assert(self@.chunks.take(0) =~= Seq::empty());
            assert(self@.chunks.skip(0) =~= self@.chunks);
            assert(Seq::<ChunkModel>::empty() + self@.chunks =~= self@.chunks);
        }
        self.last_read.remove(&file);
        assert(self@ =~= before.forgotten(file));
    }

    /// The bytes that are accounted for.
    pub fn cached_bytes(&self) -> (bytes: u64)
        ensures
            bytes == self@.total_bytes,
    {
        self.total_bytes
    }

    /// How many chunks the cache knows.
    pub fn chunk_count(&self) -> (count: usize)
        ensures
            count == self@.chunks.len(),
    {
        self.chunks.len()
    }
}

impl Default for ReadCache {
    fn default() -> (cache: Self)
        ensures
            cache@.valid(),
            cache@.balanced(),
            cache@ == (CacheModel { chunks: Seq::empty(), last_read: Map::empty(), total_bytes: 0, tick: 0, next_ticket: 1 }),
    {
        ReadCache::new()
    }
}

/// After a fill the cache fits its cap again, unless every chunk that is left
/// is the one just filled or still being fetched.
pub proof fn a_fill_makes_room(chunks: Seq<ChunkModel>, total: int, kept: ChunkKeyModel)
    ensures
        ({
            let after = trimmed(chunks, total, kept);
            after.1 <= MAX_CACHE_BYTES || forall|i: int| !is_candidate(after.0, kept, i)
        }),
    decreases chunks.len(),
{
    if total > MAX_CACHE_BYTES {
        if exists|i: int| is_oldest(chunks, kept, i) {
            let oldest = choose|i: int| is_oldest(chunks, kept, i);
            a_fill_makes_room(chunks.remove(oldest), without(total, chunks[oldest].len as int), kept);
        } else {
            assert forall|i: int| !is_candidate(chunks, kept, i) by {
                if is_candidate(chunks, kept, i) {
                    some_candidate_is_oldest(chunks, kept, i, chunks.len() as int);
                }
            }
        }
    }
}

proof fn some_candidate_is_oldest(chunks: Seq<ChunkModel>, kept: ChunkKeyModel, best: int, seen: int) -> (oldest: int)
    requires
        is_candidate(chunks, kept, best),
        0 <= seen <= chunks.len(),
        forall|other: int|
            other >= seen && #[trigger] is_candidate(chunks, kept, other) ==> chunks[best].last_access < chunks[other].last_access || (
            chunks[best].last_access == chunks[other].last_access && best <= other),
    ensures
        is_oldest(chunks, kept, oldest),
    decreases seen,
{
    if seen == 0 {
        assert forall|other: int| #[trigger] is_candidate(chunks, kept, other) implies chunks[best].last_access < chunks[other].last_access || (
        chunks[best].last_access == chunks[other].last_access && best <= other) by {
            assert(other >= 0);
        }
        best
    } else {
        let next = seen - 1;
        if is_candidate(chunks, kept, next) && (chunks[next].last_access < chunks[best].last_access || (chunks[next].last_access
            == chunks[best].last_access && next < best)) {
            some_candidate_is_oldest(chunks, kept, next, next)
        } else {
            some_candidate_is_oldest(chunks, kept, best, next)
        }
    }
}

/// Making room never drops the chunk just filled nor one that is still being
/// fetched, and adds nothing.
pub proof fn what_is_being_fetched_stays(chunks: Seq<ChunkModel>, total: int, kept: ChunkKeyModel, chunk: ChunkModel)
    ensures
        trimmed(chunks, total, kept).0.contains(chunk) ==> chunks.contains(chunk),
        chunks.contains(chunk) && (!chunk.initialized || chunk.key == kept) ==> trimmed(chunks, total, kept).0.contains(chunk),
    decreases chunks.len(),
{
    if total > MAX_CACHE_BYTES && exists|i: int| is_oldest(chunks, kept, i) {
        let oldest = choose|i: int| is_oldest(chunks, kept, i);
        let shorter = chunks.remove(oldest);
        what_is_being_fetched_stays(shorter, without(total, chunks[oldest].len as int), kept, chunk);
        if shorter.contains(chunk) {
            let at = choose|i: int| 0 <= i < shorter.len() && shorter[i] == chunk;
            assert(chunks[if at < oldest { at } else { at + 1 }] == chunk);
        }
        if chunks.contains(chunk) && (!chunk.initialized || chunk.key == kept) {
            let at = choose|i: int| 0 <= i < chunks.len() && chunks[i] == chunk;
            assert(at != oldest);
            assert(shorter[if at < oldest { at } else { at - 1 }] == chunk);
        }
    }
}

/// The least recently used chunks go first: whatever went was touched before
/// every chunk that could have gone instead.
pub proof fn the_least_recently_used_goes_first(chunks: Seq<ChunkModel>, total: int, kept: ChunkKeyModel, gone: ChunkModel, stays: ChunkModel)
    requires
        all_distinct(chunks),
        chunks.contains(gone),
        !trimmed(chunks, total, kept).0.contains(gone),
        trimmed(chunks, total, kept).0.contains(stays),
        stays.initialized,
        stays.key != kept,
    ensures
        gone.initialized,
        gone.last_access < stays.last_access,
    decreases chunks.len(),
{
    if total > MAX_CACHE_BYTES && exists|i: int| is_oldest(chunks, kept, i) {
        let oldest = choose|i: int| is_oldest(chunks, kept, i);
        let shorter = chunks.remove(oldest);
        let left = without(total, chunks[oldest].len as int);
        what_is_being_fetched_stays(chunks, total, kept, stays);
        let at = choose|i: int| 0 <= i < chunks.len() && chunks[i] == stays;
        assert(is_candidate(chunks, kept, at));
        removing_keeps_distinct(chunks, oldest);
        if chunks[oldest] == gone {
            what_is_being_fetched_stays(shorter, left, kept, stays);
            let there = choose|i: int| 0 <= i < shorter.len() && shorter[i] == stays;
            let place = if there < oldest { there } else { there + 1 };
            assert(chunks[place] == stays);
            assert(is_candidate(chunks, kept, place));
            if place < oldest {
                assert(chunks[place].last_access != chunks[oldest].last_access);
            } else {
                assert(chunks[oldest].last_access != chunks[place].last_access);
            }
        } else {
            let place = choose|i: int| 0 <= i < chunks.len() && chunks[i] == gone;
            assert(shorter[if place < oldest { place } else { place - 1 }] == gone);
            the_least_recently_used_goes_first(shorter, left, kept, gone, stays);
        }
    }
}

proof fn making_room_keeps_the_balance(chunks: Seq<ChunkModel>, total: int, kept: ChunkKeyModel)
    requires
        total == accounted(chunks),
    ensures
        trimmed(chunks, total, kept).1 == accounted(trimmed(chunks, total, kept).0),
        0 <= trimmed(chunks, total, kept).1 <= total,
    decreases chunks.len(),
{
    accounts_are_not_negative(chunks);
    if total > MAX_CACHE_BYTES && exists|i: int| is_oldest(chunks, kept, i) {
        let oldest = choose|i: int| is_oldest(chunks, kept, i);
        taking_one_out(chunks, oldest);
        making_room_keeps_the_balance(chunks.remove(oldest), without(total, chunks[oldest].len as int), kept);
    }
}

/// A fill keeps the account and the cap. Its own chunk stays, and so does every
/// chunk that is still being fetched. Each chunk that goes was filled, and was
/// touched before every other filled chunk that stays. Nothing goes where all
/// fits, and the cap is exceeded only where nothing is left that could go.
pub proof fn a_fill_evicts_only_what_it_must(cache: CacheModel, key: ChunkKeyModel, ticket: u64, len: u64)
    requires
        cache.valid(),
        cache.balanced(),
        cache.holds(key, ticket),
        cache.chunk(key).len == 0,
        cache.total_bytes + len <= u64::MAX,
    ensures
        ({
            let after = cache.filled(key, ticket, len);
            &&& after.balanced()
            &&& after.chunks.contains(ChunkModel { len, ..cache.chunk(key) })
            &&& forall|chunk: ChunkModel| #[trigger] cache.chunks.contains(chunk) && chunk.key != key && !chunk.initialized ==> after.chunks.contains(chunk)
            &&& forall|chunk: ChunkModel|
                #[trigger] after.chunks.contains(chunk) ==> cache.chunks.contains(chunk) || chunk == (ChunkModel { len, ..cache.chunk(key) })
            &&& forall|gone: ChunkModel, stays: ChunkModel|
                #[trigger] cache.chunks.contains(gone) && gone.key != key && !after.chunks.contains(gone) && #[trigger] after.chunks.contains(stays)
                    && stays.initialized && stays.key != key ==> gone.initialized && gone.last_access < stays.last_access
            &&& cache.total_bytes + len <= MAX_CACHE_BYTES ==> after.chunks == cache.credited(key, ticket, len).chunks
            &&& after.total_bytes > MAX_CACHE_BYTES ==> forall|i: int| !is_candidate(after.chunks, key, i)
        }),
{
    let place = cache.place(key);
    let own = ChunkModel { len, ..cache.chunk(key) };
    let credited = cache.credited(key, ticket, len);
    let total = credited.total_bytes as int;
    let after = cache.filled(key, ticket, len);
    assert(credited.chunks == cache.chunks.update(place, own));
    changing_one_account(cache.chunks, place, own);
    making_room_keeps_the_balance(credited.chunks, total, key);
    a_fill_makes_room(credited.chunks, total, key);
    assert(credited.chunks[place] == own);
    assert(credited.chunks.contains(own));
    what_is_being_fetched_stays(credited.chunks, total, key, own);
    assert(all_distinct(credited.chunks)) by {
        assert forall|i: int, j: int| 0 <= i < j < credited.chunks.len() implies (#[trigger] credited.chunks[i]).key != (
        #[trigger] credited.chunks[j]).key && credited.chunks[i].ticket != credited.chunks[j].ticket && credited.chunks[i].last_access
            != credited.chunks[j].last_access by {
            assert(cache.chunks[i].key != cache.chunks[j].key);
        }
    }
    assert forall|chunk: ChunkModel| #[trigger] cache.chunks.contains(chunk) && chunk.key != key implies credited.chunks.contains(chunk) by {
        let at = choose|i: int| 0 <= i < cache.chunks.len() && cache.chunks[i] == chunk;
        assert(credited.chunks[at] == chunk);
    }
    assert forall|chunk: ChunkModel| #[trigger] cache.chunks.contains(chunk) && chunk.key != key && !chunk.initialized implies after.chunks.contains(
        chunk,
    ) by {
        what_is_being_fetched_stays(credited.chunks, total, key, chunk);
    }
    assert forall|chunk: ChunkModel| #[trigger] after.chunks.contains(chunk) implies cache.chunks.contains(chunk) || chunk == own by {
        what_is_being_fetched_stays(credited.chunks, total, key, chunk);
        let at = choose|i: int| 0 <= i < credited.chunks.len() && credited.chunks[i] == chunk;
        if at != place {
            assert(cache.chunks[at] == chunk);
        }
    }
    assert forall|gone: ChunkModel, stays: ChunkModel|
        #[trigger] cache.chunks.contains(gone) && gone.key != key && !after.chunks.contains(gone) && #[trigger] after.chunks.contains(stays)
            && stays.initialized && stays.key != key implies gone.initialized && gone.last_access < stays.last_access by {
        the_least_recently_used_goes_first(credited.chunks, total, key, gone, stays);
    }
}

/// A forgotten file has no chunk left, and every other chunk stays.
pub proof fn a_forgotten_file_has_no_chunks(cache: CacheModel, file: u64, chunk: ChunkModel)
    ensures
        cache.forgotten(file).chunks.contains(chunk) <==> cache.chunks.contains(chunk) && chunk.key.file != file,
        chunk.key.file == file ==> !cache.forgotten(file).has(chunk.key),
{
    what_is_left_without_a_file(cache.chunks, cache.total_bytes as int, file, chunk);
    let after = cache.forgotten(file);
    if chunk.key.file == file && after.has(chunk.key) {
        let found = after.chunks[after.place(chunk.key)];
        assert(after.chunks.contains(found));
        what_is_left_without_a_file(cache.chunks, cache.total_bytes as int, file, found);
    }
}

proof fn what_is_left_without_a_file(chunks: Seq<ChunkModel>, total: int, file: u64, chunk: ChunkModel)
    ensures
        without_file(chunks, total, file).0.contains(chunk) <==> chunks.contains(chunk) && chunk.key.file != file,
    decreases chunks.len(),
{
    if chunks.len() > 0 {
        let last = chunks.last();
        let fewer = chunks.drop_last();
        if chunks.contains(chunk) {
            let at = choose|i: int| 0 <= i < chunks.len() && chunks[i] == chunk;
            if at < chunks.len() - 1 {
                assert(fewer[at] == chunk);
            }
        }
        if fewer.contains(chunk) {
            let at = choose|i: int| 0 <= i < fewer.len() && fewer[i] == chunk;
            assert(chunks[at] == chunk);
        }
        assert(chunks[chunks.len() - 1] == last);
        if last.key.file == file {
            what_is_left_without_a_file(fewer, without(total, last.len as int), file, chunk);
        } else {
            what_is_left_without_a_file(fewer, total, file, chunk);
            let rest = without_file(fewer, total, file).0;
            let all = rest.push(last);
            if rest.contains(chunk) {
                let at = choose|i: int| 0 <= i < rest.len() && rest[i] == chunk;
                assert(all[at] == chunk);
            }
            if all.contains(chunk) {
                let at = choose|i: int| 0 <= i < all.len() && all[i] == chunk;
                if at < rest.len() {
                    assert(rest[at] == chunk);
                }
            }
            assert(all[rest.len() as int] == last);
        }
    } else {
        assert(!chunks.contains(chunk));
    }
}

/// What a slot serves is fresh, and a chunk whose fetch has not delivered yet
/// is never replaced.
pub proof fn a_served_chunk_is_fresh(cache: CacheModel, key: ChunkKeyModel, now_ms: u64)
    requires
        cache.valid(),
        cache.tick < u64::MAX,
    ensures
        cache.slotted(key, now_ms).has(key),
        cache.slotted(key, now_ms).chunk(key).initialized ==> now_ms < cache.slotted(key, now_ms).chunk(key).fetched_at_ms + CHUNK_TTL_MS,
        cache.has(key) && !cache.chunk(key).initialized ==> cache.slotted(key, now_ms).chunk(key).ticket == cache.chunk(key).ticket,
{
    let after = cache.slotted(key, now_ms);
    let place = if cache.live(key, now_ms) {
        cache.place(key)
    } else {
        after.chunks.len() - 1
    };
    assert(stands_at(after.chunks, key, place));
    if cache.live(key, now_ms) {
        let found = after.place(key);
        assert(cache.chunks[found].key == key);
        a_key_stands_in_one_place(cache.chunks, key, found, place);
    } else {
        let kept = cache.removed(key).chunks;
        let found = after.place(key);
        if found < kept.len() {
            if cache.has(key) {
                removing_keeps_distinct(cache.chunks, cache.place(key));
                assert(kept[found].key != key);
            } else {
                assert(stands_at(cache.chunks, key, found));
            }
        }
    }
}

/// A fetch that lost its slot to an invalidation accounts nothing: once the
/// file was forgotten, no slot opened later has the ticket of an earlier one,
/// so that the fill leaves the total alone.
pub proof fn an_orphaned_fill_is_not_accounted(cache: CacheModel, key: ChunkKeyModel, ticket: u64, len: u64, now_ms: u64)
    requires
        cache.valid(),
        cache.tick < u64::MAX,
        cache.next_ticket < u64::MAX,
        ticket < cache.next_ticket,
    ensures
        ({
            let fresh = cache.forgotten(key.file).slotted(key, now_ms);
            &&& fresh.credited(key, ticket, len) == fresh
            &&& fresh.chunk(key).ticket != ticket
        }),
{
    let forgotten = cache.forgotten(key.file);
    let chunk = ChunkModel { key, ticket, initialized: false, fetched_at_ms: 0, len: 0, last_access: 0 };
    a_forgotten_file_has_no_chunks(cache, key.file, chunk);
    let fresh = forgotten.slotted(key, now_ms);
    assert(fresh.chunks.last().key == key);
    let found = fresh.place(key);
    assert(stands_at(fresh.chunks, key, fresh.chunks.len() - 1));
    if found < fresh.chunks.len() - 1 {
        assert(stands_at(forgotten.chunks, key, found));
    }
}

/// A chunk is four mebibytes long, but for the last, which ends with the
/// object; behind the object there is none.
pub proof fn a_chunk_is_full_unless_the_object_ends_in_it(index: int, object_size: int)
    requires
        0 <= index,
        0 <= object_size,
    ensures
        0 <= chunk_length(index, object_size) <= 4_194_304,
        index * 4_194_304 + 4_194_304 <= object_size ==> chunk_length(index, object_size) == 4_194_304,
        object_size <= index * 4_194_304 ==> chunk_length(index, object_size) == 0,
        index * 4_194_304 <= object_size <= index * 4_194_304 + 4_194_304 ==> index * 4_194_304 + chunk_length(index, object_size)
            == object_size,
{
}

/// Only a reader that went on into the next chunk, or has read half of the one
/// it was in, earns read-ahead; a first touch and a jump do not.
pub proof fn only_a_sequential_reader_earns_read_ahead(previous: u64, current: u64, bytes_into_chunk: int)
    requires
        previous < u64::MAX,
    ensures
        !is_sequential(None, current, bytes_into_chunk),
        is_sequential(Some(previous), current, bytes_into_chunk) <==> current == previous + 1 || (current == previous && bytes_into_chunk
            >= 2_097_152),
{
}

/// A delivered chunk may be served for thirty seconds; one in flight does not
/// expire.
pub proof fn a_delivered_chunk_expires(chunk: ChunkModel, now_ms: u64)
    ensures
        !chunk.initialized ==> !chunk.is_expired(now_ms),
        chunk.initialized ==> (chunk.is_expired(now_ms) <==> now_ms >= chunk.fetched_at_ms + 30_000),
{
}

/// A slot that is asked for stands there afterwards and was touched last. One
/// that was there and could be served keeps its ticket and its content; any
/// other is new and empty.
pub proof fn a_slot_that_is_asked_for_stands(cache: CacheModel, key: ChunkKeyModel, now_ms: u64)
    requires
        cache.valid(),
        cache.tick < u64::MAX,
        cache.next_ticket < u64::MAX,
    ensures
        ({
            let after = cache.slotted(key, now_ms);
            &&& after.tick == cache.tick + 1
            &&& after.last_read == cache.last_read
            &&& cache.live(key, now_ms) ==> after.chunks.contains(ChunkModel { last_access: after.tick, ..cache.chunk(key) })
                && after.next_ticket == cache.next_ticket && after.total_bytes == cache.total_bytes && after.chunks.len()
                == cache.chunks.len()
            &&& !cache.live(key, now_ms) ==> after.chunks.contains(
                ChunkModel { key, ticket: cache.next_ticket, initialized: false, fetched_at_ms: now_ms, len: 0, last_access: after.tick },
            ) && after.next_ticket == cache.next_ticket + 1
        }),
{
    let after = cache.slotted(key, now_ms);
    if cache.live(key, now_ms) {
        let place = cache.place(key);
        assert(stands_at(cache.chunks, key, place));
        assert(after.chunks[place] == (ChunkModel { last_access: after.tick, ..cache.chunk(key) }));
    } else {
        assert(after.chunks.last() == after.chunks[after.chunks.len() - 1]);
    }
}

/// Bytes that arrive belong to the slot that asked for them; a slot that lost
/// its place changes nothing, neither the cache nor its total.
pub proof fn bytes_arrive_in_their_own_slot(cache: CacheModel, key: ChunkKeyModel, ticket: u64, len: u64)
    ensures
        !cache.holds(key, ticket) ==> cache.stored(key, ticket) == cache && cache.credited(key, ticket, len) == cache,
        cache.holds(key, ticket) ==> cache.stored(key, ticket).chunks.contains(ChunkModel { initialized: true, ..cache.chunk(key) })
            && cache.stored(key, ticket).total_bytes == cache.total_bytes,
        cache.holds(key, ticket) && cache.total_bytes + len <= u64::MAX ==> cache.credited(key, ticket, len).total_bytes == cache.total_bytes
            + len && cache.credited(key, ticket, len).chunks.contains(ChunkModel { len, ..cache.chunk(key) }),
{
    if cache.holds(key, ticket) {
        let place = cache.place(key);
        assert(stands_at(cache.chunks, key, place));
        assert(cache.stored(key, ticket).chunks[place] == (ChunkModel { initialized: true, ..cache.chunk(key) }));
        assert(cache.credited(key, ticket, len).chunks[place] == (ChunkModel { len, ..cache.chunk(key) }));
    }
}

/// A chunk that is dropped frees what was accounted for it, and leaves all
/// others.
pub proof fn a_dropped_chunk_frees_its_bytes(cache: CacheModel, key: ChunkKeyModel, other: ChunkModel)
    requires
        cache.valid(),
        other.key != key,
    ensures
        !cache.has(key) ==> cache.removed(key) == cache,
        cache.has(key) && cache.total_bytes >= cache.chunk(key).len ==> cache.removed(key).total_bytes == cache.total_bytes - cache.chunk(
            key,
        ).len,
        cache.chunks.contains(other) <==> cache.removed(key).chunks.contains(other),
        cache.removed(key).tick == cache.tick,
        cache.removed(key).next_ticket == cache.next_ticket,
{
    if cache.has(key) {
        let place = cache.place(key);
        assert(stands_at(cache.chunks, key, place));
        let left = cache.removed(key).chunks;
        if cache.chunks.contains(other) {
            let i = choose|i: int| 0 <= i < cache.chunks.len() && cache.chunks[i] == other;
            if i < place {
                assert(left[i] == other);
            } else {
                assert(left[i - 1] == other);
            }
        }
        if left.contains(other) {
            let i = choose|i: int| 0 <= i < left.len() && left[i] == other;
            if i < place {
                assert(cache.chunks[i] == other);
            } else {
                assert(cache.chunks[i + 1] == other);
            }
        }
    }
}

/// A slot that is asked for is told apart by its ticket: one that can be
/// served keeps the ticket it has, any other gets a new one and is empty.
pub proof fn a_slot_is_told_by_its_ticket(file: u64, version: &str, index: u64, now_ms: u64)
    ensures
        forall|cache: &mut ReadCache, slot: (u64, bool)| #[trigger]
            call_ensures(ReadCache::slot_version, (cache, file, version, index, now_ms), slot) ==> {
                let key = ChunkKeyModel { file, version: version@, index };
                &&& (*cache)@.live(key, now_ms) ==> slot.0 == (*cache)@.chunk(key).ticket && slot.1 == (*cache)@.chunk(key).initialized
                &&& !(*cache)@.live(key, now_ms) ==> slot.0 == (*cache)@.next_ticket && !slot.1
                &&& slot.1 ==> (*cache)@.live(key, now_ms) && (*cache)@.chunk(key).initialized
            },
{
}

/// A read is remembered per file, and earns read-ahead only behind the chunk
/// that was read before.
pub proof fn a_read_is_remembered_per_file(file: u64, current: u64, bytes_into_chunk: u64, other: u64)
    requires
        other != file,
    ensures
        forall|cache: &mut ReadCache, earned: bool| #[trigger]
            call_ensures(ReadCache::note_read, (cache, file, current, bytes_into_chunk), earned) ==> {
                &&& final(cache)@.last_read.contains_key(file) && final(cache)@.last_read[file] == current
                &&& final(cache)@.last_read.contains_key(other) <==> (*cache)@.last_read.contains_key(other)
                &&& !(*cache)@.last_read.contains_key(file) ==> !earned
                &&& (*cache)@.last_read.contains_key(file) && (*cache)@.last_read[file] < u64::MAX ==> (earned <==> current
                    == (*cache)@.last_read[file] + 1 || (current == (*cache)@.last_read[file] && bytes_into_chunk >= 2_097_152))
                &&& final(cache)@.chunks == (*cache)@.chunks
                &&& final(cache)@.total_bytes == (*cache)@.total_bytes
            },
{
}

/// The chunks of a read are those its first and its last byte lie in.
pub proof fn chunks_are_found_by_their_bytes(offset: u64, end: u64, range: (u64, u64), index: u64)
    requires
        offset < end,
        call_ensures(chunks_covering, (offset, end), range),
        call_ensures(chunk_index, (offset,), index),
    ensures
        range.0 * 4_194_304 <= offset < range.0 * 4_194_304 + 4_194_304,
        range.1 * 4_194_304 < end <= range.1 * 4_194_304 + 4_194_304,
        index == range.0,
{
    vstd::arithmetic::div_mod::lemma_fundamental_div_mod(offset as int, 4_194_304);
    vstd::arithmetic::div_mod::lemma_fundamental_div_mod(end - 1, 4_194_304);
}

} // verus!
