//! Write-back staging: when a dirty file is uploaded, how it is cut into
//! parts, and what it may replace.
//!
//! A dirty file is written to a local staging file first and uploaded once the
//! client has gone quiet. The protocol has no close notification, so the
//! timing is decided here.

use vstd::prelude::*;
use crate::paths;
use crate::paths::{file_name, with_extension};
use crate::text;
use crate::text::{has_only_blanks, same_text};

verus! {

/// How long a file must go untouched before it is uploaded. Long enough to span
/// the gap between the writes of one copy, short enough that a user who drops a
/// file in and looks at the bucket sees it there.
pub const FLUSH_DEBOUNCE_MS: u64 = 2_000;

/// How often the flusher looks for work.
pub const FLUSH_SCAN_INTERVAL_MS: u64 = 1_000;

/// How long a failed upload is left alone before the scanner tries again.
pub const FLUSH_RETRY_COOLDOWN_MS: u64 = 15_000;

/// Uploads in flight at once for one mount.
pub const MAX_CONCURRENT_FLUSHES: usize = 3;

/// Attempts inside a single flush before it is marked failed.
pub const UPLOAD_ATTEMPTS: u32 = 3;

/// Largest object that will be pulled down to be modified in place.
///
/// A write to the middle of an existing object has to become a full rewrite,
/// so the whole object is staged first. Past this size the download costs more
/// than the edit is worth and the write is refused rather than silently taking
/// minutes.
pub const RMW_DOWNLOAD_CAP: u64 = 8 * 1024 * 1024 * 1024;

/// Files above this size are uploaded in parts.
pub const MULTIPART_THRESHOLD: u64 = 100 * 1024 * 1024;

/// The usual size of a part.
pub const PART_SIZE: u64 = 20 * 1024 * 1024;

/// Parts uploaded concurrently within one multipart flush.
pub const PART_CONCURRENCY: usize = 4;

/// The most parts that one upload may have.
pub const MAX_PARTS: u64 = 10_000;

/// Part sizes are whole mebibytes.
pub const MEBIBYTE: u64 = 1024 * 1024;

/// Where a flush is in its lifecycle.
#[derive(Clone, Copy, Debug, PartialEq, Eq, Structural)]
pub enum FlushState {
    Idle,
    Uploading,
    /// Requires explicit recovery after a permanent or uncertain failure.
    Paused,
    /// The last upload failed; the scanner leaves this stage alone until the
    /// cooldown expires so a broken bucket cannot spin the flusher.
    Failed { retry_after_ms: u64 },
}

/// The stage has something to upload, nothing holds it back, and it was asked
/// for or the file has gone quiet.
pub open spec fn is_flush_due(dirty: bool, flush_requested: bool, state: FlushState, idle_for_ms: u64, now_ms: u64) -> bool {
    &&& dirty
    &&& match state {
        FlushState::Uploading => false,
        FlushState::Paused => false,
        FlushState::Failed { retry_after_ms } => now_ms >= retry_after_ms,
        FlushState::Idle => true,
    }
    &&& flush_requested || idle_for_ms >= FLUSH_DEBOUNCE_MS
}

/// Whether the scanner should start uploading a stage in this state.
pub fn should_flush(dirty: bool, flush_requested: bool, state: FlushState, idle_for_ms: u64, now_ms: u64) -> (due: bool)
    ensures
        due == is_flush_due(dirty, flush_requested, state, idle_for_ms, now_ms),
{
    if !dirty {
        return false;
    }
    match state {
        FlushState::Uploading => false,
        FlushState::Paused => false,
        FlushState::Failed { retry_after_ms } => now_ms >= retry_after_ms && (flush_requested || idle_for_ms >= FLUSH_DEBOUNCE_MS),
        FlushState::Idle => flush_requested || idle_for_ms >= FLUSH_DEBOUNCE_MS,
    }
}

/// Whether a stage may be dropped from the registry.
///
/// Only a stage whose content is already in the bucket and that has no upload
/// in flight can go. Dropping any other would delete the only copy of a write:
/// the staging file is not a cache of the object, it *is* the object until the
/// upload succeeds.
pub fn can_evict(dirty: bool, state: FlushState) -> (evictable: bool)
    ensures
        evictable <==> !dirty && state == FlushState::Idle,
{
    !dirty && state == FlushState::Idle
}

/// Whether a finished upload leaves the stage clean.
///
/// A write that landed while the upload was in flight advanced the generation
/// counter, which means the object now in the bucket is already stale. The
/// stage stays dirty and the next tick uploads it again.
pub fn upload_settles_stage(uploaded_gen: u64, current_gen: u64) -> (settles: bool)
    ensures
        settles == (uploaded_gen == current_gen),
{
    uploaded_gen == current_gen
}

/// What has to happen before a write can land in a new stage.
#[derive(Clone, Copy, Debug, PartialEq, Eq, Structural)]
pub enum StageInit {
    /// Nothing to preserve: start from an empty file.
    Empty,
    /// The object has content a partial write must not destroy, so it is
    /// downloaded first.
    Download,
    /// Too large to stage locally.
    TooLarge,
}

/// How a stage has to be primed.
pub open spec fn init_of(object_size: u64) -> StageInit {
    if object_size == 0 {
        StageInit::Empty
    } else if object_size > RMW_DOWNLOAD_CAP {
        StageInit::TooLarge
    } else {
        StageInit::Download
    }
}

/// How a stage for an object of `object_size` bytes has to be primed.
pub fn stage_init(object_size: u64) -> (init: StageInit)
    ensures
        init == init_of(object_size),
{
    if object_size == 0 {
        StageInit::Empty
    } else if object_size > RMW_DOWNLOAD_CAP {
        StageInit::TooLarge
    } else {
        StageInit::Download
    }
}

/// The quotient, rounded up.
pub open spec fn rounded_up(dividend: int, divisor: int) -> int {
    if dividend % divisor == 0 {
        dividend / divisor
    } else {
        dividend / divisor + 1
    }
}

fn divide_rounding_up(dividend: u64, divisor: u64) -> (quotient: u64)
    requires
        divisor > 1,
    ensures
        quotient == rounded_up(dividend as int, divisor as int),
        quotient * divisor >= dividend,
        quotient <= dividend,
        dividend > 0 ==> (quotient - 1) * divisor < dividend,
{
    let whole: u64 = dividend / divisor;
    let rest: u64 = dividend % divisor;
    proof {
        vstd::arithmetic::div_mod::lemma_fundamental_div_mod(dividend as int, divisor as int);
        assert(divisor * whole == whole * divisor) by (nonlinear_arith);
        assert(whole < dividend || dividend == 0) by (nonlinear_arith)
            requires
                divisor > 1,
                whole * divisor <= dividend,
                whole >= 0,
        ;
        assert((whole + 1) * divisor == whole * divisor + divisor) by (nonlinear_arith);
        assert((whole - 1) * divisor == whole * divisor - divisor) by (nonlinear_arith);
    }
    if rest == 0 {
        whole
    } else {
        whole + 1
    }
}

/// The usual part size, or as many whole mebibytes as it takes to stay within
/// the most parts that an upload may have.
pub open spec fn part_size_of(size: int) -> int {
    let needed = rounded_up(rounded_up(size, MAX_PARTS as int), MEBIBYTE as int) * MEBIBYTE;
    if needed > PART_SIZE {
        needed
    } else {
        PART_SIZE as int
    }
}

/// How many parts an upload has: at least one, also where there is nothing to
/// upload.
pub open spec fn part_count_of(size: int) -> int {
    if size == 0 {
        1
    } else {
        rounded_up(size, part_size_of(size))
    }
}

/// The size of the parts that an upload of `size` bytes is split into.
pub fn planned_part_size(size: u64) -> (part_size: u64)
    ensures
        part_size == part_size_of(size as int),
        part_size >= PART_SIZE,
        part_size * MAX_PARTS >= size,
{
    let per_part: u64 = divide_rounding_up(size, MAX_PARTS);
    let mebibytes: u64 = divide_rounding_up(per_part, MEBIBYTE);
    proof {
        assert(per_part <= 0x10_0000_0000_0000) by (nonlinear_arith)
            requires
                size > 0 ==> (per_part - 1) * 10_000 < size,
                size == 0 ==> per_part == 0,
                size <= 0xffff_ffff_ffff_ffff,
        ;
        assert(mebibytes * MEBIBYTE <= 0x20_0000_0000_0000) by (nonlinear_arith)
            requires
                per_part > 0 ==> (mebibytes - 1) * MEBIBYTE < per_part,
                per_part == 0 ==> mebibytes == 0,
                per_part <= 0x10_0000_0000_0000,
                MEBIBYTE == 1024 * 1024,
        ;
    }
    let needed: u64 = mebibytes * MEBIBYTE;
    if needed > PART_SIZE {
        needed
    } else {
        PART_SIZE
    }
}

/// Number of parts a multipart upload of `size` bytes is split into.
pub fn part_count(size: u64) -> (count: u64)
    ensures
        count == part_count_of(size as int),
{
    let part_size: u64 = planned_part_size(size);
    if size == 0 {
        1
    } else {
        divide_rounding_up(size, part_size)
    }
}

/// Where part `index` starts and how long it is.
pub open spec fn part_range_of(size: int, index: int) -> (int, int) {
    let start = index * part_size_of(size);
    let left = size - start;
    (
        start,
        if left <= 0 {
            0
        } else if left < part_size_of(size) {
            left
        } else {
            part_size_of(size)
        },
    )
}

/// Byte range of part `index` (zero-based) of a `size`-byte upload: where it
/// starts and how long it is. Past the end of the file a part is empty.
pub fn part_range(size: u64, index: u64) -> (range: (u64, u64))
    ensures
        range.1 == part_range_of(size as int, index as int).1,
        part_range_of(size as int, index as int).0 <= u64::MAX ==> range.0 == part_range_of(size as int, index as int).0,
        part_range_of(size as int, index as int).0 > u64::MAX ==> range.0 == u64::MAX,
{
    let part_size: u64 = planned_part_size(size);
    let start: u64 = match index.checked_mul(part_size) {
        Some(start) => start,
        None => u64::MAX,
    };
    let end: u64 = match start.checked_add(part_size) {
        Some(end) => if end < size { end } else { size },
        None => size,
    };
    (start, end.saturating_sub(start))
}

/// An upload never has more parts than the store allows, and never none.
pub proof fn parts_stay_within_the_limit(size: int)
    requires
        0 <= size,
    ensures
        1 <= part_count_of(size) <= MAX_PARTS,
{
    let p = part_size_of(size);
    let per_part = rounded_up(size, MAX_PARTS as int);
    let mebibytes = rounded_up(per_part, MEBIBYTE as int);
    rounding_up_covers(size, MAX_PARTS as int);
    rounding_up_covers(per_part, MEBIBYTE as int);
    assert(p >= per_part);
    rounding_up_covers(size, p);
    if size > 0 {
        let count = part_count_of(size);
        assert(count <= 10_000) by (nonlinear_arith)
            requires
                (count - 1) * p < size,
                per_part * 10_000 >= size,
                p >= per_part,
                p > 0,
        ;
        assert(count >= 1) by (nonlinear_arith)
            requires
                count * p >= size,
                size > 0,
                p > 0,
        ;
    }
}

proof fn rounding_up_covers(dividend: int, divisor: int)
    requires
        0 <= dividend,
        0 < divisor,
    ensures
        rounded_up(dividend, divisor) * divisor >= dividend,
        dividend > 0 ==> (rounded_up(dividend, divisor) - 1) * divisor < dividend,
        rounded_up(dividend, divisor) >= 0,
{
    let whole = dividend / divisor;
    vstd::arithmetic::div_mod::lemma_fundamental_div_mod(dividend, divisor);
    vstd::arithmetic::div_mod::lemma_mod_bound(dividend, divisor);
    vstd::arithmetic::div_mod::lemma_div_pos_is_pos(dividend, divisor);
    assert(divisor * whole == whole * divisor) by (nonlinear_arith);
    assert((whole + 1) * divisor == whole * divisor + divisor) by (nonlinear_arith);
    assert((whole - 1) * divisor == whole * divisor - divisor) by (nonlinear_arith);
}

/// The parts cover a file exactly once: each starts where the one before it
/// ended, none is empty or longer than a part, and the last ends with the
/// file.
pub proof fn parts_cover_the_file_exactly_once(size: int, index: int)
    requires
        0 < size,
        0 <= index < part_count_of(size),
    ensures
        part_range_of(size, 0).0 == 0,
        0 < part_range_of(size, index).1 <= part_size_of(size),
        index + 1 < part_count_of(size) ==> part_range_of(size, index + 1).0 == part_range_of(size, index).0 + part_range_of(size, index).1,
        index + 1 == part_count_of(size) ==> part_range_of(size, index).0 + part_range_of(size, index).1 == size,
{
    let p = part_size_of(size);
    let count = part_count_of(size);
    rounding_up_covers(size, p);
    assert(index * p < size) by (nonlinear_arith)
        requires
            index <= count - 1,
            (count - 1) * p < size,
            p > 0,
    ;
    assert((index + 1) * p == index * p + p) by (nonlinear_arith);
    if index + 1 < count {
        assert((index + 1) * p < size) by (nonlinear_arith)
            requires
                index + 1 <= count - 1,
                (count - 1) * p < size,
                p > 0,
        ;
    } else {
        assert((index + 1) * p >= size) by (nonlinear_arith)
            requires
                index + 1 == count,
                count * p >= size,
        ;
    }
}

/// An upload only settles the generation it captured: whatever was written
/// since keeps the stage dirty, so it is neither dropped nor left unsent.
pub proof fn a_write_during_an_upload_is_uploaded_again(uploaded_gen: u64, current_gen: u64, idle_for_ms: u64, now_ms: u64)
    requires
        current_gen > uploaded_gen,
        idle_for_ms >= FLUSH_DEBOUNCE_MS,
    ensures
        is_flush_due(uploaded_gen != current_gen, false, FlushState::Idle, idle_for_ms, now_ms),
{
}

/// A stage that may be dropped is never one that would be uploaded.
pub proof fn what_is_dropped_is_never_due(dirty: bool, flush_requested: bool, state: FlushState, idle_for_ms: u64, now_ms: u64)
    requires
        !dirty && state == FlushState::Idle,
    ensures
        !is_flush_due(dirty, flush_requested, state, idle_for_ms, now_ms),
{
}

/// What an upload may replace.
pub enum PublicationGuard {
    /// Nothing: the object must not exist.
    Absent,
    /// Only the object with this tag.
    Match { etag: String },
}

/// A guard with its tag taken as text.
pub ghost enum GuardModel {
    Absent,
    Match { etag: Seq<char> },
}

impl GuardModel {
    /// The guard names something: a blank tag would match nothing.
    pub open spec fn is_valid(self) -> bool {
        match self {
            GuardModel::Absent => true,
            GuardModel::Match { etag } => !text::all_blank(etag),
        }
    }

    /// The object that stands there, if any, is the one that may be replaced.
    pub open spec fn admits(self, etag: Option<Seq<char>>) -> bool {
        match self {
            GuardModel::Absent => etag is None,
            GuardModel::Match { etag: expected } => self.is_valid() && etag == Some(expected),
        }
    }
}

impl View for PublicationGuard {
    type V = GuardModel;

    open spec fn view(&self) -> GuardModel {
        match self {
            PublicationGuard::Absent => GuardModel::Absent,
            PublicationGuard::Match { etag } => GuardModel::Match { etag: etag@ },
        }
    }
}

impl Clone for PublicationGuard {
    fn clone(&self) -> (copy: Self)
        ensures
            copy@ == self@,
    {
        match self {
            PublicationGuard::Absent => PublicationGuard::Absent,
            PublicationGuard::Match { etag } => PublicationGuard::Match { etag: etag.clone() },
        }
    }
}

impl PublicationGuard {
    /// Whether the guard names something.
    pub fn is_valid(&self) -> (valid: bool)
        ensures
            valid == self@.is_valid(),
    {
        match self {
            PublicationGuard::Absent => true,
            PublicationGuard::Match { etag } => !has_only_blanks(etag.as_str()),
        }
    }

    /// Whether the object that stands there now may be replaced.
    pub fn matches(&self, etag: Option<&str>) -> (admitted: bool)
        ensures
            admitted == self@.admits(
                match etag {
                    Some(tag) => Some(tag@),
                    None => None,
                },
            ),
    {
        match self {
            PublicationGuard::Absent => etag.is_none(),
            PublicationGuard::Match { etag: expected } => match etag {
                Some(tag) => self.is_valid() && same_text(tag, expected.as_str()),
                None => false,
            },
        }
    }
}

/// An optional guard, taken as text.
pub open spec fn guard_view(guard: Option<PublicationGuard>) -> Option<GuardModel> {
    match guard {
        Some(g) => Some(g@),
        None => None,
    }
}

/// A copy of an optional guard.
pub fn copy_guard(guard: &Option<PublicationGuard>) -> (copy: Option<PublicationGuard>)
    ensures
        guard_view(copy) == guard_view(*guard),
{
    match guard {
        Some(g) => Some(g.clone()),
        None => None,
    }
}

/// Immutable content that an upload is made from.
pub struct UploadSnapshot {
    pub path: String,
    pub generation: u64,
    pub size: u64,
    pub publication_guard: Option<PublicationGuard>,
}

/// A snapshot with its texts taken as characters.
pub ghost struct SnapshotModel {
    pub path: Seq<char>,
    pub generation: u64,
    pub size: u64,
    pub publication_guard: Option<GuardModel>,
}

impl View for UploadSnapshot {
    type V = SnapshotModel;

    open spec fn view(&self) -> SnapshotModel {
        SnapshotModel {
            path: self.path@,
            generation: self.generation,
            size: self.size,
            publication_guard: guard_view(self.publication_guard),
        }
    }
}

impl Clone for UploadSnapshot {
    fn clone(&self) -> (copy: Self)
        ensures
            copy@ == self@,
    {
        UploadSnapshot {
            path: self.path.clone(),
            generation: self.generation,
            size: self.size,
            publication_guard: copy_guard(&self.publication_guard),
        }
    }
}

/// An optional snapshot, taken as text.
pub open spec fn snapshot_view(snapshot: Option<UploadSnapshot>) -> Option<SnapshotModel> {
    match snapshot {
        Some(s) => Some(s@),
        None => None,
    }
}

/// A copy of an optional snapshot.
pub fn copy_snapshot(snapshot: &Option<UploadSnapshot>) -> (copy: Option<UploadSnapshot>)
    ensures
        snapshot_view(copy) == snapshot_view(*snapshot),
{
    match snapshot {
        Some(s) => Some(s.clone()),
        None => None,
    }
}

impl UploadSnapshot {
    /// What marks an upload as made from this snapshot: its file's name.
    pub fn token(&self) -> (token: String)
        ensures
            token@ == (match paths::file_name_of(self@.path) {
                Some(name) => name,
                None => Seq::empty(),
            }),
    {
        match file_name(self.path.as_str()) {
            Some(name) => name,
            None => String::new(),
        }
    }

    /// Where the journal of this snapshot's upload is kept.
    pub fn journal_path(&self) -> (path: String)
        ensures
            path@ == paths::extended(self@.path, "upload.json"@),
    {
        with_extension(self.path.as_str(), "upload.json")
    }
}

/// What is kept on disk of one staged file, and what is reported of it.
pub struct StageRecovery {
    pub key: String,
    pub size: u64,
    pub mtime_secs: u32,
    pub generation: u64,
    pub dirty: bool,
    pub state: String,
    pub error: Option<String>,
    pub path: String,
    pub snapshot: Option<UploadSnapshot>,
    pub publication_guard: Option<PublicationGuard>,
    pub checkpoint_lsn: u64,
    pub first_dirty_at: Option<i64>,
    pub wal_bytes: Option<u64>,
}

/// A recovery record with its texts taken as characters.
#[verifier::ext_equal]
pub ghost struct RecoveryModel {
    pub key: Seq<char>,
    pub size: u64,
    pub mtime_secs: u32,
    pub generation: u64,
    pub dirty: bool,
    pub state: Seq<char>,
    pub error: Option<Seq<char>>,
    pub path: Seq<char>,
    pub snapshot: Option<SnapshotModel>,
    pub publication_guard: Option<GuardModel>,
    pub checkpoint_lsn: u64,
    pub first_dirty_at: Option<i64>,
    pub wal_bytes: Option<u64>,
}

impl View for StageRecovery {
    type V = RecoveryModel;

    open spec fn view(&self) -> RecoveryModel {
        RecoveryModel {
            key: self.key@,
            size: self.size,
            mtime_secs: self.mtime_secs,
            generation: self.generation,
            dirty: self.dirty,
            state: self.state@,
            error: text::optional(self.error),
            path: self.path@,
            snapshot: snapshot_view(self.snapshot),
            publication_guard: guard_view(self.publication_guard),
            checkpoint_lsn: self.checkpoint_lsn,
            first_dirty_at: self.first_dirty_at,
            wal_bytes: self.wal_bytes,
        }
    }
}

impl Clone for StageRecovery {
    fn clone(&self) -> (copy: Self)
        ensures
            copy@ == self@,
    {
        StageRecovery {
            key: self.key.clone(),
            size: self.size,
            mtime_secs: self.mtime_secs,
            generation: self.generation,
            dirty: self.dirty,
            state: self.state.clone(),
            error: self.error.clone(),
            path: self.path.clone(),
            snapshot: copy_snapshot(&self.snapshot),
            publication_guard: copy_guard(&self.publication_guard),
            checkpoint_lsn: self.checkpoint_lsn,
            first_dirty_at: self.first_dirty_at,
            wal_bytes: self.wal_bytes,
        }
    }
}

/// A record of content that could not be read back, set aside.
pub open spec fn unreadable(path: Seq<char>, key: Seq<char>, error: Seq<char>) -> RecoveryModel {
    RecoveryModel {
        key,
        size: 0,
        mtime_secs: 0,
        generation: 0,
        dirty: false,
        state: "unreadable"@,
        error: Some(error),
        path,
        snapshot: None,
        publication_guard: None,
        checkpoint_lsn: 0,
        first_dirty_at: None,
        wal_bytes: None,
    }
}

/// A record of content that could not be read back, set aside.
pub fn unreadable_record(path: String, key: String, error: String) -> (record: StageRecovery)
    ensures
        record@ == unreadable(path@, key@, error@),
{
    StageRecovery {
        key,
        size: 0,
        mtime_secs: 0,
        generation: 0,
        dirty: false,
        state: "unreadable".to_owned(),
        error: Some(error),
        path,
        snapshot: None,
        publication_guard: None,
        checkpoint_lsn: 0,
        first_dirty_at: None,
        wal_bytes: None,
    }
}

/// A stage is uploaded exactly where it has something to upload, it was asked
/// for or has been quiet for two seconds, no upload of it is under way or
/// paused, and a failed one has cooled down.
pub proof fn a_stage_is_uploaded_once_it_is_quiet(dirty: bool, flush_requested: bool, state: FlushState, idle_for_ms: u64, now_ms: u64)
    ensures
        is_flush_due(dirty, flush_requested, state, idle_for_ms, now_ms) <==> {
            &&& dirty
            &&& flush_requested || idle_for_ms >= 2_000
            &&& state != FlushState::Uploading
            &&& state != FlushState::Paused
            &&& state is Failed ==> now_ms >= state->retry_after_ms
        },
{
}

/// An object that has content is downloaded before it is changed in place, up
/// to eight gibibytes; an empty one needs nothing, and a larger one is refused.
pub proof fn what_has_content_is_downloaded_first(object_size: u64)
    ensures
        init_of(object_size) == StageInit::Empty <==> object_size == 0,
        init_of(object_size) == StageInit::TooLarge <==> object_size > 8_589_934_592,
        init_of(object_size) == StageInit::Download <==> 0 < object_size <= 8_589_934_592,
{
}

/// A part is twenty mebibytes; only where that would make more than ten
/// thousand parts is it larger, in whole mebibytes, and no larger than it has
/// to be.
pub proof fn parts_are_no_larger_than_they_have_to_be(size: int)
    requires
        0 <= size,
    ensures
        part_size_of(size) >= 20_971_520,
        part_size_of(size) * 10_000 >= size,
        size <= 209_715_200_000 ==> part_size_of(size) == 20_971_520,
        part_size_of(size) > 20_971_520 ==> part_size_of(size) % 1_048_576 == 0 && (part_size_of(size) - 1_048_576) * 10_000 < size,
{
    let per_part = rounded_up(size, 10_000);
    let mebibytes = rounded_up(per_part, 1_048_576);
    rounding_up_covers(size, 10_000);
    rounding_up_covers(per_part, 1_048_576);
    let needed = mebibytes * 1_048_576;
    assert(needed % 1_048_576 == 0) by (nonlinear_arith)
        requires
            needed == mebibytes * 1_048_576,
    ;
    if part_size_of(size) > 20_971_520 {
        assert(per_part > 0);
        assert((mebibytes - 1) * 1_048_576 < per_part);
        assert(size > 0);
        assert((per_part - 1) * 10_000 < size);
    }
    if size <= 209_715_200_000 && needed > 20_971_520 {
        assert(per_part <= 20_971_520);
        assert(mebibytes <= 20);
    }
}

/// An object may be replaced exactly where it is the one that the guard names;
/// a guard without a name admits none, and one for a new object admits only
/// that nothing stands there.
pub proof fn a_guard_admits_what_it_names(guard: GuardModel, etag: Option<Seq<char>>)
    ensures
        guard is Absent ==> (guard.admits(etag) <==> etag is None),
        guard is Match && etag is None ==> !guard.admits(etag),
        guard is Match && etag is Some ==> (guard.admits(etag) <==> etag->0 == guard->etag && exists|i: int|
            0 <= i < guard->etag.len() && !text::is_blank(#[trigger] guard->etag[i])),
        guard is Absent ==> guard.is_valid(),
        guard is Match ==> (guard.is_valid() <==> exists|i: int| 0 <= i < guard->etag.len() && !text::is_blank(#[trigger] guard->etag[i])),
{
}

/// What is set aside as unreadable says where it lies, which object it was for
/// and why, and claims no content.
pub proof fn what_is_unreadable_claims_nothing(path: Seq<char>, key: Seq<char>, error: Seq<char>)
    ensures
        unreadable(path, key, error).path == path,
        unreadable(path, key, error).key == key,
        unreadable(path, key, error).error == Some(error),
        unreadable(path, key, error).state == "unreadable"@,
        !unreadable(path, key, error).dirty,
        unreadable(path, key, error).size == 0,
        unreadable(path, key, error).snapshot is None,
        unreadable(path, key, error).publication_guard is None,
{
}

/// A stage may be dropped only where nothing of it waits and nothing is under
/// way.
pub proof fn a_stage_with_changes_is_kept(dirty: bool, state: FlushState, evictable: bool)
    requires
        call_ensures(can_evict, (dirty, state), evictable),
    ensures
        evictable ==> !dirty && state == FlushState::Idle,
        !dirty && state == FlushState::Idle ==> evictable,
        state == FlushState::Uploading || state == FlushState::Paused || state is Failed ==> !evictable,
{
}

/// An upload settles its stage only where nothing was written since.
pub proof fn an_upload_settles_its_own_generation(uploaded_gen: u64, current_gen: u64, settles: bool)
    requires
        call_ensures(upload_settles_stage, (uploaded_gen, current_gen), settles),
    ensures
        settles <==> uploaded_gen == current_gen,
{
}

} // verus!
