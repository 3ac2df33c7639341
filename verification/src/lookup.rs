//! Resolving one name inside a directory.
//!
//! A name is answered from the cached listing where that settles it, from the
//! cached outcome of an earlier probe of the same generation, or by probing
//! the store: first for a directory of that name, then for a file.

use vstd::prelude::*;
use crate::directories;
use crate::directories::{CachedChild, Directories};
use crate::directory_listing;
use crate::directory_listing::{mtime_from_seconds, ListedPage};
use crate::inode_table;
use crate::inode_table::{inode_matches_child, EntryKind, Inode, InodeTable, DIR_SIZE};
use crate::keys;
use crate::keys::child_key;
use crate::status::NfsStatus;
use crate::text::{has_prefix, same_text};

verus! {

/// How long a miss is remembered.
pub const NEGATIVE_LOOKUP_TTL_MS: u64 = 2_000;

/// One remembered outcome of a probe.
struct LookupRecord {
    dirid: u64,
    name: String,
    generation: u64,
    fileid: u64,
    stored_at_ms: u64,
}

/// What is remembered of a name: the generation it was probed under, what was
/// found, and when.
pub ghost struct LookupEntry {
    pub generation: u64,
    pub fileid: u64,
    pub stored_at_ms: u64,
}

impl LookupEntry {
    /// The entry has not outlived its time.
    pub open spec fn is_live(self, ttl_ms: u64, now_ms: u64) -> bool {
        ttl_ms > 0 && now_ms < self.stored_at_ms + ttl_ms
    }
}

/// Outcomes of probes, by directory and name.
pub struct LookupCache {
    ttl_ms: u64,
    records: Vec<LookupRecord>,
}

impl View for LookupCache {
    type V = Map<(u64, Seq<char>), LookupEntry>;

    open spec fn view(&self) -> Map<(u64, Seq<char>), LookupEntry> {
        self.model()
    }
}

spec fn stands_at(records: Seq<LookupRecord>, name: (u64, Seq<char>), index: int) -> bool {
    0 <= index < records.len() && (records[index].dirid, records[index].name@) == name
}

spec fn entry_of(record: LookupRecord) -> LookupEntry {
    LookupEntry { generation: record.generation, fileid: record.fileid, stored_at_ms: record.stored_at_ms }
}

spec fn all_distinct(records: Seq<LookupRecord>) -> bool {
    forall|i: int, j: int|
        0 <= i < j < records.len() ==> (#[trigger] records[i].dirid, records[i].name@) != (#[trigger] records[j].dirid, records[j].name@)
}

spec fn remembered(records: Seq<LookupRecord>) -> Map<(u64, Seq<char>), LookupEntry> {
    Map::new(
        |name: (u64, Seq<char>)| exists|i: int| stands_at(records, name, i),
        |name: (u64, Seq<char>)| entry_of(records[choose|i: int| stands_at(records, name, i)]),
    )
}

proof fn a_record_is_remembered(records: Seq<LookupRecord>, index: int)
    requires
        all_distinct(records),
        0 <= index < records.len(),
    ensures
        remembered(records).contains_key((records[index].dirid, records[index].name@)),
        remembered(records)[(records[index].dirid, records[index].name@)] == entry_of(records[index]),
{
    assert(stands_at(records, (records[index].dirid, records[index].name@), index));
}

impl LookupCache {
    pub closed spec fn model(&self) -> Map<(u64, Seq<char>), LookupEntry> {
        remembered(self.records@)
    }

    /// How long an outcome is remembered.
    pub closed spec fn ttl(&self) -> u64 {
        self.ttl_ms
    }

    pub closed spec fn well_formed(&self) -> bool {
        all_distinct(self.records@)
    }

    /// A cache whose entries live for `ttl_ms`.
    pub fn new(ttl_ms: u64) -> (cache: Self)
        ensures
            cache.well_formed(),
            cache.ttl() == ttl_ms,
            cache@ == Map::<(u64, Seq<char>), LookupEntry>::empty(),
    {
        let cache = LookupCache { ttl_ms, records: Vec::new() };
        assert(cache@ =~= Map::<(u64, Seq<char>), LookupEntry>::empty());
        cache
    }

    /// The live outcome remembered for a name under this generation.
    pub open spec fn hit_of(&self, dirid: u64, name: Seq<char>, generation: u64, now_ms: u64) -> Option<u64> {
        if self@.contains_key((dirid, name)) && self@[(dirid, name)].generation == generation && self@[(dirid, name)].is_live(
            self.ttl(),
            now_ms,
        ) {
            Some(self@[(dirid, name)].fileid)
        } else {
            None
        }
    }

    /// The live outcome remembered for a name under this generation.
    pub fn hit(&self, dirid: u64, name: &str, generation: u64, now_ms: u64) -> (found: Option<u64>)
        requires
            self.well_formed(),
        ensures
            found == self.hit_of(dirid, name@, generation, now_ms),
    {
        let mut i: usize = 0;
        while i < self.records.len()
            invariant
                self.well_formed(),
                i <= self.records@.len(),
                forall|j: int| 0 <= j < i ==> !stands_at(self.records@, (dirid, name@), j),
            decreases self.records@.len() - i,
        {
            let record = &self.records[i];
            if record.dirid == dirid && same_text(record.name.as_str(), name) {
                proof {
                    a_record_is_remembered(self.records@, i as int);
                }
                if record.generation == generation && now_ms.saturating_sub(record.stored_at_ms) < self.ttl_ms {
                    return Some(record.fileid);
                }
                return None;
            }
            i = i + 1;
        }
        None
    }

    /// What is remembered once one more outcome is: those that have outlived
    /// their time are not.
    pub open spec fn remembering(&self, dirid: u64, name: Seq<char>, generation: u64, fileid: u64, now_ms: u64) -> Map<
        (u64, Seq<char>),
        LookupEntry,
    > {
        Map::new(
            |key: (u64, Seq<char>)| key == (dirid, name) || self@.contains_key(key) && self@[key].is_live(self.ttl(), now_ms),
            |key: (u64, Seq<char>)|
                if key == (dirid, name) {
                    LookupEntry { generation, fileid, stored_at_ms: now_ms }
                } else {
                    self@[key]
                },
        )
    }

    /// Remembers an outcome and drops those that have outlived their time.
    pub fn remember(&mut self, dirid: u64, name: &str, generation: u64, fileid: u64, now_ms: u64)
        requires
            old(self).well_formed(),
        ensures
            final(self).well_formed(),
            final(self).ttl() == old(self).ttl(),
            final(self)@ == old(self).remembering(dirid, name@, generation, fileid, now_ms),
    {
        let ghost before = self.records@;
        let ghost map_before = self@;
        let ttl_ms: u64 = self.ttl_ms;
        let mut kept: Vec<LookupRecord> = Vec::new();
        let mut i: usize = 0;
        while i < self.records.len()
            invariant
                self.records@ == before,
                self.ttl_ms == ttl_ms,
                all_distinct(before),
                i <= before.len(),
                all_distinct(kept@),
                forall|key: (u64, Seq<char>), k: int| #[trigger] stands_at(kept@, key, k) ==> key != (dirid, name@) && exists|j: int|
                    j < i && #[trigger] stands_at(before, key, j) && entry_of(before[j]) == entry_of(kept@[k]) && entry_of(before[j]).is_live(
                        ttl_ms,
                        now_ms,
                    ),
                forall|key: (u64, Seq<char>), j: int|
                    #[trigger] stands_at(before, key, j) && j < i && key != (dirid, name@) && entry_of(before[j]).is_live(ttl_ms, now_ms)
                        ==> exists|k: int| #[trigger] stands_at(kept@, key, k),
            decreases before.len() - i,
        {
            let record = &self.records[i];
            let ghost kept_before = kept@;
            if !(record.dirid == dirid && same_text(record.name.as_str(), name)) && now_ms.saturating_sub(record.stored_at_ms) < ttl_ms {
                let copy = LookupRecord {
                    dirid: record.dirid,
                    name: record.name.clone(),
                    generation: record.generation,
                    fileid: record.fileid,
                    stored_at_ms: record.stored_at_ms,
                };
                let ghost own = (record.dirid, record.name@);
                kept.push(copy);
                proof {
                    assert(stands_at(before, own, i as int));
                    assert forall|a: int, b: int| 0 <= a < b < kept@.len() implies (#[trigger] kept@[a].dirid, kept@[a].name@) != (
                        #[trigger] kept@[b].dirid,
                        kept@[b].name@,
                    ) by {
                        if b == kept_before.len() {
                            assert(stands_at(kept_before, (kept@[a].dirid, kept@[a].name@), a));
                            let j = choose|j: int| j < i && #[trigger] stands_at(before, (kept@[a].dirid, kept@[a].name@), j);
                        } else {
                            assert(kept_before[a] == kept@[a] && kept_before[b] == kept@[b]);
                        }
                    }
                    assert forall|key: (u64, Seq<char>), k: int| #[trigger] stands_at(kept@, key, k) implies key != (dirid, name@) && exists|j: int|
                        j < i + 1 && #[trigger] stands_at(before, key, j) && entry_of(before[j]) == entry_of(kept@[k]) && entry_of(before[j]).is_live(
                            ttl_ms,
                            now_ms,
                        ) by {
                        if k < kept_before.len() {
                            assert(stands_at(kept_before, key, k));
                            let j = choose|j: int|
                                j < i && #[trigger] stands_at(before, key, j) && entry_of(before[j]) == entry_of(kept_before[k]) && entry_of(
                                    before[j],
                                ).is_live(ttl_ms, now_ms);
                            assert(stands_at(before, key, j));
                        } else {
                            assert(stands_at(before, key, i as int));
                        }
                    }
                    assert forall|key: (u64, Seq<char>), j: int|
                        #[trigger] stands_at(before, key, j) && j < i + 1 && key != (dirid, name@) && entry_of(before[j]).is_live(ttl_ms, now_ms) implies exists|
                        k: int,
                    | #[trigger] stands_at(kept@, key, k) by {
                        if j < i {
                            let k = choose|k: int| #[trigger] stands_at(kept_before, key, k);
                            assert(stands_at(kept@, key, k));
                        } else {
                            assert(stands_at(kept@, key, kept_before.len() as int));
                        }
                    }
                }
            }
            i = i + 1;
        }
        let ghost kept_all = kept@;
        kept.push(LookupRecord { dirid, name: name.to_owned(), generation, fileid, stored_at_ms: now_ms });
        self.records = kept;
        proof {
            let after = self.records@;
            let own = (dirid, name@);
            assert(stands_at(after, own, kept_all.len() as int));
            assert forall|a: int, b: int| 0 <= a < b < after.len() implies (#[trigger] after[a].dirid, after[a].name@) != (
                #[trigger] after[b].dirid,
                after[b].name@,
            ) by {
                assert(kept_all[a] == after[a]);
                if b == kept_all.len() {
                    assert(stands_at(kept_all, (after[a].dirid, after[a].name@), a));
                } else {
                    assert(kept_all[b] == after[b]);
                }
            }
            a_record_is_remembered(after, kept_all.len() as int);
            let expected = Map::new(
                |key: (u64, Seq<char>)| key == own || map_before.contains_key(key) && map_before[key].is_live(ttl_ms, now_ms),
                |key: (u64, Seq<char>)|
                    if key == own {
                        LookupEntry { generation, fileid, stored_at_ms: now_ms }
                    } else {
                        map_before[key]
                    },
            );
            assert forall|key: (u64, Seq<char>)| #[trigger] remembered(after).contains_key(key) <==> expected.contains_key(key) by {
                if remembered(after).contains_key(key) && key != own {
                    let k = choose|k: int| stands_at(after, key, k);
                    assert(stands_at(kept_all, key, k));
                    let j = choose|j: int|
                        j < before.len() && #[trigger] stands_at(before, key, j) && entry_of(before[j]) == entry_of(kept_all[k]) && entry_of(
                            before[j],
                        ).is_live(ttl_ms, now_ms);
                    a_record_is_remembered(before, j);
                }
                if map_before.contains_key(key) && key != own && map_before[key].is_live(ttl_ms, now_ms) {
                    let j = choose|j: int| stands_at(before, key, j);
                    a_record_is_remembered(before, j);
                    let k = choose|k: int| #[trigger] stands_at(kept_all, key, k);
                    assert(stands_at(after, key, k));
                }
            }
            assert forall|key: (u64, Seq<char>)| #[trigger] remembered(after).contains_key(key) implies remembered(after)[key] == expected[key] by {
                if key != own {
                    let k = choose|k: int| stands_at(after, key, k);
                    assert(stands_at(kept_all, key, k));
                    a_record_is_remembered(after, k);
                    let j = choose|j: int|
                        j < before.len() && #[trigger] stands_at(before, key, j) && entry_of(before[j]) == entry_of(kept_all[k]) && entry_of(
                            before[j],
                        ).is_live(ttl_ms, now_ms);
                    a_record_is_remembered(before, j);
                }
            }
            assert(self@ =~= expected);
        }
    }

    /// Forgets every outcome inside a directory whose names changed.
    pub fn forget_dir(&mut self, dirid: u64)
        requires
            old(self).well_formed(),
        ensures
            final(self).well_formed(),
            final(self).ttl() == old(self).ttl(),
            final(self)@ == old(self)@.restrict(Set::new(|key: (u64, Seq<char>)| key.0 != dirid)),
    {
        let ghost map_before = self@;
        let mut i: usize = 0;
        while i < self.records.len()
            invariant
                self.well_formed(),
                self.ttl_ms == old(self).ttl_ms,
                map_before == old(self)@,
                i <= self.records@.len(),
                forall|j: int| 0 <= j < i ==> (#[trigger] self.records@[j]).dirid != dirid,
                forall|key: (u64, Seq<char>)| key.0 != dirid ==> (#[trigger] self@.contains_key(key) <==> map_before.contains_key(key)),
                forall|key: (u64, Seq<char>)| key.0 != dirid && #[trigger] self@.contains_key(key) ==> self@[key] == map_before[key],
            decreases self.records@.len() - i,
        {
            if self.records[i].dirid == dirid {
                let ghost records_before = self.records@;
                let ghost model_before = self@;
                let _ = self.records.remove(i);
                proof {
                    let records = self.records@;
                    assert forall|a: int, b: int| 0 <= a < b < records.len() implies (#[trigger] records[a].dirid, records[a].name@) != (
                        #[trigger] records[b].dirid,
                        records[b].name@,
                    ) by {
                        let x = if a < i { a } else { a + 1 };
                        let y = if b < i { b } else { b + 1 };
                        assert(records[a] == records_before[x] && records[b] == records_before[y]);
                    }
                    assert forall|key: (u64, Seq<char>)| key.0 != dirid implies (#[trigger] self@.contains_key(key) <==> model_before.contains_key(key)) by {
                        if self@.contains_key(key) {
                            let k = choose|k: int| stands_at(records, key, k);
                            let x = if k < i { k } else { k + 1 };
                            assert(stands_at(records_before, key, x));
                        }
                        if model_before.contains_key(key) {
                            let x = choose|x: int| stands_at(records_before, key, x);
                            let k = if x < i { x } else { x - 1 };
                            assert(stands_at(records, key, k));
                        }
                    }
                    assert forall|key: (u64, Seq<char>)| key.0 != dirid && #[trigger] self@.contains_key(key) implies self@[key] == model_before[key] by {
                        let k = choose|k: int| stands_at(records, key, k);
                        let x = if k < i { k } else { k + 1 };
                        assert(stands_at(records_before, key, x));
                        a_record_is_remembered(records, k);
                        a_record_is_remembered(records_before, x);
                    }
                }
            } else {
                i = i + 1;
            }
        }
        proof {
            assert forall|key: (u64, Seq<char>)| #[trigger] self@.contains_key(key) implies key.0 != dirid by {
                let k = choose|k: int| stands_at(self.records@, key, k);
                assert(self.records@[k].dirid != dirid);
            }
            assert(self@ =~= map_before.restrict(Set::new(|key: (u64, Seq<char>)| key.0 != dirid)));
        }
    }
}

/// How far a lookup has come.
pub enum LookupStep {
    /// The name stands for this inode.
    Found { id: u64, inode: Inode },
    /// There is no such entry.
    Absent,
    /// The listing is incomplete and has not shown the name yet: complete it,
    /// then ask it.
    CompleteListing,
    /// Look the name up by itself, under this generation.
    Exact { generation: u64 },
    /// Probe the store for the name; the outcome belongs to this generation.
    Probe { generation: u64 },
}

/// An inode is the child `name` of the directory `dirid`.
pub open spec fn is_child(dirid: u64, dir_key: Seq<char>, name: Seq<char>, inode: inode_table::InodeModel) -> bool {
    inode.parent == dirid && inode.key == keys::child_of(dir_key, name, inode.kind == EntryKind::Dir)
}

/// The status of a handle that stands for nothing.
pub open spec fn lost_handle(table: inode_table::TableModel, id: u64) -> NfsStatus {
    if 0 < id < table.next_id {
        NfsStatus::Stale
    } else {
        NfsStatus::NoEnt
    }
}

/// A listing shows the name, and what it shows can be trusted: a directory
/// wins over a file of the same name, so a file is settled only by a complete
/// listing or by an earlier probe.
pub open spec fn listing_settles(
    listing: directory_listing::ListingModel,
    table: inode_table::TableModel,
    positive: Option<u64>,
    dirid: u64,
    dir_key: Seq<char>,
    name: Seq<char>,
) -> bool {
    let id = listing.id_of(name);
    &&& is_child(dirid, dir_key, name, table.inodes[id])
    &&& table.inodes[id].kind == EntryKind::Dir || listing.complete || positive == Some(id)
}

/// The outcome of asking a cached listing for a name that it shows.
enum Shown {
    Settled { id: u64, inode: Inode },
    Unsettled,
}

fn ask_shown(
    cached: &CachedChild,
    fileid: u64,
    inodes: &InodeTable,
    positive: &LookupCache,
    dirid: u64,
    dir_key: &str,
    name: &str,
    now_ms: u64,
) -> (shown: Result<Shown, NfsStatus>)
    requires
        inodes.well_formed(),
        positive.well_formed(),
    ensures
        ({
            let known = inodes@.inodes.contains_key(fileid);
            let inode = inodes@.inodes[fileid];
            let settled = is_child(dirid, dir_key@, name@, inode) && (inode.kind == EntryKind::Dir || cached.complete || positive.hit_of(
                dirid,
                name@,
                cached.generation,
                now_ms,
            ) == Some(fileid));
            &&& !known ==> shown is Err && shown->Err_0 == lost_handle(inodes@, fileid)
            &&& known && settled ==> (shown matches Ok(Shown::Settled { id, inode: found }) && id == fileid && found@ == inode)
            &&& known && !settled ==> (shown matches Ok(Shown::Unsettled))
        }),
{
    let inode = inodes.inode(fileid)?;
    if inode_matches_child(dirid, dir_key, name, &inode) {
        let probed = match positive.hit(dirid, name, cached.generation, now_ms) {
            Some(id) => id == fileid,
            None => false,
        };
        if inode.kind == EntryKind::Dir || cached.complete || probed {
            return Ok(Shown::Settled { id: fileid, inode });
        }
    }
    Ok(Shown::Unsettled)
}

/// Resolves the child of `dirid` named `name` as far as the cached listing
/// goes, so that its kind is known.
pub fn lookup_child(
    directories: &Directories,
    inodes: &InodeTable,
    positive: &LookupCache,
    dirid: u64,
    dir_key: &str,
    name: &str,
    now_ms: u64,
) -> (step: Result<LookupStep, NfsStatus>)
    requires
        directories.well_formed(),
        inodes.well_formed(),
        positive.well_formed(),
    ensures
        ({
            let listing = directories@.listings[dirid];
            let shown = directory_listing::is_shown(listing.children, name@);
            let id = listing.id_of(name@);
            let hit = positive.hit_of(dirid, name@, listing.generation, now_ms);
            if !directories@.fresh(dirid, dir_key@, now_ms) {
                step matches Ok(LookupStep::Exact { generation }) && generation == directories@.generation
            } else if shown && !inodes@.inodes.contains_key(id) {
                step is Err && step->Err_0 == lost_handle(inodes@, id)
            } else if shown && listing_settles(listing, inodes@, hit, dirid, dir_key@, name@) {
                step matches Ok(LookupStep::Found { id: found, inode }) && found == id && inode@ == inodes@.inodes[id]
            } else if shown {
                step matches Ok(LookupStep::Exact { generation }) && generation == listing.generation
            } else if listing.complete {
                step matches Ok(LookupStep::Absent)
            } else {
                step matches Ok(LookupStep::CompleteListing)
            }
        }),
{
    match directories.cached_directory_child(dirid, dir_key, name, now_ms) {
        Some(cached) => {
            match &cached.child {
                Some(child) => {
                    match ask_shown(&cached, child.fileid, inodes, positive, dirid, dir_key, name, now_ms) {
                        Ok(Shown::Settled { id, inode }) => Ok(LookupStep::Found { id, inode }),
                        Ok(Shown::Unsettled) => Ok(LookupStep::Exact { generation: cached.generation }),
                        Err(status) => Err(status),
                    }
                },
                None => if cached.complete {
                    Ok(LookupStep::Absent)
                } else {
                    Ok(LookupStep::CompleteListing)
                },
            }
        },
        None => Ok(LookupStep::Exact { generation: directories.generation() }),
    }
}

/// Resolves a name from a listing that has been completed. A listing that is
/// gone, too old or partial by now establishes nothing: complete it again.
pub fn lookup_in_complete_listing(directories: &Directories, inodes: &InodeTable, dirid: u64, dir_key: &str, name: &str, now_ms: u64) -> (step: Result<
    LookupStep,
    NfsStatus,
>)
    requires
        directories.well_formed(),
        inodes.well_formed(),
    ensures
        ({
            let listing = directories@.listings[dirid];
            let id = listing.id_of(name@);
            if !(directories@.fresh(dirid, dir_key@, now_ms) && listing.complete) {
                step matches Ok(LookupStep::CompleteListing)
            } else if !directory_listing::is_shown(listing.children, name@) {
                step matches Ok(LookupStep::Absent)
            } else if !inodes@.inodes.contains_key(id) {
                step is Err && step->Err_0 == lost_handle(inodes@, id)
            } else {
                step matches Ok(LookupStep::Found { id: found, inode }) && found == id && inode@ == inodes@.inodes[id]
            }
        }),
{
    match directories.cached_directory_child(dirid, dir_key, name, now_ms) {
        Some(cached) => {
            if !cached.complete {
                return Ok(LookupStep::CompleteListing);
            }
            match &cached.child {
                Some(child) => match inodes.inode(child.fileid) {
                    Ok(inode) => Ok(LookupStep::Found { id: child.fileid, inode }),
                    Err(status) => Err(status),
                },
                None => Ok(LookupStep::Absent),
            }
        },
        None => Ok(LookupStep::CompleteListing),
    }
}

/// The generation that a lookup's checks and records belong to: that of the
/// listing which exists by now, whatever it was when the lookup began.
pub open spec fn current_generation(
    directories: directories::DirectoriesModel,
    dirid: u64,
    dir_key: Seq<char>,
    began: u64,
    now_ms: u64,
) -> u64 {
    if directories.fresh(dirid, dir_key, now_ms) {
        directories.listings[dirid].generation
    } else {
        began
    }
}

/// Resolves one name by itself, once the lookup may run: a listing made while
/// it waited is asked first, and outranks any miss that is older than it.
pub fn lookup_exact_child(
    directories: &Directories,
    inodes: &InodeTable,
    positive: &LookupCache,
    negative: &LookupCache,
    dirid: u64,
    dir_key: &str,
    name: &str,
    began: u64,
    now_ms: u64,
) -> (step: Result<LookupStep, NfsStatus>)
    requires
        directories.well_formed(),
        inodes.well_formed(),
        positive.well_formed(),
        negative.well_formed(),
    ensures
        ({
            let fresh = directories@.fresh(dirid, dir_key@, now_ms);
            let listing = directories@.listings[dirid];
            let shown = fresh && directory_listing::is_shown(listing.children, name@);
            let id = listing.id_of(name@);
            let now_generation = current_generation(directories@, dirid, dir_key@, began, now_ms);
            let hit = positive.hit_of(dirid, name@, now_generation, now_ms);
            if shown && !inodes@.inodes.contains_key(id) {
                step is Err && step->Err_0 == lost_handle(inodes@, id)
            } else if shown && listing_settles(listing, inodes@, hit, dirid, dir_key@, name@) {
                step matches Ok(LookupStep::Found { id: found, inode }) && found == id && inode@ == inodes@.inodes[id]
            } else if fresh && listing.complete {
                step matches Ok(LookupStep::Absent)
            } else if hit is Some && !inodes@.inodes.contains_key(hit->0) {
                step is Err && step->Err_0 == lost_handle(inodes@, hit->0)
            } else if hit is Some && is_child(dirid, dir_key@, name@, inodes@.inodes[hit->0]) {
                step matches Ok(LookupStep::Found { id: found, inode }) && found == hit->0 && inode@ == inodes@.inodes[hit->0]
            } else if negative.hit_of(dirid, name@, now_generation, now_ms) is Some && !(fresh && listing.mentions(name@)) {
                step matches Ok(LookupStep::Absent)
            } else {
                step matches Ok(LookupStep::Probe { generation }) && generation == now_generation
            }
        }),
{
    let mut generation: u64 = began;
    match directories.cached_directory_child(dirid, dir_key, name, now_ms) {
        Some(cached) => {
            generation = cached.generation;
            match &cached.child {
                Some(child) => {
                    match ask_shown(&cached, child.fileid, inodes, positive, dirid, dir_key, name, now_ms) {
                        Ok(Shown::Settled { id, inode }) => {
                            return Ok(LookupStep::Found { id, inode });
                        },
                        Ok(Shown::Unsettled) => {},
                        Err(status) => {
                            return Err(status);
                        },
                    }
                },
                None => {},
            }
            if cached.complete {
                return Ok(LookupStep::Absent);
            }
        },
        None => {},
    }
    match positive.hit(dirid, name, generation, now_ms) {
        Some(fileid) => match inodes.inode(fileid) {
            Ok(inode) => {
                if inode_matches_child(dirid, dir_key, name, &inode) {
                    return Ok(LookupStep::Found { id: fileid, inode });
                }
            },
            Err(status) => {
                return Err(status);
            },
        },
        None => {},
    }
    if negative.hit(dirid, name, generation, now_ms).is_some() && !directories.cached_listing_mentions(dirid, dir_key, name, now_ms) {
        return Ok(LookupStep::Absent);
    }
    Ok(LookupStep::Probe { generation })
}

/// A listing page taken under `prefix` shows that something lies there.
pub open spec fn shows_something_under(page: ListedPage, prefix: Seq<char>) -> bool {
    ||| exists|i: int| 0 <= i < page.common_prefixes@.len() && (#[trigger] page.common_prefixes@[i] matches Some(common) && prefix.is_prefix_of(
        common@,
    ))
    ||| exists|i: int| 0 <= i < page.contents@.len() && (#[trigger] page.contents@[i].key matches Some(key) && prefix.is_prefix_of(key@))
}

/// Whether the page that was listed under a directory's prefix shows that the
/// directory exists.
pub fn directory_child_exists(page: &ListedPage, prefix: &str) -> (exists_there: bool)
    ensures
        exists_there == shows_something_under(*page, prefix@),
{
    let mut i: usize = 0;
    while i < page.common_prefixes.len()
        invariant
            i <= page.common_prefixes@.len(),
            forall|j: int| 0 <= j < i ==> !(#[trigger] page.common_prefixes@[j] matches Some(common) && prefix@.is_prefix_of(common@)),
        decreases page.common_prefixes@.len() - i,
    {
        match &page.common_prefixes[i] {
            Some(common) => {
                if has_prefix(common.as_str(), prefix) {
                    assert(page.common_prefixes@[i as int] is Some);
                    return true;
                }
            },
            None => {},
        }
        i = i + 1;
    }
    let mut k: usize = 0;
    while k < page.contents.len()
        invariant
            k <= page.contents@.len(),
            forall|j: int| 0 <= j < k ==> !(#[trigger] page.contents@[j].key matches Some(key) && prefix@.is_prefix_of(key@)),
        decreases page.contents@.len() - k,
    {
        match &page.contents[k].key {
            Some(key) => {
                if has_prefix(key.as_str(), prefix) {
                    assert(page.contents@[k as int].key is Some);
                    return true;
                }
            },
            None => {},
        }
        k = k + 1;
    }
    false
}

/// Size and modification time of an object, as a HEAD reports them: missing
/// or negative values count as zero, times past the range of a file time as
/// its end.
pub fn head_attributes(content_length: Option<i64>, modified_secs: Option<i64>) -> (attributes: (u64, u32))
    ensures
        attributes.0 == (match content_length {
            Some(length) => if length > 0 { length as int } else { 0 },
            None => 0,
        }),
        attributes.1 == directory_listing::clamped_seconds(
            match modified_secs {
                Some(seconds) => seconds as int,
                None => 0,
            },
        ),
{
    let length: i64 = match content_length {
        Some(length) => length,
        None => 0,
    };
    let seconds: i64 = match modified_secs {
        Some(seconds) => seconds,
        None => 0,
    };
    let size: u64 = if length > 0 { length as u64 } else { 0 };
    (size, mtime_from_seconds(seconds))
}

/// What probing the store for a name found.
#[derive(Clone, Copy, Debug, PartialEq, Eq, Structural)]
pub enum ProbeOutcome {
    Directory,
    File { size: u64, mtime_secs: u32 },
    Nothing,
}

/// The inode that a probe found.
pub open spec fn probed_inode(dirid: u64, dir_key: Seq<char>, name: Seq<char>, outcome: ProbeOutcome) -> inode_table::InodeModel {
    match outcome {
        ProbeOutcome::File { size, mtime_secs } => inode_table::InodeModel {
            key: keys::child_of(dir_key, name, false),
            parent: dirid,
            kind: EntryKind::File,
            size,
            mtime_secs,
        },
        _ => inode_table::InodeModel {
            key: keys::child_of(dir_key, name, true),
            parent: dirid,
            kind: EntryKind::Dir,
            size: DIR_SIZE,
            mtime_secs: 0,
        },
    }
}

/// Records what a probe found under the generation it belongs to: an entry
/// gets its id, a miss is remembered as one.
pub fn record_probe(
    inodes: &mut InodeTable,
    positive: &mut LookupCache,
    negative: &mut LookupCache,
    dirid: u64,
    dir_key: &str,
    name: &str,
    generation: u64,
    outcome: ProbeOutcome,
    now_ms: u64,
) -> (found: Option<u64>)
    requires
        old(inodes).well_formed(),
        old(positive).well_formed(),
        old(negative).well_formed(),
        old(positive).ttl() > 0,
        old(negative).ttl() > 0,
    ensures
        final(inodes).well_formed(),
        final(positive).well_formed(),
        final(negative).well_formed(),
        final(positive).ttl() == old(positive).ttl(),
        final(negative).ttl() == old(negative).ttl(),
        outcome == ProbeOutcome::Nothing ==> {
            &&& found is None
            &&& final(inodes)@ == old(inodes)@
            &&& final(positive)@ == old(positive)@
            &&& final(negative)@ == old(negative).remembering(dirid, name@, generation, 0, now_ms)
            &&& final(negative).hit_of(dirid, name@, generation, now_ms) is Some
        },
        outcome != ProbeOutcome::Nothing ==> {
            let inode = probed_inode(dirid, dir_key@, name@, outcome);
            &&& found == Some(old(inodes)@.id_for(inode.key))
            &&& final(inodes)@ == old(inodes)@.interned(inode)
            &&& final(negative)@ == old(negative)@
            &&& final(positive)@ == old(positive).remembering(dirid, name@, generation, old(inodes)@.id_for(inode.key), now_ms)
            &&& final(positive).hit_of(dirid, name@, generation, now_ms) == found
        },
{
    match outcome {
        ProbeOutcome::Directory => {
            let key = child_key(dir_key, name, true);
            let id: u64 = inodes.intern(key.as_str(), dirid, EntryKind::Dir, DIR_SIZE, 0);
            positive.remember(dirid, name, generation, id, now_ms);
            Some(id)
        },
        ProbeOutcome::File { size, mtime_secs } => {
            let key = child_key(dir_key, name, false);
            let id: u64 = inodes.intern(key.as_str(), dirid, EntryKind::File, size, mtime_secs);
            positive.remember(dirid, name, generation, id, now_ms);
            Some(id)
        },
        ProbeOutcome::Nothing => {
            negative.remember(dirid, name, generation, 0, now_ms);
            None
        },
    }
}

/// A miss that was recorded before a listing was begun never answers for a
/// name of that listing, whenever it is asked.
pub proof fn an_older_miss_never_answers_for_a_listing(
    negative: LookupCache,
    directories: directories::DirectoriesModel,
    dirid: u64,
    dir_key: Seq<char>,
    begun_ms: u64,
    name: Seq<char>,
    now_ms: u64,
)
    requires
        directories.generation < u64::MAX,
        forall|key: (u64, Seq<char>)| #[trigger] negative@.contains_key(key) ==> negative@[key].generation <= directories.generation,
    ensures
        negative.hit_of(dirid, name, directories.begun(dirid, dir_key, begun_ms).listings[dirid].generation, now_ms) is None,
{
}

/// What a probe finds is known afterwards as what it is: a directory under the
/// directory's key with the name and a slash, a file under the key without
/// one, with the size and the time that were found. Both are children of the
/// directory that was asked, and the id that is answered stands for them.
pub proof fn a_probe_is_known_as_what_it_found(
    table: inode_table::TableModel,
    dirid: u64,
    dir_key: Seq<char>,
    name: Seq<char>,
    size: u64,
    mtime_secs: u32,
)
    requires
        table.consistent(),
    ensures
        ({
            let directory = probed_inode(dirid, dir_key, name, ProbeOutcome::Directory);
            let file = probed_inode(dirid, dir_key, name, ProbeOutcome::File { size, mtime_secs });
            &&& directory.kind == EntryKind::Dir
            &&& directory.key == dir_key + name + seq!['/']
            &&& directory.key.last() == '/'
            &&& directory.parent == dirid
            &&& file.kind == EntryKind::File
            &&& file.key == dir_key + name
            &&& file.parent == dirid
            &&& file.size == size
            &&& file.mtime_secs == mtime_secs
            &&& table.interned(directory).inodes[table.id_for(dir_key + name + seq!['/'])] == directory
            &&& table.interned(file).inodes[table.id_for(dir_key + name)] == file
        }),
{
    assert((dir_key + name).push('/') =~= dir_key + name + seq!['/']);
}

/// What is remembered of a name is answered for the generation it was probed
/// under, until its time is over, and never for another generation.
pub proof fn a_remembered_outcome_is_answered_in_its_time(
    before: LookupCache,
    after: LookupCache,
    dirid: u64,
    name: Seq<char>,
    generation: u64,
    fileid: u64,
    now_ms: u64,
    asked: u64,
    later_ms: u64,
)
    requires
        after.ttl() == before.ttl(),
        after@ == before.remembering(dirid, name, generation, fileid, now_ms),
    ensures
        after.hit_of(dirid, name, asked, later_ms) == (if asked == generation && before.ttl() > 0 && later_ms < now_ms + before.ttl() {
            Some(fileid)
        } else {
            None
        }),
{
}

/// Remembering one name leaves what is known of every other: it is answered as
/// before, as long as its time is not over.
pub proof fn remembering_leaves_the_other_names(
    before: LookupCache,
    after: LookupCache,
    dirid: u64,
    name: Seq<char>,
    generation: u64,
    fileid: u64,
    now_ms: u64,
    other_dirid: u64,
    other: Seq<char>,
    asked: u64,
    later_ms: u64,
)
    requires
        after.ttl() == before.ttl(),
        after@ == before.remembering(dirid, name, generation, fileid, now_ms),
        (other_dirid, other) != (dirid, name),
        now_ms <= later_ms,
    ensures
        after.hit_of(other_dirid, other, asked, later_ms) == before.hit_of(other_dirid, other, asked, later_ms),
{
}

/// A child is told by its directory and by its key, which is the directory's
/// key with the name, and a slash exactly for a directory.
pub proof fn a_child_is_told_by_its_directory_and_key(dirid: u64, dir_key: Seq<char>, name: Seq<char>, inode: inode_table::InodeModel)
    ensures
        is_child(dirid, dir_key, name, inode) <==> inode.parent == dirid && inode.key == (if inode.kind == EntryKind::Dir {
            dir_key + name + seq!['/']
        } else {
            dir_key + name
        }),
{
    assert((dir_key + name).push('/') =~= dir_key + name + seq!['/']);
}

/// A handle that once stood for something is stale; one that never did stands
/// for nothing.
pub proof fn a_lost_handle_is_stale_only_if_it_was_given_out(table: inode_table::TableModel, id: u64)
    ensures
        lost_handle(table, id) == NfsStatus::Stale <==> 0 < id && id < table.next_id,
        lost_handle(table, id) == NfsStatus::NoEnt <==> id == 0 || id >= table.next_id,
{
}

/// A listing settles a name it shows where the inode is still that child, and
/// its kind cannot change any more: for a directory, in a complete listing, or
/// after a probe found this very entry.
pub proof fn a_listing_settles_what_cannot_change(
    listing: directory_listing::ListingModel,
    table: inode_table::TableModel,
    positive: Option<u64>,
    dirid: u64,
    dir_key: Seq<char>,
    name: Seq<char>,
)
    ensures
        ({
            let id = listing.id_of(name);
            let inode = table.inodes[id];
            listing_settles(listing, table, positive, dirid, dir_key, name) <==> is_child(dirid, dir_key, name, inode) && (inode.kind
                == EntryKind::Dir || listing.complete || positive == Some(id))
        }),
{
}

/// A lookup belongs to the listing that there is by now; only without one does
/// it belong to the generation it began under.
pub proof fn a_lookup_belongs_to_the_listing_there_is(
    directories: directories::DirectoriesModel,
    dirid: u64,
    dir_key: Seq<char>,
    began: u64,
    now_ms: u64,
)
    ensures
        directories.listings.contains_key(dirid) && directories.listings[dirid].key == dir_key && now_ms
            < directories.listings[dirid].fetched_at_ms + 30_000 ==> current_generation(directories, dirid, dir_key, began, now_ms)
            == directories.listings[dirid].generation,
        !directories.listings.contains_key(dirid) ==> current_generation(directories, dirid, dir_key, began, now_ms) == began,
        directories.listings.contains_key(dirid) && (directories.listings[dirid].key != dir_key || now_ms
            >= directories.listings[dirid].fetched_at_ms + 30_000) ==> current_generation(directories, dirid, dir_key, began, now_ms) == began,
{
}

/// A page shows that a directory exists exactly where anything on it lies under
/// the directory's prefix.
pub proof fn a_directory_exists_where_something_lies_under_it(page: ListedPage, prefix: Seq<char>)
    ensures
        shows_something_under(page, prefix) <==> {
            ||| exists|i: int|
                0 <= i < page.common_prefixes@.len() && (#[trigger] page.common_prefixes@[i]) is Some && prefix.is_prefix_of(
                    page.common_prefixes@[i]->0@,
                )
            ||| exists|i: int| 0 <= i < page.contents@.len() && (#[trigger] page.contents@[i]).key is Some && prefix.is_prefix_of(
                page.contents@[i].key->0@,
            )
        },
{
    if exists|i: int|
        0 <= i < page.common_prefixes@.len() && (#[trigger] page.common_prefixes@[i]) is Some && prefix.is_prefix_of(
            page.common_prefixes@[i]->0@,
        ) {
        let i = choose|i: int|
            0 <= i < page.common_prefixes@.len() && (#[trigger] page.common_prefixes@[i]) is Some && prefix.is_prefix_of(
                page.common_prefixes@[i]->0@,
            );
        assert(page.common_prefixes@[i] is Some);
    }
    if exists|i: int| 0 <= i < page.contents@.len() && (#[trigger] page.contents@[i]).key is Some && prefix.is_prefix_of(
        page.contents@[i].key->0@,
    ) {
        let i = choose|i: int| 0 <= i < page.contents@.len() && (#[trigger] page.contents@[i]).key is Some && prefix.is_prefix_of(
            page.contents@[i].key->0@,
        );
        assert(page.contents@[i].key is Some);
    }
}

/// What a probe found is remembered as what it is: a directory as a directory
/// under its key with a slash behind it, a file as a file of its size and
/// time, and nothing as nothing.
pub proof fn a_probe_is_remembered_as_what_it_found(dirid: u64, dir_key: &str, name: &str, generation: u64, size: u64, mtime_secs: u32, now_ms: u64)
    ensures
        forall|inodes: &mut InodeTable, positive: &mut LookupCache, negative: &mut LookupCache, found: Option<u64>| #[trigger]
            call_ensures(
                record_probe,
                (inodes, positive, negative, dirid, dir_key, name, generation, ProbeOutcome::Directory, now_ms),
                found,
            ) ==> {
                &&& found is Some
                &&& final(inodes)@.inodes.contains_key(found->0)
                &&& final(inodes)@.inodes[found->0].kind == EntryKind::Dir
                &&& final(inodes)@.inodes[found->0].key == (dir_key@ + name@).push('/')
                &&& final(inodes)@.inodes[found->0].parent == dirid
                &&& final(negative)@ == (*negative)@
                &&& final(positive).hit_of(dirid, name@, generation, now_ms) == found
            },
        forall|inodes: &mut InodeTable, positive: &mut LookupCache, negative: &mut LookupCache, found: Option<u64>| #[trigger]
            call_ensures(
                record_probe,
                (inodes, positive, negative, dirid, dir_key, name, generation, (ProbeOutcome::File { size, mtime_secs }), now_ms),
                found,
            ) ==> {
                &&& found is Some
                &&& final(inodes)@.inodes.contains_key(found->0)
                &&& final(inodes)@.inodes[found->0].kind == EntryKind::File
                &&& final(inodes)@.inodes[found->0].key == dir_key@ + name@
                &&& final(inodes)@.inodes[found->0].parent == dirid
                &&& final(inodes)@.inodes[found->0].size == size
                &&& final(inodes)@.inodes[found->0].mtime_secs == mtime_secs
                &&& final(negative)@ == (*negative)@
                &&& final(positive).hit_of(dirid, name@, generation, now_ms) == found
            },
        forall|inodes: &mut InodeTable, positive: &mut LookupCache, negative: &mut LookupCache, found: Option<u64>| #[trigger]
            call_ensures(
                record_probe,
                (inodes, positive, negative, dirid, dir_key, name, generation, ProbeOutcome::Nothing, now_ms),
                found,
            ) ==> found is None && final(inodes)@ == (*inodes)@ && final(positive)@ == (*positive)@ && final(negative).hit_of(
                dirid,
                name@,
                generation,
                now_ms,
            ) is Some,
{
}

/// An object is as large as the store says, and empty where it does not say.
pub proof fn an_object_is_as_large_as_the_store_says(content_length: Option<i64>, modified_secs: Option<i64>, attributes: (u64, u32))
    requires
        call_ensures(head_attributes, (content_length, modified_secs), attributes),
    ensures
        content_length is Some && content_length->0 >= 0 ==> attributes.0 == content_length->0,
        content_length is None || content_length->0 < 0 ==> attributes.0 == 0,
        modified_secs is Some && 0 <= modified_secs->0 <= 4_294_967_295 ==> attributes.1 == modified_secs->0,
        modified_secs is None ==> attributes.1 == 0,
{
}

/// A name is answered from a fresh listing only: it is found where it is shown
/// and cannot change, and absent only where the listing is whole.
pub proof fn a_name_is_absent_only_in_a_whole_listing(
    directories: Directories,
    inodes: InodeTable,
    positive: LookupCache,
    dirid: u64,
    dir_key: &str,
    name: &str,
    now_ms: u64,
    step: Result<LookupStep, NfsStatus>,
    settled: Result<LookupStep, NfsStatus>,
)
    requires
        call_ensures(lookup_child, (&directories, &inodes, &positive, dirid, dir_key, name, now_ms), step),
        call_ensures(lookup_in_complete_listing, (&directories, &inodes, dirid, dir_key, name, now_ms), settled),
    ensures
        step matches Ok(LookupStep::Absent) ==> directories@.fresh(dirid, dir_key@, now_ms) && directories@.listings[dirid].complete
            && !directory_listing::is_shown(directories@.listings[dirid].children, name@),
        step matches Ok(LookupStep::Found { .. }) ==> directories@.fresh(dirid, dir_key@, now_ms) && directory_listing::is_shown(
            directories@.listings[dirid].children,
            name@,
        ),
        !directories@.fresh(dirid, dir_key@, now_ms) ==> step is Ok && step->Ok_0 is Exact,
        settled matches Ok(LookupStep::Absent) ==> directories@.fresh(dirid, dir_key@, now_ms) && directories@.listings[dirid].complete
            && !directory_listing::is_shown(directories@.listings[dirid].children, name@),
        settled matches Ok(LookupStep::Found { .. }) ==> directory_listing::is_shown(directories@.listings[dirid].children, name@),
        directories@.fresh(dirid, dir_key@, now_ms) && directories@.listings[dirid].complete ==> !(settled matches Ok(
            LookupStep::CompleteListing,
        )),
{
}

} // verus!
