//! Admission accounting: each staged file reserves room for its content and
//! for the immutable snapshot an upload is made from.

use vstd::prelude::*;
use std::collections::HashMap;
use crate::status::NfsStatus;

verus! {

broadcast use vstd::std_specs::hash::group_hash_axioms;

/// Free space below which nothing more is staged.
pub const MINIMUM_FREE_BYTES: u64 = 8 * 1024 * 1024;

/// What all reservations add up to.
pub open spec fn total(files: Map<u64, u64>) -> int
    decreases files.dom().len(),
    when files.dom().finite()
{
    if files.dom().len() == 0 {
        0
    } else {
        let id = files.dom().choose();
        files[id] + total(files.remove(id))
    }
}

proof fn taking_one_out(files: Map<u64, u64>, id: u64)
    requires
        files.dom().finite(),
        files.contains_key(id),
    ensures
        total(files) == files[id] + total(files.remove(id)),
    decreases files.dom().len(),
{
    assert(files.dom().contains(id));
    assert(files.dom().len() > 0) by {
        if files.dom().len() == 0 {
            assert(files.dom() =~= Set::empty());
        }
    }
    let first = files.dom().choose();
    if first != id {
        let rest = files.remove(first);
        assert(rest.contains_key(id));
        taking_one_out(rest, id);
        assert(rest.remove(id) =~= files.remove(id).remove(first));
        taking_one_out(files.remove(id), first);
    }
}

/// A map with one entry set adds up to the others and that entry.
pub proof fn setting_one(files: Map<u64, u64>, id: u64, bytes: u64)
    requires
        files.dom().finite(),
    ensures
        files.insert(id, bytes).dom().finite(),
        total(files.insert(id, bytes)) == total(files.remove(id)) + bytes,
        files.contains_key(id) ==> total(files.remove(id)) == total(files) - files[id],
        !files.contains_key(id) ==> files.remove(id) == files,
        total(files.remove(id)) >= 0,
{
    let set = files.insert(id, bytes);
    taking_one_out(set, id);
    assert(set.remove(id) =~= files.remove(id));
    if files.contains_key(id) {
        taking_one_out(files, id);
    } else {
        assert(files.remove(id) =~= files);
    }
    totals_are_not_negative(files.remove(id));
}

proof fn totals_are_not_negative(files: Map<u64, u64>)
    requires
        files.dom().finite(),
    ensures
        total(files) >= 0,
    decreases files.dom().len(),
{
    if files.dom().len() > 0 {
        totals_are_not_negative(files.remove(files.dom().choose()));
    }
}

/// The bytes that staged files have reserved.
pub struct StageQuota {
    /// What the reservations may add up to.
    pub limit: u64,
    /// What they add up to.
    pub used: u64,
    /// What each staged file has reserved.
    pub files: HashMap<u64, u64>,
}

impl Default for StageQuota {
    fn default() -> (quota: Self)
        ensures
            quota.limit == u64::MAX,
            quota.used_bytes() == 0,
            quota.reservations() == Map::<u64, u64>::empty(),
            quota.balanced(),
    {
        let quota = StageQuota { limit: u64::MAX, used: 0, files: HashMap::new() };
        assert(quota.reservations() =~= Map::<u64, u64>::empty());
        quota
    }
}

impl StageQuota {
    /// The bytes in use.
    pub open spec fn used_bytes(&self) -> u64 {
        self.used
    }

    /// What each file has reserved.
    pub open spec fn reservations(&self) -> Map<u64, u64> {
        self.files@
    }

    /// What `id` has reserved.
    pub open spec fn reserved(&self, id: u64) -> u64 {
        if self.reservations().contains_key(id) {
            self.reservations()[id]
        } else {
            0
        }
    }

    /// The bytes in use without those of `id`.
    pub open spec fn used_by_others(&self, id: u64) -> int {
        if self.used_bytes() >= self.reserved(id) {
            self.used_bytes() - self.reserved(id)
        } else {
            0
        }
    }

    /// The bytes in use are what the reservations add up to.
    pub open spec fn balanced(&self) -> bool {
        self.reservations().dom().finite() && self.used_bytes() == total(self.reservations())
    }

    /// Reserves `bytes` for `id`, in place of what it had reserved. Refused,
    /// with nothing changed, where the total would pass the limit.
    pub fn reserve(&mut self, id: u64, bytes: u64) -> (admitted: bool)
        ensures
            final(self).limit == old(self).limit,
            admitted <==> old(self).used_by_others(id) + bytes <= old(self).limit,
            admitted ==> final(self).used_bytes() == old(self).used_by_others(id) + bytes && final(self).reservations()
                == old(self).reservations().insert(id, bytes) && final(self).used_bytes() <= final(self).limit,
            !admitted ==> final(self).used_bytes() == old(self).used_bytes() && final(self).reservations() == old(self).reservations(),
            old(self).balanced() ==> final(self).balanced(),
    {
        let previous: u64 = match self.files.get(&id) {
            Some(bytes) => *bytes,
            None => 0,
        };
        proof {
            if self.balanced() {
                setting_one(self.reservations(), id, bytes);
            }
        }
        match self.used.saturating_sub(previous).checked_add(bytes) {
            Some(proposed) => {
                if proposed > self.limit {
                    return false;
                }
                self.used = proposed;
                self.files.insert(id, bytes);
                true
            },
            None => false,
        }
    }

    /// Takes over what a file has on disk already, whatever the limit.
    pub fn restore(&mut self, id: u64, bytes: u64)
        ensures
            final(self).limit == old(self).limit,
            final(self).used_bytes() == (if old(self).used_by_others(id) + bytes > u64::MAX {
                u64::MAX as int
            } else {
                old(self).used_by_others(id) + bytes
            }),
            final(self).reservations() == old(self).reservations().insert(id, bytes),
            old(self).balanced() && total(old(self).reservations().insert(id, bytes)) <= u64::MAX ==> final(self).balanced(),
    {
        let previous: u64 = match self.files.get(&id) {
            Some(bytes) => *bytes,
            None => 0,
        };
        proof {
            if self.balanced() {
                setting_one(self.reservations(), id, bytes);
            }
        }
        self.files.insert(id, bytes);
        self.used = self.used.saturating_sub(previous).saturating_add(bytes);
    }

    /// Gives back what `id` had reserved.
    pub fn release(&mut self, id: u64)
        ensures
            final(self).limit == old(self).limit,
            final(self).used_bytes() == old(self).used_by_others(id),
            final(self).reservations() == old(self).reservations().remove(id),
            old(self).balanced() ==> final(self).balanced(),
    {
        let previous: u64 = match self.files.get(&id) {
            Some(bytes) => *bytes,
            None => 0,
        };
        proof {
            if self.balanced() {
                setting_one(self.reservations(), id, 0);
            }
        }
        let _ = self.files.remove(&id);
        self.used = self.used.saturating_sub(previous);
    }

    /// Reserves room for a staged file of `size` bytes and for its upload
    /// snapshot. Refused as full where the volume is nearly full, where twice
    /// the size cannot be counted, or where the quota does not admit it.
    pub fn reserve_stage(&mut self, id: u64, size: u64, free_bytes: Option<u64>) -> (outcome: Result<(), NfsStatus>)
        ensures
            final(self).limit == old(self).limit,
            outcome == (if 2 * size <= u64::MAX && !(free_bytes is Some && free_bytes->0 < MINIMUM_FREE_BYTES) && old(self).used_by_others(id)
                + 2 * size <= old(self).limit {
                Ok::<(), NfsStatus>(())
            } else {
                Err(NfsStatus::NoSpc)
            }),
            outcome is Ok ==> final(self).used_bytes() == old(self).used_by_others(id) + 2 * size && final(self).reservations()
                == old(self).reservations().insert(id, (2 * size) as u64),
            outcome is Err ==> final(self).used_bytes() == old(self).used_bytes() && final(self).reservations() == old(self).reservations(),
            old(self).balanced() ==> final(self).balanced(),
    {
        let bytes: u64 = match size.checked_mul(2) {
            Some(bytes) => bytes,
            None => {
                return Err(NfsStatus::NoSpc);
            },
        };
        match free_bytes {
            Some(free) => {
                if free < MINIMUM_FREE_BYTES {
                    return Err(NfsStatus::NoSpc);
                }
            },
            None => {},
        }
        if self.reserve(id, bytes) {
            Ok(())
        } else {
            Err(NfsStatus::NoSpc)
        }
    }
}

/// What a volume reports of its free space.
#[derive(Clone, Copy, Debug, PartialEq, Eq, Structural)]
pub struct VolumeStats {
    pub available_blocks: u64,
    pub block_bytes: u64,
}

/// The bytes that are free on a volume, as far as they can be counted; an
/// error where the platform cannot tell.
pub fn available_space(stats: Option<VolumeStats>) -> (space: Result<u64, String>)
    ensures
        stats matches Some(volume) ==> space == Ok::<u64, String>(
            if volume.available_blocks * volume.block_bytes > u64::MAX {
                u64::MAX
            } else {
                (volume.available_blocks * volume.block_bytes) as u64
            },
        ),
        stats is None ==> space is Err && space->Err_0@ == "Unsupported staging filesystem"@,
{
    match stats {
        Some(volume) => match volume.available_blocks.checked_mul(volume.block_bytes) {
            Some(bytes) => Ok(bytes),
            None => Ok(u64::MAX),
        },
        None => Err("Unsupported staging filesystem".to_owned()),
    }
}

/// A reservation takes the place of what the file had reserved before. It is
/// admitted exactly where all reservations stay within the limit, and one that
/// is refused changes nothing.
pub proof fn a_reservation_stays_within_the_limit(id: u64, bytes: u64, other: u64)
    requires
        other != id,
    ensures
        forall|quota: &mut StageQuota, admitted: bool| #[trigger]
            call_ensures(StageQuota::reserve, (quota, id, bytes), admitted) && (*quota).used_bytes() >= (*quota).reserved(id) ==> {
                &&& admitted <==> (*quota).used_bytes() - (*quota).reserved(id) + bytes <= (*quota).limit
                &&& admitted ==> final(quota).used_bytes() == (*quota).used_bytes() - (*quota).reserved(id) + bytes && final(quota).reserved(id)
                    == bytes
                &&& !admitted ==> final(quota).used_bytes() == (*quota).used_bytes() && final(quota).reserved(id) == (*quota).reserved(id)
                &&& final(quota).reserved(other) == (*quota).reserved(other)
                &&& final(quota).limit == (*quota).limit
            },
{
}

/// What is released is given back whole, and only of its own file.
pub proof fn a_release_gives_back_its_own(id: u64, other: u64)
    requires
        other != id,
    ensures
        forall|quota: &mut StageQuota| #[trigger]
            call_ensures(StageQuota::release, (quota, id), ()) && (*quota).used_bytes() >= (*quota).reserved(id) ==> {
                &&& final(quota).used_bytes() == (*quota).used_bytes() - (*quota).reserved(id)
                &&& final(quota).reserved(id) == 0
                &&& final(quota).reserved(other) == (*quota).reserved(other)
                &&& final(quota).limit == (*quota).limit
            },
{
}

/// What lies on disk already is counted, even past the limit.
pub proof fn what_lies_on_disk_is_counted(id: u64, bytes: u64)
    ensures
        forall|quota: &mut StageQuota| #[trigger]
            call_ensures(StageQuota::restore, (quota, id, bytes), ()) && (*quota).used_bytes() >= (*quota).reserved(id)
                && (*quota).used_bytes() - (*quota).reserved(id) + bytes <= u64::MAX ==> {
                &&& final(quota).used_bytes() == (*quota).used_bytes() - (*quota).reserved(id) + bytes
                &&& final(quota).reserved(id) == bytes
                &&& final(quota).limit == (*quota).limit
            },
{
}

/// A staged file needs room twice, for itself and for its snapshot, on a
/// volume with eight mebibytes free.
pub proof fn a_staged_file_needs_room_twice(id: u64, size: u64, free_bytes: Option<u64>)
    ensures
        forall|quota: &mut StageQuota, outcome: Result<(), NfsStatus>| #[trigger]
            call_ensures(StageQuota::reserve_stage, (quota, id, size, free_bytes), outcome) && (*quota).used_bytes() >= (*quota).reserved(id)
                ==> {
                &&& outcome is Err ==> outcome->Err_0 == NfsStatus::NoSpc
                &&& free_bytes is Some && free_bytes->0 < 8_388_608 ==> outcome is Err
                &&& (free_bytes is None || free_bytes->0 >= 8_388_608) && 2 * size <= u64::MAX ==> (outcome is Ok <==> (*quota).used_bytes()
                    - (*quota).reserved(id) + 2 * size <= (*quota).limit)
                &&& outcome is Ok ==> final(quota).reserved(id) == 2 * size
                &&& outcome is Err ==> final(quota).used_bytes() == (*quota).used_bytes()
            },
{
}

/// A volume has as many bytes free as its free blocks hold; one that cannot
/// tell is no place to stage in.
pub proof fn free_space_is_counted_in_blocks(stats: Option<VolumeStats>, space: Result<u64, String>)
    requires
        call_ensures(available_space, (stats,), space),
    ensures
        space is Ok <==> stats is Some,
        stats is Some && stats->0.available_blocks * stats->0.block_bytes <= u64::MAX ==> space->Ok_0 == stats->0.available_blocks
            * stats->0.block_bytes,
        stats is Some && stats->0.available_blocks * stats->0.block_bytes > u64::MAX ==> space->Ok_0 == u64::MAX,
{
}

} // verus!
