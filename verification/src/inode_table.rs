//! Stable file ids for object keys.
//!
//! Every key the client has seen gets an id for the lifetime of the mount. Ids
//! are handed out one after the other and never reused, and a rename moves an
//! id to its new key instead of giving the file a new one.

use vstd::prelude::*;
use crate::key_map::KeyMap;
use crate::keys;
use crate::keys::{child_key, entry_name, rewrite_key};
use crate::status::NfsStatus;
use crate::text::{has_char, has_last, has_prefix, same_text};

verus! {

/// Reserved root id. `0` is reserved by the protocol and must never be used.
pub const ROOT_ID: u64 = 1;

/// Synthetic size reported for directories, matching a typical unix filesystem.
pub const DIR_SIZE: u64 = 4096;

pub const DIR_MODE: u32 = 0o755;

pub const FILE_MODE: u32 = 0o644;

/// Whether a key stands for a directory or a file.
#[derive(Clone, Copy, Debug, PartialEq, Eq, Structural)]
pub enum EntryKind {
    Dir,
    File,
}

/// What is known of one id.
pub struct Inode {
    pub key: String,
    pub parent: u64,
    pub kind: EntryKind,
    pub size: u64,
    pub mtime_secs: u32,
}

/// An inode with its key taken as text.
pub ghost struct InodeModel {
    pub key: Seq<char>,
    pub parent: u64,
    pub kind: EntryKind,
    pub size: u64,
    pub mtime_secs: u32,
}

impl View for Inode {
    type V = InodeModel;

    open spec fn view(&self) -> InodeModel {
        InodeModel {
            key: self.key@,
            parent: self.parent,
            kind: self.kind,
            size: self.size,
            mtime_secs: self.mtime_secs,
        }
    }
}

impl Clone for Inode {
    fn clone(&self) -> (copy: Self)
        ensures
            copy@ == self@,
    {
        Inode {
            key: self.key.clone(),
            parent: self.parent,
            kind: self.kind,
            size: self.size,
            mtime_secs: self.mtime_secs,
        }
    }
}

/// What a table holds: the inode of each id, the id of each key, and the id
/// that the next new key gets.
#[verifier::ext_equal]
pub ghost struct TableModel {
    pub inodes: Map<u64, InodeModel>,
    pub ids: Map<Seq<char>, u64>,
    pub next_id: nat,
}

impl TableModel {
    /// A key's id stands for an inode with that key; ids are below the next
    /// one; zero is never an id.
    pub open spec fn consistent(self) -> bool {
        &&& forall|key: Seq<char>| #[trigger] self.ids.contains_key(key) ==> {
            &&& self.inodes.contains_key(self.ids[key])
            &&& self.inodes[self.ids[key]].key == key
        }
        &&& forall|id: u64| #[trigger] self.inodes.contains_key(id) ==> 0 < id < self.next_id
    }

    /// The id that a key has, or gets when it is next seen.
    pub open spec fn id_for(self, key: Seq<char>) -> u64 {
        if self.ids.contains_key(key) {
            self.ids[key]
        } else {
            self.next_id as u64
        }
    }

    /// After a key was seen with these attributes.
    pub open spec fn interned(self, inode: InodeModel) -> TableModel {
        TableModel {
            inodes: self.inodes.insert(self.id_for(inode.key), inode),
            ids: self.ids.insert(inode.key, self.id_for(inode.key)),
            next_id: if self.ids.contains_key(inode.key) { self.next_id } else { self.next_id + 1 },
        }
    }

    /// The id of this inode's key is this id.
    pub open spec fn is_current(self, id: u64) -> bool {
        self.inodes.contains_key(id) && self.ids.contains_pair(self.inodes[id].key, id)
    }

    /// After an id was retired.
    pub open spec fn retired(self, id: u64) -> TableModel {
        TableModel {
            inodes: self.inodes.remove(id),
            ids: if self.is_current(id) { self.ids.remove(self.inodes[id].key) } else { self.ids },
            next_id: self.next_id,
        }
    }

    /// After an inode was moved to a new key and parent.
    pub open spec fn rekeyed(self, id: u64, key: Seq<char>, parent: u64) -> TableModel {
        if self.inodes.contains_key(id) {
            TableModel {
                inodes: self.inodes.insert(id, InodeModel { key, parent, ..self.inodes[id] }),
                ids: self.retired(id).ids.insert(key, id),
                next_id: self.next_id,
            }
        } else {
            self
        }
    }

    /// After the size and time of a file were recorded.
    pub open spec fn with_attrs(self, id: u64, size: u64, mtime_secs: u32) -> TableModel {
        if self.inodes.contains_key(id) {
            TableModel {
                inodes: self.inodes.insert(id, InodeModel { size, mtime_secs, ..self.inodes[id] }),
                ..self
            }
        } else {
            self
        }
    }

    /// This id's inode lies under the directory that moves.
    pub open spec fn moves(self, from: Seq<char>, id: u64) -> bool {
        self.inodes.contains_key(id) && from.is_prefix_of(self.inodes[id].key)
    }

    /// The key that a moving inode gets.
    pub open spec fn new_key_of(self, from: Seq<char>, to: Seq<char>, id: u64) -> Seq<char> {
        to + self.inodes[id].key.skip(from.len() as int)
    }

    /// Some inode with an id below `limit` moves onto `key`.
    pub open spec fn is_target(self, from: Seq<char>, to: Seq<char>, limit: int, key: Seq<char>) -> bool {
        exists|id: u64| id < limit && #[trigger] self.moves(from, id) && self.new_key_of(from, to, id) == key
    }

    /// Every inode under `from` was moved onto `to`. Where several move onto
    /// one key, the key leads to one of them.
    pub open spec fn is_moved_from(self, before: TableModel, from: Seq<char>, to: Seq<char>) -> bool {
        &&& self.next_id == before.next_id
        &&& self.inodes == before.inodes.map_entries(
            |id: u64, inode: InodeModel|
                if from.is_prefix_of(inode.key) {
                    InodeModel { key: to + inode.key.skip(from.len() as int), ..inode }
                } else {
                    inode
                },
        )
        &&& forall|key: Seq<char>| #[trigger] self.ids.contains_key(key) <==> {
            ||| before.ids.contains_key(key) && !before.moves(from, before.ids[key])
            ||| before.is_target(from, to, before.next_id as int, key)
        }
        &&& forall|key: Seq<char>| #[trigger] self.ids.contains_key(key) ==> {
            if before.is_target(from, to, before.next_id as int, key) {
                &&& before.moves(from, self.ids[key])
                &&& before.new_key_of(from, to, self.ids[key]) == key
            } else {
                self.ids[key] == before.ids[key]
            }
        }
    }

    /// A rename of `from` to `to` changes what a listing of this directory
    /// shows: it is the parent of one of them, or lies inside a moved tree.
    pub open spec fn listing_changes(self, from: Seq<char>, to: Seq<char>, id: u64) -> bool {
        &&& self.inodes.contains_key(id)
        &&& self.inodes[id].kind == EntryKind::Dir
        &&& {
            let key = self.inodes[id].key;
            ||| key == parent_of(from)
            ||| key == parent_of(to)
            ||| crate::text::ends_with(from, '/') && (from.is_prefix_of(key) || to.is_prefix_of(key))
        }
    }
}

/// Key and id in both directions.
pub struct InodeTable {
    /// The inode of each id, by id; `None` where the id was never given out
    /// or has been retired.
    slots: Vec<Option<Inode>>,
    by_key: KeyMap<u64>,
}

impl View for InodeTable {
    type V = TableModel;

    open spec fn view(&self) -> TableModel {
        self.model()
    }
}

impl InodeTable {
    /// What the table holds.
    pub closed spec fn model(&self) -> TableModel {
        TableModel {
            inodes: Map::new(
                |id: u64| id < self.slots.len() && self.slots@[id as int] is Some,
                |id: u64| (self.slots@[id as int]->0)@,
            ),
            ids: self.by_key@,
            next_id: self.slots.len() as nat,
        }
    }

    pub closed spec fn well_formed(&self) -> bool {
        &&& self.by_key.well_formed()
        &&& self.slots.len() >= 2
        &&& self@.consistent()
    }

    /// The table of a fresh mount: the root alone, its own parent.
    pub fn new() -> (table: Self)
        ensures
            table.well_formed(),
            table@.consistent(),
            table@.next_id == 2,
            table@.ids == Map::<Seq<char>, u64>::empty().insert(Seq::<char>::empty(), ROOT_ID),
            table@.inodes == Map::<u64, InodeModel>::empty().insert(
                ROOT_ID,
                (InodeModel { key: Seq::empty(), parent: ROOT_ID, kind: EntryKind::Dir, size: DIR_SIZE, mtime_secs: 0 }),
            ),
    {
        let root = Inode { key: String::new(), parent: ROOT_ID, kind: EntryKind::Dir, size: DIR_SIZE, mtime_secs: 0 };
        let ghost model = root@;
        let mut slots: Vec<Option<Inode>> = Vec::new();
        slots.push(None);
        slots.push(Some(root));
        let mut by_key: KeyMap<u64> = KeyMap::new();
        by_key.insert(String::new(), ROOT_ID);
        let table = InodeTable { slots, by_key };
        assert(table@.inodes =~= Map::<u64, InodeModel>::empty().insert(ROOT_ID, model));
        table
    }

    /// The id of `key`, if it has one.
    pub fn id_of(&self, key: &str) -> (id: Option<u64>)
        requires
            self.well_formed(),
        ensures
            id is Some <==> self@.ids.contains_key(key@),
            id matches Some(i) ==> i == self@.ids[key@],
    {
        match self.by_key.get(key) {
            Some(id) => Some(*id),
            None => None,
        }
    }

    /// How many keys have an id.
    pub fn key_count(&self) -> (count: usize)
        requires
            self.well_formed(),
        ensures
            count == self@.ids.dom().len(),
    {
        self.by_key.len()
    }

    /// How many ids stand for an inode.
    pub fn inode_count(&self) -> (count: usize)
        requires
            self.well_formed(),
        ensures
            count == self@.inodes.dom().len(),
    {
        let mut count: usize = 0;
        let mut index: usize = 0;
        let ghost mut seen: Set<u64> = Set::empty();
        while index < self.slots.len()
            invariant
                index <= self.slots@.len(),
                count <= index,
                seen.finite(),
                seen.len() == count,
                forall|id: u64| #[trigger] seen.contains(id) <==> id < index && self@.inodes.contains_key(id),
            decreases self.slots@.len() - index,
        {
            if self.slots[index].is_some() {
                count = count + 1;
                proof {
                    seen = seen.insert(index as u64);
                }
            }
            index = index + 1;
        }
        assert(seen =~= self@.inodes.dom());
        count
    }

    /// The inode that an id stands for.
    pub fn get(&self, id: u64) -> (inode: Option<&Inode>)
        requires
            self.well_formed(),
        ensures
            inode is Some <==> self@.inodes.contains_key(id),
            inode matches Some(found) ==> found@ == self@.inodes[id],
    {
        if id < self.slots.len() as u64 {
            match &self.slots[id as usize] {
                Some(inode) => Some(inode),
                None => None,
            }
        } else {
            None
        }
    }

    /// The stable id of `key`, given out the first time the key is seen; on
    /// every later sighting the attributes are refreshed.
    pub fn intern(&mut self, key: &str, parent: u64, kind: EntryKind, size: u64, mtime_secs: u32) -> (id: u64)
        requires
            old(self).well_formed(),
        ensures
            final(self).well_formed(),
            final(self)@.consistent(),
            id == old(self)@.id_for(key@),
            final(self)@ == old(self)@.interned(InodeModel { key: key@, parent, kind, size, mtime_secs }),
            !old(self)@.ids.contains_key(key@) ==> id == old(self)@.next_id,
    {
        let inode = Inode { key: key.to_owned(), parent, kind, size, mtime_secs };
        let ghost model = inode@;
        match self.id_of(key) {
            Some(id) => {
                assert(self@.inodes.contains_key(id));
                self.slots.set(id as usize, Some(inode));
                assert(self@ =~= old(self)@.interned(model));
                id
            },
            None => {
                let id: u64 = self.slots.len() as u64;
                self.slots.push(Some(inode));
                self.by_key.insert(key.to_owned(), id);
                assert(self@ =~= old(self)@.interned(model));
                id
            },
        }
    }

    /// Retires an id. Its key loses its id only if it still pointed there.
    pub fn remove(&mut self, id: u64)
        requires
            old(self).well_formed(),
        ensures
            final(self).well_formed(),
            final(self)@.consistent(),
            final(self)@ == old(self)@.retired(id),
    {
        let key = match self.get(id) {
            Some(inode) => inode.key.clone(),
            None => {
                assert(self@ =~= old(self)@.retired(id));
                return;
            },
        };
        let points_here = match self.by_key.get(key.as_str()) {
            Some(mapped) => *mapped == id,
            None => false,
        };
        self.slots.set(id as usize, None);
        if points_here {
            let _ = self.by_key.remove(key.as_str());
        }
        assert(self@ =~= old(self)@.retired(id));
    }

    /// Records the size and time of a file.
    pub fn set_attrs(&mut self, id: u64, size: u64, mtime_secs: u32)
        requires
            old(self).well_formed(),
        ensures
            final(self).well_formed(),
            final(self)@.consistent(),
            final(self)@ == old(self)@.with_attrs(id, size, mtime_secs),
    {
        let updated = match self.get(id) {
            Some(inode) => Inode { key: inode.key.clone(), parent: inode.parent, kind: inode.kind, size, mtime_secs },
            None => {
                return;
            },
        };
        let ghost model = updated@;
        self.slots.set(id as usize, Some(updated));
        assert(self@.inodes =~= old(self)@.inodes.insert(id, model));
    }

    /// Moves one inode to a new key without renumbering it.
    ///
    /// A rename does not invalidate the client's file handle: the file keeps
    /// its identity across the move, so the id survives and only the key it
    /// points at changes.
    pub fn rekey(&mut self, id: u64, new_key: &str, new_parent: u64)
        requires
            old(self).well_formed(),
        ensures
            final(self).well_formed(),
            final(self)@.consistent(),
            final(self)@ == old(self)@.rekeyed(id, new_key@, new_parent),
    {
        let (old_key, moved) = match self.get(id) {
            Some(inode) => (
                inode.key.clone(),
                Inode { key: new_key.to_owned(), parent: new_parent, kind: inode.kind, size: inode.size, mtime_secs: inode.mtime_secs },
            ),
            None => {
                return;
            },
        };
        let ghost model = moved@;
        let points_here = match self.by_key.get(old_key.as_str()) {
            Some(mapped) => *mapped == id,
            None => false,
        };
        self.slots.set(id as usize, Some(moved));
        if points_here {
            let _ = self.by_key.remove(old_key.as_str());
        }
        self.by_key.insert(new_key.to_owned(), id);
        assert(self@.inodes =~= old(self)@.inodes.insert(id, model));
    }

    /// Moves every inode under `from_prefix` onto `to_prefix`, returning how
    /// many were rewritten. The client keeps its handles for everything inside
    /// a moved tree, so no id changes.
    pub fn rekey_prefix(&mut self, from_prefix: &str, to_prefix: &str) -> (count: usize)
        requires
            old(self).well_formed(),
        ensures
            final(self).well_formed(),
            final(self)@.consistent(),
            final(self)@.is_moved_from(old(self)@, from_prefix@, to_prefix@),
            count == old(self)@.inodes.dom().filter(|id: u64| old(self)@.moves(from_prefix@, id)).len(),
    {
        let ghost from = from_prefix@;
        let ghost to = to_prefix@;
        let ghost start = *self;
        let ghost mut moved: Set<u64> = Set::empty();
        let mut count: usize = 0;
        let mut index: usize = 0;
        while index < self.slots.len()
            invariant
                start.well_formed(),
                from == from_prefix@,
                to == to_prefix@,
                index <= self.slots@.len(),
                self.slots@.len() == start.slots@.len(),
                self.by_key.well_formed(),
                self.slots.len() == start.slots.len(),
                forall|j: int| 0 <= j < self.slots@.len() ==> {
                    &&& (#[trigger] self.slots@[j] is Some <==> start.slots@[j] is Some)
                    &&& self.slots@[j] is Some ==> (self.slots@[j]->0)@ == (if j < index && start@.moves(from, j as u64) {
                        InodeModel { key: start@.new_key_of(from, to, j as u64), ..start@.inodes[j as u64] }
                    } else {
                        start@.inodes[j as u64]
                    })
                },
                forall|key: Seq<char>| #[trigger] self.by_key@.contains_key(key) <==> {
                    ||| start@.ids.contains_key(key) && !(start@.ids[key] < index && start@.moves(from, start@.ids[key]))
                    ||| start@.is_target(from, to, index as int, key)
                },
                forall|key: Seq<char>| #[trigger] self.by_key@.contains_key(key) ==> {
                    if start@.is_target(from, to, index as int, key) {
                        &&& self.by_key@[key] < index
                        &&& start@.moves(from, self.by_key@[key])
                        &&& start@.new_key_of(from, to, self.by_key@[key]) == key
                    } else {
                        self.by_key@[key] == start@.ids[key]
                    }
                },
                moved.finite(),
                moved.len() == count,
                count <= index,
                forall|id: u64| #[trigger] moved.contains(id) <==> id < index && start@.moves(from, id),
            decreases self.slots@.len() - index,
        {
            let ghost before = self.by_key@;
            let rewritten = match &self.slots[index] {
                Some(inode) => match rewrite_key(inode.key.as_str(), from_prefix, to_prefix) {
                    Some(new_key) => Some((
                        inode.key.clone(),
                        Inode { key: new_key, parent: inode.parent, kind: inode.kind, size: inode.size, mtime_secs: inode.mtime_secs },
                    )),
                    None => None,
                },
                None => None,
            };
            let id: u64 = index as u64;
            assert(rewritten is Some <==> start@.moves(from, id));
            match rewritten {
                Some((old_key, inode)) => {
                    let new_key = inode.key.clone();
                    assert(new_key@ == start@.new_key_of(from, to, id));
                    let points_here = match self.by_key.get(old_key.as_str()) {
                        Some(mapped) => *mapped == id,
                        None => false,
                    };
                    self.slots.set(index, Some(inode));
                    if points_here {
                        let _ = self.by_key.remove(old_key.as_str());
                    }
                    self.by_key.insert(new_key, id);
                    count = count + 1;
                    proof {
                        moved = moved.insert(id);
                        assert forall|key: Seq<char>| start@.is_target(from, to, index + 1, key) <==> key == new_key@ || start@.is_target(
                            from,
                            to,
                            index as int,
                            key,
                        ) by {
                            if start@.is_target(from, to, index + 1, key) {
                                let who = choose|who: u64| who < index + 1 && #[trigger] start@.moves(from, who) && start@.new_key_of(from, to, who) == key;
                                if who == id {
                                } else {
                                    assert(who < index);
                                }
                            }
                        }
                        assert(start@.inodes[id].key == old_key@);
                    }
                },
                None => {
                    proof {
                        assert forall|key: Seq<char>| start@.is_target(from, to, index + 1, key) <==> start@.is_target(
                            from,
                            to,
                            index as int,
                            key,
                        ) by {
                            if start@.is_target(from, to, index + 1, key) {
                                let who = choose|who: u64| who < index + 1 && #[trigger] start@.moves(from, who) && start@.new_key_of(from, to, who) == key;
                                assert(who < index);
                            }
                        }
                    }
                },
            }
            index = index + 1;
        }
        proof {
            assert(moved =~= start@.inodes.dom().filter(|id: u64| start@.moves(from, id)));
            assert(self@.inodes =~= start@.inodes.map_entries(
                |id: u64, inode: InodeModel|
                    if from.is_prefix_of(inode.key) {
                        InodeModel { key: to + inode.key.skip(from.len() as int), ..inode }
                    } else {
                        inode
                    },
            ));
        }
        count
    }

    /// The ids of the inodes whose keys begin with a prefix, in order.
    pub fn ids_under(&self, prefix: &str) -> (ids: Vec<u64>)
        requires
            self.well_formed(),
        ensures
            forall|id: u64| #[trigger] ids@.contains(id) <==> self@.moves(prefix@, id),
            forall|i: int, j: int| 0 <= i < j < ids@.len() ==> ids@[i] < ids@[j],
    {
        let mut ids: Vec<u64> = Vec::new();
        let mut index: usize = 0;
        while index < self.slots.len()
            invariant
                index <= self.slots@.len(),
                forall|i: int| 0 <= i < ids@.len() ==> #[trigger] ids@[i] < index,
                forall|id: u64| #[trigger] ids@.contains(id) <==> id < index && self@.moves(prefix@, id),
                forall|i: int, j: int| 0 <= i < j < ids@.len() ==> ids@[i] < ids@[j],
            decreases self.slots@.len() - index,
        {
            let ghost before = ids@;
            let inside = match &self.slots[index] {
                Some(inode) => has_prefix(inode.key.as_str(), prefix),
                None => false,
            };
            assert(inside == self@.moves(prefix@, index as u64));
            if inside {
                ids.push(index as u64);
                assert forall|id: u64| #[trigger] ids@.contains(id) <==> before.contains(id) || id == index as u64 by {
                    if before.contains(id) {
                        let i = choose|i: int| 0 <= i < before.len() && before[i] == id;
                        assert(ids@[i] == id);
                    }
                    assert(ids@[before.len() as int] == index);
                    if ids@.contains(id) && id != index {
                        let i = choose|i: int| 0 <= i < ids@.len() && ids@[i] == id;
                        assert(before[i] == id);
                    }
                }
            }
            assert forall|id: u64| #[trigger] ids@.contains(id) <==> id < index + 1 && self@.moves(prefix@, id) by {
                assert(before.contains(id) <==> id < index && self@.moves(prefix@, id));
                if id == index as u64 {
                } else {
                    assert(id < index + 1 <==> id < index);
                }
            }
            index = index + 1;
        }
        ids
    }

    /// The inode behind a handle. A handle that was given out once and has
    /// been retired is stale; one that never was is unknown.
    pub fn inode(&self, id: u64) -> (found: Result<Inode, NfsStatus>)
        requires
            self.well_formed(),
        ensures
            self@.inodes.contains_key(id) ==> found is Ok && found->Ok_0@ == self@.inodes[id],
            !self@.inodes.contains_key(id) ==> found == Err::<Inode, NfsStatus>(
                if 0 < id < self@.next_id { NfsStatus::Stale } else { NfsStatus::NoEnt },
            ),
    {
        match self.get(id) {
            Some(inode) => Ok(inode.clone()),
            None => if id > 0 && id < self.slots.len() as u64 {
                Err(NfsStatus::Stale)
            } else {
                Err(NfsStatus::NoEnt)
            },
        }
    }

    /// The inode behind a handle that has to be a directory.
    pub fn dir_inode(&self, id: u64) -> (found: Result<Inode, NfsStatus>)
        requires
            self.well_formed(),
        ensures
            self@.inodes.contains_key(id) && self@.inodes[id].kind == EntryKind::Dir ==> found is Ok && found->Ok_0@
                == self@.inodes[id],
            self@.inodes.contains_key(id) && self@.inodes[id].kind != EntryKind::Dir ==> found == Err::<Inode, NfsStatus>(
                NfsStatus::NotDir,
            ),
            !self@.inodes.contains_key(id) ==> found == Err::<Inode, NfsStatus>(
                if 0 < id < self@.next_id { NfsStatus::Stale } else { NfsStatus::NoEnt },
            ),
    {
        let inode = self.inode(id)?;
        if inode.kind != EntryKind::Dir {
            return Err(NfsStatus::NotDir);
        }
        Ok(inode)
    }

    /// The directories whose listings a rename invalidates, by increasing id.
    /// Independent directory scans stay as they are.
    pub fn rename_affected_dirs(&self, from: &str, to: &str) -> (affected: Vec<u64>)
        requires
            self.well_formed(),
        ensures
            forall|id: u64| #[trigger] affected@.contains(id) <==> self@.listing_changes(from@, to@, id),
            forall|i: int, j: int| 0 <= i < j < affected@.len() ==> affected@[i] < affected@[j],
    {
        let from_parent = parent_key(from);
        let to_parent = parent_key(to);
        let is_directory = has_last(from, '/');
        let mut affected: Vec<u64> = Vec::new();
        let mut index: usize = 0;
        while index < self.slots.len()
            invariant
                index <= self.slots@.len(),
                from_parent@ == parent_of(from@),
                to_parent@ == parent_of(to@),
                is_directory == crate::text::ends_with(from@, '/'),
                forall|i: int| 0 <= i < affected@.len() ==> #[trigger] affected@[i] < index,
                forall|id: u64| #[trigger] affected@.contains(id) <==> id < index && self@.listing_changes(from@, to@, id),
                forall|i: int, j: int| 0 <= i < j < affected@.len() ==> affected@[i] < affected@[j],
            decreases self.slots@.len() - index,
        {
            let ghost before = affected@;
            let changes = match &self.slots[index] {
                Some(inode) => {
                    let key = inode.key.as_str();
                    inode.kind == EntryKind::Dir && (same_text(key, from_parent) || same_text(key, to_parent) || (is_directory
                        && (has_prefix(key, from) || has_prefix(key, to))))
                },
                None => false,
            };
            assert(changes == self@.listing_changes(from@, to@, index as u64));
            if changes {
                affected.push(index as u64);
                assert forall|id: u64| #[trigger] affected@.contains(id) <==> before.contains(id) || id == index as u64 by {
                    if before.contains(id) {
                        let i = choose|i: int| 0 <= i < before.len() && before[i] == id;
                        assert(affected@[i] == id);
                    }
                    assert(affected@[before.len() as int] == index);
                    if affected@.contains(id) && id != index {
                        let i = choose|i: int| 0 <= i < affected@.len() && affected@[i] == id;
                        assert(before[i] == id);
                    }
                }
            }
            assert forall|id: u64| #[trigger] affected@.contains(id) <==> id < index + 1 && self@.listing_changes(from@, to@, id) by {
                assert(before.contains(id) <==> id < index && self@.listing_changes(from@, to@, id));
                if id == index as u64 {
                } else {
                    assert(id < index + 1 <==> id < index);
                }
            }
            index = index + 1;
        }
        affected
    }
}

/// The directory that a key lies in, with its trailing slash.
pub open spec fn parent_of(key: Seq<char>) -> Seq<char> {
    let bare = keys::without_trailing_slash(key);
    bare.take(bare.len() - keys::after_last_slash(bare).len())
}

/// The directory that a key lies in, with its trailing slash.
pub fn parent_key(key: &str) -> (parent: &str)
    ensures
        parent@ == parent_of(key@),
{
    let name = entry_name(key);
    let name_length: usize = name.unicode_len();
    let mut bare_length: usize = key.unicode_len();
    if has_last(key, '/') {
        bare_length = bare_length - 1;
    }
    proof {
        keys::a_name_is_no_longer_than_its_key(key@);
    }
    assert(key@.subrange(0, bare_length - name_length) =~= parent_of(key@));
    key.substring_char(0, bare_length - name_length)
}

/// Whether an inode is the child `name` of the directory `dirid`, whose key is
/// `dir_key`.
pub fn inode_matches_child(dirid: u64, dir_key: &str, name: &str, inode: &Inode) -> (matching: bool)
    ensures
        matching <==> inode.parent == dirid && inode.key@ == keys::child_of(dir_key@, name@, inode.kind == EntryKind::Dir),
{
    let key = child_key(dir_key, name, inode.kind == EntryKind::Dir);
    inode.parent == dirid && same_text(inode.key.as_str(), key.as_str())
}

/// `std::str::from_utf8` accepts exactly the byte sequences that are valid
/// UTF-8, and the text it returns is what they encode.
#[verifier::external_body]
pub(crate) fn utf8_text(bytes: &[u8]) -> (text: Option<String>)
    ensures
        text is Some <==> vstd::utf8::valid_utf8(bytes@),
        text matches Some(t) ==> t@ == vstd::utf8::decode_utf8(bytes@),
{
    std::str::from_utf8(bytes).ok().map(|text| text.to_owned())
}

/// A name that a client may create or resolve.
pub open spec fn is_child_name(name: Seq<char>) -> bool {
    &&& name.len() > 0
    &&& name != "."@
    &&& name != ".."@
    &&& !name.contains('/')
}

/// Validates a name the client wants to create or resolve.
///
/// A name carrying a slash would compose a key outside the directory it was
/// sent for, so it is refused rather than normalized.
pub fn child_name(filename: &[u8]) -> (name: Result<String, NfsStatus>)
    ensures
        name is Ok <==> vstd::utf8::valid_utf8(filename@) && is_child_name(vstd::utf8::decode_utf8(filename@)),
        name matches Ok(text) ==> text@ == vstd::utf8::decode_utf8(filename@),
        name matches Err(status) ==> status == NfsStatus::Inval,
{
    match utf8_text(filename) {
        Some(name) => {
            if name.as_str().is_empty() || same_text(name.as_str(), ".") || same_text(name.as_str(), "..")
                || has_char(name.as_str(), '/') {
                Err(NfsStatus::Inval)
            } else {
                Ok(name)
            }
        },
        None => Err(NfsStatus::Inval),
    }
}

/// A name that passes validation composes a key inside its own directory, and
/// that key carries it.
pub proof fn a_valid_name_stays_in_its_directory(dir_key: Seq<char>, name: Seq<char>, is_dir: bool)
    requires
        keys::is_dir_key(dir_key),
        is_child_name(name),
    ensures
        dir_key.is_prefix_of(keys::child_of(dir_key, name, is_dir)),
        parent_of(keys::child_of(dir_key, name, is_dir)) == dir_key,
        keys::name_of(keys::child_of(dir_key, name, is_dir)) == name,
{
    let key = keys::child_of(dir_key, name, is_dir);
    keys::a_child_key_carries_its_name(dir_key, name, is_dir);
    assert(name.contains(name.last()));
    let bare = keys::without_trailing_slash(key);
    assert((dir_key + name).last() == name.last());
    assert(bare =~= dir_key + name);
    assert(dir_key =~= key.subrange(0, dir_key.len() as int));
    assert(parent_of(key) =~= dir_key);
}

/// Two keys never share an id.
pub proof fn distinct_keys_have_distinct_ids(table: TableModel, key: Seq<char>, other: Seq<char>)
    requires
        table.consistent(),
        table.ids.contains_key(key),
        table.ids.contains_key(other),
        table.ids[key] == table.ids[other],
    ensures
        key == other,
{
}

/// A new key gets an id that no inode has had before: it is the next one, all
/// that were given out lie below it, and no operation moves it back.
pub proof fn an_id_is_given_out_once(table: TableModel, inode: InodeModel, id: u64, key: Seq<char>, parent: u64)
    requires
        table.consistent(),
        table.next_id < u64::MAX,
        !table.ids.contains_key(inode.key),
    ensures
        !table.inodes.contains_key(table.id_for(inode.key)),
        table.id_for(inode.key) == table.next_id,
        table.interned(inode).next_id == table.next_id + 1,
        table.retired(id).next_id == table.next_id,
        table.rekeyed(id, key, parent).next_id == table.next_id,
{
}

/// Seeing a key again gives the id it already had, whatever its attributes.
pub proof fn relisting_keeps_the_id(table: TableModel, inode: InodeModel, again: InodeModel)
    requires
        again.key == inode.key,
    ensures
        table.interned(inode).id_for(again.key) == table.id_for(inode.key),
        table.interned(inode).interned(again).ids == table.interned(inode).ids,
{
    assert(table.interned(inode).interned(again).ids =~= table.interned(inode).ids);
}

/// A renamed file keeps its id: the new key leads to it, and the old key, if
/// it led to it, leads nowhere.
pub proof fn a_rename_keeps_the_id(table: TableModel, id: u64, key: Seq<char>, parent: u64)
    requires
        table.consistent(),
        table.inodes.contains_key(id),
    ensures
        table.rekeyed(id, key, parent).id_for(key) == id,
        table.rekeyed(id, key, parent).inodes[id].key == key,
        table.is_current(id) && table.inodes[id].key != key ==> !table.rekeyed(id, key, parent).ids.contains_key(
            table.inodes[id].key,
        ),
        table.rekeyed(id, key, parent).consistent(),
{
}

/// The type of a file system object.
#[derive(Clone, Copy, Debug, PartialEq, Eq, Structural)]
pub enum FileType {
    Directory,
    Regular,
}

/// The attributes reported for a file or directory.
#[derive(Clone, Copy, Debug, PartialEq, Eq, Structural)]
pub struct FileAttributes {
    pub file_type: FileType,
    pub mode: u32,
    pub nlink: u32,
    pub uid: u32,
    pub gid: u32,
    pub size: u64,
    pub used: u64,
    pub fsid: u64,
    pub fileid: u64,
    /// Access, modification and change time alike.
    pub time_secs: u32,
}

/// Who owns what a mount shows.
#[derive(Clone, Copy, Debug, PartialEq, Eq, Structural)]
pub struct MountOwner {
    pub uid: u32,
    pub gid: u32,
    pub fsid: u64,
}

/// The attributes of an inode as the bucket has it.
pub open spec fn attributes_of(owner: MountOwner, id: u64, inode: InodeModel) -> FileAttributes {
    let dir = inode.kind == EntryKind::Dir;
    let size = if dir { DIR_SIZE } else { inode.size };
    FileAttributes {
        file_type: if dir { FileType::Directory } else { FileType::Regular },
        mode: if dir { DIR_MODE } else { FILE_MODE },
        nlink: if dir { 2u32 } else { 1u32 },
        uid: owner.uid,
        gid: owner.gid,
        size,
        used: size,
        fsid: owner.fsid,
        fileid: id,
        time_secs: inode.mtime_secs,
    }
}

/// The attributes of an inode as the bucket has it.
pub fn attr_of(owner: MountOwner, id: u64, inode: &Inode) -> (attributes: FileAttributes)
    ensures
        attributes == attributes_of(owner, id, inode@),
{
    let dir = inode.kind == EntryKind::Dir;
    let size: u64 = if dir { DIR_SIZE } else { inode.size };
    FileAttributes {
        file_type: if dir { FileType::Directory } else { FileType::Regular },
        mode: if dir { DIR_MODE } else { FILE_MODE },
        nlink: if dir { 2 } else { 1 },
        uid: owner.uid,
        gid: owner.gid,
        size,
        used: size,
        fsid: owner.fsid,
        fileid: id,
        time_secs: inode.mtime_secs,
    }
}

/// Attributes of a file whose staged content has not been uploaded yet: the
/// staged size and time in place of the object's.
pub fn staged_attr(owner: MountOwner, id: u64, inode: &Inode, size: u64, mtime_secs: u32) -> (attributes: FileAttributes)
    ensures
        attributes == (FileAttributes { size, used: size, time_secs: mtime_secs, ..attributes_of(owner, id, inode@) }),
{
    let base = attr_of(owner, id, inode);
    FileAttributes { size, used: size, time_secs: mtime_secs, ..base }
}

/// A key that was seen leads to an inode with what was seen of it, under the
/// id that it had or the next one; no other id and no other key is touched.
pub proof fn what_was_seen_is_found(table: TableModel, inode: InodeModel, id: u64, key: Seq<char>)
    requires
        table.consistent(),
        table.next_id <= u64::MAX,
        key != inode.key,
        id != table.interned(inode).ids[inode.key],
    ensures
        table.interned(inode).ids.contains_key(inode.key),
        table.interned(inode).inodes.contains_pair(table.interned(inode).ids[inode.key], inode),
        table.ids.contains_key(inode.key) ==> table.interned(inode).ids[inode.key] == table.ids[inode.key] && table.interned(inode).next_id
            == table.next_id,
        !table.ids.contains_key(inode.key) ==> table.interned(inode).ids[inode.key] == table.next_id && table.interned(inode).next_id
            == table.next_id + 1,
        table.interned(inode).ids.contains_key(key) <==> table.ids.contains_key(key),
        table.ids.contains_key(key) ==> table.interned(inode).ids[key] == table.ids[key],
        table.interned(inode).inodes.contains_key(id) <==> table.inodes.contains_key(id),
        table.inodes.contains_key(id) ==> table.interned(inode).inodes[id] == table.inodes[id],
{
}

/// A retired id stands for nothing any more, its key has no id unless another
/// one took it, and the id is not given out again. All others stay.
pub proof fn a_retired_id_is_gone(table: TableModel, id: u64, other: u64, key: Seq<char>)
    requires
        table.consistent(),
        table.inodes.contains_key(id),
        other != id,
    ensures
        !table.retired(id).inodes.contains_key(id),
        table.retired(id).next_id == table.next_id,
        table.retired(id).inodes.contains_key(other) <==> table.inodes.contains_key(other),
        table.inodes.contains_key(other) ==> table.retired(id).inodes[other] == table.inodes[other],
        table.ids.contains_pair(table.inodes[id].key, id) ==> !table.retired(id).ids.contains_key(table.inodes[id].key),
        table.ids.contains_key(key) && table.ids[key] != id ==> table.retired(id).ids.contains_pair(key, table.ids[key]),
        table.retired(id).ids.contains_key(key) ==> table.ids.contains_key(key) && table.retired(id).ids[key] == table.ids[key]
            && table.retired(id).ids[key] != id,
{
}

/// A moved inode keeps its id, its kind, its size and its time; it is found
/// under its new key and not under the old one.
pub proof fn a_moved_inode_is_found_under_its_new_key(table: TableModel, id: u64, key: Seq<char>, parent: u64)
    requires
        table.consistent(),
        table.inodes.contains_key(id),
        table.ids.contains_pair(table.inodes[id].key, id),
    ensures
        table.rekeyed(id, key, parent).ids.contains_pair(key, id),
        table.rekeyed(id, key, parent).inodes[id] == (InodeModel {
            key,
            parent,
            kind: table.inodes[id].kind,
            size: table.inodes[id].size,
            mtime_secs: table.inodes[id].mtime_secs,
        }),
        key != table.inodes[id].key ==> !table.rekeyed(id, key, parent).ids.contains_key(table.inodes[id].key),
        table.rekeyed(id, key, parent).next_id == table.next_id,
        forall|other: u64|
            other != id ==> (#[trigger] table.rekeyed(id, key, parent).inodes.contains_key(other) <==> table.inodes.contains_key(other)),
{
}

/// An id that stands for nothing is not moved and gets no attributes.
pub proof fn an_unknown_id_changes_nothing(table: TableModel, id: u64, key: Seq<char>, parent: u64, size: u64, mtime_secs: u32)
    requires
        !table.inodes.contains_key(id),
    ensures
        table.rekeyed(id, key, parent) == table,
        table.with_attrs(id, size, mtime_secs) == table,
{
}

/// New attributes are those of their id, and touch nothing else.
pub proof fn new_attributes_belong_to_their_id(table: TableModel, id: u64, size: u64, mtime_secs: u32, other: u64)
    requires
        table.inodes.contains_key(id),
        other != id,
    ensures
        table.with_attrs(id, size, mtime_secs).inodes.contains_key(id),
        table.with_attrs(id, size, mtime_secs).inodes[id].size == size,
        table.with_attrs(id, size, mtime_secs).inodes[id].mtime_secs == mtime_secs,
        table.with_attrs(id, size, mtime_secs).inodes[id].key == table.inodes[id].key,
        table.with_attrs(id, size, mtime_secs).inodes[id].kind == table.inodes[id].kind,
        table.with_attrs(id, size, mtime_secs).inodes[id].parent == table.inodes[id].parent,
        table.with_attrs(id, size, mtime_secs).ids == table.ids,
        table.with_attrs(id, size, mtime_secs).next_id == table.next_id,
        table.inodes.contains_key(other) ==> table.with_attrs(id, size, mtime_secs).inodes.contains_pair(other, table.inodes[other]),
{
}

/// A directory that moves takes along what lies under it, and nothing else:
/// each key changes at its beginning only.
pub proof fn a_moved_tree_keeps_its_shape(after: TableModel, before: TableModel, from: Seq<char>, to: Seq<char>, id: u64, rest: Seq<char>)
    requires
        after.is_moved_from(before, from, to),
        before.inodes.contains_key(id),
    ensures
        after.inodes.contains_key(id),
        before.inodes[id].key == from + rest ==> after.inodes[id].key == to + rest,
        !from.is_prefix_of(before.inodes[id].key) ==> after.inodes[id] == before.inodes[id],
        after.inodes[id].kind == before.inodes[id].kind,
        after.inodes[id].size == before.inodes[id].size,
        after.inodes[id].mtime_secs == before.inodes[id].mtime_secs,
        after.inodes[id].parent == before.inodes[id].parent,
        after.next_id == before.next_id,
{
    if before.inodes[id].key == from + rest {
        assert((from + rest).subrange(0, from.len() as int) =~= from);
        assert((from + rest).skip(from.len() as int) =~= rest);
    }
}

/// A child lies in the directory that its key was made in.
pub proof fn a_child_lies_in_its_directory(dir_key: Seq<char>, name: Seq<char>, is_dir: bool)
    requires
        keys::is_dir_key(dir_key),
        keys::is_entry_name(name),
    ensures
        parent_of(keys::child_of(dir_key, name, is_dir)) == dir_key,
{
    keys::a_child_key_carries_its_name(dir_key, name, is_dir);
    let key = keys::child_of(dir_key, name, is_dir);
    let bare = keys::without_trailing_slash(key);
    if is_dir {
        assert(bare =~= dir_key + name);
    } else {
        assert(key.last() == name.last());
        assert(name.contains(name.last())) by {
            assert(name[name.len() - 1] == name.last());
        }
        assert(bare == dir_key + name);
    }
    assert(keys::after_last_slash(bare) == name);
    assert(bare.take(bare.len() - name.len()) =~= dir_key);
}

/// A client may use every name but the empty one, the two that stand for the
/// directory itself and the one above, and those with a slash.
pub proof fn a_name_with_a_slash_is_refused(name: Seq<char>)
    ensures
        is_child_name(name) ==> keys::is_entry_name(name) && name != seq!['.'] && name != seq!['.', '.'],
        keys::is_entry_name(name) && name != seq!['.'] && name != seq!['.', '.'] ==> is_child_name(name),
{
    reveal_strlit(".");
    reveal_strlit("..");
    assert("."@ =~= seq!['.']);
    assert(".."@ =~= seq!['.', '.']);
}

/// A directory is shown as one, with a fixed size and two links; a file with
/// its own size and one link. Both belong to the mount's owner and carry their
/// own id and time.
pub proof fn attributes_say_what_the_inode_is(owner: MountOwner, id: u64, inode: InodeModel)
    ensures
        ({
            let shown = attributes_of(owner, id, inode);
            &&& shown.fileid == id
            &&& shown.uid == owner.uid && shown.gid == owner.gid && shown.fsid == owner.fsid
            &&& shown.time_secs == inode.mtime_secs
            &&& shown.used == shown.size
            &&& inode.kind == EntryKind::File ==> shown.file_type == FileType::Regular && shown.size == inode.size && shown.nlink == 1
                && shown.mode == 0o644
            &&& inode.kind == EntryKind::Dir ==> shown.file_type == FileType::Directory && shown.size == 4096 && shown.nlink == 2
                && shown.mode == 0o755
        }),
{
}

/// Staged content is shown with its own size and time, as the file it is.
pub proof fn staged_content_is_shown_as_it_is(
    owner: MountOwner,
    id: u64,
    inode: Inode,
    size: u64,
    mtime_secs: u32,
    shown: FileAttributes,
)
    requires
        call_ensures(staged_attr, (owner, id, &inode, size, mtime_secs), shown),
    ensures
        shown.size == size,
        shown.used == size,
        shown.time_secs == mtime_secs,
        shown.fileid == id,
        shown.uid == owner.uid,
        shown.gid == owner.gid,
        inode.kind == EntryKind::File ==> shown.file_type == FileType::Regular && shown.mode == 0o644 && shown.nlink == 1,
{
}

/// A rename changes the listings of the two directories it leads from and to,
/// and those inside a moved tree; it changes no file's.
pub proof fn a_rename_changes_the_listings_it_touches(table: TableModel, from: Seq<char>, to: Seq<char>, id: u64)
    requires
        table.inodes.contains_key(id),
    ensures
        table.inodes[id].kind == EntryKind::File ==> !table.listing_changes(from, to, id),
        table.inodes[id].kind == EntryKind::Dir && (table.inodes[id].key == parent_of(from) || table.inodes[id].key == parent_of(to))
            ==> table.listing_changes(from, to, id),
        table.inodes[id].kind == EntryKind::Dir && crate::text::ends_with(from, '/') && from.is_prefix_of(table.inodes[id].key)
            ==> table.listing_changes(from, to, id),
        table.inodes[id].kind == EntryKind::Dir && crate::text::ends_with(from, '/') && to.is_prefix_of(table.inodes[id].key)
            ==> table.listing_changes(from, to, id),
{
}

/// An id is answered with its inode; one that was given out and is gone is
/// stale, and one that never was is unknown. A file is no directory.
pub proof fn a_lost_id_is_stale(table: InodeTable, id: u64, found: Result<Inode, NfsStatus>, dir: Result<Inode, NfsStatus>)
    requires
        call_ensures(InodeTable::inode, (&table, id), found),
        call_ensures(InodeTable::dir_inode, (&table, id), dir),
    ensures
        found is Ok <==> table@.inodes.contains_key(id),
        found is Ok ==> (found->Ok_0)@ == table@.inodes[id],
        found is Err && 0 < id < table@.next_id ==> found->Err_0 == NfsStatus::Stale,
        found is Err && (id == 0 || id >= table@.next_id) ==> found->Err_0 == NfsStatus::NoEnt,
        dir is Ok <==> table@.inodes.contains_key(id) && table@.inodes[id].kind == EntryKind::Dir,
        dir is Ok ==> (dir->Ok_0)@ == table@.inodes[id],
        table@.inodes.contains_key(id) && table@.inodes[id].kind == EntryKind::File ==> dir == Err::<Inode, NfsStatus>(NfsStatus::NotDir),
        !table@.inodes.contains_key(id) && dir is Err ==> dir->Err_0 == NfsStatus::Stale || dir->Err_0 == NfsStatus::NoEnt,
{
}

/// A new table knows the root alone.
pub proof fn a_new_table_knows_the_root(table: InodeTable)
    requires
        call_ensures(InodeTable::new, (), table),
    ensures
        table@.next_id == 2,
        table@.inodes.contains_key(1),
        table@.inodes[1].kind == EntryKind::Dir,
        table@.inodes[1].key.len() == 0,
        table@.inodes[1].parent == 1,
        table@.ids.contains_key(Seq::empty()),
        table@.ids[Seq::<char>::empty()] == 1,
{
}

/// What is interned is found under its key; what is removed is found no more.
pub proof fn what_is_interned_is_found(key: &str, parent: u64, kind: EntryKind, size: u64, mtime_secs: u32, id: u64)
    ensures
        forall|table: &mut InodeTable, given: u64| #[trigger]
            call_ensures(InodeTable::intern, (table, key, parent, kind, size, mtime_secs), given) ==> {
                &&& final(table)@.ids.contains_pair(key@, given)
                &&& final(table)@.inodes.contains_pair(given, InodeModel { key: key@, parent, kind, size, mtime_secs })
                &&& (*table)@.ids.contains_key(key@) ==> given == (*table)@.ids[key@]
                &&& !(*table)@.ids.contains_key(key@) ==> given == (*table)@.next_id
            },
        forall|table: &mut InodeTable| #[trigger]
            call_ensures(InodeTable::remove, (table, id), ()) ==> !final(table)@.inodes.contains_key(id) && final(table)@.next_id
                == (*table)@.next_id,
{
}

/// After a directory moved, the new key of what lay under it leads to an inode
/// that lay at the old one, and a key that lies under neither leads where it
/// led.
pub proof fn moved_keys_lead_to_their_inodes(
    after: TableModel,
    before: TableModel,
    from: Seq<char>,
    to: Seq<char>,
    id: u64,
    rest: Seq<char>,
    other: Seq<char>,
)
    requires
        after.is_moved_from(before, from, to),
        before.consistent(),
        before.inodes.contains_key(id),
        before.inodes[id].key == from + rest,
    ensures
        after.ids.contains_key(to + rest),
        before.inodes.contains_key(after.ids[to + rest]),
        before.inodes[after.ids[to + rest]].key == from + rest,
        before.ids.contains_key(other) && !from.is_prefix_of(other) && !to.is_prefix_of(other) ==> after.ids.contains_pair(
            other,
            before.ids[other],
        ),
        !before.ids.contains_key(other) && !to.is_prefix_of(other) ==> !after.ids.contains_key(other),
{
    let limit = before.next_id as int;
    let key = to + rest;
    assert((from + rest).subrange(0, from.len() as int) =~= from);
    assert((from + rest).skip(from.len() as int) =~= rest);
    assert(before.moves(from, id));
    assert(before.new_key_of(from, to, id) == key);
    assert(before.is_target(from, to, limit, key));
    assert(after.ids.contains_key(key));
    let found = after.ids[key];
    let old_key = before.inodes[found].key;
    assert(before.moves(from, found));
    let tail = old_key.skip(from.len() as int);
    assert(to + tail == to + rest);
    assert((to + tail).skip(to.len() as int) =~= tail);
    assert((to + rest).skip(to.len() as int) =~= rest);
    assert(old_key =~= from + tail);
    if !to.is_prefix_of(other) {
        assert(!before.is_target(from, to, limit, other)) by {
            if before.is_target(from, to, limit, other) {
                let mover = choose|mover: u64| mover < limit && #[trigger] before.moves(from, mover) && before.new_key_of(from, to, mover) == other;
                let moved = before.inodes[mover].key.skip(from.len() as int);
                assert((to + moved).subrange(0, to.len() as int) =~= to);
                assert(to.is_prefix_of(to + moved));
            }
        }
        if before.ids.contains_key(other) && !from.is_prefix_of(other) {
            assert(before.inodes[before.ids[other]].key == other);
            assert(after.ids.contains_key(other));
        }
    }
}

} // verus!
