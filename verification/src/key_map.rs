//! A map from text keys to values, kept in key order.
//!
//! The entries stand in one vector, strictly sorted by code point, so a lookup
//! is a binary search and a walk by index visits the keys in order.

use vstd::prelude::*;
use crate::text;
use crate::text::{text_order, TextOrder};

verus! {

/// The keys stand in strictly increasing order.
pub open spec fn in_key_order<V>(entries: Seq<(Seq<char>, V)>) -> bool {
    forall|i: int, j: int| 0 <= i < j < entries.len() ==> text::precedes(#[trigger] entries[i].0, #[trigger] entries[j].0)
}

/// The entry at `index` has this key.
pub open spec fn key_stands_at<V>(entries: Seq<(Seq<char>, V)>, key: Seq<char>, index: int) -> bool {
    0 <= index < entries.len() && entries[index].0 == key
}

/// The map that a sequence of entries stands for.
pub open spec fn map_of<V>(entries: Seq<(Seq<char>, V)>) -> Map<Seq<char>, V> {
    Map::new(
        |key: Seq<char>| exists|i: int| key_stands_at(entries, key, i),
        |key: Seq<char>| entries[choose|i: int| key_stands_at(entries, key, i)].1,
    )
}

/// In a sorted sequence an entry is what the map holds under its key.
pub proof fn the_map_holds_each_entry<V>(entries: Seq<(Seq<char>, V)>, index: int)
    requires
        in_key_order(entries),
        0 <= index < entries.len(),
    ensures
        map_of(entries).contains_key(entries[index].0),
        map_of(entries)[entries[index].0] == entries[index].1,
{
    let key = entries[index].0;
    assert(key_stands_at(entries, key, index));
    let found = choose|i: int| key_stands_at(entries, key, i);
    if found < index {
        text::precedes_is_irreflexive(key);
    } else if found > index {
        text::precedes_is_irreflexive(key);
    }
}

/// What the map holds stands somewhere in the sequence.
pub proof fn each_key_stands_somewhere<V>(entries: Seq<(Seq<char>, V)>, key: Seq<char>) -> (index: int)
    requires
        in_key_order(entries),
        map_of(entries).contains_key(key),
    ensures
        key_stands_at(entries, key, index),
        map_of(entries)[key] == entries[index].1,
{
    let index = choose|i: int| key_stands_at(entries, key, i);
    index
}

/// A sorted sequence has as many entries as its map has keys.
pub proof fn the_map_has_one_key_per_entry<V>(entries: Seq<(Seq<char>, V)>)
    requires
        in_key_order(entries),
    ensures
        map_of(entries).dom().finite(),
        map_of(entries).dom().len() == entries.len(),
{
    let keys = entries.map_values(|entry: (Seq<char>, V)| entry.0);
    assert(keys.no_duplicates()) by {
        assert forall|i: int, j: int| 0 <= i < keys.len() && 0 <= j < keys.len() && i != j implies keys[i] != keys[j] by {
            text::precedes_is_irreflexive(keys[i]);
            if i < j {
                assert(text::precedes(entries[i].0, entries[j].0));
            } else {
                assert(text::precedes(entries[j].0, entries[i].0));
            }
        }
    }
    keys.unique_seq_to_set();
    assert(map_of(entries).dom() =~= keys.to_set()) by {
        assert forall|key: Seq<char>| map_of(entries).dom().contains(key) <==> keys.to_set().contains(key) by {
            if map_of(entries).contains_key(key) {
                let i = each_key_stands_somewhere(entries, key);
                assert(keys[i] == key);
            }
            if keys.to_set().contains(key) {
                let i = choose|i: int| 0 <= i < keys.len() && keys[i] == key;
                assert(key_stands_at(entries, key, i));
            }
        }
    }
}

proof fn inserting_keeps_order<V>(entries: Seq<(Seq<char>, V)>, key: Seq<char>, value: V, index: int)
    requires
        in_key_order(entries),
        0 <= index <= entries.len(),
        forall|i: int| 0 <= i < index ==> text::precedes(#[trigger] entries[i].0, key),
        forall|i: int| index <= i < entries.len() ==> text::precedes(key, #[trigger] entries[i].0),
    ensures
        in_key_order(entries.insert(index, (key, value))),
        map_of(entries.insert(index, (key, value))) == map_of(entries).insert(key, value),
{
    let grown = entries.insert(index, (key, value));
    assert(in_key_order(grown));
    assert forall|k: Seq<char>| #[trigger] map_of(grown).contains_key(k) <==> map_of(entries).insert(key, value).contains_key(k) by {
        if map_of(grown).contains_key(k) && k != key {
            let i = each_key_stands_somewhere(grown, k);
            let j = if i < index { i } else { i - 1 };
            assert(key_stands_at(entries, k, j));
        }
        if map_of(entries).contains_key(k) {
            let i = each_key_stands_somewhere(entries, k);
            let j = if i < index { i } else { i + 1 };
            assert(key_stands_at(grown, k, j));
        }
        assert(key_stands_at(grown, key, index));
    }
    assert forall|k: Seq<char>| #[trigger] map_of(grown).contains_key(k) implies map_of(grown)[k] == map_of(entries).insert(key, value)[k] by {
        let i = each_key_stands_somewhere(grown, k);
        if i == index {
            assert(k == key);
        } else {
            let j = if i < index { i } else { i - 1 };
            assert(entries[j] == grown[i]);
            the_map_holds_each_entry(entries, j);
            if k == key {
                text::precedes_is_irreflexive(key);
            }
        }
    }
    assert(map_of(grown) =~= map_of(entries).insert(key, value));
}

/// Taking one entry more adds that entry to the map.
pub proof fn taking_one_more<V>(entries: Seq<(Seq<char>, V)>, count: int)
    requires
        in_key_order(entries),
        0 <= count < entries.len(),
    ensures
        in_key_order(entries.take(count)),
        in_key_order(entries.take(count + 1)),
        map_of(entries.take(count + 1)) == map_of(entries.take(count)).insert(entries[count].0, entries[count].1),
        !map_of(entries.take(count)).contains_key(entries[count].0),
{
    let shorter = entries.take(count);
    assert forall|i: int, j: int| 0 <= i < j < shorter.len() implies text::precedes(#[trigger] shorter[i].0, #[trigger] shorter[j].0) by {
        assert(text::precedes(entries[i].0, entries[j].0));
    }
    assert forall|i: int| 0 <= i < count implies text::precedes(#[trigger] shorter[i].0, entries[count].0) by {
        assert(shorter[i] == entries[i]);
    }
    inserting_keeps_order(shorter, entries[count].0, entries[count].1, count);
    assert(shorter.insert(count, (entries[count].0, entries[count].1)) =~= entries.take(count + 1));
    if map_of(shorter).contains_key(entries[count].0) {
        let i = each_key_stands_somewhere(shorter, entries[count].0);
        text::precedes_is_irreflexive(entries[count].0);
    }
}

proof fn updating_keeps_order<V>(entries: Seq<(Seq<char>, V)>, value: V, index: int)
    requires
        in_key_order(entries),
        0 <= index < entries.len(),
    ensures
        in_key_order(entries.update(index, (entries[index].0, value))),
        map_of(entries.update(index, (entries[index].0, value))) == map_of(entries).insert(entries[index].0, value),
{
    let key = entries[index].0;
    let changed = entries.update(index, (key, value));
    assert(in_key_order(changed));
    assert forall|k: Seq<char>| #[trigger] map_of(changed).contains_key(k) <==> map_of(entries).insert(key, value).contains_key(k) by {
        if map_of(changed).contains_key(k) {
            let i = each_key_stands_somewhere(changed, k);
            assert(key_stands_at(entries, k, i));
        }
        if map_of(entries).contains_key(k) {
            let i = each_key_stands_somewhere(entries, k);
            assert(key_stands_at(changed, k, i));
        }
        assert(key_stands_at(changed, key, index));
    }
    assert forall|k: Seq<char>| #[trigger] map_of(changed).contains_key(k) implies map_of(changed)[k] == map_of(entries).insert(key, value)[k] by {
        let i = each_key_stands_somewhere(changed, k);
        if i == index {
            assert(k == key);
        } else {
            the_map_holds_each_entry(entries, i);
            if k == key {
                text::precedes_is_irreflexive(key);
            }
        }
    }
    assert(map_of(changed) =~= map_of(entries).insert(key, value));
}

proof fn removing_keeps_order<V>(entries: Seq<(Seq<char>, V)>, index: int)
    requires
        in_key_order(entries),
        0 <= index < entries.len(),
    ensures
        in_key_order(entries.remove(index)),
        map_of(entries.remove(index)) == map_of(entries).remove(entries[index].0),
{
    let key = entries[index].0;
    let shrunk = entries.remove(index);
    assert(in_key_order(shrunk));
    assert forall|k: Seq<char>| #[trigger] map_of(shrunk).contains_key(k) <==> map_of(entries).remove(key).contains_key(k) by {
        if map_of(shrunk).contains_key(k) {
            let i = each_key_stands_somewhere(shrunk, k);
            let j = if i < index { i } else { i + 1 };
            assert(key_stands_at(entries, k, j));
            if k == key {
                text::precedes_is_irreflexive(key);
            }
        }
        if map_of(entries).contains_key(k) && k != key {
            let i = each_key_stands_somewhere(entries, k);
            let j = if i < index { i } else { i - 1 };
            assert(key_stands_at(shrunk, k, j));
        }
    }
    assert forall|k: Seq<char>| #[trigger] map_of(shrunk).contains_key(k) implies map_of(shrunk)[k] == map_of(entries).remove(key)[k] by {
        let i = each_key_stands_somewhere(shrunk, k);
        let j = if i < index { i } else { i + 1 };
        the_map_holds_each_entry(entries, j);
    }
    assert(map_of(shrunk) =~= map_of(entries).remove(key));
}

/// Sorted sequences that stand for the same map are the same.
pub proof fn sorted_entries_are_unique<V>(a: Seq<(Seq<char>, V)>, b: Seq<(Seq<char>, V)>)
    requires
        in_key_order(a),
        in_key_order(b),
        map_of(a) == map_of(b),
    ensures
        a == b,
    decreases a.len(),
{
    the_map_has_one_key_per_entry(a);
    the_map_has_one_key_per_entry(b);
    if a.len() == 0 {
        assert(a =~= b);
    } else {
        let last = a.len() - 1;
        the_map_holds_each_entry(a, last);
        the_map_holds_each_entry(b, last);
        let in_a = each_key_stands_somewhere(a, b[last].0);
        let in_b = each_key_stands_somewhere(b, a[last].0);
        if a[last].0 != b[last].0 {
            assert(text::precedes(b[last].0, a[last].0));
            assert(text::precedes(a[last].0, b[last].0));
            text::precedes_is_asymmetric(a[last].0, b[last].0);
        }
        removing_keeps_order(a, last);
        removing_keeps_order(b, last);
        sorted_entries_are_unique(a.remove(last), b.remove(last));
        assert(a =~= a.remove(last).push(a[last]));
        assert(b =~= b.remove(last).push(b[last]));
    }
}

/// The entries of a map in key order.
pub open spec fn sorted_entries<V>(map: Map<Seq<char>, V>) -> Seq<(Seq<char>, V)> {
    choose|entries: Seq<(Seq<char>, V)>| in_key_order(entries) && #[trigger] map_of(entries) == map
}

/// A sorted sequence is the sorted sequence of its map.
pub proof fn a_sorted_sequence_is_the_sorted_one<V>(entries: Seq<(Seq<char>, V)>)
    requires
        in_key_order(entries),
    ensures
        sorted_entries(map_of(entries)) == entries,
{
    sorted_entries_are_unique(sorted_entries(map_of(entries)), entries);
}

/// The parts of a sorted sequence are sorted, and their maps are apart.
pub proof fn splitting_keeps_order<V>(entries: Seq<(Seq<char>, V)>, count: int)
    requires
        in_key_order(entries),
        0 <= count <= entries.len(),
    ensures
        in_key_order(entries.take(count)),
        in_key_order(entries.skip(count)),
        forall|key: Seq<char>| #[trigger] map_of(entries.skip(count)).contains_key(key) ==> map_of(entries).contains_key(key)
            && map_of(entries.skip(count))[key] == map_of(entries)[key],
        forall|i: int, key: Seq<char>|
            0 <= i < count && #[trigger] map_of(entries.skip(count)).contains_key(key) ==> text::precedes(#[trigger] entries[i].0, key),
        forall|key: Seq<char>| #[trigger] map_of(entries).contains_key(key) ==> map_of(entries.skip(count)).contains_key(key)
            || exists|i: int| 0 <= i < count && (#[trigger] entries[i]).0 == key,
{
    let rest = entries.skip(count);
    assert forall|i: int, j: int| 0 <= i < j < rest.len() implies text::precedes(#[trigger] rest[i].0, #[trigger] rest[j].0) by {
        assert(text::precedes(entries[i + count].0, entries[j + count].0));
    }
    let first = entries.take(count);
    assert forall|i: int, j: int| 0 <= i < j < first.len() implies text::precedes(#[trigger] first[i].0, #[trigger] first[j].0) by {
        assert(text::precedes(entries[i].0, entries[j].0));
    }
    assert forall|key: Seq<char>| #[trigger] map_of(rest).contains_key(key) implies map_of(entries).contains_key(key) && map_of(rest)[key]
        == map_of(entries)[key] by {
        let i = each_key_stands_somewhere(rest, key);
        the_map_holds_each_entry(entries, i + count);
    }
    assert forall|i: int, key: Seq<char>| 0 <= i < count && #[trigger] map_of(rest).contains_key(key) implies text::precedes(
        #[trigger] entries[i].0,
        key,
    ) by {
        let j = each_key_stands_somewhere(rest, key);
        assert(text::precedes(entries[i].0, entries[j + count].0));
    }
    assert forall|key: Seq<char>| #[trigger] map_of(entries).contains_key(key) implies map_of(rest).contains_key(key) || exists|i: int|
        0 <= i < count && (#[trigger] entries[i]).0 == key by {
        let i = each_key_stands_somewhere(entries, key);
        if i >= count {
            assert(key_stands_at(rest, key, i - count));
        }
    }
}

proof fn a_new_key_has_a_place<V>(entries: Seq<(Seq<char>, V)>, key: Seq<char>) -> (index: int)
    requires
        in_key_order(entries),
        !map_of(entries).contains_key(key),
    ensures
        0 <= index <= entries.len(),
        forall|i: int| 0 <= i < index ==> text::precedes(#[trigger] entries[i].0, key),
        forall|i: int| index <= i < entries.len() ==> text::precedes(key, #[trigger] entries[i].0),
    decreases entries.len(),
{
    if entries.len() == 0 {
        0
    } else {
        let last = entries.len() - 1;
        the_map_holds_each_entry(entries, last);
        text::precedes_is_total(entries[last].0, key);
        if text::precedes(entries[last].0, key) {
            assert forall|i: int| 0 <= i < entries.len() implies text::precedes(#[trigger] entries[i].0, key) by {
                if i < last {
                    text::precedes_is_transitive(entries[i].0, entries[last].0, key);
                }
            }
            entries.len() as int
        } else {
            removing_keeps_order(entries, last);
            let shorter = entries.remove(last);
            let index = a_new_key_has_a_place(shorter, key);
            assert forall|i: int| 0 <= i < index implies text::precedes(#[trigger] entries[i].0, key) by {
                assert(shorter[i] == entries[i]);
            }
            assert forall|i: int| index <= i < entries.len() implies text::precedes(key, #[trigger] entries[i].0) by {
                if i < last {
                    assert(shorter[i] == entries[i]);
                }
            }
            index
        }
    }
}

/// The keys of every finite map can be put in order.
pub proof fn a_finite_map_can_be_sorted<V>(map: Map<Seq<char>, V>)
    requires
        map.dom().finite(),
    ensures
        in_key_order(sorted_entries(map)),
        map_of(sorted_entries(map)) == map,
    decreases map.dom().len(),
{
    if map.dom().len() == 0 {
        let none = Seq::<(Seq<char>, V)>::empty();
        assert(map.dom() =~= Set::empty());
        assert(map_of(none) =~= map);
        assert(in_key_order(none));
    } else {
        let key = map.dom().choose();
        let smaller = map.remove(key);
        a_finite_map_can_be_sorted(smaller);
        let entries = sorted_entries(smaller);
        let index = a_new_key_has_a_place(entries, key);
        inserting_keeps_order(entries, key, map[key], index);
        let all = entries.insert(index, (key, map[key]));
        assert(map_of(all) =~= map);
        assert(in_key_order(all));
    }
}

/// Changing the values keeps the keys in their places.
pub proof fn mapping_values_keeps_order<V, W>(entries: Seq<(Seq<char>, V)>, f: spec_fn(V) -> W)
    requires
        in_key_order(entries),
    ensures
        sorted_entries(map_of(entries).map_values(f)) == entries.map_values(|entry: (Seq<char>, V)| (entry.0, f(entry.1))),
{
    let mapped = entries.map_values(|entry: (Seq<char>, V)| (entry.0, f(entry.1)));
    assert forall|i: int, j: int| 0 <= i < j < mapped.len() implies text::precedes(#[trigger] mapped[i].0, #[trigger] mapped[j].0) by {
        assert(text::precedes(entries[i].0, entries[j].0));
    }
    assert(map_of(mapped) =~= map_of(entries).map_values(f)) by {
        assert forall|key: Seq<char>| #[trigger] map_of(mapped).contains_key(key) <==> map_of(entries).contains_key(key) by {
            if map_of(mapped).contains_key(key) {
                let i = each_key_stands_somewhere(mapped, key);
                assert(key_stands_at(entries, key, i));
            }
            if map_of(entries).contains_key(key) {
                let i = each_key_stands_somewhere(entries, key);
                assert(key_stands_at(mapped, key, i));
            }
        }
        assert forall|key: Seq<char>| #[trigger] map_of(mapped).contains_key(key) implies map_of(mapped)[key] == map_of(entries).map_values(f)[key] by {
            let i = each_key_stands_somewhere(mapped, key);
            the_map_holds_each_entry(entries, i);
        }
    }
    a_sorted_sequence_is_the_sorted_one(mapped);
}

/// A map with text keys, walked in key order.
pub struct KeyMap<V> {
    slots: Vec<(String, V)>,
}

impl<V> KeyMap<V> {
    /// The entries in key order, the keys taken as text.
    pub closed spec fn entries(&self) -> Seq<(Seq<char>, V)> {
        self.slots@.map_values(|slot: (String, V)| (slot.0@, slot.1))
    }

    /// The map has finitely many keys.
    pub proof fn keys_are_finite(&self)
        requires
            self.well_formed(),
        ensures
            self@.dom().finite(),
            in_key_order(self.entries()),
            sorted_entries(self@) == self.entries(),
    {
        the_map_has_one_key_per_entry(self.entries());
        a_sorted_sequence_is_the_sorted_one(self.entries());
    }

    /// The keys stand in strictly increasing order.
    pub open spec fn well_formed(&self) -> bool {
        in_key_order(self.entries())
    }

    /// An empty map.
    pub fn new() -> (map: Self)
        ensures
            map.well_formed(),
            map.entries() == Seq::<(Seq<char>, V)>::empty(),
            map@ == Map::<Seq<char>, V>::empty(),
    {
        let map = KeyMap { slots: Vec::new() };
        assert(map.entries() =~= Seq::<(Seq<char>, V)>::empty());
        assert(map@ =~= Map::<Seq<char>, V>::empty());
        map
    }

    /// How many keys the map holds.
    pub fn len(&self) -> (count: usize)
        ensures
            count == self.entries().len(),
            self.well_formed() ==> count == self@.dom().len(),
    {
        proof {
            if self.well_formed() {
                the_map_has_one_key_per_entry(self.entries());
            }
        }
        self.slots.len()
    }

    /// The key at a place in key order.
    pub fn key_at(&self, index: usize) -> (key: &String)
        requires
            index < self.entries().len(),
        ensures
            key@ == self.entries()[index as int].0,
    {
        &self.slots[index].0
    }

    /// The value at a place in key order.
    pub fn value_at(&self, index: usize) -> (value: &V)
        requires
            index < self.entries().len(),
        ensures
            *value == self.entries()[index as int].1,
    {
        &self.slots[index].1
    }

    /// The place of `key`, or else the place where it would stand.
    pub fn place_of(&self, key: &str) -> (place: Result<usize, usize>)
        requires
            self.well_formed(),
        ensures
            place matches Ok(index) ==> key_stands_at(self.entries(), key@, index as int),
            place matches Err(index) ==> {
                &&& index <= self.entries().len()
                &&& forall|i: int| 0 <= i < index ==> text::precedes(#[trigger] self.entries()[i].0, key@)
                &&& forall|i: int| index <= i < self.entries().len() ==> text::precedes(key@, #[trigger] self.entries()[i].0)
            },
            place is Ok <==> self@.contains_key(key@),
    {
        let mut low: usize = 0;
        let mut high: usize = self.slots.len();
        while low < high
            invariant
                self.well_formed(),
                low <= high <= self.slots@.len(),
                self.entries().len() == self.slots@.len(),
                forall|i: int| 0 <= i < low ==> text::precedes(#[trigger] self.entries()[i].0, key@),
                forall|i: int| high <= i < self.entries().len() ==> text::precedes(key@, #[trigger] self.entries()[i].0),
            decreases high - low,
        {
            let middle: usize = low + (high - low) / 2;
            let slot = &self.slots[middle];
            assert(self.entries()[middle as int].0 == slot.0@);
            match text_order(slot.0.as_str(), key) {
                TextOrder::Same => {
                    assert(key_stands_at(self.entries(), key@, middle as int));
                    return Ok(middle);
                },
                TextOrder::Before => {
                    assert forall|i: int| 0 <= i < middle + 1 implies text::precedes(#[trigger] self.entries()[i].0, key@) by {
                        if i < middle {
                            text::precedes_is_transitive(self.entries()[i].0, slot.0@, key@);
                        }
                    }
                    low = middle + 1;
                },
                TextOrder::After => {
                    assert forall|i: int| middle <= i < self.entries().len() implies text::precedes(key@, #[trigger] self.entries()[i].0) by {
                        if i > middle {
                            text::precedes_is_transitive(key@, slot.0@, self.entries()[i].0);
                        }
                    }
                    high = middle;
                },
            }
        }
        proof {
            if self@.contains_key(key@) {
                let i = each_key_stands_somewhere(self.entries(), key@);
                text::precedes_is_irreflexive(key@);
            }
        }
        Err(low)
    }

    /// The value under `key`.
    pub fn get(&self, key: &str) -> (value: Option<&V>)
        requires
            self.well_formed(),
        ensures
            value is Some <==> self@.contains_key(key@),
            value matches Some(v) ==> *v == self@[key@],
    {
        match self.place_of(key) {
            Ok(index) => {
                proof {
                    the_map_holds_each_entry(self.entries(), index as int);
                }
                Some(&self.slots[index].1)
            },
            Err(_) => None,
        }
    }

    /// Whether the map holds `key`.
    pub fn contains_key(&self, key: &str) -> (held: bool)
        requires
            self.well_formed(),
        ensures
            held == self@.contains_key(key@),
    {
        self.place_of(key).is_ok()
    }

    /// Puts `value` under `key`, in place of what stood there.
    pub fn insert(&mut self, key: String, value: V)
        requires
            old(self).well_formed(),
        ensures
            final(self).well_formed(),
            final(self)@ == old(self)@.insert(key@, value),
    {
        let ghost before = self.entries();
        match self.place_of(key.as_str()) {
            Ok(index) => {
                proof {
                    updating_keeps_order(before, value, index as int);
                }
                self.slots.set(index, (key, value));
                assert(self.entries() =~= before.update(index as int, (key@, value)));
            },
            Err(index) => {
                proof {
                    inserting_keeps_order(before, key@, value, index as int);
                }
                self.slots.insert(index, (key, value));
                assert(self.entries() =~= before.insert(index as int, (key@, value)));
            },
        }
    }

    /// Takes `key` out and hands back what stood under it.
    pub fn remove(&mut self, key: &str) -> (removed: Option<V>)
        requires
            old(self).well_formed(),
        ensures
            final(self).well_formed(),
            final(self)@ == old(self)@.remove(key@),
            removed is Some <==> old(self)@.contains_key(key@),
            removed matches Some(value) ==> value == old(self)@[key@],
    {
        let ghost before = self.entries();
        match self.place_of(key) {
            Ok(index) => {
                proof {
                    removing_keeps_order(before, index as int);
                    the_map_holds_each_entry(before, index as int);
                }
                let slot = self.slots.remove(index);
                assert(self.entries() =~= before.remove(index as int));
                Some(slot.1)
            },
            Err(_) => {
                assert(self@ =~= old(self)@.remove(key@));
                None
            },
        }
    }

    /// Takes the first key, in key order, out of the map.
    pub fn take_first(&mut self) -> (first: (String, V))
        requires
            old(self).well_formed(),
            old(self).entries().len() > 0,
        ensures
            final(self).well_formed(),
            (first.0@, first.1) == old(self).entries()[0],
            final(self).entries() == old(self).entries().skip(1),
            final(self)@ == old(self)@.remove(first.0@),
    {
        let ghost before = self.entries();
        proof {
            removing_keeps_order(before, 0);
        }
        let slot = self.slots.remove(0);
        assert(self.entries() =~= before.remove(0));
        assert(before.remove(0) =~= before.skip(1));
        slot
    }
}

impl<V> View for KeyMap<V> {
    type V = Map<Seq<char>, V>;

    open spec fn view(&self) -> Map<Seq<char>, V> {
        map_of(self.entries())
    }
}

} // verus!
