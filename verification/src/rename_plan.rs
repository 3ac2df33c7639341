//! What surrounds a rename: which objects move where, how one object is
//! copied, which renames stand in each other's way, and under which names
//! their journals are kept.

use std::collections::hash_map::DefaultHasher;
use std::hash::Hasher;
use vstd::prelude::*;
use vstd::std_specs::hash::DefaultHasherAdditionalSpecFns;
use crate::content::ObjectHead;
use crate::content;
use crate::journal::Condition;
use crate::key_map;
use crate::key_map::KeyMap;
use crate::keys::rewrite_key;
use crate::rename;
use crate::rename::{RenameObject, MAX_RENAME_KEYS, MAX_SINGLE_COPY};
use crate::stage::StageRecovery;
use crate::status::NfsStatus;
use crate::text;
use crate::text::{has_last, has_prefix, hexadecimal_text, holds_text, same_text};

verus! {

/// The entry of an object's metadata that says which rename made it.
pub open spec fn rename_mark() -> Seq<char> {
    "r2-rename-operation"@
}

/// Marks the metadata of a copy as made by this rename.
pub fn mark_copy(metadata: &mut KeyMap<String>, token: String)
    requires
        old(metadata).well_formed(),
    ensures
        final(metadata).well_formed(),
        final(metadata)@ == old(metadata)@.insert(rename_mark(), token),
{
    metadata.insert("r2-rename-operation".to_owned(), token);
}

/// What a copy may replace, and how the store is told.
pub enum CopyGuard {
    /// The object with this tag, by the store's own header.
    NativeMatch(String),
    /// Nothing, by the store's own header.
    NativeAbsent,
    /// The object with this tag.
    Match(String),
    /// Nothing.
    Absent,
}

/// What a copy may replace, as text: whether the store's own header says so,
/// and the tag.
pub open spec fn guard_of(guard: CopyGuard) -> (bool, Option<Seq<char>>) {
    match guard {
        CopyGuard::NativeMatch(etag) => (true, Some(etag@)),
        CopyGuard::NativeAbsent => (true, None),
        CopyGuard::Match(etag) => (false, Some(etag@)),
        CopyGuard::Absent => (false, None),
    }
}

/// How one object is copied in a single request.
pub struct CopyPlan {
    /// What the store has to honour, where that has to be asked.
    pub condition: Option<Condition>,
    pub guard: CopyGuard,
}

/// Whether an object has to be copied in parts.
pub fn needs_parts(size: u64) -> (parts: bool)
    ensures
        parts == (size > MAX_SINGLE_COPY),
{
    size > MAX_SINGLE_COPY
}

/// The source is still the object that the rename was planned with.
pub open spec fn is_planned_source(object: rename::ObjectModel, head: content::HeadModel) -> bool {
    head.etag == Some(object.source_etag) && head.size == Some(object.size as i64)
}

/// Whether the source is still the object that the rename was planned with.
pub fn check_source(object: &RenameObject, head: &ObjectHead) -> (check: Result<(), NfsStatus>)
    ensures
        check == (if is_planned_source(object@, head@) {
            Ok::<(), NfsStatus>(())
        } else {
            Err(NfsStatus::Io)
        }),
{
    let tagged = match &head.etag {
        Some(etag) => same_text(etag.as_str(), object.source_etag.as_str()),
        None => false,
    };
    let length: i64 = #[verifier::truncate]
    (object.size as i64);
    if tagged && head.size == Some(length) {
        Ok(())
    } else {
        Err(NfsStatus::Io)
    }
}

/// How one object is copied, by what stands at its old key. The copy carries
/// what it may replace, so that an object which somebody else has put there
/// since is never lost.
pub fn copy_plan(object: &RenameObject, head: &Option<ObjectHead>, is_r2: bool) -> (plan: Result<CopyPlan, NfsStatus>)
    ensures
        match *head {
            None => plan is Err && plan->Err_0 == NfsStatus::NoEnt,
            Some(found) => if is_planned_source(object@, found@) {
                &&& plan is Ok
                &&& guard_of(plan->Ok_0.guard) == (is_r2, object@.replaced_etag)
                &&& plan->Ok_0.condition == (if is_r2 {
                    None
                } else if object@.replaced_etag is Some {
                    Some(Condition::CopyMatch)
                } else {
                    Some(Condition::CopyCreate)
                })
            } else {
                plan is Err && plan->Err_0 == NfsStatus::Io
            },
        },
{
    match head {
        None => Err(NfsStatus::NoEnt),
        Some(found) => {
            match check_source(object, found) {
                Err(status) => {
                    return Err(status);
                },
                Ok(()) => {},
            }
            match &object.replaced_etag {
                Some(etag) => if is_r2 {
                    Ok(CopyPlan { condition: None, guard: CopyGuard::NativeMatch(etag.clone()) })
                } else {
                    Ok(CopyPlan { condition: Some(Condition::CopyMatch), guard: CopyGuard::Match(etag.clone()) })
                },
                None => if is_r2 {
                    Ok(CopyPlan { condition: None, guard: CopyGuard::NativeAbsent })
                } else {
                    Ok(CopyPlan { condition: Some(Condition::CopyCreate), guard: CopyGuard::Absent })
                },
            }
        },
    }
}

/// One page of the keys under a prefix.
pub struct KeyPage {
    pub keys: Vec<Option<String>>,
    pub truncated: bool,
    pub next_token: Option<String>,
}

/// The keys that a page names.
pub open spec fn named_keys(page: Seq<Option<String>>) -> Seq<Seq<char>>
    decreases page.len(),
{
    if page.len() == 0 {
        Seq::empty()
    } else {
        match page.last() {
            Some(key) => named_keys(page.drop_last()).push(key@),
            None => named_keys(page.drop_last()),
        }
    }
}

/// The keys under a prefix while they are listed page by page.
pub struct KeyCollector {
    pub keys: Vec<String>,
    /// The continuations that were followed.
    pub seen: Vec<String>,
}

impl KeyCollector {
    /// Nothing has been listed yet.
    pub fn new() -> (collector: Self)
        ensures
            text::texts(collector.keys@) == Seq::<Seq<char>>::empty(),
            text::texts(collector.seen@) == Seq::<Seq<char>>::empty(),
    {
        let collector = KeyCollector { keys: Vec::new(), seen: Vec::new() };
        assert(text::texts(collector.keys@) =~= Seq::<Seq<char>>::empty());
        assert(text::texts(collector.seen@) =~= Seq::<Seq<char>>::empty());
        collector
    }

    /// Takes one page. Returns the continuation that is to be followed, or
    /// that the listing is complete. More keys than one rename may move are
    /// refused, and so is a continuation that leads nowhere or back.
    pub fn on_page(&mut self, page: KeyPage) -> (next: Result<Option<String>, NfsStatus>)
        ensures
            ({
                let all = text::texts(old(self).keys@) + named_keys(page.keys@);
                let token = text::optional(page.next_token);
                let advances = token is Some && token->0.len() > 0 && !text::texts(old(self).seen@).contains(token->0);
                &&& text::texts(final(self).keys@) == all
                &&& text::texts(final(self).seen@) == (if all.len() <= MAX_RENAME_KEYS && page.truncated && advances {
                    text::texts(old(self).seen@).push(token->0)
                } else {
                    text::texts(old(self).seen@)
                })
                &&& if all.len() > MAX_RENAME_KEYS {
                    next is Err && next->Err_0 == NfsStatus::NotSupp
                } else if !page.truncated {
                    next matches Ok(None)
                } else if advances {
                    &&& next is Ok
                    &&& text::optional(next->Ok_0) == token
                } else {
                    next is Err && next->Err_0 == NfsStatus::Io
                }
            }),
    {
        let ghost before = text::texts(self.keys@);
        let mut i: usize = 0;
        assert(page.keys@.take(0) =~= Seq::empty());
        assert(before + named_keys(page.keys@.take(0)) =~= before);
        while i < page.keys.len()
            invariant
                i <= page.keys.len(),
                self.seen@ == old(self).seen@,
                text::texts(self.keys@) == before + named_keys(page.keys@.take(i as int)),
            decreases page.keys.len() - i,
        {
            proof {
                assert(page.keys@.take(i + 1).drop_last() =~= page.keys@.take(i as int));
                assert(page.keys@.take(i + 1).last() == page.keys@[i as int]);
            }
            match &page.keys[i] {
                Some(key) => {
                    let ghost now = self.keys@;
                    self.keys.push(key.clone());
                    assert(text::texts(self.keys@) =~= text::texts(now).push(key@));
                    assert(text::texts(self.keys@) =~= before + named_keys(page.keys@.take(i + 1)));
                },
                None => {},
            }
            i = i + 1;
        }
        assert(page.keys@.take(i as int) =~= page.keys@);
        assert(text::texts(self.keys@).len() == self.keys@.len());
        if self.keys.len() > MAX_RENAME_KEYS {
            return Err(NfsStatus::NotSupp);
        }
        if !page.truncated {
            return Ok(None);
        }
        match page.next_token {
            None => Err(NfsStatus::Io),
            Some(token) => {
                if token.as_str().unicode_len() == 0 || holds_text(&self.seen, token.as_str()) {
                    return Err(NfsStatus::Io);
                }
                let ghost seen = self.seen@;
                self.seen.push(token.clone());
                assert(text::texts(self.seen@) =~= text::texts(seen).push(token@));
                Ok(Some(token))
            },
        }
    }
}

/// Where the objects under a directory move.
pub open spec fn moves_of(keys: Seq<Seq<char>>, from: Seq<char>, to: Seq<char>) -> Seq<(Seq<char>, Seq<char>)>
    decreases keys.len(),
{
    if keys.len() == 0 {
        Seq::empty()
    } else {
        let before = moves_of(keys.drop_last(), from, to);
        if from.is_prefix_of(keys.last()) {
            before.push((keys.last(), to + keys.last().skip(from.len() as int)))
        } else {
            before
        }
    }
}

/// Pairs of texts, taken as characters.
pub open spec fn pairs(list: Seq<(String, String)>) -> Seq<(Seq<char>, Seq<char>)> {
    list.map_values(|pair: (String, String)| (pair.0@, pair.1@))
}

/// Where the objects under a directory move: each keeps its place below the
/// directory.
pub fn directory_moves(keys: &Vec<String>, from_prefix: &str, to_prefix: &str) -> (moves: Vec<(String, String)>)
    ensures
        pairs(moves@) == moves_of(text::texts(keys@), from_prefix@, to_prefix@),
{
    let mut moves: Vec<(String, String)> = Vec::new();
    let ghost all = text::texts(keys@);
    let mut i: usize = 0;
    assert(all.take(0) =~= Seq::empty());
    assert(pairs(moves@) =~= Seq::empty());
    while i < keys.len()
        invariant
            i <= keys.len(),
            all == text::texts(keys@),
            pairs(moves@) == moves_of(all.take(i as int), from_prefix@, to_prefix@),
        decreases keys.len() - i,
    {
        let ghost before = moves@;
        proof {
            assert(all.take(i + 1).drop_last() =~= all.take(i as int));
            assert(all.take(i + 1).last() == keys@[i as int]@);
        }
        match rewrite_key(keys[i].as_str(), from_prefix, to_prefix) {
            Some(new_key) => {
                let ghost pair = (keys@[i as int]@, new_key@);
                moves.push((keys[i].clone(), new_key));
                assert(pairs(moves@) =~= pairs(before).push(pair));
            },
            None => {},
        }
        i = i + 1;
    }
    assert(all.take(i as int) =~= all);
    moves
}

/// Whether a directory may move there: not into itself.
pub fn check_directory_move(from_prefix: &str, to_prefix: &str) -> (check: Result<(), NfsStatus>)
    ensures
        check == (if from_prefix@.is_prefix_of(to_prefix@) {
            Err::<(), NfsStatus>(NfsStatus::Inval)
        } else {
            Ok(())
        }),
{
    if has_prefix(to_prefix, from_prefix) {
        Err(NfsStatus::Inval)
    } else {
        Ok(())
    }
}

/// What a rename that is not finished moves.
pub struct PendingRename {
    pub from: String,
    pub to: String,
}

/// Two keys stand in each other's way: they are the same, or one is a
/// directory that the other lies in.
pub open spec fn overlap(a: Seq<char>, b: Seq<char>) -> bool {
    ||| a == b
    ||| text::ends_with(a, '/') && a.is_prefix_of(b)
    ||| text::ends_with(b, '/') && b.is_prefix_of(a)
}

/// Whether two keys stand in each other's way.
pub fn pending_rename_overlaps(a: &str, b: &str) -> (overlaps: bool)
    ensures
        overlaps == overlap(a@, b@),
{
    same_text(a, b) || (has_last(a, '/') && has_prefix(b, a)) || (has_last(b, '/') && has_prefix(a, b))
}

/// Standing in each other's way is mutual.
pub proof fn overlapping_keys_overlap_both_ways(a: Seq<char>, b: Seq<char>)
    ensures
        overlap(a, b) == overlap(b, a),
{
}

/// A pending rename touches one of the keys.
pub open spec fn blocks(pending: PendingRename, from: Seq<char>, to: Seq<char>) -> bool {
    overlap(from, pending.from@) || overlap(to, pending.from@) || overlap(from, pending.to@) || overlap(to, pending.to@)
}

/// Whether a rename may begin beside those that are not finished, which are
/// known by their journals. Its own journal does not stand in its way: with it
/// the rename goes on.
pub fn ensure_rename_not_blocked(renames: &KeyMap<PendingRename>, from: &str, to: &str, own_journal: &str) -> (gate: Result<(), NfsStatus>)
    requires
        renames.well_formed(),
    ensures
        gate == (if exists|journal: Seq<char>|
            #[trigger] renames@.contains_key(journal) && journal != own_journal@ && blocks(renames@[journal], from@, to@) {
            Err::<(), NfsStatus>(NfsStatus::Io)
        } else {
            Ok(())
        }),
{
    let ghost entries = renames.entries();
    let mut i: usize = 0;
    let count: usize = renames.len();
    while i < count
        invariant
            renames.well_formed(),
            entries == renames.entries(),
            count == entries.len(),
            i <= count,
            forall|j: int| 0 <= j < i ==> !((#[trigger] entries[j]).0 != own_journal@ && blocks(entries[j].1, from@, to@)),
        decreases count - i,
    {
        let pending = renames.value_at(i);
        if !same_text(renames.key_at(i).as_str(), own_journal) {
            if pending_rename_overlaps(from, pending.from.as_str()) || pending_rename_overlaps(to, pending.from.as_str())
                || pending_rename_overlaps(from, pending.to.as_str()) || pending_rename_overlaps(to, pending.to.as_str()) {
                proof {
                    key_map::the_map_holds_each_entry(entries, i as int);
                    assert(renames@.contains_key(entries[i as int].0));
                }
                return Err(NfsStatus::Io);
            }
        }
        i = i + 1;
    }
    proof {
        assert forall|journal: Seq<char>| #[trigger] renames@.contains_key(journal) && journal != own_journal@ implies !blocks(
            renames@[journal],
            from@,
            to@,
        ) by {
            let at = key_map::each_key_stands_somewhere(entries, journal);
            assert(entries[at].0 == journal);
        }
    }
    Ok(())
}

/// What could not be restored of a key, or of one below it.
pub open spec fn withholds(record: StageRecovery, key: Seq<char>) -> bool {
    record.key@.len() > 0 && (record.key@ == key || (text::ends_with(key, '/') && key.is_prefix_of(record.key@)))
}

/// A pending rename touches the key.
pub open spec fn touches(pending: PendingRename, key: Seq<char>) -> bool {
    overlap(key, pending.from@) || overlap(key, pending.to@)
}

/// Whether a key may be read or changed: nothing that was set aside at the
/// last start belongs to it, and no unfinished rename touches it.
pub fn ensure_rename_available(quarantined: &Vec<StageRecovery>, renames: &KeyMap<PendingRename>, key: &str) -> (gate: Result<(), NfsStatus>)
    requires
        renames.well_formed(),
    ensures
        gate == (if (exists|i: int| 0 <= i < quarantined@.len() && withholds(#[trigger] quarantined@[i], key@)) || (exists|journal: Seq<char>|
            #[trigger] renames@.contains_key(journal) && touches(renames@[journal], key@)) {
            Err::<(), NfsStatus>(NfsStatus::Io)
        } else {
            Ok(())
        }),
{
    let is_directory = has_last(key, '/');
    let mut i: usize = 0;
    while i < quarantined.len()
        invariant
            i <= quarantined.len(),
            is_directory == text::ends_with(key@, '/'),
            forall|j: int| 0 <= j < i ==> !withholds(#[trigger] quarantined@[j], key@),
        decreases quarantined.len() - i,
    {
        let record = &quarantined[i];
        if record.key.as_str().unicode_len() > 0 && (same_text(record.key.as_str(), key) || (is_directory && has_prefix(
            record.key.as_str(),
            key,
        ))) {
            assert(withholds(quarantined@[i as int], key@));
            return Err(NfsStatus::Io);
        }
        i = i + 1;
    }
    let ghost entries = renames.entries();
    let count: usize = renames.len();
    i = 0;
    while i < count
        invariant
            renames.well_formed(),
            entries == renames.entries(),
            count == entries.len(),
            i <= count,
            forall|j: int| 0 <= j < i ==> !touches((#[trigger] entries[j]).1, key@),
        decreases count - i,
    {
        let pending = renames.value_at(i);
        if pending_rename_overlaps(key, pending.from.as_str()) || pending_rename_overlaps(key, pending.to.as_str()) {
            proof {
                key_map::the_map_holds_each_entry(entries, i as int);
                assert(renames@.contains_key(entries[i as int].0));
            }
            return Err(NfsStatus::Io);
        }
        i = i + 1;
    }
    proof {
        assert forall|journal: Seq<char>| #[trigger] renames@.contains_key(journal) implies !touches(renames@[journal], key@) by {
            let at = key_map::each_key_stands_somewhere(entries, journal);
            assert(entries[at].0 == journal);
        }
    }
    Ok(())
}

/// The writes by which texts are hashed: the bytes of each, and a byte that
/// no text holds behind them.
pub open spec fn hashed(keys: Seq<Seq<char>>) -> Seq<Seq<u8>>
    decreases keys.len(),
{
    if keys.len() == 0 {
        Seq::empty()
    } else {
        hashed(keys.drop_last()).push(vstd::utf8::encode_utf8(keys.last())).push(seq![0xffu8])
    }
}

fn hash_text(hasher: &mut DefaultHasher, text: &str)
    ensures
        final(hasher)@ == old(hasher)@.push(vstd::utf8::encode_utf8(text@)).push(seq![0xffu8]),
{
    hasher.write(text.as_bytes());
    let end: [u8; 1] = [0xff];
    assert(end@ =~= seq![0xffu8]);
    hasher.write(vstd::array::array_as_slice(&end));
}

/// The hash of a key.
pub fn key_hash(key: &str) -> (hash: u64)
    ensures
        hash == DefaultHasher::spec_finish(hashed(seq![key@])),
{
    let mut hasher = DefaultHasher::new();
    hash_text(&mut hasher, key);
    proof {
        reveal_with_fuel(hashed, 3);
        assert(seq![key@].drop_last() =~= Seq::<Seq<char>>::empty());
    }
    hasher.finish()
}

/// The hash of a pair of keys.
pub fn pair_hash(from: &str, to: &str) -> (hash: u64)
    ensures
        hash == DefaultHasher::spec_finish(hashed(seq![from@, to@])),
{
    let mut hasher = DefaultHasher::new();
    hash_text(&mut hasher, from);
    hash_text(&mut hasher, to);
    proof {
        reveal_with_fuel(hashed, 4);
        assert(seq![from@, to@].drop_last() =~= seq![from@]);
        assert(seq![from@].drop_last() =~= Seq::<Seq<char>>::empty());
    }
    hasher.finish()
}

/// The name under which the journal of a change to one key is kept.
pub fn namespace_journal_name(key: &str) -> (name: String)
    ensures
        name@ == "namespace-"@ + text::hexadecimal(DefaultHasher::spec_finish(hashed(seq![key@])) as nat, 16) + ".json"@,
{
    let mut name = "namespace-".to_owned();
    name.append(hexadecimal_text(key_hash(key), 16).as_str());
    name.append(".json");
    name
}

/// The name under which the journal of a rename is kept.
pub fn rename_journal_name(from: &str, to: &str) -> (name: String)
    ensures
        name@ == "rename-"@ + text::hexadecimal(DefaultHasher::spec_finish(hashed(seq![from@, to@])) as nat, 16) + ".json"@,
{
    let mut name = "rename-".to_owned();
    name.append(hexadecimal_text(pair_hash(from, to), 16).as_str());
    name.append(".json");
    name
}

/// The name under which the journal of one copy in parts is kept.
pub fn part_journal_name(token: &str, to: &str) -> (name: String)
    ensures
        name@ == "rename-part-"@ + token@ + "-"@ + text::hexadecimal(DefaultHasher::spec_finish(hashed(seq![to@])) as nat, 16) + ".json"@,
{
    let mut name = "rename-part-".to_owned();
    name.append(token);
    name.append("-");
    name.append(hexadecimal_text(key_hash(to), 16).as_str());
    name.append(".json");
    name
}

/// What a request is about, for the bookkeeping of requests: the bucket, and
/// the key where there is one.
pub fn storage_scope(bucket: &str, scope: &str) -> (name: String)
    ensures
        name@ == (if scope@.len() == 0 {
            bucket@
        } else {
            bucket@ + ":"@ + scope@
        }),
{
    let mut name = bucket.to_owned();
    if scope.unicode_len() > 0 {
        name.append(":");
        name.append(scope);
    }
    name
}

/// Only the very object that a rename was planned with is copied, under a
/// guard that names what it may replace; a store whose own header cannot say
/// so is asked first.
pub proof fn a_copy_is_guarded_by_what_it_replaces(
    object: RenameObject,
    head: Option<ObjectHead>,
    is_r2: bool,
    plan: Result<CopyPlan, NfsStatus>,
)
    requires
        object.size <= i64::MAX,
        call_ensures(copy_plan, (&object, &head, is_r2), plan),
    ensures
        head is None ==> plan is Err && plan->Err_0 == NfsStatus::NoEnt,
        head is Some ==> (plan is Ok <==> {
            &&& head->0.etag is Some
            &&& (head->0.etag->0)@ == object.source_etag@
            &&& head->0.size is Some
            &&& head->0.size->0 == object.size
        }),
        head is Some && plan is Err ==> plan->Err_0 == NfsStatus::Io,
        plan is Ok && is_r2 ==> plan->Ok_0.condition is None,
        plan is Ok && !is_r2 && object.replaced_etag is Some ==> plan->Ok_0.condition == Some(Condition::CopyMatch),
        plan is Ok && !is_r2 && object.replaced_etag is None ==> plan->Ok_0.condition == Some(Condition::CopyCreate),
        plan is Ok ==> match plan->Ok_0.guard {
            CopyGuard::NativeMatch(etag) => is_r2 && object.replaced_etag is Some && etag@ == (object.replaced_etag->0)@,
            CopyGuard::NativeAbsent => is_r2 && object.replaced_etag is None,
            CopyGuard::Match(etag) => !is_r2 && object.replaced_etag is Some && etag@ == (object.replaced_etag->0)@,
            CopyGuard::Absent => !is_r2 && object.replaced_etag is None,
        },
{
}

/// An object of more than five gibibytes is copied in parts, and no other.
pub proof fn a_large_object_is_copied_in_parts(size: u64, parts: bool)
    requires
        call_ensures(needs_parts, (size,), parts),
    ensures
        parts <==> size > 5_368_709_120,
{
}

/// A page names the keys that it carries, in order.
pub proof fn a_page_names_its_keys(page: Seq<Option<String>>, key: Option<String>)
    ensures
        named_keys(Seq::empty()) == Seq::<Seq<char>>::empty(),
        key is Some ==> named_keys(page.push(key)) == named_keys(page).push((key->0)@),
        key is None ==> named_keys(page.push(key)) == named_keys(page),
{
    assert(page.push(key).drop_last() =~= page);
}

/// Every object under a directory moves to the same place under the other,
/// and no other object moves.
pub proof fn every_object_of_a_directory_moves(keys: Seq<Seq<char>>, from: Seq<char>, to: Seq<char>, pair: (Seq<char>, Seq<char>))
    ensures
        moves_of(keys, from, to).contains(pair) <==> {
            &&& keys.contains(pair.0)
            &&& from.is_prefix_of(pair.0)
            &&& pair.1 == to + pair.0.skip(from.len() as int)
        },
    decreases keys.len(),
{
    if keys.len() > 0 {
        let fewer = keys.drop_last();
        every_object_of_a_directory_moves(fewer, from, to, pair);
        let before = moves_of(fewer, from, to);
        let all = moves_of(keys, from, to);
        let last = (keys.last(), to + keys.last().skip(from.len() as int));
        if keys.contains(pair.0) {
            let i = choose|i: int| 0 <= i < keys.len() && keys[i] == pair.0;
            if i < fewer.len() {
                assert(fewer[i] == pair.0);
            }
        }
        if fewer.contains(pair.0) {
            let i = choose|i: int| 0 <= i < fewer.len() && fewer[i] == pair.0;
            assert(keys[i] == pair.0);
        }
        assert(keys.contains(keys.last())) by {
            assert(keys[keys.len() - 1] == keys.last());
        }
        if from.is_prefix_of(keys.last()) {
            assert(all == before.push(last));
            if all.contains(pair) {
                let i = choose|i: int| 0 <= i < all.len() && all[i] == pair;
                if i < before.len() {
                    assert(before[i] == pair);
                }
            }
            if before.contains(pair) {
                let i = choose|i: int| 0 <= i < before.len() && before[i] == pair;
                assert(all[i] == pair);
            }
            if pair == last {
                assert(all[before.len() as int] == pair);
            }
        }
    }
}

/// A key stands in its own way, a directory in that of everything below it,
/// and two files in each other's only where they are the same.
pub proof fn a_directory_stands_in_the_way_of_what_lies_below(a: Seq<char>, b: Seq<char>, rest: Seq<char>)
    ensures
        overlap(a, a),
        a.len() > 0 && a.last() == '/' ==> overlap(a, a + rest) && overlap(a + rest, a),
        a.len() > 0 && b.len() > 0 && a.last() != '/' && b.last() != '/' && a != b ==> !overlap(a, b),
        !a.is_prefix_of(b) && !b.is_prefix_of(a) ==> !overlap(a, b),
{
    assert((a + rest).subrange(0, a.len() as int) =~= a);
    assert(a.subrange(0, a.len() as int) =~= a);
}

/// A pending rename stands in the way of each rename whose one or other key
/// overlaps one of its own, and in that of no other.
pub proof fn a_pending_rename_blocks_by_either_key(pending: PendingRename, from: Seq<char>, to: Seq<char>, key: Seq<char>)
    ensures
        blocks(pending, from, to) <==> touches(pending, from) || touches(pending, to),
        touches(pending, key) <==> overlap(key, pending.from@) || overlap(key, pending.to@),
        touches(pending, pending.from@),
        touches(pending, pending.to@),
{
}

/// What was set aside withholds its own key and each directory that the key
/// lies in; a record without a key withholds nothing.
pub proof fn what_was_set_aside_withholds_its_key(record: StageRecovery, key: Seq<char>)
    ensures
        record.key@.len() == 0 ==> !withholds(record, key),
        record.key@.len() > 0 ==> withholds(record, record.key@),
        record.key@.len() > 0 && key.len() > 0 && key.last() == '/' && key.is_prefix_of(record.key@) ==> withholds(record, key),
        key.len() > 0 && key.last() != '/' && record.key@ != key ==> !withholds(record, key),
        !key.is_prefix_of(record.key@) ==> !withholds(record, key),
{
    assert(record.key@.subrange(0, record.key@.len() as int) =~= record.key@);
}

/// Every text that is hashed is followed by a byte that no text holds, so that
/// the texts stay apart.
pub proof fn hashed_texts_stay_apart(keys: Seq<Seq<char>>, key: Seq<char>)
    ensures
        hashed(Seq::empty()) == Seq::<Seq<u8>>::empty(),
        hashed(keys.push(key)) == hashed(keys).push(vstd::utf8::encode_utf8(key)).push(seq![0xffu8]),
{
    assert(keys.push(key).drop_last() =~= keys);
}

/// A copy says which rename made it under the mark that is looked for.
pub proof fn the_mark_of_a_rename_keeps_its_name()
    ensures
        rename_mark() == "r2-rename-operation"@,
{
}

/// A directory does not move into itself.
pub proof fn a_directory_does_not_move_into_itself(from_prefix: &str, to_prefix: &str, check: Result<(), NfsStatus>)
    requires
        call_ensures(check_directory_move, (from_prefix, to_prefix), check),
    ensures
        check is Err <==> from_prefix@.is_prefix_of(to_prefix@),
        check is Err ==> check->Err_0 == NfsStatus::Inval,
{
}

/// The keys of a directory are collected page by page, at most a thousand of
/// them; a listing that leads nowhere or back is refused.
pub proof fn keys_are_collected_page_by_page(page: KeyPage)
    ensures
        forall|collector: &mut KeyCollector, next: Result<Option<String>, NfsStatus>| #[trigger]
            call_ensures(KeyCollector::on_page, (collector, page), next) ==> {
                let all = text::texts((*collector).keys@) + named_keys(page.keys@);
                &&& text::texts(final(collector).keys@) == all
                &&& all.len() > 1000 ==> next is Err && next->Err_0 == NfsStatus::NotSupp
                &&& all.len() <= 1000 && !page.truncated ==> next is Ok && next->Ok_0 is None
                &&& all.len() <= 1000 && page.truncated && page.next_token is None ==> next is Err && next->Err_0 == NfsStatus::Io
                &&& next is Ok && next->Ok_0 is Some ==> page.truncated && page.next_token is Some && (next->Ok_0->0)@ == (
                page.next_token->0)@ && !text::texts((*collector).seen@).contains((page.next_token->0)@)
                &&& all.len() <= 1000 && page.truncated && page.next_token is Some && (page.next_token->0)@.len() > 0 && !text::texts(
                    (*collector).seen@).contains((page.next_token->0)@) ==> next is Ok && next->Ok_0 is Some
            },
{
}

/// The files in which changes are noted are told apart by how they begin, and
/// all end in `.json`.
pub proof fn notes_are_told_apart_by_their_names(key: &str, from: &str, to: &str, token: &str, one: String, two: String, part: String)
    requires
        call_ensures(namespace_journal_name, (key,), one),
        call_ensures(rename_journal_name, (from, to), two),
        call_ensures(part_journal_name, (token, to), part),
    ensures
        "namespace-"@.is_prefix_of(one@),
        "rename-"@.is_prefix_of(two@),
        "rename-part-"@.is_prefix_of(part@),
        ".json"@.is_suffix_of(one@),
        ".json"@.is_suffix_of(two@),
        ".json"@.is_suffix_of(part@),
{
    reveal_strlit("namespace-");
    reveal_strlit("rename-");
    reveal_strlit("rename-part-");
    reveal_strlit(".json");
    assert(one@.subrange(0, 10) =~= "namespace-"@);
    assert(two@.subrange(0, 7) =~= "rename-"@);
    assert(part@.subrange(0, 12) =~= "rename-part-"@);
    assert(one@.subrange(one@.len() - 5, one@.len() as int) =~= ".json"@);
    assert(two@.subrange(two@.len() - 5, two@.len() as int) =~= ".json"@);
    assert(part@.subrange(part@.len() - 5, part@.len() as int) =~= ".json"@);
}

/// A bucket is named with its scope, where it has one.
pub proof fn a_bucket_is_named_with_its_scope(bucket: &str, scope: &str, name: String)
    requires
        call_ensures(storage_scope, (bucket, scope), name),
    ensures
        scope@.len() == 0 ==> name@ == bucket@,
        scope@.len() > 0 ==> name@ == bucket@ + seq![':'] + scope@,
{
    reveal_strlit(":");
    assert(":"@ =~= seq![':']);
}

} // verus!
