//! Fences over parts of the namespace.
//!
//! A fence holds exact keys or whole prefixes, shared or exclusively. Two
//! fences that are held at the same time never touch the same key, unless
//! both are shared.

use vstd::prelude::*;
use crate::inode_table::{EntryKind, Inode};
use crate::keys;
use crate::keys::normalize_dir_key;
use crate::text;
use crate::text::{has_prefix, same_text, text_order, TextOrder};

verus! {

/// A key, or every key with a prefix.
pub struct FencePath {
    key: String,
    prefix: bool,
}

/// A fence path with its key taken as text.
pub ghost struct PathModel {
    pub key: Seq<char>,
    pub prefix: bool,
}

impl PathModel {
    /// The path stands for this key.
    pub open spec fn covers(self, key: Seq<char>) -> bool {
        if self.prefix {
            self.key.is_prefix_of(key)
        } else {
            self.key == key
        }
    }

    /// Some key is covered by both.
    pub open spec fn overlaps(self, other: PathModel) -> bool {
        exists|key: Seq<char>| #[trigger] self.covers(key) && other.covers(key)
    }

    /// The order in which the paths of one fence stand.
    pub open spec fn before(self, other: PathModel) -> bool {
        text::precedes(self.key, other.key) || (self.key == other.key && !self.prefix && other.prefix)
    }
}

impl View for FencePath {
    type V = PathModel;

    closed spec fn view(&self) -> PathModel {
        PathModel { key: self.key@, prefix: self.prefix }
    }
}

impl Clone for FencePath {
    fn clone(&self) -> (copy: Self)
        ensures
            copy@ == self@,
    {
        FencePath { key: self.key.clone(), prefix: self.prefix }
    }
}

proof fn prefixes_overlap_when_one_begins_the_other(a: Seq<char>, b: Seq<char>, key: Seq<char>)
    requires
        a.is_prefix_of(key),
        b.is_prefix_of(key),
    ensures
        a.is_prefix_of(b) || b.is_prefix_of(a),
{
    if a.len() <= b.len() {
        assert(a =~= b.subrange(0, a.len() as int));
    } else {
        assert(b =~= a.subrange(0, b.len() as int));
    }
}

impl FencePath {
    /// Exactly one key.
    pub fn exact(key: &str) -> (path: Self)
        ensures
            path@ == (PathModel { key: key@, prefix: false }),
    {
        FencePath { key: key.to_owned(), prefix: false }
    }

    /// Every key that begins with `key`.
    pub fn prefix(key: &str) -> (path: Self)
        ensures
            path@ == (PathModel { key: key@, prefix: true }),
    {
        FencePath { key: key.to_owned(), prefix: true }
    }

    /// Whether some key is covered by both paths.
    pub fn overlaps(&self, other: &Self) -> (overlapping: bool)
        ensures
            overlapping == self@.overlaps(other@),
    {
        let a = self.key.as_str();
        let b = other.key.as_str();
        let overlapping = if self.prefix && other.prefix {
            has_prefix(a, b) || has_prefix(b, a)
        } else if self.prefix {
            has_prefix(b, a)
        } else if other.prefix {
            has_prefix(a, b)
        } else {
            same_text(a, b)
        };
        proof {
            let x = self.key@;
            let y = other.key@;
            assert(x =~= x.subrange(0, x.len() as int));
            assert(y =~= y.subrange(0, y.len() as int));
            if overlapping {
                let shared = if self.prefix && (!other.prefix || x.is_prefix_of(y)) { y } else { x };
                assert(self@.covers(shared) && other@.covers(shared));
            }
            if self@.overlaps(other@) {
                let shared = choose|key: Seq<char>| #[trigger] self@.covers(key) && other@.covers(key);
                if self.prefix && other.prefix {
                    prefixes_overlap_when_one_begins_the_other(x, y, shared);
                }
            }
        }
        overlapping
    }

    fn order(&self, other: &Self) -> (order: TextOrder)
        ensures
            order == TextOrder::Before <==> self@.before(other@),
            order == TextOrder::After <==> other@.before(self@),
            order == TextOrder::Same <==> self@ == other@,
    {
        proof {
            text::precedes_is_irreflexive(self.key@);
            if text::precedes(self.key@, other.key@) {
                text::precedes_is_asymmetric(self.key@, other.key@);
            }
            if text::precedes(other.key@, self.key@) {
                text::precedes_is_asymmetric(other.key@, self.key@);
            }
        }
        match text_order(self.key.as_str(), other.key.as_str()) {
            TextOrder::Before => TextOrder::Before,
            TextOrder::After => TextOrder::After,
            TextOrder::Same => if self.prefix == other.prefix {
                TextOrder::Same
            } else if other.prefix {
                TextOrder::Before
            } else {
                TextOrder::After
            },
        }
    }
}

/// Paths, each with its key taken as text.
pub open spec fn path_models(paths: Seq<FencePath>) -> Seq<PathModel> {
    paths.map_values(|path: FencePath| path@)
}

/// The fence that keeps an inode's key where it is: a directory's whole
/// prefix, a file's own key.
pub fn fence_path_for_inode(inode: &Inode) -> (path: FencePath)
    ensures
        path@ == (match inode.kind {
            EntryKind::Dir => PathModel { key: keys::dir_key_of(inode.key@), prefix: true },
            EntryKind::File => PathModel { key: inode.key@, prefix: false },
        }),
{
    match inode.kind {
        EntryKind::Dir => {
            let key = normalize_dir_key(inode.key.as_str());
            FencePath::prefix(key.as_str())
        },
        EntryKind::File => FencePath::exact(inode.key.as_str()),
    }
}

/// One fence that is held.
struct ActiveFence {
    paths: Vec<FencePath>,
    shared: bool,
}

/// A held fence: what it covers, and whether others may share it.
#[verifier::ext_equal]
pub ghost struct FenceModel {
    pub paths: Seq<PathModel>,
    pub shared: bool,
}

impl FenceModel {
    /// Some path of one overlaps some path of the other.
    pub open spec fn touches(self, other: FenceModel) -> bool {
        exists|i: int, j: int|
            0 <= i < self.paths.len() && 0 <= j < other.paths.len() && (#[trigger] self.paths[i]).overlaps(#[trigger] other.paths[j])
    }

    /// The two cannot be held at the same time.
    pub open spec fn conflicts(self, other: FenceModel) -> bool {
        !(self.shared && other.shared) && self.touches(other)
    }
}

/// How long operations waited for fences and held them.
#[derive(Clone, Copy, Debug, PartialEq, Eq, Structural)]
pub struct FenceMetrics {
    pub waits: u64,
    pub wait_ms: u64,
    pub hold_ms: u64,
}

impl Default for FenceMetrics {
    fn default() -> (metrics: Self)
        ensures
            metrics == (FenceMetrics { waits: 0, wait_ms: 0, hold_ms: 0 }),
    {
        FenceMetrics { waits: 0, wait_ms: 0, hold_ms: 0 }
    }
}

/// The sum, or the largest number where it is too large.
pub open spec fn saturated(a: u64, b: u64) -> u64 {
    if a + b > u64::MAX {
        u64::MAX
    } else {
        (a + b) as u64
    }
}

/// The fences that are held in one mount.
pub struct NamespaceFences {
    active: Vec<ActiveFence>,
    metrics: FenceMetrics,
}

impl NamespaceFences {
    /// The fences that are held, in the order in which they were taken.
    pub closed spec fn held(&self) -> Seq<FenceModel> {
        self.active@.map_values(|fence: ActiveFence| FenceModel { paths: path_models(fence.paths@), shared: fence.shared })
    }

    /// The times that were recorded.
    pub closed spec fn recorded(&self) -> FenceMetrics {
        self.metrics
    }

    /// No two fences that are held conflict.
    pub open spec fn well_formed(&self) -> bool {
        forall|i: int, j: int| 0 <= i < j < self.held().len() ==> !(#[trigger] self.held()[i]).conflicts(#[trigger] self.held()[j])
    }

    /// No fence at all.
    pub fn new() -> (fences: Self)
        ensures
            fences.well_formed(),
            fences.held() == Seq::<FenceModel>::empty(),
            fences.recorded() == (FenceMetrics { waits: 0, wait_ms: 0, hold_ms: 0 }),
    {
        let fences = NamespaceFences { active: Vec::new(), metrics: FenceMetrics::default() };
        assert(fences.held() =~= Seq::<FenceModel>::empty());
        fences
    }

    fn try_acquire(&mut self, paths: &Vec<FencePath>, shared: bool) -> (acquired: bool)
        requires
            old(self).well_formed(),
        ensures
            final(self).well_formed(),
            final(self).recorded() == old(self).recorded(),
            ({
                let wanted = FenceModel { paths: path_models(paths@), shared };
                let blocked = exists|i: int| 0 <= i < old(self).held().len() && (#[trigger] old(self).held()[i]).conflicts(wanted);
                &&& acquired == !blocked
                &&& final(self).held() == (if blocked { old(self).held() } else { old(self).held().push(wanted) })
            }),
    {
        let ghost wanted = FenceModel { paths: path_models(paths@), shared };
        let ghost held = self.held();
        let mut i: usize = 0;
        while i < self.active.len()
            invariant
                held == self.held(),
                held == old(self).held(),
                self.well_formed(),
                self.metrics == old(self).metrics,
                wanted == (FenceModel { paths: path_models(paths@), shared }),
                i <= self.active@.len(),
                forall|k: int| 0 <= k < i ==> !(#[trigger] held[k]).conflicts(wanted),
            decreases self.active@.len() - i,
        {
            let fence = &self.active[i];
            assert(held[i as int] == (FenceModel { paths: path_models(fence.paths@), shared: fence.shared }));
            if !(fence.shared && shared) {
                let touching = any_overlap(&fence.paths, paths);
                if touching {
                    proof {
                        let (a, b) = choose|a: int, b: int|
                            0 <= a < fence.paths@.len() && 0 <= b < paths@.len() && (#[trigger] path_models(fence.paths@)[a]).overlaps(
                                #[trigger] path_models(paths@)[b],
                            );
                        assert(held[i as int].paths[a].overlaps(wanted.paths[b]));
                        assert(held[i as int].conflicts(wanted));
                    }
                    return false;
                }
            }
            i = i + 1;
        }
        let mut copies: Vec<FencePath> = Vec::new();
        let mut k: usize = 0;
        while k < paths.len()
            invariant
                k <= paths@.len(),
                path_models(copies@) == path_models(paths@).take(k as int),
            decreases paths@.len() - k,
        {
            let copy = paths[k].clone();
            let ghost before = copies@;
            let ghost own = copy@;
            copies.push(copy);
            assert(path_models(copies@) =~= path_models(before).push(own));
            assert(path_models(copies@) =~= path_models(paths@).take(k + 1));
            k = k + 1;
        }
        assert(path_models(copies@) =~= path_models(paths@));
        self.active.push(ActiveFence { paths: copies, shared });
        assert(self.held() =~= held.push(wanted));
        true
    }

    fn release(&mut self, paths: &Vec<FencePath>, shared: bool)
        requires
            old(self).well_formed(),
        ensures
            final(self).well_formed(),
            final(self).recorded() == old(self).recorded(),
            ({
                let own = FenceModel { paths: path_models(paths@), shared };
                let held = old(self).held();
                &&& !held.contains(own) ==> final(self).held() == held
                &&& held.contains(own) ==> exists|i: int|
                    0 <= i < held.len() && #[trigger] held[i] == own && (forall|k: int| 0 <= k < i ==> held[k] != own) && final(self).held()
                        == held.remove(i)
            }),
    {
        let ghost own = FenceModel { paths: path_models(paths@), shared };
        let ghost held = self.held();
        let mut i: usize = 0;
        while i < self.active.len()
            invariant
                held == self.held(),
                self.active@ == old(self).active@,
                self.metrics == old(self).metrics,
                old(self).well_formed(),
                held == old(self).held(),
                own == (FenceModel { paths: path_models(paths@), shared }),
                i <= self.active@.len(),
                forall|k: int| 0 <= k < i ==> held[k] != own,
            decreases self.active@.len() - i,
        {
            let fence = &self.active[i];
            assert(held[i as int] == (FenceModel { paths: path_models(fence.paths@), shared: fence.shared }));
            if fence.shared == shared && same_paths(&fence.paths, paths) {
                let _ = self.active.remove(i);
                assert(self.held() =~= held.remove(i as int));
                assert(held[i as int] == own);
                assert(held.contains(own));
                assert forall|a: int, b: int| 0 <= a < b < self.held().len() implies !(#[trigger] self.held()[a]).conflicts(
                    #[trigger] self.held()[b],
                ) by {
                    let x = if a < i { a } else { a + 1 };
                    let y = if b < i { b } else { b + 1 };
                    assert(self.held()[a] == held[x] && self.held()[b] == held[y]);
                }
                return;
            }
            i = i + 1;
        }
    }

    fn note_wait(&mut self, waited_ms: u64)
        ensures
            final(self).held() == old(self).held(),
            final(self).recorded() == (if waited_ms > 0 {
                FenceMetrics {
                    waits: saturated(old(self).recorded().waits, 1),
                    wait_ms: saturated(old(self).recorded().wait_ms, waited_ms),
                    ..old(self).recorded()
                }
            } else {
                old(self).recorded()
            }),
    {
        if waited_ms > 0 {
            self.metrics.waits = self.metrics.waits.saturating_add(1);
            self.metrics.wait_ms = self.metrics.wait_ms.saturating_add(waited_ms);
        }
    }

    fn note_hold(&mut self, held_ms: u64)
        ensures
            final(self).held() == old(self).held(),
            final(self).recorded() == (FenceMetrics { hold_ms: saturated(old(self).recorded().hold_ms, held_ms), ..old(self).recorded() }),
    {
        self.metrics.hold_ms = self.metrics.hold_ms.saturating_add(held_ms);
    }

    /// The times that were recorded.
    pub fn metrics(&self) -> (metrics: FenceMetrics)
        ensures
            metrics == self.recorded(),
    {
        self.metrics
    }
}

fn any_overlap(held: &Vec<FencePath>, wanted: &Vec<FencePath>) -> (overlapping: bool)
    ensures
        overlapping <==> exists|i: int, j: int|
            0 <= i < held@.len() && 0 <= j < wanted@.len() && (#[trigger] path_models(held@)[i]).overlaps(#[trigger] path_models(wanted@)[j]),
{
    let ghost left = path_models(held@);
    let ghost right = path_models(wanted@);
    let mut i: usize = 0;
    while i < held.len()
        invariant
            left == path_models(held@),
            right == path_models(wanted@),
            i <= held@.len(),
            forall|a: int, b: int| 0 <= a < i && 0 <= b < wanted@.len() ==> !(#[trigger] left[a]).overlaps(#[trigger] right[b]),
        decreases held@.len() - i,
    {
        let mut j: usize = 0;
        while j < wanted.len()
            invariant
                left == path_models(held@),
                right == path_models(wanted@),
                i < held@.len(),
                j <= wanted@.len(),
                forall|a: int, b: int| 0 <= a < i && 0 <= b < wanted@.len() ==> !(#[trigger] left[a]).overlaps(#[trigger] right[b]),
                forall|b: int| 0 <= b < j ==> !left[i as int].overlaps(#[trigger] right[b]),
            decreases wanted@.len() - j,
        {
            assert(left[i as int] == held@[i as int]@ && right[j as int] == wanted@[j as int]@);
            if held[i].overlaps(&wanted[j]) {
                return true;
            }
            j = j + 1;
        }
        i = i + 1;
    }
    false
}

fn same_paths(a: &Vec<FencePath>, b: &Vec<FencePath>) -> (same: bool)
    ensures
        same == (path_models(a@) == path_models(b@)),
{
    if a.len() != b.len() {
        assert(path_models(a@).len() != path_models(b@).len());
        return false;
    }
    let mut i: usize = 0;
    while i < a.len()
        invariant
            a@.len() == b@.len(),
            i <= a@.len(),
            forall|k: int| 0 <= k < i ==> path_models(a@)[k] == path_models(b@)[k],
        decreases a@.len() - i,
    {
        assert(path_models(a@)[i as int] == a@[i as int]@ && path_models(b@)[i as int] == b@[i as int]@);
        match a[i].order(&b[i]) {
            TextOrder::Same => {},
            _ => {
                return false;
            },
        }
        i = i + 1;
    }
    assert(path_models(a@) =~= path_models(b@));
    true
}

/// The paths stand in strictly increasing order.
pub open spec fn paths_in_order(paths: Seq<PathModel>) -> bool {
    forall|i: int, j: int| 0 <= i < j < paths.len() ==> (#[trigger] paths[i]).before(#[trigger] paths[j])
}

proof fn before_is_transitive(a: PathModel, b: PathModel, c: PathModel)
    requires
        a.before(b),
        b.before(c),
    ensures
        a.before(c),
{
    if text::precedes(a.key, b.key) && text::precedes(b.key, c.key) {
        text::precedes_is_transitive(a.key, b.key, c.key);
    }
}

/// The paths of one fence in order, each once. Taking them in one order keeps
/// two operations from waiting for each other.
pub fn in_order(paths: &Vec<FencePath>) -> (sorted: Vec<FencePath>)
    ensures
        paths_in_order(path_models(sorted@)),
        forall|path: PathModel| #[trigger] path_models(sorted@).contains(path) <==> path_models(paths@).contains(path),
{
    let ghost given = path_models(paths@);
    let mut sorted: Vec<FencePath> = Vec::new();
    let mut i: usize = 0;
    while i < paths.len()
        invariant
            given == path_models(paths@),
            i <= paths@.len(),
            paths_in_order(path_models(sorted@)),
            forall|path: PathModel| #[trigger] path_models(sorted@).contains(path) <==> given.take(i as int).contains(path),
        decreases paths@.len() - i,
    {
        let path = &paths[i];
        let ghost own = path@;
        let ghost before = path_models(sorted@);
        let mut place: usize = 0;
        let mut present = false;
        while place < sorted.len() && !present && matches!(sorted[place].order(path), TextOrder::Before)
            invariant
                before == path_models(sorted@),
                own == path@,
                place <= sorted@.len(),
                !present,
                forall|k: int| 0 <= k < place ==> (#[trigger] before[k]).before(own),
            decreases sorted@.len() - place,
        {
            assert(before[place as int] == sorted@[place as int]@);
            place = place + 1;
        }
        if place < sorted.len() {
            assert(before[place as int] == sorted@[place as int]@);
            present = matches!(sorted[place].order(path), TextOrder::Same);
        }
        proof {
            assert(given[i as int] == own);
            let fewer = given.take(i as int);
            let more = given.take(i + 1);
            assert(more =~= fewer.push(own));
            assert forall|other: PathModel| #[trigger] more.contains(other) <==> fewer.contains(other) || other == own by {
                if fewer.contains(other) {
                    let k = choose|k: int| 0 <= k < fewer.len() && fewer[k] == other;
                    assert(more[k] == other);
                }
                assert(more[i as int] == own);
                if more.contains(other) && other != own {
                    let k = choose|k: int| 0 <= k < more.len() && more[k] == other;
                    assert(fewer[k] == other);
                }
            }
        }
        if present {
            assert(before[place as int] == own);
            assert(before.contains(own));
        } else {
            sorted.insert(place, path.clone());
            proof {
                let after = path_models(sorted@);
                assert(after =~= before.insert(place as int, own));
                assert forall|k: int| place <= k < before.len() implies own.before(#[trigger] before[k]) by {
                    if k > place {
                        before_is_transitive(own, before[place as int], before[k]);
                    }
                }
                assert forall|a: int, b: int| 0 <= a < b < after.len() implies (#[trigger] after[a]).before(#[trigger] after[b]) by {
                    if a == place {
                        assert(after[b] == before[b - 1]);
                    } else if b == place {
                        assert(after[a] == before[a]);
                    } else {
                        let x = if a < place { a } else { a - 1 };
                        let y = if b < place { b } else { b - 1 };
                        assert(after[a] == before[x] && after[b] == before[y]);
                    }
                }
                assert forall|other: PathModel| #[trigger] after.contains(other) <==> before.contains(other) || other == own by {
                    assert(after[place as int] == own);
                    if before.contains(other) {
                        let k = choose|k: int| 0 <= k < before.len() && before[k] == other;
                        let x = if k < place { k } else { k + 1 };
                        assert(after[x] == other);
                    }
                    if after.contains(other) && other != own {
                        let k = choose|k: int| 0 <= k < after.len() && after[k] == other;
                        let x = if k < place { k } else { k - 1 };
                        assert(before[x] == other);
                    }
                }
            }
        }
        i = i + 1;
    }
    assert(given.take(i as int) =~= given);
    sorted
}

/// A fence that was taken, until it is given back.
pub struct FenceGuard {
    paths: Vec<FencePath>,
    shared: bool,
    acquired_at_ms: u64,
}

impl FenceGuard {
    /// What the guard holds.
    pub closed spec fn fence(&self) -> FenceModel {
        FenceModel { paths: path_models(self.paths@), shared: self.shared }
    }

    /// When it was taken.
    pub closed spec fn taken_at_ms(&self) -> u64 {
        self.acquired_at_ms
    }
}

/// Which fences touch depends only on the paths they hold, not on their order
/// or number.
proof fn touching_depends_on_the_paths_held(held: FenceModel, a: FenceModel, b: FenceModel)
    requires
        a.shared == b.shared,
        forall|path: PathModel| #[trigger] a.paths.contains(path) <==> b.paths.contains(path),
    ensures
        held.conflicts(a) == held.conflicts(b),
{
    if held.touches(a) {
        let (i, j) = choose|i: int, j: int|
            0 <= i < held.paths.len() && 0 <= j < a.paths.len() && (#[trigger] held.paths[i]).overlaps(#[trigger] a.paths[j]);
        assert(a.paths.contains(a.paths[j]));
        assert(b.paths.contains(a.paths[j]));
        let k = choose|k: int| 0 <= k < b.paths.len() && b.paths[k] == a.paths[j];
        assert(held.paths[i].overlaps(b.paths[k]));
    }
    if held.touches(b) {
        let (i, j) = choose|i: int, j: int|
            0 <= i < held.paths.len() && 0 <= j < b.paths.len() && (#[trigger] held.paths[i]).overlaps(#[trigger] b.paths[j]);
        assert(b.paths.contains(b.paths[j]));
        assert(a.paths.contains(b.paths[j]));
        let k = choose|k: int| 0 <= k < a.paths.len() && a.paths[k] == b.paths[j];
        assert(held.paths[i].overlaps(a.paths[k]));
    }
}

/// What taking a fence over `paths` comes to: none where one that is held
/// conflicts with it, and otherwise one over just these paths, with the wait
/// for it recorded.
pub open spec fn is_acquisition(
    before: NamespaceFences,
    after: NamespaceFences,
    paths: Seq<PathModel>,
    shared: bool,
    started_ms: u64,
    now_ms: u64,
    guard: Option<FenceGuard>,
) -> bool {
    let wanted = FenceModel { paths, shared };
    let blocked = exists|i: int| 0 <= i < before.held().len() && (#[trigger] before.held()[i]).conflicts(wanted);
    let waited = if now_ms > started_ms { (now_ms - started_ms) as u64 } else { 0 };
    &&& guard is None <==> blocked
    &&& guard is None ==> after.held() == before.held() && after.recorded() == before.recorded()
    &&& guard matches Some(taken) ==> {
        &&& taken.fence().shared == shared
        &&& taken.taken_at_ms() == now_ms
        &&& paths_in_order(taken.fence().paths)
        &&& forall|path: PathModel| #[trigger] taken.fence().paths.contains(path) <==> paths.contains(path)
        &&& after.held() == before.held().push(taken.fence())
        &&& after.recorded() == (if waited > 0 {
            FenceMetrics {
                waits: saturated(before.recorded().waits, 1),
                wait_ms: saturated(before.recorded().wait_ms, waited),
                ..before.recorded()
            }
        } else {
            before.recorded()
        })
    }
}

impl NamespaceFences {
    /// Takes a fence over `paths` if none that is held conflicts with it; the
    /// caller began to wait at `started_ms` and tries again whenever a fence
    /// was given back.
    pub fn acquire_inner(&mut self, paths: &Vec<FencePath>, shared: bool, started_ms: u64, now_ms: u64) -> (guard: Option<FenceGuard>)
        requires
            old(self).well_formed(),
        ensures
            final(self).well_formed(),
            is_acquisition(*old(self), *final(self), path_models(paths@), shared, started_ms, now_ms, guard),
    {
        let sorted = in_order(paths);
        let ghost wanted = FenceModel { paths: path_models(paths@), shared };
        let ghost own = FenceModel { paths: path_models(sorted@), shared };
        proof {
            assert forall|i: int| 0 <= i < self.held().len() implies (#[trigger] self.held()[i]).conflicts(wanted) == self.held()[i].conflicts(own) by {
                touching_depends_on_the_paths_held(self.held()[i], wanted, own);
            }
        }
        if !self.try_acquire(&sorted, shared) {
            return None;
        }
        self.note_wait(now_ms.saturating_sub(started_ms));
        Some(FenceGuard { paths: sorted, shared, acquired_at_ms: now_ms })
    }

    /// Takes a fence that nobody else may hold.
    pub fn acquire(&mut self, paths: &Vec<FencePath>, started_ms: u64, now_ms: u64) -> (guard: Option<FenceGuard>)
        requires
            old(self).well_formed(),
        ensures
            final(self).well_formed(),
            is_acquisition(*old(self), *final(self), path_models(paths@), false, started_ms, now_ms, guard),
    {
        self.acquire_inner(paths, false, started_ms, now_ms)
    }

    /// Takes a fence that other shared fences may overlap.
    pub fn acquire_shared(&mut self, paths: &Vec<FencePath>, started_ms: u64, now_ms: u64) -> (guard: Option<FenceGuard>)
        requires
            old(self).well_formed(),
        ensures
            final(self).well_formed(),
            is_acquisition(*old(self), *final(self), path_models(paths@), true, started_ms, now_ms, guard),
    {
        self.acquire_inner(paths, true, started_ms, now_ms)
    }

    /// Gives a fence back and records how long it was held.
    pub fn drop_guard(&mut self, guard: &FenceGuard, now_ms: u64)
        requires
            old(self).well_formed(),
        ensures
            final(self).well_formed(),
            ({
                let own = guard.fence();
                let held = old(self).held();
                &&& !held.contains(own) ==> final(self).held() == held
                &&& held.contains(own) ==> exists|i: int|
                    0 <= i < held.len() && #[trigger] held[i] == own && (forall|k: int| 0 <= k < i ==> held[k] != own) && final(self).held()
                        == held.remove(i)
            }),
            final(self).recorded() == (FenceMetrics {
                hold_ms: saturated(
                    old(self).recorded().hold_ms,
                    if now_ms > guard.taken_at_ms() { (now_ms - guard.taken_at_ms()) as u64 } else { 0 },
                ),
                ..old(self).recorded()
            }),
    {
        self.release(&guard.paths, guard.shared);
        self.note_hold(now_ms.saturating_sub(guard.acquired_at_ms));
    }
}

/// Whether two paths overlap does not depend on which is asked.
pub proof fn overlapping_is_mutual(a: PathModel, b: PathModel)
    ensures
        a.overlaps(b) == b.overlaps(a),
{
    if a.overlaps(b) {
        let key = choose|key: Seq<char>| #[trigger] a.covers(key) && b.covers(key);
        assert(b.covers(key) && a.covers(key));
    }
    if b.overlaps(a) {
        let key = choose|key: Seq<char>| #[trigger] b.covers(key) && a.covers(key);
        assert(a.covers(key) && b.covers(key));
    }
}

/// The fence over the whole namespace overlaps every path.
pub proof fn the_empty_prefix_overlaps_everything(path: PathModel)
    ensures
        (PathModel { key: Seq::empty(), prefix: true }).overlaps(path),
{
    let all = PathModel { key: Seq::empty(), prefix: true };
    assert(Seq::<char>::empty() =~= path.key.subrange(0, 0));
    assert(path.key =~= path.key.subrange(0, path.key.len() as int));
    assert(all.covers(path.key) && path.covers(path.key));
}

/// Whoever holds the whole namespace for itself has outlasted every other
/// holder: no fence that is held besides covers anything.
pub proof fn whoever_holds_everything_is_alone(fences: &NamespaceFences, own: int, other: int)
    requires
        fences.well_formed(),
        0 <= own < fences.held().len(),
        0 <= other < fences.held().len(),
        own != other,
        !fences.held()[own].shared,
        fences.held()[own].paths.contains(PathModel { key: Seq::empty(), prefix: true }),
    ensures
        fences.held()[other].paths.len() == 0,
{
    let all = PathModel { key: Seq::empty(), prefix: true };
    let mine = fences.held()[own];
    let theirs = fences.held()[other];
    if theirs.paths.len() > 0 {
        let place = mine.paths.index_of(all);
        the_empty_prefix_overlaps_everything(theirs.paths[0]);
        overlapping_is_mutual(all, theirs.paths[0]);
        assert(mine.paths[place].overlaps(theirs.paths[0]));
        assert(theirs.paths[0].overlaps(mine.paths[place]));
        assert(mine.conflicts(theirs) && theirs.conflicts(mine));
    }
}

/// A fence over a directory keeps every rename of a key below it out: any path
/// that covers such a key overlaps the directory's prefix.
pub proof fn a_directory_fence_covers_what_lies_below(dir_key: Seq<char>, key: Seq<char>, path: PathModel)
    requires
        dir_key.is_prefix_of(key),
        path.covers(key),
    ensures
        (PathModel { key: dir_key, prefix: true }).overlaps(path),
{
    assert((PathModel { key: dir_key, prefix: true }).covers(key));
}

/// A path stands for its key alone, or for every key that begins with it.
pub proof fn a_prefix_covers_what_begins_with_it(path: PathModel, rest: Seq<char>, key: Seq<char>)
    ensures
        path.covers(path.key),
        path.prefix ==> path.covers(path.key + rest),
        !path.prefix ==> (path.covers(key) <==> key == path.key),
        path.covers(key) ==> path.key.is_prefix_of(key),
{
    assert((path.key + rest).subrange(0, path.key.len() as int) =~= path.key);
    assert(path.key.subrange(0, path.key.len() as int) =~= path.key);
}

/// Two exact paths overlap where they are the same, and a prefix overlaps
/// exactly what begins with it.
pub proof fn exact_paths_overlap_where_they_are_the_same(a: PathModel, b: PathModel)
    ensures
        !a.prefix && !b.prefix ==> (a.overlaps(b) <==> a.key == b.key),
        a.prefix && !b.prefix ==> (a.overlaps(b) <==> a.key.is_prefix_of(b.key)),
        a.prefix && b.prefix && a.key.is_prefix_of(b.key) ==> a.overlaps(b),
{
    assert(b.key.subrange(0, b.key.len() as int) =~= b.key);
    assert(b.covers(b.key));
    if a.covers(b.key) {
        assert(a.overlaps(b));
    }
}

/// Two shared fences never conflict; a fence conflicts with one that is not
/// shared wherever a path of the one overlaps a path of the other.
pub proof fn shared_fences_stand_beside_each_other(a: FenceModel, b: FenceModel, i: int, j: int)
    ensures
        a.shared && b.shared ==> !a.conflicts(b),
        (!a.shared || !b.shared) && 0 <= i < a.paths.len() && 0 <= j < b.paths.len() && a.paths[i].overlaps(b.paths[j]) ==> a.conflicts(b),
        a.paths.len() == 0 ==> !a.conflicts(b),
{
}

/// A wait is counted in full, as far as it can be.
pub proof fn a_sum_is_counted_as_far_as_it_can_be(a: u64, b: u64)
    ensures
        a + b <= u64::MAX ==> saturated(a, b) == a + b,
        a + b > u64::MAX ==> saturated(a, b) == u64::MAX,
{
}

/// A fence is taken exactly where none that is held conflicts with it. It
/// covers the paths that were asked for and no others, and joins those held.
pub proof fn a_fence_is_taken_where_none_conflicts(
    before: NamespaceFences,
    after: NamespaceFences,
    paths: Seq<PathModel>,
    shared: bool,
    started_ms: u64,
    now_ms: u64,
    guard: Option<FenceGuard>,
    index: int,
    path: PathModel,
)
    requires
        is_acquisition(before, after, paths, shared, started_ms, now_ms, guard),
        0 <= index < before.held().len(),
    ensures
        guard is Some ==> !before.held()[index].conflicts(FenceModel { paths, shared }),
        before.held()[index].conflicts(FenceModel { paths, shared }) ==> guard is None && after.held() == before.held() && after.recorded()
            == before.recorded(),
        guard is Some ==> after.held().len() == before.held().len() + 1 && after.held()[index] == before.held()[index]
            && after.held().last() == (guard->0).fence(),
        guard is Some ==> ((guard->0).fence().paths.contains(path) <==> paths.contains(path)),
        guard is Some ==> (guard->0).fence().shared == shared && (guard->0).taken_at_ms() == now_ms,
        guard is Some && now_ms <= started_ms ==> after.recorded() == before.recorded(),
        guard is Some && now_ms > started_ms && before.recorded().waits < u64::MAX ==> after.recorded().waits == before.recorded().waits + 1,
        guard is Some && now_ms > started_ms && before.recorded().wait_ms + (now_ms - started_ms) <= u64::MAX ==> after.recorded().wait_ms
            == before.recorded().wait_ms + (now_ms - started_ms),
{
}

/// A directory is fenced with everything below it, a file alone.
pub proof fn a_directory_is_fenced_with_its_content(inode: Inode, path: FencePath)
    requires
        call_ensures(fence_path_for_inode, (&inode,), path),
    ensures
        path@.prefix <==> inode.kind == EntryKind::Dir,
        inode.kind == EntryKind::File ==> path@.key == inode.key@,
        inode.kind == EntryKind::Dir && inode.key@.len() > 0 && inode.key@[0] != '/' && inode.key@.last() == '/' ==> path@.key == inode.key@,
{
}

/// A fence that is given back is held no more, and how long it was held is
/// counted.
pub proof fn a_fence_that_is_given_back_is_free(guard: FenceGuard, now_ms: u64)
    ensures
        forall|fences: &mut NamespaceFences| #[trigger]
            call_ensures(NamespaceFences::drop_guard, (fences, &guard, now_ms), ()) ==> {
                &&& (*fences).held().contains(guard.fence()) ==> final(fences).held().len() == (*fences).held().len() - 1
                &&& !(*fences).held().contains(guard.fence()) ==> final(fences).held() == (*fences).held()
                &&& final(fences).recorded().waits == (*fences).recorded().waits
                &&& final(fences).recorded().wait_ms == (*fences).recorded().wait_ms
                &&& now_ms >= guard.taken_at_ms() && (*fences).recorded().hold_ms + (now_ms - guard.taken_at_ms()) <= u64::MAX ==> final(
                    fences).recorded().hold_ms == (*fences).recorded().hold_ms + (now_ms - guard.taken_at_ms())
            },
{
}

} // verus!
