//! The directory listings that a mount holds, one generation per directory.
//!
//! A listing is given a generation strictly newer than any that a lookup has
//! read so far, so a cache entry recorded before the listing existed can never
//! pass for one of its own. Cookies live and die with the listing they were
//! handed out for.

use vstd::prelude::*;
use std::collections::HashMap;
use crate::directory_listing;
use crate::directory_listing::{DirChild, DirListing, ListedPage, ProviderPage};
use crate::inode_table;
use crate::inode_table::InodeTable;
use crate::keys;
use crate::keys::entry_name;
use crate::status::NfsStatus;
use crate::text;
use crate::text::same_text;

verus! {

broadcast use vstd::std_specs::hash::group_hash_axioms;

/// The listings by directory, and the newest generation given out.
#[verifier::ext_equal]
pub ghost struct DirectoriesModel {
    pub listings: Map<u64, directory_listing::ListingModel>,
    pub generation: u64,
}

impl DirectoriesModel {
    /// The listing that can answer for `dir_key` now.
    pub open spec fn fresh(self, dirid: u64, dir_key: Seq<char>, now_ms: u64) -> bool {
        self.listings.contains_key(dirid) && self.listings[dirid].is_fresh(dir_key, now_ms)
    }

    /// A reader holds on to a generation that is gone.
    pub open spec fn is_lost(self, dirid: u64, dir_key: Seq<char>, expected: Option<u64>, now_ms: u64) -> bool {
        expected is Some && !(self.fresh(dirid, dir_key, now_ms) && self.listings[dirid].generation == expected->0)
    }

    /// A fresh listing holds what the reader asked for.
    pub open spec fn can_answer(self, dirid: u64, dir_key: Seq<char>, after: Option<Seq<char>>, all: bool, now_ms: u64) -> bool {
        self.fresh(dirid, dir_key, now_ms) && self.listings[dirid].is_enough(after, all)
    }

    /// After a listing of `dir_key` was begun.
    pub open spec fn begun(self, dirid: u64, dir_key: Seq<char>, now_ms: u64) -> DirectoriesModel {
        let generation = (self.generation + 1) as u64;
        DirectoriesModel {
            listings: self.listings.insert(dirid, directory_listing::ListingModel::fresh(dir_key, generation, now_ms)),
            generation,
        }
    }

    /// `cookie` was handed out for the directory, and its entry is still there
    /// under the name it was handed out with.
    pub open spec fn knows_cookie(self, dirid: u64, cookie: u64, inodes: inode_table::TableModel) -> bool {
        &&& self.listings.contains_key(dirid)
        &&& self.listings[dirid].cookies.contains_key(cookie)
        &&& inodes.inodes.contains_key(cookie)
        &&& inodes.inodes[cookie].parent == dirid
        &&& keys::name_of(inodes.inodes[cookie].key) == self.listings[dirid].cookies[cookie]
    }

    /// The name that a cookie resumes after; zero starts at the beginning.
    pub open spec fn resumes_after(self, dirid: u64, cookie: u64) -> Option<Seq<char>> {
        if cookie == 0 {
            None
        } else {
            Some(self.listings[dirid].cookies[cookie])
        }
    }

    /// After the cookies of a page were handed out.
    pub open spec fn handed_out(self, dirid: u64, page: Seq<(u64, Seq<char>)>) -> DirectoriesModel {
        let listing = self.listings[dirid];
        DirectoriesModel {
            listings: self.listings.insert(
                dirid,
                directory_listing::ListingModel { cookies: directory_listing::with_cookies(listing.cookies, page), ..listing },
            ),
            ..self
        }
    }
}

/// What a reader of a directory does next.
pub enum ViewStep {
    /// The listing of this generation holds what was asked for.
    Ready { generation: u64, complete: bool },
    /// Fetch the page with this continuation for this generation, hand it to
    /// `advance`, and ask again.
    Fetch { generation: u64, continuation: Option<String> },
}

/// A page of a directory, ready to be handed to the client.
pub struct DirectoryPage {
    pub children: Vec<DirChild>,
    pub generation: u64,
    /// The page ends the directory.
    pub end: bool,
}

/// What the cached listing of a directory says of one name.
pub struct CachedChild {
    pub child: Option<DirChild>,
    pub complete: bool,
    pub generation: u64,
}

/// The listings of all directories.
pub struct Directories {
    listings: HashMap<u64, DirListing>,
    generation: u64,
}

impl View for Directories {
    type V = DirectoriesModel;

    open spec fn view(&self) -> DirectoriesModel {
        self.model()
    }
}

impl Directories {
    /// The listings and the newest generation.
    pub closed spec fn model(&self) -> DirectoriesModel {
        DirectoriesModel {
            listings: self.listings@.map_values(|listing: DirListing| listing@),
            generation: self.generation,
        }
    }

    pub closed spec fn well_formed(&self) -> bool {
        forall|dirid: u64| #[trigger] self.listings@.contains_key(dirid) ==> self.listings@[dirid].well_formed()
    }

    /// Every listing is in order: what it shows stands in name order, stays so
    /// whatever still comes, and each cookie stands for a child.
    pub proof fn every_listing_is_valid(&self, dirid: u64)
        requires
            self.well_formed(),
            self@.listings.contains_key(dirid),
        ensures
            self@.listings[dirid].valid(),
    {
        self.listings@[dirid].is_valid();
    }

    /// No listing at all.
    pub fn new() -> (directories: Self)
        ensures
            directories.well_formed(),
            directories@ == (DirectoriesModel { listings: Map::empty(), generation: 1 }),
    {
        let directories = Directories { listings: HashMap::new(), generation: 1 };
        assert(directories@ =~= (DirectoriesModel { listings: Map::empty(), generation: 1 }));
        directories
    }

    /// The newest generation given out.
    pub fn generation(&self) -> (generation: u64)
        ensures
            generation == self@.generation,
    {
        self.generation
    }

    /// What a reader that resumes after `after_name` does next. A reader that
    /// holds on to a generation that is gone is refused. A listing that is
    /// missing, of another key or too old is begun anew.
    pub fn directory_view(
        &mut self,
        dirid: u64,
        dir_key: &str,
        after_name: Option<&str>,
        expected_generation: Option<u64>,
        all: bool,
        now_ms: u64,
    ) -> (step: Result<ViewStep, NfsStatus>)
        requires
            old(self).well_formed(),
            old(self)@.generation < u64::MAX,
        ensures
            final(self).well_formed(),
            ({
                let after = match after_name {
                    Some(name) => Some(name@),
                    None => None,
                };
                let before = old(self)@;
                if before.is_lost(dirid, dir_key@, expected_generation, now_ms) {
                    &&& step is Err
                    &&& step->Err_0 == NfsStatus::BadCookie
                    &&& final(self)@ == before
                } else if before.can_answer(dirid, dir_key@, after, all, now_ms) {
                    &&& step matches Ok(ViewStep::Ready { generation, complete })
                    &&& generation == before.listings[dirid].generation
                    &&& complete == before.listings[dirid].complete
                    &&& final(self)@ == before
                } else if before.fresh(dirid, dir_key@, now_ms) {
                    &&& step matches Ok(ViewStep::Fetch { generation, continuation })
                    &&& generation == before.listings[dirid].generation
                    &&& text::optional(continuation) == before.listings[dirid].token
                    &&& final(self)@ == before
                } else {
                    &&& step matches Ok(ViewStep::Fetch { generation, continuation })
                    &&& generation == before.generation + 1
                    &&& continuation is None
                    &&& final(self)@ == before.begun(dirid, dir_key@, now_ms)
                }
            }),
    {
        match self.listings.get(&dirid) {
            Some(listing) => {
                if listing.is_fresh(dir_key, now_ms) {
                    match expected_generation {
                        Some(expected) => {
                            if listing.generation() != expected {
                                return Err(NfsStatus::BadCookie);
                            }
                        },
                        None => {},
                    }
                    if listing.is_enough(after_name, all) {
                        return Ok(ViewStep::Ready { generation: listing.generation(), complete: listing.is_complete() });
                    }
                    return Ok(ViewStep::Fetch { generation: listing.generation(), continuation: listing.continuation() });
                }
            },
            None => {},
        }
        if expected_generation.is_some() {
            return Err(NfsStatus::BadCookie);
        }
        self.generation = self.generation + 1;
        let listing = DirListing::new(dir_key, self.generation, now_ms);
        let generation: u64 = self.generation;
        self.listings.insert(dirid, listing);
        assert(self@ =~= old(self)@.begun(dirid, dir_key@, now_ms));
        Ok(ViewStep::Fetch { generation, continuation: None })
    }

    /// Takes in a page that was fetched for `generation` with `sent` as its
    /// continuation. A malformed page is an error; a page for a listing that
    /// is gone is refused; in both cases, and where the page cannot follow,
    /// nothing changes.
    pub fn advance_directory_page(
        &mut self,
        dirid: u64,
        dir_key: &str,
        generation: u64,
        sent: &Option<String>,
        response: &ListedPage,
        inodes: &mut InodeTable,
        now_ms: u64,
    ) -> (outcome: Result<(), NfsStatus>)
        requires
            old(self).well_formed(),
            old(inodes).well_formed(),
        ensures
            final(self).well_formed(),
            final(inodes).well_formed(),
            ({
                let before = old(self)@;
                let listing = before.listings[dirid];
                if !directory_listing::is_valid_page(*response, dir_key@) {
                    outcome == Err::<(), NfsStatus>(NfsStatus::Io)
                } else if !before.listings.contains_key(dirid) || listing.generation != generation || listing.key != dir_key@
                    || listing.token != text::optional(*sent) || listing.complete {
                    outcome == Err::<(), NfsStatus>(NfsStatus::BadCookie)
                } else {
                    let page = directory_listing::page_of(*response, dir_key@, old(inodes)@, now_ms);
                    let (after, table) = page.taken_in(listing, dirid);
                    &&& page.valid()
                    &&& listing.regresses(page.first_key, page.continuation) ==> outcome == Err::<(), NfsStatus>(NfsStatus::Io)
                    &&& !listing.regresses(page.first_key, page.continuation) ==> {
                        &&& outcome == Ok::<(), NfsStatus>(())
                        &&& final(self)@ == (DirectoriesModel { listings: before.listings.insert(dirid, after), ..before })
                        &&& final(inodes)@ == table
                    }
                }
            }),
            outcome is Err ==> final(self)@ == old(self)@ && final(inodes)@ == old(inodes)@,
    {
        let page = match ProviderPage::parse(response, dir_key) {
            Ok(page) => page,
            Err(status) => {
                return Err(status);
            },
        };
        let ghost raw = directory_listing::raw_entries(*response, dir_key@);
        assert(page.holds(raw));
        let ghost model = directory_listing::page_of(*response, dir_key@, inodes@, now_ms);
        assert(model.valid());
        let ghost before = self@;
        match self.listings.remove(&dirid) {
            Some(listing) => {
                let mut listing = listing;
                let ghost listing_before = listing@;
                assert(listing.well_formed());
                let outcome = listing.advance(dirid, dir_key, generation, sent, page, inodes, now_ms);
                let ghost listing_after = listing@;
                self.listings.insert(dirid, listing);
                proof {
                    assert(before.listings[dirid] == listing_before);
                    assert(self@ =~= (DirectoriesModel { listings: before.listings.insert(dirid, listing_after), ..before }));
                    if outcome is Err {
                        assert(before.listings.insert(dirid, listing_after) =~= before.listings);
                    }
                }
                outcome
            },
            None => {
                assert(self@ =~= before);
                Err(NfsStatus::BadCookie)
            },
        }
    }

    /// What a fresh listing of the directory says of `name`.
    pub fn cached_directory_child(&self, dirid: u64, dir_key: &str, name: &str, now_ms: u64) -> (cached: Option<CachedChild>)
        requires
            self.well_formed(),
        ensures
            cached is Some <==> self@.fresh(dirid, dir_key@, now_ms),
            cached matches Some(found) ==> {
                let listing = self@.listings[dirid];
                &&& found.complete == listing.complete
                &&& found.generation == listing.generation
                &&& found.child is Some <==> directory_listing::is_shown(listing.children, name@)
                &&& found.child matches Some(child) ==> child.name@ == name@ && child.fileid == listing.id_of(name@)
            },
    {
        match self.listings.get(&dirid) {
            Some(listing) => {
                if listing.is_fresh(dir_key, now_ms) {
                    Some(
                        CachedChild {
                            child: listing.child_named(name),
                            complete: listing.is_complete(),
                            generation: listing.generation(),
                        },
                    )
                } else {
                    None
                }
            },
            None => None,
        }
    }

    /// Whether the directory holds `name`, as far as a fresh and complete
    /// listing of it can say. Any other listing says nothing: a partial one can
    /// never establish that a name does not exist.
    pub fn complete_listing_shows(&self, dirid: u64, dir_key: &str, name: &str, now_ms: u64) -> (shows: Option<bool>)
        requires
            self.well_formed(),
        ensures
            shows == (if self@.fresh(dirid, dir_key@, now_ms) && self@.listings[dirid].complete {
                Some(directory_listing::is_shown(self@.listings[dirid].children, name@))
            } else {
                None
            }),
    {
        match self.cached_directory_child(dirid, dir_key, name, now_ms) {
            Some(cached) => if cached.complete {
                Some(cached.child.is_some())
            } else {
                None
            },
            None => None,
        }
    }

    /// Whether the cached listing of the directory has seen `name` in any page
    /// so far. A listing's generation is fixed before its pages arrive, so a
    /// cached miss recorded under it may be older than the page that later
    /// returned the name; such a name is never answered from that cache.
    pub fn cached_listing_mentions(&self, dirid: u64, dir_key: &str, name: &str, now_ms: u64) -> (mentioned: bool)
        requires
            self.well_formed(),
        ensures
            mentioned <==> self@.fresh(dirid, dir_key@, now_ms) && self@.listings[dirid].mentions(name@),
    {
        match self.listings.get(&dirid) {
            Some(listing) => listing.is_fresh(dir_key, now_ms) && listing.mentions(name),
            None => false,
        }
    }

    /// Drops the listing of a directory whose names changed, and its cookies.
    pub fn invalidate_dir(&mut self, dirid: u64)
        requires
            old(self).well_formed(),
            old(self)@.generation < u64::MAX,
        ensures
            final(self).well_formed(),
            final(self)@ == (DirectoriesModel {
                listings: old(self)@.listings.remove(dirid),
                generation: (old(self)@.generation + 1) as u64,
            }),
    {
        self.generation = self.generation + 1;
        let _ = self.listings.remove(&dirid);
        assert(self@.listings =~= old(self)@.listings.remove(dirid));
    }

    /// Drops every listing, when recovery may have changed any name.
    pub fn invalidate_all_dirs(&mut self)
        requires
            old(self).well_formed(),
        ensures
            final(self).well_formed(),
            final(self)@ == (DirectoriesModel { listings: Map::empty(), ..old(self)@ }),
    {
        self.listings.clear();
        assert(self@.listings =~= Map::<u64, directory_listing::ListingModel>::empty());
    }

    /// The entry that a `readdir` cookie stands for: its name and the
    /// generation it was handed out under. Zero starts at the beginning. A
    /// cookie that was not handed out for this directory, or whose entry has
    /// been retired, moved or renamed, is refused.
    pub fn resolve_cookie(&self, dirid: u64, start_after: u64, inodes: &InodeTable) -> (cookie: Result<Option<(String, u64)>, NfsStatus>)
        requires
            self.well_formed(),
            inodes.well_formed(),
        ensures
            start_after == 0 ==> cookie is Ok && cookie->Ok_0 is None,
            start_after != 0 ==> {
                if self@.knows_cookie(dirid, start_after, inodes@) {
                    &&& cookie matches Ok(Some((name, generation)))
                    &&& Some(name@) == self@.resumes_after(dirid, start_after)
                    &&& generation == self@.listings[dirid].generation
                } else {
                    cookie is Err && cookie->Err_0 == NfsStatus::BadCookie
                }
            },
    {
        if start_after == 0 {
            return Ok(None);
        }
        let (name, generation) = match self.listings.get(&dirid) {
            Some(listing) => match listing.cookie(start_after) {
                Some(name) => (name, listing.generation()),
                None => {
                    return Err(NfsStatus::BadCookie);
                },
            },
            None => {
                return Err(NfsStatus::BadCookie);
            },
        };
        match inodes.get(start_after) {
            Some(inode) => {
                if inode.parent != dirid || !same_text(entry_name(inode.key.as_str()), name.as_str()) {
                    return Err(NfsStatus::BadCookie);
                }
            },
            None => {
                return Err(NfsStatus::BadCookie);
            },
        }
        Ok(Some((name, generation)))
    }

    /// The page of a directory that follows `after_name`, from the listing of
    /// `generation`. Refused where that listing is gone.
    pub fn page(&self, dirid: u64, generation: u64, after_name: Option<&str>, max_entries: usize) -> (page: Result<DirectoryPage, NfsStatus>)
        requires
            self.well_formed(),
        ensures
            ({
                let after = match after_name {
                    Some(name) => Some(name@),
                    None => None,
                };
                let listing = self@.listings[dirid];
                if self@.listings.contains_key(dirid) && listing.generation == generation {
                    &&& page matches Ok(p)
                    &&& directory_listing::children_view(p.children@) == listing.page(after, max_entries)
                    &&& p.generation == generation
                    &&& p.end == (listing.page_reaches_end(after, max_entries) && listing.complete)
                } else {
                    page is Err && page->Err_0 == NfsStatus::BadCookie
                }
            }),
    {
        match self.listings.get(&dirid) {
            Some(listing) => {
                if listing.generation() != generation {
                    return Err(NfsStatus::BadCookie);
                }
                let (children, exhausted) = listing.page(after_name, max_entries);
                Ok(DirectoryPage { children, generation, end: exhausted && listing.is_complete() })
            },
            None => Err(NfsStatus::BadCookie),
        }
    }

    /// Hands out the cookies of a page. A local change may have dropped the
    /// listing while the page was being prepared; the client is then given no
    /// cookie for it.
    pub fn hand_out(&mut self, dirid: u64, page: &DirectoryPage) -> (outcome: Result<(), NfsStatus>)
        requires
            old(self).well_formed(),
            old(self)@.listings.contains_key(dirid) && old(self)@.listings[dirid].generation == page.generation ==> forall|i: int|
                0 <= i < page.children@.len() ==> old(self)@.listings[dirid].children.contains((#[trigger] page.children@[i])@),
        ensures
            final(self).well_formed(),
            ({
                let before = old(self)@;
                let listing = before.listings[dirid];
                if before.listings.contains_key(dirid) && listing.generation == page.generation {
                    &&& outcome == Ok::<(), NfsStatus>(())
                    &&& final(self)@ == before.handed_out(dirid, directory_listing::children_view(page.children@))
                } else {
                    &&& outcome == Err::<(), NfsStatus>(NfsStatus::BadCookie)
                    &&& final(self)@ == before
                }
            }),
    {
        let ghost before = self@;
        let current = match self.listings.get(&dirid) {
            Some(listing) => listing.generation() == page.generation,
            None => false,
        };
        if !current {
            return Err(NfsStatus::BadCookie);
        }
        match self.listings.remove(&dirid) {
            Some(listing) => {
                let mut listing = listing;
                assert(listing@ == before.listings[dirid]);
                listing.record_cookies(&page.children);
                let ghost after = listing@;
                self.listings.insert(dirid, listing);
                assert(self@ =~= (DirectoriesModel { listings: before.listings.insert(dirid, after), ..before }));
                Ok(())
            },
            None => Err(NfsStatus::BadCookie),
        }
    }
}

/// A directory as it stands when one page of it is read.
pub ghost struct DirectoryRead {
    pub directories: DirectoriesModel,
    pub inodes: inode_table::TableModel,
    /// The cookie that the reader sends: the id of the last entry it received,
    /// or zero.
    pub cookie: u64,
    pub max_entries: usize,
}

impl DirectoryRead {
    /// The listing that is read.
    pub open spec fn listing(self, dirid: u64) -> directory_listing::ListingModel {
        self.directories.listings[dirid]
    }

    /// The name that the reader resumes after.
    pub open spec fn after(self, dirid: u64) -> Option<Seq<char>> {
        self.directories.resumes_after(dirid, self.cookie)
    }

    /// The entries that the reader receives.
    pub open spec fn page(self, dirid: u64) -> Seq<(u64, Seq<char>)> {
        self.listing(dirid).page(self.after(dirid), self.max_entries)
    }

    /// The reader is told that the directory ends here.
    pub open spec fn ends(self, dirid: u64) -> bool {
        self.listing(dirid).page_reaches_end(self.after(dirid), self.max_entries) && self.listing(dirid).complete
    }

    /// A listing whose children stand for inodes of their names holds enough to
    /// answer.
    pub open spec fn is_answered(self, dirid: u64) -> bool {
        &&& self.directories.listings.contains_key(dirid)
        &&& self.listing(dirid).valid()
        &&& keys::is_dir_key(self.listing(dirid).key)
        &&& self.inodes.consistent()
        &&& directory_listing::children_stand(self.listing(dirid).children, dirid, self.listing(dirid).key, self.inodes)
        &&& self.listing(dirid).is_enough(self.after(dirid), false)
    }

    /// The reader, not yet at the end, asks on with the id of the last entry it
    /// received, and the listing it was given cookies for has only grown.
    pub open spec fn goes_on_to(self, next: DirectoryRead, dirid: u64) -> bool {
        &&& !self.ends(dirid)
        &&& next.cookie == self.page(dirid).last().0
        &&& self.directories.handed_out(dirid, self.page(dirid)).listings[dirid].grows_to(next.listing(dirid))
    }
}

/// Reads of one directory that follow each other from its beginning on.
pub open spec fn is_run(reads: Seq<DirectoryRead>, dirid: u64) -> bool
    decreases reads.len(),
{
    &&& reads.len() > 0
    &&& reads.last().is_answered(dirid)
    &&& if reads.len() == 1 {
        reads.last().cookie == 0
    } else {
        is_run(reads.drop_last(), dirid) && reads.drop_last().last().goes_on_to(reads.last(), dirid)
    }
}

/// All entries that the reads gave, in the order they were received.
pub open spec fn received(reads: Seq<DirectoryRead>, dirid: u64) -> Seq<(u64, Seq<char>)>
    decreases reads.len(),
{
    if reads.len() == 0 {
        Seq::empty()
    } else {
        received(reads.drop_last(), dirid) + reads.last().page(dirid)
    }
}

/// Taking a listing two steps further is taking it further.
pub proof fn growth_adds_up(
    first: directory_listing::ListingModel,
    second: directory_listing::ListingModel,
    third: directory_listing::ListingModel,
)
    requires
        first.grows_to(second),
        second.grows_to(third),
    ensures
        first.grows_to(third),
{
    assert forall|i: int| 0 <= i < first.children.len() implies first.children[i] == third.children[i] by {
        assert(second.children.subrange(0, first.children.len() as int)[i] == second.children[i]);
        assert(third.children.subrange(0, second.children.len() as int)[i] == third.children[i]);
    }
    assert(first.children =~= third.children.subrange(0, first.children.len() as int));
}

/// Handing out the cookies of a page, to whichever reader, only adds to a
/// listing.
pub proof fn handing_out_only_adds(before: DirectoriesModel, dirid: u64, page: Seq<(u64, Seq<char>)>)
    requires
        before.listings.contains_key(dirid),
    ensures
        before.listings[dirid].grows_to(before.handed_out(dirid, page).listings[dirid]),
        forall|i: int| 0 <= i < page.len() ==> before.handed_out(dirid, page).listings[dirid].cookies.contains_key((#[trigger] page[i]).0),
    decreases page.len(),
{
    let listing = before.listings[dirid];
    assert(listing.children =~= listing.children.subrange(0, listing.children.len() as int));
    if page.len() > 0 {
        handing_out_only_adds(before, dirid, page.drop_last());
        assert forall|i: int| 0 <= i < page.len() implies before.handed_out(dirid, page).listings[dirid].cookies.contains_key(
            (#[trigger] page[i]).0,
        ) by {
            if i < page.len() - 1 {
                assert(page.drop_last()[i] == page[i]);
            }
        }
    }
}

/// The cookie of the last entry of a page is known when the reader comes back
/// with it, and resumes right behind that entry.
proof fn a_reader_resumes_behind_its_last_entry(read: DirectoryRead, next: DirectoryRead, dirid: u64)
    requires
        read.is_answered(dirid),
        next.is_answered(dirid),
        read.goes_on_to(next, dirid),
    ensures
        ({
            let stop = read.listing(dirid).page_stop(read.after(dirid), read.max_entries);
            &&& next.cookie != 0
            &&& next.directories.knows_cookie(dirid, next.cookie, next.inodes)
            &&& next.after(dirid) == Some(read.page(dirid).last().1)
            &&& directory_listing::resume_point(next.listing(dirid).children, next.after(dirid)) == stop
            &&& read.listing(dirid).children.is_prefix_of(next.listing(dirid).children)
            &&& 0 < stop <= read.listing(dirid).children.len()
        }),
{
    let listing = read.listing(dirid);
    let grown = next.listing(dirid);
    let page = read.page(dirid);
    let stop = listing.page_stop(read.after(dirid), read.max_entries);
    directory_listing::a_page_before_the_end_has_entries(listing, read.after(dirid), read.max_entries);
    assert(page.last() == listing.children[stop - 1]);
    assert(grown.children.subrange(0, listing.children.len() as int)[stop - 1] == grown.children[stop - 1]);
    let (id, name) = page.last();
    assert(read.directories.handed_out(dirid, page).listings[dirid].cookies.contains_key(id));
    assert(grown.cookies.dom().contains(id));
    assert(grown.cookies.contains_key(id));
    assert(grown.children.contains((id, grown.cookies[id])));
    let at = choose|at: int| 0 <= at < grown.children.len() && grown.children[at] == (id, grown.cookies[id]);
    if at != stop - 1 {
        directory_listing::shown_ids_are_distinct(grown.children, dirid, grown.key, next.inodes, at, stop - 1);
    }
    assert(next.inodes.inodes.contains_key(grown.children[stop - 1].0));
    let inode = next.inodes.inodes[id];
    keys::a_child_key_carries_its_name(grown.key, name, inode.kind == inode_table::EntryKind::Dir);
    directory_listing::the_next_page_starts_where_the_last_ended(listing.children, grown.children, stop);
}

proof fn a_run_receives_what_is_shown(reads: Seq<DirectoryRead>, dirid: u64)
    requires
        is_run(reads, dirid),
    ensures
        ({
            let last = reads.last();
            let stop = last.listing(dirid).page_stop(last.after(dirid), last.max_entries);
            &&& 0 <= stop <= last.listing(dirid).children.len()
            &&& received(reads, dirid) == last.listing(dirid).children.take(stop)
        }),
    decreases reads.len(),
{
    let last = reads.last();
    let listing = last.listing(dirid);
    let stop = listing.page_stop(last.after(dirid), last.max_entries);
    let resume = directory_listing::resume_point(listing.children, last.after(dirid));
    directory_listing::a_page_starts_within_the_listing(listing, last.after(dirid));
    let earlier = reads.drop_last();
    reveal_with_fuel(is_run, 2);
    if reads.len() > 1 {
        a_run_receives_what_is_shown(earlier, dirid);
        let before = earlier.last().listing(dirid);
        a_reader_resumes_behind_its_last_entry(earlier.last(), last, dirid);
        assert forall|i: int| 0 <= i < resume implies before.children[i] == listing.children[i] by {
            assert(listing.children.subrange(0, before.children.len() as int)[i] == listing.children[i]);
        }
        assert(received(earlier, dirid) =~= listing.children.take(resume));
    } else {
        assert(received(earlier, dirid) =~= Seq::<(u64, Seq<char>)>::empty());
    }
    assert(received(reads, dirid) =~= listing.children.take(stop));
}

proof fn a_run_begins_with_a_run(reads: Seq<DirectoryRead>, dirid: u64, count: int)
    requires
        is_run(reads, dirid),
        0 < count <= reads.len(),
    ensures
        is_run(reads.take(count), dirid),
    decreases reads.len(),
{
    if count == reads.len() {
        assert(reads.take(count) =~= reads);
    } else {
        a_run_begins_with_a_run(reads.drop_last(), dirid, count);
        assert(reads.drop_last().take(count) =~= reads.take(count));
    }
}

/// A reader that starts at the beginning, asks on each time with the id of the
/// last entry it received and stops when it is told that the directory ends
/// has received all that the directory shows: every entry once, in strict name
/// order, each with an id of its own.
pub proof fn a_whole_run_reads_every_entry_once(reads: Seq<DirectoryRead>, dirid: u64)
    requires
        is_run(reads, dirid),
        reads.last().ends(dirid),
    ensures
        received(reads, dirid) == reads.last().listing(dirid).children,
        directory_listing::in_name_order(received(reads, dirid)),
        forall|i: int, j: int|
            0 <= i < j < received(reads, dirid).len() ==> (#[trigger] received(reads, dirid)[i]).0 != (#[trigger] received(
                reads,
                dirid,
            )[j]).0,
{
    let last = reads.last();
    let listing = last.listing(dirid);
    a_run_receives_what_is_shown(reads, dirid);
    assert(listing.children.take(listing.children.len() as int) =~= listing.children);
    assert forall|i: int, j: int| 0 <= i < j < received(reads, dirid).len() implies (#[trigger] received(reads, dirid)[i]).0 != (
    #[trigger] received(reads, dirid)[j]).0 by {
        directory_listing::shown_ids_are_distinct(listing.children, dirid, listing.key, last.inodes, i, j);
    }
}

/// Every read of a run but the last gives at least one entry and no more than
/// were asked for, and does not say that the directory ends; and the cookie
/// that the reader comes back with is known and stands for the last entry it
/// received.
pub proof fn every_read_before_the_last_goes_on(reads: Seq<DirectoryRead>, dirid: u64, index: int)
    requires
        is_run(reads, dirid),
        0 <= index < reads.len() - 1,
    ensures
        !reads[index].ends(dirid),
        1 <= reads[index].page(dirid).len(),
        reads[index].page(dirid).len() <= (if reads[index].max_entries == 0 {
            1
        } else {
            reads[index].max_entries
        }),
        reads[index + 1].cookie == reads[index].page(dirid).last().0,
        reads[index + 1].cookie != 0,
        reads[index + 1].directories.knows_cookie(dirid, reads[index + 1].cookie, reads[index + 1].inodes),
        reads[index + 1].after(dirid) == Some(reads[index].page(dirid).last().1),
{
    let shorter = reads.take(index + 2);
    a_run_begins_with_a_run(reads, dirid, index + 2);
    let earlier = shorter.drop_last();
    assert(earlier.last() == reads[index]);
    assert(shorter.last() == reads[index + 1]);
    reveal_with_fuel(is_run, 2);
    a_reader_resumes_behind_its_last_entry(reads[index], reads[index + 1], dirid);
    directory_listing::a_page_before_the_end_has_entries(
        reads[index].listing(dirid),
        reads[index].after(dirid),
        reads[index].max_entries,
    );
}

/// What a whole run reads are the names that the provider's pages listed, all
/// of them and no other, each exactly once.
pub proof fn a_whole_run_reads_the_names_that_were_listed(
    reads: Seq<DirectoryRead>,
    dirid: u64,
    now_ms: u64,
    pages: Seq<directory_listing::PageModel>,
    name: Seq<char>,
)
    requires
        is_run(reads, dirid),
        reads.last().ends(dirid),
        ({
            let listing = reads.last().listing(dirid);
            let begun = directory_listing::ListingModel::fresh(listing.key, listing.generation, now_ms);
            &&& directory_listing::after_pages(begun, dirid, pages) is Some
            &&& directory_listing::scanned(begun, dirid, pages).complete
            &&& directory_listing::scanned(begun, dirid, pages).children == listing.children
        }),
    ensures
        directory_listing::was_listed(pages, name) <==> exists|i: int|
            0 <= i < received(reads, dirid).len() && (#[trigger] received(reads, dirid)[i]).1 == name,
        forall|i: int, j: int|
            0 <= i < j < received(reads, dirid).len() && (#[trigger] received(reads, dirid)[i]).1 == name ==> (#[trigger] received(
                reads,
                dirid,
            )[j]).1 != name,
{
    let listing = reads.last().listing(dirid);
    a_whole_run_reads_every_entry_once(reads, dirid);
    directory_listing::a_complete_scan_shows_every_name_once(listing.key, listing.generation, now_ms, dirid, pages, name);
    let all = received(reads, dirid);
    assert forall|i: int, j: int| 0 <= i < j < all.len() && (#[trigger] all[i]).1 == name implies (#[trigger] all[j]).1 != name by {
        assert(text::precedes(all[i].1, all[j].1));
        text::precedes_is_irreflexive(name);
    }
}

/// A directory can be answered for only from a listing of its own key that is
/// at most thirty seconds old.
pub proof fn an_old_listing_answers_nothing(
    model: DirectoriesModel,
    dirid: u64,
    dir_key: Seq<char>,
    after: Option<Seq<char>>,
    all: bool,
    now_ms: u64,
)
    ensures
        model.fresh(dirid, dir_key, now_ms) <==> {
            &&& model.listings.contains_key(dirid)
            &&& model.listings[dirid].key == dir_key
            &&& now_ms < model.listings[dirid].fetched_at_ms + 30_000
        },
        model.can_answer(dirid, dir_key, after, all, now_ms) ==> model.fresh(dirid, dir_key, now_ms),
        model.can_answer(dirid, dir_key, after, true, now_ms) <==> model.fresh(dirid, dir_key, now_ms) && model.listings[dirid].complete,
{
}

/// A reader that holds on to a generation is lost where another listing, or
/// none, can answer; one that holds on to none never is.
pub proof fn a_reader_is_lost_with_its_generation(model: DirectoriesModel, dirid: u64, dir_key: Seq<char>, expected: u64, now_ms: u64)
    ensures
        !model.is_lost(dirid, dir_key, None, now_ms),
        !model.fresh(dirid, dir_key, now_ms) ==> model.is_lost(dirid, dir_key, Some(expected), now_ms),
        model.fresh(dirid, dir_key, now_ms) ==> (model.is_lost(dirid, dir_key, Some(expected), now_ms) <==> model.listings[dirid].generation
            != expected),
{
}

/// A listing that is begun is empty, under a generation of its own, and
/// touches no other directory's.
pub proof fn a_new_listing_has_its_own_generation(model: DirectoriesModel, dirid: u64, dir_key: Seq<char>, now_ms: u64, other: u64)
    requires
        model.generation < u64::MAX,
        other != dirid,
    ensures
        model.begun(dirid, dir_key, now_ms).generation == model.generation + 1,
        model.begun(dirid, dir_key, now_ms).listings.contains_key(dirid),
        model.begun(dirid, dir_key, now_ms).listings[dirid].generation == model.generation + 1,
        model.begun(dirid, dir_key, now_ms).listings[dirid].children.len() == 0,
        model.begun(dirid, dir_key, now_ms).listings[dirid].key == dir_key,
        !model.begun(dirid, dir_key, now_ms).listings[dirid].complete,
        model.begun(dirid, dir_key, now_ms).listings.contains_key(other) <==> model.listings.contains_key(other),
        model.listings.contains_key(other) ==> model.begun(dirid, dir_key, now_ms).listings[other] == model.listings[other],
{
}

/// A cookie is honoured exactly where it was handed out for the directory and
/// its entry still lies there under the same name.
pub proof fn a_cookie_is_honoured_while_its_entry_stays(
    model: DirectoriesModel,
    dirid: u64,
    cookie: u64,
    inodes: inode_table::TableModel,
)
    ensures
        model.knows_cookie(dirid, cookie, inodes) <==> {
            &&& model.listings.contains_key(dirid)
            &&& model.listings[dirid].cookies.contains_key(cookie)
            &&& inodes.inodes.contains_key(cookie)
            &&& inodes.inodes[cookie].parent == dirid
            &&& keys::name_of(inodes.inodes[cookie].key) == model.listings[dirid].cookies[cookie]
        },
        model.resumes_after(dirid, 0) is None,
        cookie != 0 ==> model.resumes_after(dirid, cookie) == Some(model.listings[dirid].cookies[cookie]),
{
}

/// A reader gets a listing only from one that is fresh and of its generation,
/// fetches on where it is not enough, and begins anew where there is none.
pub proof fn a_reader_is_answered_from_a_fresh_listing(dirid: u64, dir_key: &str, expected: u64, all: bool, now_ms: u64)
    ensures
        forall|directories: &mut Directories, step: Result<ViewStep, NfsStatus>|
            (*directories)@.generation < u64::MAX && #[trigger] call_ensures(
                Directories::directory_view,
                (directories, dirid, dir_key, None, Some(expected), all, now_ms),
                step,
            ) ==> {
                let before = (*directories)@;
                &&& !before.fresh(dirid, dir_key@, now_ms) ==> step is Err && step->Err_0 == NfsStatus::BadCookie
                &&& before.fresh(dirid, dir_key@, now_ms) && before.listings[dirid].generation != expected ==> step is Err && step->Err_0
                    == NfsStatus::BadCookie
                &&& step is Err ==> final(directories)@ == before
            },
        forall|directories: &mut Directories, step: Result<ViewStep, NfsStatus>|
            (*directories)@.generation < u64::MAX && #[trigger] call_ensures(
                Directories::directory_view,
                (directories, dirid, dir_key, None, None, all, now_ms),
                step,
            ) ==> {
                let before = (*directories)@;
                &&& step is Ok
                &&& step matches Ok(ViewStep::Ready { generation, complete }) ==> before.fresh(dirid, dir_key@, now_ms) && generation
                    == before.listings[dirid].generation && complete == before.listings[dirid].complete && (all ==> complete)
                &&& before.fresh(dirid, dir_key@, now_ms) && before.listings[dirid].complete ==> step->Ok_0 is Ready
                &&& !before.fresh(dirid, dir_key@, now_ms) ==> step->Ok_0 is Fetch && final(directories)@.listings.contains_key(dirid) && final(
                    directories)@.listings[dirid].children.len() == 0 && final(directories)@.generation == before.generation + 1
            },
{
}

/// A page comes only from the listing of its generation, and ends the
/// directory only where that listing is whole.
pub proof fn a_page_ends_a_directory_only_where_it_is_whole(
    directories: Directories,
    dirid: u64,
    generation: u64,
    max_entries: usize,
    page: Result<DirectoryPage, NfsStatus>,
)
    requires
        call_ensures(Directories::page, (&directories, dirid, generation, None, max_entries), page),
    ensures
        page is Ok <==> directories@.listings.contains_key(dirid) && directories@.listings[dirid].generation == generation,
        page is Err ==> page->Err_0 == NfsStatus::BadCookie,
        page is Ok ==> page->Ok_0.generation == generation,
        page is Ok && page->Ok_0.end ==> directories@.listings[dirid].complete,
        page is Ok && directories@.listings[dirid].complete && max_entries >= directories@.listings[dirid].children.len() && max_entries > 0
            ==> page->Ok_0.end,
{
}

/// A directory that is invalidated has no listing any more, and what was begun
/// before does not count as new; the others stay.
pub proof fn an_invalidated_directory_is_listed_anew(dirid: u64, other: u64)
    requires
        other != dirid,
    ensures
        forall|directories: &mut Directories|
            (*directories)@.generation < u64::MAX && #[trigger] call_ensures(Directories::invalidate_dir, (directories, dirid), ()) ==> {
                &&& !final(directories)@.listings.contains_key(dirid)
                &&& final(directories)@.generation == (*directories)@.generation + 1
                &&& (*directories)@.listings.contains_key(other) ==> final(directories)@.listings.contains_key(other) && final(
                    directories)@.listings[other] == (*directories)@.listings[other]
            },
        forall|directories: &mut Directories| #[trigger]
            call_ensures(Directories::invalidate_all_dirs, (directories,), ()) ==> !final(directories)@.listings.contains_key(dirid),
{
}

/// A cookie resumes behind the name it was handed out with, in the listing it
/// belongs to; zero begins the directory, and an unknown one is refused.
pub proof fn a_cookie_resumes_behind_its_name(
    directories: Directories,
    dirid: u64,
    start_after: u64,
    inodes: InodeTable,
    cookie: Result<Option<(String, u64)>, NfsStatus>,
)
    requires
        call_ensures(Directories::resolve_cookie, (&directories, dirid, start_after, &inodes), cookie),
    ensures
        start_after == 0 ==> cookie is Ok && cookie->Ok_0 is None,
        start_after != 0 ==> (cookie is Ok <==> directories@.knows_cookie(dirid, start_after, inodes@)),
        start_after != 0 && cookie is Ok ==> cookie->Ok_0 is Some && ((cookie->Ok_0->0).0)@ == directories@.listings[dirid].cookies[start_after]
            && (cookie->Ok_0->0).1 == directories@.listings[dirid].generation,
        cookie is Err ==> cookie->Err_0 == NfsStatus::BadCookie,
{
}

} // verus!
