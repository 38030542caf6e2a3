//! Reading lists of a provider page by page.

use vstd::prelude::*;
use vstd::string::*;

use crate::exchange::{
    ContinuationModel, PageContinuation, PageRequest, PageRequestModel, ProviderPage,
};
use crate::failure::{Failure, bad_input};
use crate::media::{MediaItem, MediaItemModel, item_uris, uris_of};
use crate::provider::{ProviderError, ProviderErrorModel};
use crate::queue_merge::no_uri_twice;
use crate::text::{
    concat4, decimal, lemma_seq_view_push, lemma_texts_push, list_has, opt_view, seq_view, texts,
    u64_text,
};

verus! {

broadcast use {lemma_seq_view_push, lemma_texts_push};

/// How many entries the first page of a list asks for: as many as the
/// provider serves at once, and at least one. A size is cast to 32 bits: of
/// one beyond their range only the low bits count.
pub open spec fn page_limit(max_page_size: Option<usize>, default_size: u32) -> u32 {
    let size = match max_page_size {
        Some(n) => (n as u64 % 4_294_967_296u64) as u32,
        None => default_size,
    };
    if size < 1 {
        1
    } else {
        size
    }
}

/// How many entries the first page of a list asks for.
pub fn first_page_limit(max_page_size: Option<usize>, default_size: u32) -> (r: u32)
    ensures
        r == page_limit(max_page_size, default_size),
{
    let size: u32 = match max_page_size {
        Some(n) => ((n as u64) % 4_294_967_296u64) as u32,
        None => default_size,
    };
    if size < 1 {
        1
    } else {
        size
    }
}

// ---------------------------------------------------------------------------
// Requests
// ---------------------------------------------------------------------------

/// Two counts added up, as far as the type goes.
pub open spec fn offset_after(offset: u64, fetched: nat) -> u64 {
    if offset + fetched > u64::MAX {
        u64::MAX
    } else {
        (offset + fetched) as u64
    }
}

/// The request for the page behind a continuation: at the offset that it
/// names, or by its cursor at the logical offset that was reached.
pub open spec fn continued(
    limit: u32,
    next: ContinuationModel,
    logical_offset: u64,
) -> PageRequestModel {
    match next {
        ContinuationModel::Offset(offset) => PageRequestModel { limit, offset, cursor: None },
        ContinuationModel::Cursor(cursor) => PageRequestModel {
            limit,
            offset: logical_offset,
            cursor: Some(cursor),
        },
    }
}

fn continue_request(limit: u32, next: PageContinuation, logical_offset: u64) -> (r: PageRequest)
    ensures
        r@ == continued(limit, next@, logical_offset),
{
    match next {
        PageContinuation::Offset(offset) => PageRequest { limit, offset, cursor: None },
        PageContinuation::Cursor(cursor) => PageRequest {
            limit,
            offset: logical_offset,
            cursor: Some(cursor),
        },
    }
}

/// The failure of a list that does not end.
pub open spec fn too_many_pages(what: Seq<char>, max_pages: nat) -> ProviderErrorModel {
    ProviderErrorModel::Provider(
        what + " pagination exceeded "@ + decimal(max_pages) + " pages"@,
    )
}

/// The failure of a list that does not end.
pub fn too_many_pages_error(what: &str, max_pages: u32) -> (r: ProviderError)
    ensures
        r@ == too_many_pages(what@, max_pages as nat),
{
    let n = u64_text(max_pages as u64);
    ProviderError::Provider(concat4(what, " pagination exceeded ", n.as_str(), " pages"))
}

// ---------------------------------------------------------------------------
// Saved tracks
// ---------------------------------------------------------------------------

/// How much of a provider's list one request may ask for.
pub open spec fn saved_page_size(max_page_size: Option<usize>) -> u32 {
    let size = match max_page_size {
        Some(n) => if n > u32::MAX {
            u32::MAX
        } else {
            n as u32
        },
        None => 50,
    };
    if size < 1 {
        1
    } else {
        size
    }
}

fn saved_page_size_of(max_page_size: Option<usize>) -> (r: u32)
    ensures
        r == saved_page_size(max_page_size),
        r >= 1,
{
    let size: u32 = match max_page_size {
        Some(n) => if n > u32::MAX as usize {
            u32::MAX
        } else {
            n as u32
        },
        None => 50,
    };
    if size < 1 {
        1
    } else {
        size
    }
}

/// The smaller of two counts.
pub open spec fn least(a: u32, b: u32) -> u32 {
    if a < b {
        a
    } else {
        b
    }
}

/// What reading saved tracks comes to after a page.
#[derive(Clone, Copy, Debug, PartialEq, Eq, Structural)]
pub enum SavedTracksStep {
    /// All that was asked for is there, or the list is at its end.
    Done { total: u64 },
    /// There is another page to ask for.
    More,
    /// The list went on for too many pages.
    TooManyPages,
}

/// Reading a window of the saved tracks.
#[derive(Debug)]
pub struct SavedTracks {
    limit: u32,
    page_size: u32,
    max_pages: u32,
    request: PageRequest,
    items: Vec<MediaItem>,
    exact_total: Option<u64>,
    pages: u32,
}

/// Reading saved tracks, as plain values.
pub struct SavedTracksModel {
    pub limit: u32,
    pub page_size: u32,
    pub max_pages: u32,
    pub request: PageRequestModel,
    pub items: Seq<MediaItemModel>,
    pub exact_total: Option<u64>,
    pub pages: u32,
}

impl View for SavedTracks {
    type V = SavedTracksModel;

    closed spec fn view(&self) -> SavedTracksModel {
        SavedTracksModel {
            limit: self.limit,
            page_size: self.page_size,
            max_pages: self.max_pages,
            request: self.request@,
            items: seq_view(self.items@),
            exact_total: self.exact_total,
            pages: self.pages,
        }
    }
}

/// A page of items as plain values.
pub struct ItemPageModel {
    pub items: Seq<MediaItemModel>,
    pub total: Option<u64>,
    pub next: Option<ContinuationModel>,
}

/// What is read of a page of items.
pub open spec fn item_page(page: ProviderPage<MediaItem>) -> ItemPageModel {
    ItemPageModel {
        items: seq_view(page.items@),
        total: page.total,
        next: opt_view(page.next),
    }
}

impl SavedTracksModel {
    /// What holds of every such reading.
    pub open spec fn valid(self) -> bool {
        &&& self.limit > 0
        &&& self.page_size > 0
        &&& self.items.len() <= self.limit
        &&& self.pages <= self.max_pages
    }

    /// The offset that a page reaches.
    pub open spec fn reached(self, page: ItemPageModel) -> u64 {
        offset_after(self.request.offset, page.items.len())
    }

    /// The items after a page: no more than was asked for.
    pub open spec fn items_after(self, page: ItemPageModel) -> Seq<MediaItemModel> {
        let room = self.limit - self.items.len();
        self.items + if page.items.len() <= room {
            page.items
        } else {
            page.items.take(room)
        }
    }

    /// The total after a page: what the provider last said, or else the least
    /// that the list must hold.
    pub open spec fn total_after(self, page: ItemPageModel) -> u64 {
        let said = if page.total is Some {
            page.total
        } else {
            self.exact_total
        };
        match said {
            Some(total) => total,
            None => match page.next {
                None => self.reached(page),
                Some(ContinuationModel::Cursor(_)) => offset_after(self.reached(page), 1),
                Some(ContinuationModel::Offset(next)) => offset_after(
                    if self.reached(page) < next {
                        next
                    } else {
                        self.reached(page)
                    },
                    1,
                ),
            },
        }
    }

    /// Whether a page is the last one needed.
    pub open spec fn ends_with(self, page: ItemPageModel) -> bool {
        self.items_after(page).len() >= self.limit || page.next is None
    }

    /// The reading after a page.
    pub open spec fn after(self, page: ItemPageModel) -> SavedTracksModel {
        let items = self.items_after(page);
        SavedTracksModel {
            items,
            exact_total: if page.total is Some {
                page.total
            } else {
                self.exact_total
            },
            pages: (self.pages + 1) as u32,
            request: if self.ends_with(page) {
                self.request
            } else {
                continued(
                    least((self.limit - items.len()) as u32, self.page_size),
                    page.next->0,
                    self.reached(page),
                )
            },
            ..self
        }
    }

    /// What a page comes to.
    pub open spec fn step(self, page: ItemPageModel) -> SavedTracksStep {
        if self.ends_with(page) {
            SavedTracksStep::Done { total: self.total_after(page) }
        } else if self.pages + 1 >= self.max_pages {
            SavedTracksStep::TooManyPages
        } else {
            SavedTracksStep::More
        }
    }
}

/// The reading of `limit` saved tracks from `offset` on.
pub open spec fn saved_tracks_from(
    limit: u32,
    offset: u32,
    max_page_size: Option<usize>,
    max_pages: u32,
) -> SavedTracksModel {
    let page_size = saved_page_size(max_page_size);
    SavedTracksModel {
        limit,
        page_size,
        max_pages,
        request: PageRequestModel {
            limit: least(limit, page_size),
            offset: offset as u64,
            cursor: None,
        },
        items: Seq::empty(),
        exact_total: None,
        pages: 0,
    }
}

impl SavedTracks {
    /// What holds of every such reading.
    pub open spec fn wf(&self) -> bool {
        self@.valid()
    }

    /// Starts to read `limit` saved tracks from `offset` on. Asking for none
    /// is refused.
    pub fn start(limit: u32, offset: u32, max_page_size: Option<usize>, max_pages: u32) -> (r:
        Result<Self, Failure>)
        ensures
            match r {
                Ok(reading) => limit > 0 && reading@ == saved_tracks_from(
                    limit,
                    offset,
                    max_page_size,
                    max_pages,
                ) && reading.wf(),
                Err(error) => limit == 0 && error@ == bad_input(
                    "limit"@,
                    "saved-track page limit must be greater than zero"@,
                ),
            },
    {
        if limit == 0 {
            return Err(
                Failure::invalid_input(
                    "limit",
                    "saved-track page limit must be greater than zero",
                ),
            );
        }
        let page_size: u32 = saved_page_size_of(max_page_size);
        let first: u32 = if limit < page_size {
            limit
        } else {
            page_size
        };
        let items: Vec<MediaItem> = Vec::new();
        assert(seq_view(items@) =~= Seq::<MediaItemModel>::empty());
        Ok(
            SavedTracks {
                limit,
                page_size,
                max_pages,
                request: PageRequest::new(first, offset as u64),
                items,
                exact_total: None,
                pages: 0,
            },
        )
    }

    /// The page to ask for.
    pub fn request(&self) -> (r: PageRequest)
        ensures
            r@ == self@.request,
    {
        self.request.clone()
    }

    /// Takes in the page that was asked for.
    pub fn on_page(&mut self, page: ProviderPage<MediaItem>) -> (r: SavedTracksStep)
        requires
            old(self).wf(),
            old(self)@.pages < old(self)@.max_pages,
        ensures
            final(self).wf(),
            final(self)@ == old(self)@.after(item_page(page)),
            r == old(self)@.step(item_page(page)),
    {
        let ghost before = self@;
        let ghost model = item_page(page);
        if page.total.is_some() {
            self.exact_total = page.total;
        }
        let fetched: usize = page.items.len();
        let reached: u64 = self.request.offset.saturating_add(fetched as u64);
        let mut i: usize = 0;
        assert(model.items.take(0) =~= Seq::<MediaItemModel>::empty());
        while i < fetched && self.items.len() < self.limit as usize
            invariant
                i <= fetched,
                fetched == page.items@.len(),
                model == item_page(page),
                before.valid(),
                self.limit == before.limit,
                self.page_size == before.page_size,
                self.max_pages == before.max_pages,
                self.request@ == before.request,
                self.pages == before.pages,
                self.exact_total == (if page.total is Some {
                    page.total
                } else {
                    before.exact_total
                }),
                seq_view(self.items@) =~= before.items + model.items.take(i as int),
                self.items@.len() <= self.limit,
            decreases fetched - i,
        {
            self.items.push(page.items[i].clone());
            i = i + 1;
        }
        proof {
            assert(i == model.items.len() ==> model.items.take(i as int) =~= model.items);
            assert(seq_view(self.items@) =~= before.items_after(model));
        }
        self.pages = self.pages + 1;
        let lower: u64 = match &page.next {
            None => reached,
            Some(PageContinuation::Cursor(_)) => reached.saturating_add(1),
            Some(PageContinuation::Offset(next)) => {
                let far: u64 = if reached < *next {
                    *next
                } else {
                    reached
                };
                far.saturating_add(1)
            },
        };
        let total: u64 = match self.exact_total {
            Some(total) => total,
            None => lower,
        };
        if self.items.len() >= self.limit as usize {
            return SavedTracksStep::Done { total };
        }
        match page.next {
            None => SavedTracksStep::Done { total },
            Some(next) => {
                let left: u32 = self.limit - self.items.len() as u32;
                let size: u32 = if left < self.page_size {
                    left
                } else {
                    self.page_size
                };
                self.request = continue_request(size, next, reached);
                if self.pages >= self.max_pages {
                    SavedTracksStep::TooManyPages
                } else {
                    SavedTracksStep::More
                }
            },
        }
    }

    /// The items that were read.
    pub fn into_items(self) -> (r: Vec<MediaItem>)
        ensures
            seq_view(r@) == self@.items,
    {
        self.items
    }
}

/// The total of a library as clients get it.
pub fn client_total(total: u64) -> (r: u32)
    ensures
        r == if total > u32::MAX {
            u32::MAX
        } else {
            total as u32
        },
{
    if total > u32::MAX as u64 {
        u32::MAX
    } else {
        total as u32
    }
}

// ---------------------------------------------------------------------------
// Whole collections
// ---------------------------------------------------------------------------

/// What reading a collection comes to after a page.
#[derive(Clone, Copy, Debug, PartialEq, Eq, Structural)]
pub enum CollectionStep {
    Done,
    More,
    TooManyPages,
}

/// How far a list was read. `from_request` says whether the logical offset
/// counts on from the request, or is the number of entries so far.
#[derive(Debug)]
pub struct PageWalk {
    request: PageRequest,
    max_pages: u32,
    pages: u32,
    from_request: bool,
    collected: u64,
}

/// How far a list was read, as plain values.
pub struct WalkModel {
    pub request: PageRequestModel,
    pub max_pages: u32,
    pub pages: u32,
    pub from_request: bool,
    pub collected: u64,
}

impl View for PageWalk {
    type V = WalkModel;

    closed spec fn view(&self) -> WalkModel {
        WalkModel {
            request: self.request@,
            max_pages: self.max_pages,
            pages: self.pages,
            from_request: self.from_request,
            collected: self.collected,
        }
    }
}

impl WalkModel {
    /// The logical offset behind a page.
    pub open spec fn reached(self, fetched: nat) -> u64 {
        if self.from_request {
            offset_after(self.request.offset, fetched)
        } else {
            offset_after(self.collected, fetched)
        }
    }

    /// The walk after a page.
    pub open spec fn after(self, fetched: nat, next: Option<ContinuationModel>) -> WalkModel {
        WalkModel {
            request: match next {
                Some(next) => continued(self.request.limit, next, self.reached(fetched)),
                None => self.request,
            },
            pages: (self.pages + 1) as u32,
            collected: offset_after(self.collected, fetched),
            ..self
        }
    }

    /// What a page comes to.
    pub open spec fn step(self, next: Option<ContinuationModel>) -> CollectionStep {
        if next is None {
            CollectionStep::Done
        } else if self.pages + 1 >= self.max_pages {
            CollectionStep::TooManyPages
        } else {
            CollectionStep::More
        }
    }
}

/// The walk through a list from its start, page by page of the size that the
/// provider serves.
pub open spec fn walk_from_start(
    max_page_size: Option<usize>,
    max_pages: u32,
    from_request: bool,
) -> WalkModel {
    WalkModel {
        request: PageRequestModel { limit: page_limit(max_page_size, 50), offset: 0, cursor: None },
        max_pages,
        pages: 0,
        from_request,
        collected: 0,
    }
}

impl PageWalk {
    /// Starts at the first page.
    pub fn start(max_page_size: Option<usize>, max_pages: u32, from_request: bool) -> (r: Self)
        ensures
            r@ == walk_from_start(max_page_size, max_pages, from_request),
    {
        PageWalk {
            request: PageRequest::new(first_page_limit(max_page_size, 50), 0),
            max_pages,
            pages: 0,
            from_request,
            collected: 0,
        }
    }

    /// The page to ask for.
    pub fn request(&self) -> (r: PageRequest)
        ensures
            r@ == self@.request,
    {
        self.request.clone()
    }

    /// Takes in how many entries the page held and how the list goes on.
    pub fn on_page(&mut self, fetched: usize, next: Option<PageContinuation>) -> (r: CollectionStep)
        requires
            old(self)@.pages < old(self)@.max_pages,
        ensures
            final(self)@ == old(self)@.after(fetched as nat, opt_view(next)),
            r == old(self)@.step(opt_view(next)),
    {
        let reached: u64 = if self.from_request {
            self.request.offset.saturating_add(fetched as u64)
        } else {
            self.collected.saturating_add(fetched as u64)
        };
        self.collected = self.collected.saturating_add(fetched as u64);
        self.pages = self.pages + 1;
        match next {
            None => CollectionStep::Done,
            Some(next) => {
                self.request = continue_request(self.request.limit, next, reached);
                if self.pages >= self.max_pages {
                    CollectionStep::TooManyPages
                } else {
                    CollectionStep::More
                }
            },
        }
    }
}

/// Reading all of a collection, page by page.
#[derive(Debug)]
pub struct Collection<T> {
    walk: PageWalk,
    items: Vec<T>,
}

impl<T> Collection<T> {
    /// How far the collection was read.
    pub closed spec fn walk(&self) -> WalkModel {
        self.walk@
    }

    /// What was read.
    pub closed spec fn items(&self) -> Seq<T> {
        self.items@
    }

    /// Starts at the first page.
    pub fn start(max_page_size: Option<usize>, max_pages: u32, from_request: bool) -> (r: Self)
        ensures
            r.walk() == walk_from_start(max_page_size, max_pages, from_request),
            r.items() == Seq::<T>::empty(),
    {
        Collection {
            walk: PageWalk::start(max_page_size, max_pages, from_request),
            items: Vec::new(),
        }
    }

    /// The page to ask for.
    pub fn request(&self) -> (r: PageRequest)
        ensures
            r@ == self.walk().request,
    {
        self.walk.request()
    }

    /// Takes in the page that was asked for.
    pub fn on_page(&mut self, page: ProviderPage<T>) -> (r: CollectionStep)
        requires
            old(self).walk().pages < old(self).walk().max_pages,
        ensures
            final(self).items() == old(self).items() + page.items@,
            final(self).walk() == old(self).walk().after(page.items@.len(), opt_view(page.next)),
            r == old(self).walk().step(opt_view(page.next)),
    {
        let mut entries = page.items;
        let fetched: usize = entries.len();
        self.items.append(&mut entries);
        self.walk.on_page(fetched, page.next)
    }

    /// What was read.
    pub fn into_items(self) -> (r: Vec<T>)
        ensures
            r@ == self.items(),
    {
        self.items
    }
}

/// The albums of an artist after a page: those whose URI was not there yet.
pub open spec fn with_new_albums(
    albums: Seq<MediaItemModel>,
    page: Seq<MediaItemModel>,
) -> Seq<MediaItemModel>
    decreases page.len(),
{
    if page.len() == 0 {
        albums
    } else {
        let so_far = with_new_albums(albums, page.drop_last());
        if item_uris(so_far).contains(page.last().uri) {
            so_far
        } else {
            so_far.push(page.last())
        }
    }
}

impl Collection<MediaItem> {
    /// Takes in a page of an artist's albums, of which providers serve the
    /// same one on more than one page.
    pub fn on_album_page(&mut self, page: ProviderPage<MediaItem>) -> (r: CollectionStep)
        requires
            old(self).walk().pages < old(self).walk().max_pages,
        ensures
            seq_view(final(self).items()) == with_new_albums(
                seq_view(old(self).items()),
                seq_view(page.items@),
            ),
            final(self).walk() == old(self).walk().after(page.items@.len(), opt_view(page.next)),
            r == old(self).walk().step(opt_view(page.next)),
    {
        let ghost before = seq_view(self.items@);
        let ghost entries = seq_view(page.items@);
        let fetched: usize = page.items.len();
        let mut uris = uris_of(self.items.as_slice());
        let mut i: usize = 0;
        assert(entries.take(0) =~= Seq::<MediaItemModel>::empty());
        while i < fetched
            invariant
                i <= fetched,
                fetched == page.items@.len(),
                entries == seq_view(page.items@),
                self.walk@ == old(self).walk@,
                seq_view(self.items@) == with_new_albums(before, entries.take(i as int)),
                texts(uris@) == item_uris(seq_view(self.items@)),
            decreases fetched - i,
        {
            proof {
                assert(entries.take(i as int + 1).drop_last() =~= entries.take(i as int));
                assert(entries.take(i as int + 1).last() == page.items@[i as int]@);
            }
            if !list_has(uris.as_slice(), page.items[i].uri.as_str()) {
                let ghost held = item_uris(seq_view(self.items@));
                uris.push(page.items[i].uri.clone());
                self.items.push(page.items[i].clone());
                assert(item_uris(seq_view(self.items@)) =~= held.push(
                    page.items@[i as int].uri@,
                ));
            }
            i = i + 1;
        }
        assert(entries.take(entries.len() as int) =~= entries);
        self.walk.on_page(fetched, page.next)
    }
}

// ---------------------------------------------------------------------------
// Laws
// ---------------------------------------------------------------------------

/// No album stands twice in what was read of an artist's albums.
pub proof fn albums_are_read_once(albums: Seq<MediaItemModel>, page: Seq<MediaItemModel>)
    requires
        no_uri_twice(albums),
    ensures
        no_uri_twice(with_new_albums(albums, page)),
        with_new_albums(albums, page).len() >= albums.len(),
        with_new_albums(albums, page).take(albums.len() as int) == albums,
        forall|i: int|
            0 <= i < page.len() ==> item_uris(with_new_albums(albums, page)).contains(
                (#[trigger] page[i]).uri,
            ),
    decreases page.len(),
{
    let all = with_new_albums(albums, page);
    if page.len() > 0 {
        let init = page.drop_last();
        let so_far = with_new_albums(albums, init);
        albums_are_read_once(albums, init);
        let last = page.last();
        assert forall|i: int, j: int| 0 <= i < j < all.len() implies all[i].uri != all[j].uri by {
            assert(all[i] == so_far[i]);
            if j < so_far.len() {
                assert(all[j] == so_far[j]);
            } else {
                assert(item_uris(so_far)[i] == all[i].uri);
            }
        }
        assert(all.take(albums.len() as int) =~= so_far.take(albums.len() as int));
        assert forall|i: int| 0 <= i < page.len() implies item_uris(all).contains(
            (#[trigger] page[i]).uri,
        ) by {
            let u = page[i].uri;
            if i < init.len() {
                assert(init[i] == page[i]);
                assert(item_uris(so_far).contains(u));
            }
            if item_uris(so_far).contains(u) {
                let k = choose|k: int| 0 <= k < item_uris(so_far).len() && item_uris(so_far)[k]
                    == u;
                assert(item_uris(all)[k] == u);
            } else {
                assert(item_uris(all)[so_far.len() as int] == u);
            }
        }
    } else {
        assert(all.take(albums.len() as int) =~= albums);
    }
}

/// A reading of saved tracks never holds more than was asked for, and goes on
/// only where it holds less; each page asks for at least one entry and no
/// more than is still missing.
pub proof fn saved_tracks_stay_within_the_window(reading: SavedTracksModel, page: ItemPageModel)
    requires
        reading.valid(),
        reading.pages < reading.max_pages,
    ensures
        reading.after(page).valid(),
        reading.step(page) == SavedTracksStep::More ==> {
            let next = reading.after(page);
            &&& next.items.len() < next.limit
            &&& 1 <= next.request.limit <= next.limit - next.items.len()
            &&& next.request.limit <= next.page_size
            &&& next.pages < next.max_pages
        },
{
}

/// A total that the provider states is what clients get, and a list that goes
/// on is never reported as complete.
pub proof fn saved_totals_are_honest(reading: SavedTracksModel, page: ItemPageModel)
    requires
        reading.valid(),
    ensures
        page.total is Some ==> reading.total_after(page) == page.total->0,
        page.total is None && reading.exact_total is None && page.next is Some
            && reading.reached(page) < u64::MAX ==> reading.total_after(page) > reading.reached(
            page,
        ),
        page.total is None && reading.exact_total is None && page.next is None
            ==> reading.total_after(page) == reading.reached(page),
{
}

/// A provider is asked for pages of its own size, taken modulo two to the
/// power of thirty-two, or of the default size where it names none, and never
/// for an empty page.
pub proof fn pages_have_the_provider_s_size(max_page_size: Option<usize>, default_size: u32)
    ensures
        max_page_size matches Some(n) ==> {
            &&& 1 <= n <= 4_294_967_295 ==> page_limit(max_page_size, default_size) == n
            &&& n as int % 4_294_967_296 != 0 ==> page_limit(max_page_size, default_size) == n as int
                % 4_294_967_296
            &&& n as int % 4_294_967_296 == 0 ==> page_limit(max_page_size, default_size) == 1
        },
        max_page_size is None && default_size > 0 ==> page_limit(max_page_size, default_size)
            == default_size,
        max_page_size is None && default_size == 0 ==> page_limit(max_page_size, default_size) == 1,
{
}

/// Saved tracks are asked for in pages of the provider's size, of fifty where
/// it names none, as far as the type goes and never empty; and never more at
/// once than a client wants.
pub proof fn saved_tracks_start_where_they_are_wanted(
    limit: u32,
    offset: u32,
    max_page_size: Option<usize>,
    max_pages: u32,
)
    requires
        limit > 0,
    ensures
        ({
            let reading = saved_tracks_from(limit, offset, max_page_size, max_pages);
            &&& reading.limit == limit && reading.max_pages == max_pages && reading.pages == 0
            &&& reading.items.len() == 0 && reading.exact_total is None
            &&& reading.request.offset == offset && reading.request.cursor is None
            &&& max_page_size is None ==> reading.page_size == 50
            &&& max_page_size == Some(0usize) ==> reading.page_size == 1
            &&& max_page_size matches Some(n) ==> {
                &&& 1 <= n <= u32::MAX ==> reading.page_size == n
                &&& n > u32::MAX ==> reading.page_size == u32::MAX
            }
            &&& limit <= reading.page_size ==> reading.request.limit == limit
            &&& limit > reading.page_size ==> reading.request.limit == reading.page_size
        }),
{
}

/// What a page brings is added in its order, as far as the client still wants
/// items.
pub proof fn saved_tracks_are_added_in_order(
    reading: SavedTracksModel,
    page: ItemPageModel,
    i: int,
)
    requires
        reading.valid(),
        reading.pages < reading.max_pages,
    ensures
        ({
            let after = reading.after(page);
            let all = reading.items.len() + page.items.len();
            &&& all <= reading.limit ==> after.items.len() == all
            &&& all > reading.limit ==> after.items.len() == reading.limit
            &&& 0 <= i < reading.items.len() ==> after.items[i] == reading.items[i]
            &&& reading.items.len() <= i < after.items.len() ==> after.items[i] == page.items[i
                - reading.items.len()]
            &&& after.limit == reading.limit && after.page_size == reading.page_size
            &&& after.max_pages == reading.max_pages && after.pages == reading.pages + 1
            &&& page.total is Some ==> after.exact_total == page.total
            &&& page.total is None ==> after.exact_total == reading.exact_total
        }),
{
}

/// Reading ends when the client has what it wants or the provider has no more,
/// whichever comes first; short of that it goes on until its pages are used up.
pub proof fn saved_tracks_are_read_to_the_end(reading: SavedTracksModel, page: ItemPageModel)
    requires
        reading.valid(),
        reading.pages < reading.max_pages,
    ensures
        reading.step(page) is Done <==> page.next is None || reading.items.len() + page.items.len()
            >= reading.limit,
        reading.step(page) is TooManyPages <==> !(reading.step(page) is Done) && reading.pages + 1
            == reading.max_pages,
        reading.step(page) is More <==> !(reading.step(page) is Done) && reading.pages + 1
            < reading.max_pages,
{
}

/// The next page is asked for as the provider said: from an offset that it
/// named, or with its cursor and the offset that was reached, which counts
/// every item of the page.
pub proof fn saved_tracks_go_on_as_told(reading: SavedTracksModel, page: ItemPageModel)
    requires
        reading.valid(),
        reading.pages < reading.max_pages,
        !(reading.step(page) is Done),
        reading.request.offset + page.items.len() <= u64::MAX,
    ensures
        ({
            let asked = reading.after(page).request;
            let wanted = reading.limit - reading.items.len() - page.items.len();
            &&& wanted <= reading.page_size ==> asked.limit == wanted
            &&& wanted > reading.page_size ==> asked.limit == reading.page_size
            &&& page.next matches Some(ContinuationModel::Offset(offset)) ==> asked.offset == offset
                && asked.cursor is None
            &&& page.next matches Some(ContinuationModel::Cursor(cursor)) ==> asked.offset
                == reading.request.offset + page.items.len() && asked.cursor == Some(cursor)
        }),
{
}

/// Without a total, a list that goes on is told to be one longer than what is
/// known of it, and one that ends exactly as long; a total that was stated
/// once holds until another is.
pub proof fn saved_totals_are_counted(reading: SavedTracksModel, page: ItemPageModel)
    requires
        reading.valid(),
        reading.request.offset + page.items.len() < u64::MAX,
    ensures
        ({
            let seen = reading.request.offset + page.items.len();
            let told = reading.total_after(page);
            &&& page.total is None && reading.exact_total is Some ==> told
                == reading.exact_total->0
            &&& page.total is None && reading.exact_total is None ==> {
                &&& page.next is None ==> told == seen
                &&& page.next matches Some(ContinuationModel::Cursor(_)) ==> told == seen + 1
                &&& page.next matches Some(ContinuationModel::Offset(next)) ==> {
                    &&& next <= seen ==> told == seen + 1
                    &&& seen < next < u64::MAX ==> told == next + 1
                    &&& next == u64::MAX ==> told == u64::MAX
                }
            }
        }),
        reading.step(page) matches SavedTracksStep::Done { total } ==> total
            == reading.total_after(page),
{
}

/// A whole collection is read from its start, in pages of the provider's size
/// or of fifty.
pub proof fn walks_start_at_the_first_page(
    max_page_size: Option<usize>,
    max_pages: u32,
    from_request: bool,
)
    ensures
        ({
            let walk = walk_from_start(max_page_size, max_pages, from_request);
            &&& walk.request.offset == 0 && walk.request.cursor is None
            &&& walk.pages == 0 && walk.collected == 0 && walk.max_pages == max_pages
            &&& walk.from_request == from_request
            &&& max_page_size is None ==> walk.request.limit == 50
            &&& max_page_size matches Some(n) ==> (1 <= n <= u32::MAX ==> walk.request.limit == n)
        }),
{
}

/// A walk is over exactly when the provider has no more, and otherwise goes on
/// until its pages are used up. It goes on from the offset that was named, or
/// with the cursor, and counts every item; the size of the pages stays.
pub proof fn walks_go_on_as_told(walk: WalkModel, fetched: nat, next: Option<ContinuationModel>)
    requires
        walk.pages < walk.max_pages,
        walk.collected + fetched <= u64::MAX,
        walk.request.offset + fetched <= u64::MAX,
    ensures
        ({
            let after = walk.after(fetched, next);
            &&& walk.step(next) is Done <==> next is None
            &&& walk.step(next) is TooManyPages <==> next is Some && walk.pages + 1
                == walk.max_pages
            &&& after.pages == walk.pages + 1 && after.collected == walk.collected + fetched
            &&& after.max_pages == walk.max_pages && after.from_request == walk.from_request
            &&& next is None ==> after.request == walk.request
            &&& next is Some ==> after.request.limit == walk.request.limit
            &&& next matches Some(ContinuationModel::Offset(offset)) ==> after.request.offset
                == offset && after.request.cursor is None
            &&& next matches Some(ContinuationModel::Cursor(cursor)) ==> {
                &&& after.request.cursor == Some(cursor)
                &&& walk.from_request ==> after.request.offset == walk.request.offset + fetched
                &&& !walk.from_request ==> after.request.offset == walk.collected + fetched
            }
        }),
{
}

/// A page of albums adds, in its order, each album that is neither there nor
/// earlier on the page: `at` gives the places of those that are added.
pub proof fn new_albums_are_added_in_order(
    albums: Seq<MediaItemModel>,
    page: Seq<MediaItemModel>,
) -> (at: Seq<int>)
    ensures
        with_new_albums(albums, page).len() == albums.len() + at.len(),
        forall|i: int|
            0 <= i < albums.len() ==> #[trigger] with_new_albums(albums, page)[i] == albums[i],
        forall|i: int|
            0 <= i < at.len() ==> 0 <= #[trigger] at[i] < page.len() && with_new_albums(
                albums,
                page,
            )[albums.len() + i] == page[at[i]],
        forall|i: int, j: int| 0 <= i < j < at.len() ==> at[i] < at[j],
        forall|k: int|
            0 <= k < page.len() ==> (at.contains(k) <==> (forall|j: int|
                0 <= j < albums.len() ==> (#[trigger] albums[j]).uri != page[k].uri) && (forall|
                j: int,
            |
                0 <= j < k ==> (#[trigger] page[j]).uri != page[k].uri)),
    decreases page.len(),
{
    if page.len() == 0 {
        Seq::empty()
    } else {
        let init = page.drop_last();
        let n = page.len() - 1;
        let last = page.last();
        let before = new_albums_are_added_in_order(albums, init);
        let so_far = with_new_albums(albums, init);
        let there = item_uris(so_far).contains(last.uri);
        let at = if there {
            before
        } else {
            before.push(n)
        };
        let all = with_new_albums(albums, page);
        assert forall|i: int| 0 <= i < albums.len() implies #[trigger] all[i] == albums[i] by {
            assert(so_far[i] == albums[i]);
        }
        assert forall|i: int| 0 <= i < at.len() implies 0 <= #[trigger] at[i] < page.len()
            && all[albums.len() + i] == page[at[i]] by {
            if i < before.len() {
                assert(at[i] == before[i]);
                assert(so_far[albums.len() + i] == init[before[i]]);
            }
        }
        assert forall|i: int, j: int| 0 <= i < j < at.len() implies at[i] < at[j] by {
            assert(at[i] == before[i]);
            if j < before.len() {
                assert(at[j] == before[j]);
            }
        }
        assert forall|k: int| 0 <= k < page.len() implies (at.contains(k) <==> (forall|j: int|
            0 <= j < albums.len() ==> (#[trigger] albums[j]).uri != page[k].uri) && (forall|j: int|
            0 <= j < k ==> (#[trigger] page[j]).uri != page[k].uri)) by {
            if k < n {
                assert(init[k] == page[k]);
                assert(forall|j: int| 0 <= j < k ==> init[j] == page[j]);
                assert(at.contains(k) <==> before.contains(k)) by {
                    if before.contains(k) {
                        assert(at[before.index_of(k)] == k);
                    }
                    if at.contains(k) {
                        assert(before[at.index_of(k)] == k);
                    }
                }
            } else {
                lemma_seen_albums(albums, init, before, last.uri);
                assert(forall|j: int| 0 <= j < n ==> init[j] == page[j]);
                if there {
                    if at.contains(n) {
                        assert(before[at.index_of(n)] == n);
                    }
                } else {
                    assert(at[before.len() as int] == n);
                }
            }
        }
        at
    }
}

/// A URI is on the list after a page exactly when an album or an entry of the
/// page has it.
proof fn lemma_seen_albums(
    albums: Seq<MediaItemModel>,
    page: Seq<MediaItemModel>,
    at: Seq<int>,
    uri: Seq<char>,
)
    requires
        with_new_albums(albums, page).len() == albums.len() + at.len(),
        forall|i: int|
            0 <= i < albums.len() ==> #[trigger] with_new_albums(albums, page)[i] == albums[i],
        forall|i: int|
            0 <= i < at.len() ==> 0 <= #[trigger] at[i] < page.len() && with_new_albums(
                albums,
                page,
            )[albums.len() + i] == page[at[i]],
    ensures
        item_uris(with_new_albums(albums, page)).contains(uri) <==> (exists|j: int|
            0 <= j < albums.len() && (#[trigger] albums[j]).uri == uri) || (exists|j: int|
            0 <= j < page.len() && (#[trigger] page[j]).uri == uri),
{
    let all = with_new_albums(albums, page);
    let uris = item_uris(all);
    if uris.contains(uri) {
        let i = uris.index_of(uri);
        assert(all[i].uri == uri);
        if i < albums.len() {
            assert(albums[i].uri == uri);
        } else {
            assert(page[at[i - albums.len()]].uri == uri) by {
                assert(0 <= at[i - albums.len()] < page.len());
                assert(all[albums.len() + (i - albums.len())] == page[at[i - albums.len()]]);
            }
        }
    }
    if exists|j: int| 0 <= j < albums.len() && (#[trigger] albums[j]).uri == uri {
        let j = choose|j: int| 0 <= j < albums.len() && (#[trigger] albums[j]).uri == uri;
        assert(all[j] == albums[j]);
        assert(uris[j] == uri);
    }
    if exists|j: int| 0 <= j < page.len() && (#[trigger] page[j]).uri == uri {
        let j = choose|j: int| 0 <= j < page.len() && (#[trigger] page[j]).uri == uri;
        lemma_page_is_on_the_list(albums, page, j);
    }
}

proof fn lemma_page_is_on_the_list(
    albums: Seq<MediaItemModel>,
    page: Seq<MediaItemModel>,
    j: int,
)
    requires
        0 <= j < page.len(),
    ensures
        item_uris(with_new_albums(albums, page)).contains(page[j].uri),
    decreases page.len(),
{
    let init = page.drop_last();
    let so_far = with_new_albums(albums, init);
    let all = with_new_albums(albums, page);
    if j < init.len() {
        lemma_page_is_on_the_list(albums, init, j);
        let k = item_uris(so_far).index_of(page[j].uri);
        assert(item_uris(all)[k] == page[j].uri);
    } else if !item_uris(so_far).contains(page[j].uri) {
        assert(item_uris(all)[so_far.len() as int] == page[j].uri);
    }
}

/// What each page leaves and leads to is what is told of its step.
pub proof fn pages_are_taken_in_as_told()
    ensures
        forall|max_page_size: Option<usize>, default_size: u32, answer: u32|
            #[trigger] call_ensures(first_page_limit, (max_page_size, default_size), answer) ==> {
                &&& answer == page_limit(max_page_size, default_size)
            },
        forall|
            limit: u32,
            offset: u32,
            max_page_size: Option<usize>,
            max_pages: u32,
            answer: Result<SavedTracks, Failure>,
        |
            #[trigger] call_ensures(
                SavedTracks::start,
                (limit, offset, max_page_size, max_pages),
                answer,
            ) ==> {
                &&& match answer {
                    Ok(reading) => limit > 0 && reading@ == saved_tracks_from(
                        limit,
                        offset,
                        max_page_size,
                        max_pages,
                    ) && reading.wf(),
                    Err(error) => limit == 0 && error@ == bad_input(
                        "limit"@,
                        "saved-track page limit must be greater than zero"@,
                    ),
                }
            },
        forall|this: &mut SavedTracks, page: ProviderPage<MediaItem>, answer: SavedTracksStep|
            #[trigger] call_ensures(SavedTracks::on_page, (this, page), answer)
                && (mut_ref_current(this).wf()) && (mut_ref_current(this)@.pages < mut_ref_current(this)@.max_pages) ==> {
                &&& mut_ref_future(this).wf()
                &&& mut_ref_future(this)@ == mut_ref_current(this)@.after(item_page(page))
                &&& answer == mut_ref_current(this)@.step(item_page(page))
            },
        forall|max_page_size: Option<usize>, max_pages: u32, from_request: bool, answer: PageWalk|
            #[trigger] call_ensures(
                PageWalk::start,
                (max_page_size, max_pages, from_request),
                answer,
            ) ==> {
                &&& answer@ == walk_from_start(max_page_size, max_pages, from_request)
            },
        forall|
            this: &mut PageWalk,
            fetched: usize,
            next: Option<PageContinuation>,
            answer: CollectionStep,
        |
            #[trigger] call_ensures(PageWalk::on_page, (this, fetched, next), answer)
                && (mut_ref_current(this)@.pages < mut_ref_current(this)@.max_pages) ==> {
                &&& mut_ref_future(this)@ == mut_ref_current(this)@.after(fetched as nat, opt_view(next))
                &&& answer == mut_ref_current(this)@.step(opt_view(next))
            },
{
}

/// A page of albums that is taken in adds what is told of it, and leads to the
/// next page as any other does.
pub proof fn album_pages_are_taken_in_as_told(page: ProviderPage<MediaItem>)
    ensures
        forall|albums: &mut Collection<MediaItem>, answer: CollectionStep|
            #[trigger] call_ensures(
                Collection::<MediaItem>::on_album_page,
                (albums, page),
                answer,
            ) && mut_ref_current(albums).walk().pages < mut_ref_current(albums).walk().max_pages
                ==> {
                let before = mut_ref_current(albums);
                let after = mut_ref_future(albums);
                &&& seq_view(after.items()) == with_new_albums(
                    seq_view(before.items()),
                    seq_view(page.items@),
                )
                &&& after.walk() == before.walk().after(page.items@.len(), opt_view(page.next))
                &&& answer is Done <==> page.next is None
            },
        forall|items: &mut Collection<MediaItem>, answer: CollectionStep|
            #[trigger] call_ensures(Collection::<MediaItem>::on_page, (items, page), answer)
                && mut_ref_current(items).walk().pages < mut_ref_current(items).walk().max_pages
                ==> {
                &&& mut_ref_future(items).items() == mut_ref_current(items).items() + page.items@
                &&& answer is Done <==> page.next is None
            },
{
}

} // verus!
