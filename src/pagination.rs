//! The page-by-page walk through one department's listing: which page to
//! ask for next, how many items to ask for, and when to stop.
use vstd::prelude::*;
use crate::api::{ApiProduct, ApiResponseItems, products_in, products_of};

verus! {

/// Most items asked for in one page.
pub const PAGE_SIZE: usize = 120;

/// The page to ask for and how many items it should hold.
#[derive(Clone, Copy, Debug, PartialEq, Eq, Structural)]
pub struct PageRequest {
    pub page: usize,
    pub size: usize,
}

/// Where the walk through a listing stands.
#[derive(Clone, Copy, Debug, PartialEq, Eq, Structural)]
pub struct PageCursor {
    /// Most items to fetch in all.
    pub cap: usize,
    /// The next page, counted from one.
    pub page: usize,
    /// Items fetched so far.
    pub fetched: usize,
    /// The listing's total, once a page has reported it.
    pub total: Option<usize>,
    /// No more pages are to be asked for.
    pub finished: bool,
}

pub open spec fn min(a: int, b: int) -> int {
    if a <= b {
        a
    } else {
        b
    }
}

pub open spec fn max(a: int, b: int) -> int {
    if a >= b {
        a
    } else {
        b
    }
}

impl PageCursor {
    /// The walk before its first page.
    pub open spec fn start(cap: usize) -> PageCursor {
        PageCursor { cap, page: 1, fetched: 0, total: None, finished: false }
    }

    /// How many items the walk is to fetch in all, as far as it knows: the
    /// smaller of the cap and the reported total.
    pub open spec fn limit(&self) -> int {
        match self.total {
            Some(t) => min(t as int, self.cap as int),
            None => self.cap as int,
        }
    }

    pub open spec fn wf(&self) -> bool {
        !self.finished ==> self.fetched <= self.limit()
    }

    /// Items to ask for in the next page.
    pub open spec fn request_size(&self) -> int {
        min(PAGE_SIZE as int, self.limit() - self.fetched)
    }

    /// The walk after a page brought `returned` items and reported `total`.
    pub open spec fn after_page(&self, returned: usize, total: usize) -> PageCursor {
        let fetched = (self.fetched + returned) as usize;
        let finished = fetched >= total || fetched >= self.cap;
        PageCursor {
            cap: self.cap,
            page: if finished { self.page } else { (self.page + 1) as usize },
            fetched,
            total: Some(total),
            finished,
        }
    }

    /// A walk that will fetch at most `cap` items.
    pub fn new(cap: usize) -> (r: PageCursor)
        ensures
            r == PageCursor::start(cap),
            r.wf(),
    {
        PageCursor { cap, page: 1, fetched: 0, total: None, finished: false }
    }

    /// The page to ask for next, or nothing once the walk is finished.
    pub fn next_request(&self) -> (r: Option<PageRequest>)
        requires
            self.wf(),
        ensures
            self.finished ==> r is None,
            !self.finished ==> r == Some(PageRequest { page: self.page, size: self.request_size() as usize }),
    {
        if self.finished {
            return None;
        }
        let limit = match self.total {
            Some(t) => if t < self.cap { t } else { self.cap },
            None => self.cap,
        };
        let remaining = limit - self.fetched;
        let size = if remaining < PAGE_SIZE { remaining } else { PAGE_SIZE };
        Some(PageRequest { page: self.page, size })
    }

    /// Records a page that brought `returned` items and reported `total`
    /// items in the listing. The walk is finished once the items fetched
    /// reach the total or the cap; else it moves to the next page.
    pub fn record_page(&mut self, returned: usize, total: usize)
        requires
            old(self).wf(),
            !old(self).finished,
            old(self).fetched + returned <= usize::MAX,
            old(self).page < usize::MAX,
        ensures
            *final(self) == old(self).after_page(returned, total),
            final(self).wf(),
    {
        self.fetched = self.fetched + returned;
        self.total = Some(total);
        self.finished = self.fetched >= total || self.fetched >= self.cap;
        if !self.finished {
            self.page = self.page + 1;
        }
    }
}

proof fn lemma_products_in_len(items: Seq<crate::api::ApiResponseItem>)
    ensures
        products_in(items).len() <= items.len(),
    decreases items.len(),
{
    if items.len() > 0 {
        lemma_products_in_len(items.drop_last());
    }
}

impl PageCursor {
    /// Takes in a page of the listing: its products join those fetched so
    /// far, its promotional tiles are dropped, and the walk records the
    /// products it brought and the total it reported.
    pub fn accept_page(&mut self, store: &mut Vec<ApiProduct>, page: ApiResponseItems)
        requires
            old(self).wf(),
            !old(self).finished,
            old(store)@.len() == old(self).fetched,
            old(store)@.len() + page.items@.len() <= usize::MAX,
            old(self).page < usize::MAX,
        ensures
            final(store)@ == old(store)@ + products_in(page.items@),
            *final(self) == old(self).after_page(products_in(page.items@).len() as usize, page.total_items),
            final(self).wf(),
            final(store)@.len() == final(self).fetched,
    {
        proof {
            lemma_products_in_len(page.items@);
        }
        let total = page.total_items;
        let mut products = products_of(page.items);
        let returned = products.len();
        store.append(&mut products);
        self.record_page(returned, total);
    }
}

/// The walk after a run of pages, each given as the items it brought and
/// the total it reported.
pub open spec fn after_pages(c: PageCursor, replies: Seq<(usize, usize)>) -> PageCursor
    decreases replies.len(),
{
    if replies.len() == 0 {
        c
    } else {
        after_pages(c, replies.drop_last()).after_page(replies.last().0, replies.last().1)
    }
}

/// Each page of the run was asked for while the walk went on, and brought
/// no more items than were asked for.
pub open spec fn well_answered(c: PageCursor, replies: Seq<(usize, usize)>) -> bool {
    forall|i: int|
        0 <= i < replies.len() ==> {
            let before = #[trigger] after_pages(c, replies.take(i));
            &&& !before.finished
            &&& replies[i].0 <= before.request_size()
        }
}

/// Across the pages of one listing, answered with no more items than were
/// asked for, the items fetched never exceed the larger of the cap and the
/// total; and the walk is finished exactly when they reach the smaller of
/// the two.
pub proof fn lemma_pagination_bounds(cap: usize, replies: Seq<(usize, usize)>)
    requires
        well_answered(PageCursor::start(cap), replies),
    ensures
        ({
            let end = after_pages(PageCursor::start(cap), replies);
            &&& end.wf()
            &&& end.cap == cap
            &&& end.fetched <= cap
            &&& replies.len() > 0 ==> end.fetched <= max(cap as int, replies.last().1 as int)
            &&& replies.len() > 0 ==> (end.finished <==> end.fetched >= min(replies.last().1 as int, cap as int))
        }),
    decreases replies.len(),
{
    let c = PageCursor::start(cap);
    if replies.len() > 0 {
        let prefix = replies.drop_last();
        assert forall|i: int| 0 <= i < prefix.len() implies {
            let before = #[trigger] after_pages(c, prefix.take(i));
            &&& !before.finished
            &&& prefix[i].0 <= before.request_size()
        } by {
            assert(prefix.take(i) =~= replies.take(i));
            let _ = after_pages(c, replies.take(i));
        }
        lemma_pagination_bounds(cap, prefix);
        let n = replies.len() - 1;
        assert(replies.take(n) =~= prefix);
        let before = after_pages(c, prefix);
        assert(!before.finished && replies[n].0 <= before.request_size()) by {
            let _ = after_pages(c, replies.take(n));
        }
        assert(before.fetched <= cap);
        let end = after_pages(c, replies);
        assert(end == before.after_page(replies.last().0, replies.last().1));
        assert(before.limit() <= cap);
        assert(replies.last() == replies[n]);
        assert(before.fetched + replies[n].0 <= before.limit());
        assert(end.fetched == before.fetched + replies[n].0);
        assert(end.fetched <= cap);
        assert(end.wf());
    }
}

} // verus!
