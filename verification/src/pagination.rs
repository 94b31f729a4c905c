//! Draining a remote paged list: which page to ask for next, when the list
//! is complete, and when to give up on a list that never completes.

use crate::error::Error;
use vstd::arithmetic::div_mod::lemma_div_is_ordered;
use vstd::arithmetic::div_mod::lemma_div_multiples_vanish;
use vstd::arithmetic::div_mod::lemma_fundamental_div_mod_converse;
use vstd::prelude::*;

verus! {

/// The page size that every drain asks for unless told otherwise.
pub const PAGE_SIZE: u32 = 100;

/// One request for a page: how many items it may hold, and which page it is.
/// Pages are numbered from 1.
#[derive(Debug, Clone, Copy, PartialEq, Eq, Structural)]
pub struct PageRequest {
    pub page_size: u32,
    pub page: u32,
}

/// One page as the remote side returned it: the item count that it declares
/// for the whole list, and the items of this page in the order received.
#[derive(Debug)]
pub struct PageEnvelope<T> {
    pub total: i32,
    pub items: Vec<T>,
}

/// The mathematical content of a [`Pager`].
pub struct PagerView<T> {
    /// Items asked for per page; at least 1 in every pager that exists.
    pub page_size: nat,
    /// Pages received so far.
    pub calls: nat,
    /// The total that the first page declared (0 before any page came).
    pub total: int,
    /// Everything received so far, pages concatenated in request order.
    pub items: Seq<T>,
}

/// What a pager decides once a page has come in.
pub enum PagingView<T> {
    /// The list is not complete: ask for the next page.
    More(PagerView<T>),
    /// The list is complete: these are its items.
    Done(Seq<T>),
    /// The declared total was not reached within the allowed number of pages.
    Diverged,
}

/// The most pages a drain asks for when the first page declares `total`:
/// one more than an exact count of full pages could need, plus one.
pub open spec fn max_calls(total: int, page_size: nat) -> int {
    if total <= 0 || page_size == 0 {
        2
    } else {
        total / (page_size as int) + 2
    }
}

/// The request that a pager in state `p` has pending.
pub open spec fn request_of<T>(p: PagerView<T>) -> PageRequest {
    PageRequest { page_size: p.page_size as u32, page: (p.calls + 1) as u32 }
}

/// The state of a drain before any page has come.
pub open spec fn start_of<T>(page_size: nat) -> PagerView<T> {
    PagerView { page_size, calls: 0, total: 0, items: Seq::empty() }
}

/// The decision a pager in state `p` takes when a page arrives that declares
/// `total` and holds `items`.
///
/// Only the total of the first page counts. The drain is done as soon as the
/// items collected reach that total; it has diverged when they have not and
/// `max_calls` pages have been received; otherwise the next page is due.
pub open spec fn advance_spec<T>(p: PagerView<T>, total: int, items: Seq<T>) -> PagingView<T> {
    let declared = if p.calls == 0 { total } else { p.total };
    let collected = p.items + items;
    let calls = p.calls + 1;
    if collected.len() >= declared {
        PagingView::Done(collected)
    } else if calls >= max_calls(declared, p.page_size) {
        PagingView::Diverged
    } else {
        PagingView::More(
            PagerView { page_size: p.page_size, calls, total: declared, items: collected },
        )
    }
}

/// Whether `p` is a state that a drain can be in while it waits for a page.
pub open spec fn awaiting<T>(p: PagerView<T>) -> bool {
    &&& 1 <= p.page_size <= u32::MAX
    &&& p.calls == 0 ==> p.total == 0 && p.items.len() == 0
    &&& p.calls > 0 ==> p.items.len() < p.total <= i32::MAX && p.calls < max_calls(
        p.total,
        p.page_size,
    )
}

/// A drain in progress: the pages received so far and what to ask for next.
#[derive(Debug)]
pub struct Pager<T> {
    page_size: u32,
    calls: u32,
    total: i32,
    items: Vec<T>,
}

/// The outcome of handing a page to a [`Pager`].
#[derive(Debug)]
pub enum Paging<T> {
    /// Ask for the page that the pager's `request` names, and hand it over.
    More(Pager<T>),
    /// The list is complete.
    Done(Vec<T>),
    /// The drain gave up; the error is a protocol violation.
    Failed(Error),
}

impl<T> View for Pager<T> {
    type V = PagerView<T>;

    closed spec fn view(&self) -> PagerView<T> {
        PagerView {
            page_size: self.page_size as nat,
            calls: self.calls as nat,
            total: self.total as int,
            items: self.items@,
        }
    }
}

impl<T> Pager<T> {
    #[verifier::type_invariant]
    spec fn inv(&self) -> bool {
        awaiting(self@)
    }

    /// A drain that has not asked for anything yet, with the usual page size.
    pub fn new() -> (p: Pager<T>)
        ensures
            p@ == start_of::<T>(PAGE_SIZE as nat),
    {
        Pager { page_size: PAGE_SIZE, calls: 0, total: 0, items: Vec::new() }
    }

    /// A drain that has not asked for anything yet, with a page size of the
    /// caller's choice.
    pub fn with_page_size(page_size: u32) -> (p: Pager<T>)
        requires
            page_size >= 1,
        ensures
            p@ == start_of::<T>(page_size as nat),
    {
        Pager { page_size, calls: 0, total: 0, items: Vec::new() }
    }

    /// The request that is pending: the page after the last one received.
    pub fn request(&self) -> (r: PageRequest)
        ensures
            awaiting(self@),
            r == request_of(self@),
    {
        proof {
            use_type_invariant(self);
            lemma_calls_fit(self@);
        }
        PageRequest { page_size: self.page_size, page: self.calls + 1 }
    }

    /// Takes the page that answers the pending request and decides how the
    /// drain goes on.
    pub fn advance(self, envelope: PageEnvelope<T>) -> (r: Paging<T>)
        ensures
            awaiting(self@),
            match r {
                Paging::More(p) => advance_spec(self@, envelope.total as int, envelope.items@)
                    == PagingView::More(p@),
                Paging::Done(v) => advance_spec(self@, envelope.total as int, envelope.items@)
                    == PagingView::Done(v@),
                Paging::Failed(e) => advance_spec(self@, envelope.total as int, envelope.items@)
                    == PagingView::<T>::Diverged && e == diverged(),
            },
    {
        proof {
            use_type_invariant(&self);
            lemma_calls_fit(self@);
        }
        let Pager { page_size, calls, total, items } = self;
        let PageEnvelope { total: claimed, items: mut page } = envelope;
        let declared: i32 = if calls == 0 { claimed } else { total };
        let mut collected = items;
        collected.append(&mut page);
        let calls: u32 = calls + 1;
        if declared <= 0 {
            return Paging::Done(collected);
        }
        let wanted: u32 = declared as u32;
        if collected.len() >= wanted as usize {
            return Paging::Done(collected);
        }
        if calls >= wanted / page_size + 2 {
            return Paging::Failed(diverged_error());
        }
        Paging::More(Pager { page_size, calls, total: declared, items: collected })
    }
}

/// The error of a drain that gave up.
pub open spec fn diverged() -> Error {
    Error::ProtocolViolation("pagination did not converge")
}

fn diverged_error() -> (e: Error)
    ensures
        e == diverged(),
{
    Error::ProtocolViolation("pagination did not converge")
}

/// While a drain waits for a page, the number of the page it waits for fits
/// in 32 bits, and so does the number after it.
proof fn lemma_calls_fit<T>(p: PagerView<T>)
    requires
        awaiting(p),
    ensures
        p.calls + 2 <= u32::MAX,
{
    if p.calls > 0 {
        assert(p.total / (p.page_size as int) <= p.total) by (nonlinear_arith)
            requires
                p.total >= 0,
                p.page_size >= 1,
        ;
    }
}

/// A remote side as a drain sees it: the declared total and the items that
/// answer each request.
pub type Server<T> = spec_fn(PageRequest) -> (int, Seq<T>);

/// A whole drain: the requests made, in order, and the list that came out of
/// them, or `None` where the drain gave up.
pub struct DrainView<T> {
    pub requests: Seq<PageRequest>,
    pub outcome: Option<Seq<T>>,
}

/// The rest of a drain against `server`, from the state `p` on: the pending
/// request is made, the answer is handed to the pager, and so on until the
/// pager stops.
pub open spec fn drain_from<T>(server: Server<T>, p: PagerView<T>) -> DrainView<T>
    decreases (if p.calls == 0 { 1int } else { 0int }), max_calls(p.total, p.page_size) - p.calls,
{
    let request = request_of(p);
    let (total, items) = server(request);
    match advance_spec(p, total, items) {
        PagingView::More(next) => {
            let rest = drain_from(server, next);
            DrainView { requests: seq![request] + rest.requests, outcome: rest.outcome }
        },
        PagingView::Done(list) => DrainView { requests: seq![request], outcome: Some(list) },
        PagingView::Diverged => DrainView { requests: seq![request], outcome: None },
    }
}

/// A whole drain against `server` with the given page size.
pub open spec fn drain_all<T>(server: Server<T>, page_size: nat) -> DrainView<T> {
    drain_from(server, start_of(page_size))
}

/// The pages that a list of `total` items fills: `total / page_size`, rounded
/// up.
pub open spec fn pages_needed(total: nat, page_size: nat) -> int {
    (total + page_size - 1) / (page_size as int)
}

/// The answer of a remote side that holds the list `all` and serves it
/// faithfully: it declares the length of `all` and returns the slice of it
/// that the requested page covers.
pub open spec fn faithful_page<T>(all: Seq<T>, request: PageRequest) -> (int, Seq<T>) {
    let len = all.len() as int;
    let from = (request.page - 1) * request.page_size;
    let to = request.page * request.page_size;
    (
        len,
        all.subrange(if from < len { from } else { len }, if to < len { to } else { len }),
    )
}

/// The remote side that serves `all` faithfully.
pub open spec fn faithful<T>(all: Seq<T>) -> Server<T> {
    |request: PageRequest| faithful_page(all, request)
}

/// The state of a drain of `all` after `k` full pages have come in.
pub open spec fn after_pages<T>(all: Seq<T>, page_size: nat, k: nat) -> PagerView<T> {
    if k == 0 {
        start_of(page_size)
    } else {
        PagerView {
            page_size,
            calls: k,
            total: all.len() as int,
            items: all.subrange(0, (k * page_size) as int),
        }
    }
}

/// Every pager that waits for a page makes progress: whatever page comes, a
/// drain that goes on has received one page more, still waits within the
/// allowed number of pages, keeps the page size and the total of the first
/// page, and has appended the page to what it had.
pub proof fn lemma_advance_progress<T>(p: PagerView<T>, total: int, items: Seq<T>)
    requires
        awaiting(p),
        total <= i32::MAX,
    ensures
        match advance_spec(p, total, items) {
            PagingView::More(next) => {
                &&& awaiting(next)
                &&& next.calls == p.calls + 1
                &&& next.page_size == p.page_size
                &&& next.items == p.items + items
                &&& request_of(next).page == request_of(p).page + 1
            },
            PagingView::Done(list) => list == p.items + items,
            PagingView::Diverged => true,
        },
{
    lemma_calls_fit(p);
    if let PagingView::More(next) = advance_spec(p, total, items) {
        lemma_calls_fit(next);
    }
}

/// No drain runs on for ever, whatever the remote side answers: it makes at
/// most `max_calls` requests for the total that the first page declared, and
/// its requests name the pages 1, 2, 3, ... with the page size it began with.
pub proof fn lemma_drain_bounded<T>(server: Server<T>, page_size: nat)
    requires
        1 <= page_size <= u32::MAX,
        forall|r: PageRequest| (#[trigger] server(r)).0 <= i32::MAX,
    ensures
        ({
            let first = PageRequest { page_size: page_size as u32, page: 1 };
            let drain = drain_all(server, page_size);
            &&& 1 <= drain.requests.len() <= max_calls(server(first).0, page_size)
            &&& forall|i: int|
                0 <= i < drain.requests.len() ==> #[trigger] drain.requests[i] == (PageRequest {
                    page_size: page_size as u32,
                    page: (i + 1) as u32,
                })
        }),
{
    let first = PageRequest { page_size: page_size as u32, page: 1 };
    let p = start_of::<T>(page_size);
    let (total, items) = server(first);
    assert(request_of(p) == first);
    match advance_spec(p, total, items) {
        PagingView::More(next) => {
            lemma_advance_progress(p, total, items);
            lemma_drain_tail_bounded(server, next);
            let rest = drain_from(server, next);
            let drain = drain_all(server, page_size);
            assert(drain.requests == seq![first] + rest.requests);
            assert forall|i: int| 0 <= i < drain.requests.len() implies #[trigger] drain.requests[i]
                == (PageRequest { page_size: page_size as u32, page: (i + 1) as u32 }) by {
                if i > 0 {
                    assert(drain.requests[i] == rest.requests[i - 1]);
                }
            }
        },
        _ => {},
    }
}

proof fn lemma_drain_tail_bounded<T>(server: Server<T>, p: PagerView<T>)
    requires
        awaiting(p),
        p.calls >= 1,
        forall|r: PageRequest| (#[trigger] server(r)).0 <= i32::MAX,
    ensures
        ({
            let drain = drain_from(server, p);
            &&& 1 <= drain.requests.len() <= max_calls(p.total, p.page_size) - p.calls
            &&& forall|i: int|
                0 <= i < drain.requests.len() ==> #[trigger] drain.requests[i] == (PageRequest {
                    page_size: p.page_size as u32,
                    page: (p.calls + 1 + i) as u32,
                })
        }),
    decreases max_calls(p.total, p.page_size) - p.calls,
{
    lemma_calls_fit(p);
    let request = request_of(p);
    let (total, items) = server(request);
    match advance_spec(p, total, items) {
        PagingView::More(next) => {
            lemma_advance_progress(p, total, items);
            lemma_drain_tail_bounded(server, next);
            let rest = drain_from(server, next);
            let drain = drain_from(server, p);
            assert(drain.requests == seq![request] + rest.requests);
            assert forall|i: int| 0 <= i < drain.requests.len() implies #[trigger] drain.requests[i]
                == (PageRequest { page_size: p.page_size as u32, page: (p.calls + 1 + i) as u32 }) by {
                if i > 0 {
                    assert(drain.requests[i] == rest.requests[i - 1]);
                }
            }
        },
        _ => {},
    }
}

/// A drain converges on a faithful remote side: for a list of `T >= 1` items
/// served in pages of `P`, it returns exactly that list after `T / P`
/// requests, rounded up, which name the pages 1, 2, 3, ... in order.
pub proof fn lemma_drain_converges<T>(all: Seq<T>, page_size: nat)
    requires
        1 <= page_size <= u32::MAX,
        1 <= all.len() <= i32::MAX,
    ensures
        ({
            let drain = drain_all(faithful(all), page_size);
            &&& drain.outcome == Some(all)
            &&& drain.requests.len() == pages_needed(all.len(), page_size)
            &&& forall|i: int|
                0 <= i < drain.requests.len() ==> #[trigger] drain.requests[i] == (PageRequest {
                    page_size: page_size as u32,
                    page: (i + 1) as u32,
                })
        }),
{
    lemma_drain_bounded(faithful(all), page_size);
    assert(0 * page_size == 0);
    lemma_drain_tail_converges(all, page_size, 0);
}

/// The rest of a drain on a faithful remote side, after `k` full pages that
/// did not yet hold the whole list.
proof fn lemma_drain_tail_converges<T>(all: Seq<T>, page_size: nat, k: nat)
    requires
        1 <= page_size <= u32::MAX,
        1 <= all.len() <= i32::MAX,
        k * page_size < all.len(),
    ensures
        ({
            let drain = drain_from(faithful(all), after_pages(all, page_size, k));
            &&& drain.outcome == Some(all)
            &&& drain.requests.len() == pages_needed(all.len(), page_size) - k
        }),
    decreases all.len() - k * page_size,
{
    let len = all.len() as int;
    let size = page_size as int;
    let p = after_pages(all, page_size, k);
    assert(k < len) by (nonlinear_arith)
        requires
            k * size < len,
            size >= 1,
            k >= 0,
    ;
    let request = request_of(p);
    assert(request == PageRequest { page_size: page_size as u32, page: (k + 1) as u32 });
    let from = k * size;
    let to = (k + 1) * size;
    assert(to == from + size) by (nonlinear_arith)
        requires
            from == k * size,
            to == (k + 1) * size,
    ;
    assert((request.page - 1) * request.page_size == from);
    assert(request.page * request.page_size == to);
    let upto = if to < len { to } else { len };
    let (total, items) = faithful(all)(request);
    assert(total == len);
    assert(items == all.subrange(from, upto));
    assert(k == 0 ==> from == 0);
    assert((k * page_size) as int == from);
    assert(p.items =~= all.subrange(0, from));
    assert(p.items + items =~= all.subrange(0, upto));
    if to < len {
        assert(k + 1 <= len / size) by {
            lemma_div_is_ordered(to, len, size);
            lemma_div_multiples_vanish((k + 1) as int, size);
            assert(to == size * (k + 1)) by (nonlinear_arith)
                requires
                    to == (k + 1) * size,
            ;
        }
        let next = after_pages(all, page_size, k + 1);
        assert(advance_spec(p, total, items) == PagingView::More(next));
        lemma_drain_tail_converges(all, page_size, k + 1);
    } else {
        assert(all.subrange(0, len) =~= all);
        assert(advance_spec(p, total, items) == PagingView::Done(all));
        assert(pages_needed(all.len(), page_size) == k + 1) by {
            assert(len + size - 1 == (k + 1) * size + (len - from - 1)) by (nonlinear_arith)
                requires
                    from == k * size,
            ;
            lemma_fundamental_div_mod_converse(len + size - 1, size, (k + 1) as int, len - from - 1);
        }
    }
}

} // verus!
