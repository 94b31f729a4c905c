//! Synchronising a whole account: list its collections, add the default
//! collection, and synchronise one after the other, going on where one
//! stops.

use crate::client::models::envelope;
use crate::client::models::DefaultWordset;
use crate::client::models::Wordset;
use crate::error::unexpected;
use crate::error::unexpected_event;
use crate::error::Error;
use crate::pagination::advance_spec;
use crate::pagination::diverged;
use crate::pagination::request_of;
use crate::pagination::start_of;
use crate::pagination::Pager;
use crate::pagination::PagerView;
use crate::pagination::Paging;
use crate::pagination::PagingView;
use crate::pagination::PAGE_SIZE;
use crate::sync::collection::start_spec;
use crate::sync::collection::step_spec;
use crate::sync::collection::CollectionSync;
use crate::sync::collection::CollectionView;
use crate::sync::collection::Progress;
use crate::sync::collection::ProgressView;
use crate::sync::protocol::Event;
use crate::sync::protocol::EventView;
use crate::sync::protocol::Request;
use crate::sync::protocol::RequestView;
use crate::sync::report::empty_report;
use crate::sync::report::with_failure;
use crate::sync::report::with_success;
use crate::sync::report::ReportView;
use crate::sync::report::SyncReport;
use vstd::prelude::*;

verus! {

/// How a run goes on; `S` is what the run keeps between two requests.
#[derive(Debug)]
pub enum Run<S> {
    /// Carry the request out and hand its answer to `step`.
    Next(S, Request),
    /// The run is over; this is its report.
    Done(SyncReport),
    /// The run could not be carried through.
    Failed(Error),
}

/// The mathematical content of a [`Run`].
pub enum RunView<V> {
    Next(V, RequestView),
    Done(ReportView),
    Failed(Error),
}

impl<S: View> View for Run<S> {
    type V = RunView<S::V>;

    open spec fn view(&self) -> RunView<S::V> {
        match *self {
            Run::Next(state, request) => RunView::Next(state@, request@),
            Run::Done(report) => RunView::Done(report@),
            Run::Failed(reason) => RunView::Failed(reason),
        }
    }
}

/// Whether a collection with this id is in the list.
pub open spec fn has_id(listed: Seq<Wordset>, id: i32) -> bool {
    exists|i: int| 0 <= i < listed.len() && (#[trigger] listed[i]).id == id
}

/// The list of collections with the default collection at its end, unless
/// the list holds a collection with its id already.
pub open spec fn merge_default_spec(listed: Seq<Wordset>, default: Wordset) -> Seq<Wordset> {
    if has_id(listed, default.id) {
        listed
    } else {
        listed.push(default)
    }
}

/// Adds the default collection to the listed ones, once.
pub fn merge_default(listed: Vec<Wordset>, default: DefaultWordset) -> (all: Vec<Wordset>)
    ensures
        all@ == merge_default_spec(listed@, Wordset { id: default.id, title: default.title }),
{
    let mut all = listed;
    let mut i: usize = 0;
    while i < all.len()
        invariant
            i <= all.len(),
            all@ == listed@,
            forall|j: int| 0 <= j < i ==> (#[trigger] all@[j]).id != default.id,
        decreases all.len() - i,
    {
        if all[i].id == default.id {
            return all;
        }
        i += 1;
    }
    all.push(Wordset { id: default.id, title: default.title });
    all
}

/// Where the synchronisation of an account stands.
pub enum AccountStageView {
    /// Waits for a page of the list of collections.
    Listing(PagerView<Wordset>),
    /// Waits for the default collection; `listed` are the listed ones.
    AwaitingDefault { listed: Seq<Wordset> },
    /// Waits on behalf of the collection that is being synchronised;
    /// `remaining` are the collections after it.
    Running { current: CollectionView, remaining: Seq<Wordset> },
}

/// The mathematical content of an [`AccountSync`].
pub struct AccountView {
    pub report: ReportView,
    pub stage: AccountStageView,
}

/// How the synchronisation of an account begins: with the first page of the
/// list of collections.
pub open spec fn start_account_spec() -> RunView<AccountView> {
    let pager = start_of::<Wordset>(PAGE_SIZE as nat);
    RunView::Next(
        AccountView { report: empty_report(), stage: AccountStageView::Listing(pager) },
        RequestView::FetchCollections(request_of(pager)),
    )
}

/// The step to the next collection: the first of `remaining` is begun; the
/// run is over, with `report`, when none is left.
pub open spec fn next_collection(report: ReportView, remaining: Seq<Wordset>) -> RunView<
    AccountView,
> {
    if remaining.len() == 0 {
        RunView::Done(report)
    } else {
        match start_spec(remaining.first().id, Some(remaining.first().title)) {
            ProgressView::Next(current, request) => RunView::Next(
                AccountView {
                    report,
                    stage: AccountStageView::Running { current, remaining: remaining.drop_first() },
                },
                request,
            ),
            _ => RunView::Failed(unexpected()),
        }
    }
}

/// The decision that the synchronisation of an account takes on `event`.
///
/// While the collections are being listed and the default collection is
/// being fetched, a failure ends the run, and so does an event that does not
/// answer the pending request. From then on every event belongs to the
/// collection in hand: where that collection is done or stops, the report
/// notes it, and the next collection is begun.
pub open spec fn account_step_spec(a: AccountView, event: EventView) -> RunView<AccountView> {
    match a.stage {
        AccountStageView::Listing(pager) => match event {
            EventView::Failed(reason) => RunView::Failed(reason),
            EventView::CollectionsPage { total, items } => match advance_spec(pager, total, items) {
                PagingView::More(next) => RunView::Next(
                    AccountView { report: a.report, stage: AccountStageView::Listing(next) },
                    RequestView::FetchCollections(request_of(next)),
                ),
                PagingView::Done(listed) => RunView::Next(
                    AccountView {
                        report: a.report,
                        stage: AccountStageView::AwaitingDefault { listed },
                    },
                    RequestView::FetchDefault,
                ),
                PagingView::Diverged => RunView::Failed(diverged()),
            },
            _ => RunView::Failed(unexpected()),
        },
        AccountStageView::AwaitingDefault { listed } => match event {
            EventView::Failed(reason) => RunView::Failed(reason),
            EventView::DefaultCollection(default) => next_collection(
                a.report,
                merge_default_spec(listed, default),
            ),
            _ => RunView::Failed(unexpected()),
        },
        AccountStageView::Running { current, remaining } => match step_spec(current, event) {
            ProgressView::Next(next, request) => RunView::Next(
                AccountView {
                    report: a.report,
                    stage: AccountStageView::Running { current: next, remaining },
                },
                request,
            ),
            ProgressView::Done(stored) => next_collection(
                with_success(a.report, current.id, stored),
                remaining,
            ),
            ProgressView::Failed { reason, persisted } => next_collection(
                with_failure(a.report, current.id, reason, persisted),
                remaining,
            ),
        },
    }
}

#[derive(Debug)]
enum AccountStage {
    Listing(Pager<Wordset>),
    AwaitingDefault { listed: Vec<Wordset> },
    Running { current: CollectionSync, remaining: Vec<Wordset> },
}

/// The synchronisation of an account, between two requests.
#[derive(Debug)]
pub struct AccountSync {
    report: SyncReport,
    stage: AccountStage,
}

impl View for AccountStage {
    type V = AccountStageView;

    closed spec fn view(&self) -> AccountStageView {
        match *self {
            AccountStage::Listing(pager) => AccountStageView::Listing(pager@),
            AccountStage::AwaitingDefault { listed } => AccountStageView::AwaitingDefault {
                listed: listed@,
            },
            AccountStage::Running { current, remaining } => AccountStageView::Running {
                current: current@,
                remaining: remaining@,
            },
        }
    }
}

impl View for AccountSync {
    type V = AccountView;

    closed spec fn view(&self) -> AccountView {
        AccountView { report: self.report@, stage: self.stage@ }
    }
}

impl AccountSync {
    /// Begins the synchronisation of an account.
    pub fn start() -> (r: Run<AccountSync>)
        ensures
            r@ == start_account_spec(),
    {
        let pager: Pager<Wordset> = Pager::new();
        let page = pager.request();
        Run::Next(
            AccountSync { report: SyncReport::new(), stage: AccountStage::Listing(pager) },
            Request::FetchCollections(page),
        )
    }

    fn next_collection(report: SyncReport, remaining: Vec<Wordset>) -> (r: Run<AccountSync>)
        ensures
            r@ == next_collection(report@, remaining@),
    {
        let mut remaining = remaining;
        if remaining.len() == 0 {
            Run::Done(report)
        } else {
            let Wordset { id, title } = remaining.remove(0);
            match CollectionSync::start(id, Some(title)) {
                Progress::Next(current, request) => Run::Next(
                    AccountSync { report, stage: AccountStage::Running { current, remaining } },
                    request,
                ),
                _ => Run::Failed(unexpected_event()),
            }
        }
    }

    /// Takes the answer to the pending request and decides what comes next.
    pub fn step(self, event: Event) -> (r: Run<AccountSync>)
        ensures
            r@ == account_step_spec(self@, event@),
    {
        let AccountSync { report, stage } = self;
        match stage {
            AccountStage::Listing(pager) => match event {
                Event::Failed(reason) => Run::Failed(reason),
                Event::CollectionsPage(resp) => match pager.advance(envelope(resp)) {
                    Paging::More(next) => {
                        let page = next.request();
                        Run::Next(
                            AccountSync { report, stage: AccountStage::Listing(next) },
                            Request::FetchCollections(page),
                        )
                    },
                    Paging::Done(listed) => Run::Next(
                        AccountSync { report, stage: AccountStage::AwaitingDefault { listed } },
                        Request::FetchDefault,
                    ),
                    Paging::Failed(reason) => Run::Failed(reason),
                },
                _ => Run::Failed(unexpected_event()),
            },
            AccountStage::AwaitingDefault { listed } => match event {
                Event::Failed(reason) => Run::Failed(reason),
                Event::DefaultCollection(default) => Self::next_collection(
                    report,
                    merge_default(listed, default),
                ),
                _ => Run::Failed(unexpected_event()),
            },
            AccountStage::Running { current, remaining } => {
                let id = current.id();
                let mut report = report;
                match current.step(event) {
                    Progress::Next(next, request) => Run::Next(
                        AccountSync {
                            report,
                            stage: AccountStage::Running { current: next, remaining },
                        },
                        request,
                    ),
                    Progress::Done(stored) => {
                        report.record_success(id, stored);
                        Self::next_collection(report, remaining)
                    },
                    Progress::Failed { reason, persisted } => {
                        report.record_failure(id, reason, persisted);
                        Self::next_collection(report, remaining)
                    },
                }
            },
        }
    }
}

} // verus!
