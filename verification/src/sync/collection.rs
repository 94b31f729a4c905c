//! Synchronising one collection: record it, list its members, resolve them
//! group by group, and store of each group what persistence does not hold.

use crate::client::models::envelope;
use crate::client::models::Meaning;
use crate::client::models::Word;
use crate::error::unexpected;
use crate::error::unexpected_event;
use crate::error::Error;
use crate::pagination::advance_spec;
use crate::pagination::diverged;
use crate::pagination::request_of;
use crate::pagination::start_of;
use crate::pagination::Pager;
use crate::pagination::PagerView;
use crate::pagination::Paging;
use crate::pagination::PagingView;
use crate::pagination::PAGE_SIZE;
use crate::sync::batches;
use crate::sync::batches_spec;
use crate::sync::entry_ids;
use crate::sync::groups_view;
use crate::sync::ids_of;
use crate::sync::member_ids;
use crate::sync::protocol::Event;
use crate::sync::protocol::EventView;
use crate::sync::protocol::Request;
use crate::sync::protocol::RequestView;
use crate::sync::select_new;
use crate::sync::select_new_spec;
use crate::sync::store::fresh;
use crate::sync::store::unknown_of;
use vstd::prelude::*;

verus! {

/// Where the synchronisation of a collection stands: which answer it waits
/// for, and what it needs to go on from there.
pub enum StageView {
    /// Waits to learn whether the collection is stored.
    Checking,
    /// Waits for the collection to be stored.
    Recording,
    /// Waits for a page of members.
    Listing(PagerView<Word>),
    /// Waits for the entries of a group; `pending` are the groups after it.
    Resolving { pending: Seq<Seq<i32>> },
    /// Waits to learn which of `entries` are not stored.
    Deduplicating { pending: Seq<Seq<i32>>, entries: Seq<Meaning> },
    /// Waits for the entries with these ids to be stored.
    Storing { pending: Seq<Seq<i32>>, ids: Seq<i32> },
}

/// The mathematical content of a [`CollectionSync`].
pub struct CollectionView {
    /// The collection's id.
    pub id: i32,
    /// Its name, where it is known and not yet handed to persistence.
    pub title: Option<String>,
    /// The ids of the entries that this run has stored so far, in order.
    pub persisted: Seq<i32>,
    pub stage: StageView,
}

/// How a synchronisation goes on after an event.
pub enum ProgressView {
    /// The request is to be carried out and its answer handed over.
    Next(CollectionView, RequestView),
    /// The collection is synchronised; these entries were stored.
    Done(Seq<i32>),
    /// The synchronisation stopped; these entries were stored before it did.
    Failed { reason: Error, persisted: Seq<i32> },
}

/// The first step towards the members of the collection.
pub open spec fn list_members(c: CollectionView) -> ProgressView {
    let pager = start_of::<Word>(PAGE_SIZE as nat);
    ProgressView::Next(
        CollectionView { stage: StageView::Listing(pager), ..c },
        RequestView::FetchMembers { collection: c.id, page: request_of(pager) },
    )
}

/// The step to the next group: the first of `pending` is to be resolved; the
/// collection is done when none is left.
pub open spec fn resolve_next(c: CollectionView, pending: Seq<Seq<i32>>) -> ProgressView {
    if pending.len() == 0 {
        ProgressView::Done(c.persisted)
    } else {
        ProgressView::Next(
            CollectionView { stage: StageView::Resolving { pending: pending.drop_first() }, ..c },
            RequestView::Resolve(pending.first()),
        )
    }
}

/// How the synchronisation of the collection `id` begins. A collection
/// whose name is known is recorded first unless it is stored already; one
/// that is known by its id alone goes straight to its members.
pub open spec fn start_spec(id: i32, title: Option<String>) -> ProgressView {
    let c = CollectionView { id, title, persisted: Seq::empty(), stage: StageView::Checking };
    if title is Some {
        ProgressView::Next(c, RequestView::CollectionExists(id))
    } else {
        list_members(c)
    }
}

/// The decision that the synchronisation in state `c` takes on `event`.
///
/// A failure stops it, with what has been stored so far. An event that does
/// not answer the pending request stops it as a protocol violation.
/// Otherwise:
/// - a stored collection is not recorded again, one that is not stored is
///   recorded under its name, and then the members are listed;
/// - pages of members are taken until the pager is done; the members are
///   then cut into groups, and the first group is to be resolved;
/// - the entries of a group are shown to persistence by their ids, unless
///   there are none;
/// - the entries that persistence reports as unknown are to be stored,
///   unless there are none;
/// - once they are stored, their ids are added to what has been stored, and
///   the next group is due.
pub open spec fn step_spec(c: CollectionView, event: EventView) -> ProgressView {
    match (c.stage, event) {
        (_, EventView::Failed(reason)) => ProgressView::Failed { reason, persisted: c.persisted },
        (StageView::Checking, EventView::Exists(stored)) => match c.title {
            Some(name) if !stored => ProgressView::Next(
                CollectionView { title: None, stage: StageView::Recording, ..c },
                RequestView::InsertCollection(c.id, name),
            ),
            _ => list_members(c),
        },
        (StageView::Recording, EventView::CollectionInserted) => list_members(c),
        (StageView::Listing(pager), EventView::MembersPage { total, items }) => match advance_spec(
            pager,
            total,
            items,
        ) {
            PagingView::More(next) => ProgressView::Next(
                CollectionView { stage: StageView::Listing(next), ..c },
                RequestView::FetchMembers { collection: c.id, page: request_of(next) },
            ),
            PagingView::Done(members) => resolve_next(c, batches_spec(member_ids(members))),
            PagingView::Diverged => ProgressView::Failed {
                reason: diverged(),
                persisted: c.persisted,
            },
        },
        (StageView::Resolving { pending }, EventView::Resolved(entries)) => if entries.len() == 0 {
            resolve_next(c, pending)
        } else {
            ProgressView::Next(
                CollectionView {
                    stage: StageView::Deduplicating { pending, entries },
                    ..c
                },
                RequestView::UnknownIds(entry_ids(entries)),
            )
        },
        (StageView::Deduplicating { pending, entries }, EventView::Unknown(unknown)) => {
            let kept = select_new_spec(entries, unknown);
            if kept.len() == 0 {
                resolve_next(c, pending)
            } else {
                ProgressView::Next(
                    CollectionView {
                        stage: StageView::Storing { pending, ids: entry_ids(kept) },
                        ..c
                    },
                    RequestView::InsertEntries { entries: kept, collection: c.id },
                )
            }
        },
        (StageView::Storing { pending, ids }, EventView::EntriesInserted) => resolve_next(
            CollectionView { persisted: c.persisted + ids, ..c },
            pending,
        ),
        _ => ProgressView::Failed { reason: unexpected(), persisted: c.persisted },
    }
}

/// Where a [`CollectionSync`] stands.
#[derive(Debug)]
enum Stage {
    Checking,
    Recording,
    Listing(Pager<Word>),
    Resolving { pending: Vec<Vec<i32>> },
    Deduplicating { pending: Vec<Vec<i32>>, entries: Vec<Meaning> },
    Storing { pending: Vec<Vec<i32>>, ids: Vec<i32> },
}

/// The synchronisation of one collection, between two requests.
#[derive(Debug)]
pub struct CollectionSync {
    id: i32,
    title: Option<String>,
    persisted: Vec<i32>,
    stage: Stage,
}

/// How the synchronisation of a collection goes on.
#[derive(Debug)]
pub enum Progress {
    /// Carry the request out and hand its answer to `step`.
    Next(CollectionSync, Request),
    /// The collection is synchronised; these are the ids of the entries that
    /// were stored.
    Done(Vec<i32>),
    /// The synchronisation stopped; `persisted` are the ids of the entries
    /// that were stored before it did.
    Failed { reason: Error, persisted: Vec<i32> },
}

impl View for Stage {
    type V = StageView;

    closed spec fn view(&self) -> StageView {
        match *self {
            Stage::Checking => StageView::Checking,
            Stage::Recording => StageView::Recording,
            Stage::Listing(pager) => StageView::Listing(pager@),
            Stage::Resolving { pending } => StageView::Resolving { pending: groups_view(pending@) },
            Stage::Deduplicating { pending, entries } => StageView::Deduplicating {
                pending: groups_view(pending@),
                entries: entries@,
            },
            Stage::Storing { pending, ids } => StageView::Storing {
                pending: groups_view(pending@),
                ids: ids@,
            },
        }
    }
}

impl View for CollectionSync {
    type V = CollectionView;

    closed spec fn view(&self) -> CollectionView {
        CollectionView {
            id: self.id,
            title: self.title,
            persisted: self.persisted@,
            stage: self.stage@,
        }
    }
}

impl View for Progress {
    type V = ProgressView;

    open spec fn view(&self) -> ProgressView {
        match *self {
            Progress::Next(c, request) => ProgressView::Next(c@, request@),
            Progress::Done(persisted) => ProgressView::Done(persisted@),
            Progress::Failed { reason, persisted } => ProgressView::Failed {
                reason,
                persisted: persisted@,
            },
        }
    }
}

impl CollectionSync {
    /// Begins the synchronisation of the collection `id`. `title` is its
    /// name where the list of collections gave one.
    pub fn start(id: i32, title: Option<String>) -> (r: Progress)
        ensures
            r@ == start_spec(id, title),
            r is Next,
    {
        let c = CollectionSync { id, title, persisted: Vec::new(), stage: Stage::Checking };
        if c.title.is_some() {
            Progress::Next(c, Request::CollectionExists(id))
        } else {
            c.list_members()
        }
    }

    /// The id of the collection that is being synchronised.
    pub fn id(&self) -> (id: i32)
        ensures
            id == self@.id,
    {
        self.id
    }

    fn list_members(self) -> (r: Progress)
        ensures
            r@ == list_members(self@),
    {
        let pager: Pager<Word> = Pager::new();
        let page = pager.request();
        let collection = self.id;
        Progress::Next(
            CollectionSync {
                id: self.id,
                title: self.title,
                persisted: self.persisted,
                stage: Stage::Listing(pager),
            },
            Request::FetchMembers { collection, page },
        )
    }

    fn resolve_next(
        id: i32,
        title: Option<String>,
        persisted: Vec<i32>,
        pending: Vec<Vec<i32>>,
    ) -> (r: Progress)
        ensures
            r@ == resolve_next(
                CollectionView { id, title, persisted: persisted@, stage: StageView::Checking },
                groups_view(pending@),
            ),
    {
        let mut pending = pending;
        if pending.len() == 0 {
            Progress::Done(persisted)
        } else {
            let ghost before = groups_view(pending@);
            let group = pending.remove(0);
            assert(groups_view(pending@) =~= before.drop_first());
            Progress::Next(
                CollectionSync { id, title, persisted, stage: Stage::Resolving { pending } },
                Request::Resolve(group),
            )
        }
    }

    /// Takes the answer to the pending request and decides what comes next.
    pub fn step(self, event: Event) -> (r: Progress)
        ensures
            r@ == step_spec(self@, event@),
    {
        let CollectionSync { id, title, persisted, stage } = self;
        let ghost c = self@;
        match (stage, event) {
            (_, Event::Failed(reason)) => Progress::Failed { reason, persisted },
            (Stage::Checking, Event::Exists(stored)) => {
                if stored {
                    (CollectionSync { id, title, persisted, stage: Stage::Checking }).list_members()
                } else {
                    match title {
                        Some(name) => Progress::Next(
                            CollectionSync {
                                id,
                                title: None,
                                persisted,
                                stage: Stage::Recording,
                            },
                            Request::InsertCollection(id, name),
                        ),
                        None => (CollectionSync {
                            id,
                            title: None,
                            persisted,
                            stage: Stage::Checking,
                        }).list_members(),
                    }
                }
            },
            (Stage::Recording, Event::CollectionInserted) => (CollectionSync {
                id,
                title,
                persisted,
                stage: Stage::Recording,
            }).list_members(),
            (Stage::Listing(pager), Event::MembersPage(resp)) => {
                match pager.advance(envelope(resp)) {
                    Paging::More(next) => {
                        let page = next.request();
                        Progress::Next(
                            CollectionSync { id, title, persisted, stage: Stage::Listing(next) },
                            Request::FetchMembers { collection: id, page },
                        )
                    },
                    Paging::Done(members) => {
                        let pending = batches(&members);
                        Self::resolve_next(id, title, persisted, pending)
                    },
                    Paging::Failed(reason) => Progress::Failed { reason, persisted },
                }
            },
            (Stage::Resolving { pending }, Event::Resolved(entries)) => {
                if entries.len() == 0 {
                    Self::resolve_next(id, title, persisted, pending)
                } else {
                    let ids = ids_of(&entries);
                    Progress::Next(
                        CollectionSync {
                            id,
                            title,
                            persisted,
                            stage: Stage::Deduplicating { pending, entries },
                        },
                        Request::UnknownIds(ids),
                    )
                }
            },
            (Stage::Deduplicating { pending, entries }, Event::Unknown(unknown)) => {
                let kept = select_new(entries, &unknown);
                if kept.len() == 0 {
                    Self::resolve_next(id, title, persisted, pending)
                } else {
                    let ids = ids_of(&kept);
                    Progress::Next(
                        CollectionSync {
                            id,
                            title,
                            persisted,
                            stage: Stage::Storing { pending, ids },
                        },
                        Request::InsertEntries { entries: kept, collection: id },
                    )
                }
            },
            (Stage::Storing { pending, ids }, Event::EntriesInserted) => {
                let mut persisted = persisted;
                let mut ids = ids;
                persisted.append(&mut ids);
                Self::resolve_next(id, title, persisted, pending)
            },
            _ => Progress::Failed { reason: unexpected_event(), persisted },
        }
    }
}

/// What one group comes to when persistence answers truthfully. The
/// synchronisation waits for the entries of a group while persistence holds
/// `known`; the group resolves to `entries`. Unless there are none, it
/// asks about exactly their ids; when told which of them are unknown, it
/// asks to store exactly the entries that persistence does not hold, in
/// their order, under this collection, or nothing where all are held; and
/// once they are stored it notes their ids and turns to the next group.
pub proof fn lemma_group_cycle(
    c: CollectionView,
    pending: Seq<Seq<i32>>,
    known: Set<i32>,
    entries: Seq<Meaning>,
)
    requires
        c.stage == (StageView::Resolving { pending }),
        entries.len() > 0,
    ensures
        step_spec(c, EventView::Resolved(entries)) == ProgressView::Next(
            CollectionView { stage: StageView::Deduplicating { pending, entries }, ..c },
            RequestView::UnknownIds(entry_ids(entries)),
        ),
        ({
            let asked = CollectionView {
                stage: StageView::Deduplicating { pending, entries },
                ..c
            };
            let told = EventView::Unknown(unknown_of(known, entry_ids(entries)));
            let kept = fresh(known, entries);
            let storing = CollectionView {
                stage: StageView::Storing { pending, ids: entry_ids(kept) },
                ..c
            };
            &&& kept.len() == 0 ==> step_spec(asked, told) == resolve_next(c, pending)
            &&& kept.len() > 0 ==> step_spec(asked, told) == ProgressView::Next(
                storing,
                RequestView::InsertEntries { entries: kept, collection: c.id },
            )
            &&& step_spec(storing, EventView::EntriesInserted) == resolve_next(
                CollectionView { persisted: c.persisted + entry_ids(kept), ..c },
                pending,
            )
        }),
{
}

/// A collection without members asks for nothing more: when the first page
/// of its members declares no items and holds none, the synchronisation is
/// done, with nothing resolved and nothing stored beyond what was.
pub proof fn lemma_empty_collection(c: CollectionView)
    requires
        c.stage == StageView::Listing(start_of::<Word>(PAGE_SIZE as nat)),
    ensures
        step_spec(c, EventView::MembersPage { total: 0, items: Seq::empty() }) == ProgressView::Done(
            c.persisted,
        ),
{
    let members = Seq::<Word>::empty() + Seq::<Word>::empty();
    assert(member_ids(members) =~= Seq::<i32>::empty());
}

} // verus!
