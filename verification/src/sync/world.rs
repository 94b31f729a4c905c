//! A synchronisation run to its end, as mathematics: a remote account that
//! answers the same request the same way, a storage that answers
//! truthfully, and the decisions of the library in between. The laws of the
//! whole run are stated over this model.

use crate::client::models::Meaning;
use crate::client::models::Word;
use crate::client::models::Wordset;
use crate::error::Error;
use crate::pagination::advance_spec;
use crate::pagination::diverged;
use crate::pagination::drain_all;
use crate::pagination::drain_from;
use crate::pagination::max_calls;
use crate::pagination::request_of;
use crate::pagination::start_of;
use crate::pagination::PagerView;
use crate::pagination::PagingView;
use crate::pagination::PAGE_SIZE;
use crate::pagination::Server;
use crate::sync::collection::start_spec;
use crate::sync::collection::step_spec;
use crate::sync::collection::CollectionView;
use crate::sync::collection::ProgressView;
use crate::sync::collection::StageView;
use crate::sync::protocol::EventView;
use crate::sync::protocol::RequestView;
use crate::sync::batches_spec;
use crate::sync::collection::resolve_next;
use crate::sync::entry_ids;
use crate::sync::member_ids;
use crate::sync::store::fresh;
use crate::sync::store::learn;
use crate::sync::store::pass;
use crate::sync::store::unknown_of;
use vstd::prelude::*;

verus! {

/// A remote account that does not change: what it answers depends on the
/// request alone.
pub struct Remote {
    /// The pages of the list of collections.
    pub collections: Server<Wordset>,
    /// The default collection.
    pub default: Wordset,
    /// The pages of the members of each collection.
    pub members: spec_fn(i32) -> Server<Word>,
    /// The entries of a group of ids, or why they cannot be had.
    pub resolve: spec_fn(Seq<i32>) -> Result<Seq<Meaning>, Error>,
}

/// What persistence holds: the stored collections with their names, and
/// the ids of the stored entries.
pub struct Storage {
    pub collections: Map<i32, String>,
    pub entries: Set<i32>,
}

/// The id under which persistence holds a collection of this name.
pub open spec fn id_by_name(storage: Storage, name: String) -> Option<i32> {
    if exists|id: i32| #[trigger]
        storage.collections.contains_key(id) && storage.collections[id] == name {
        Some(
            choose|id: i32| #[trigger]
                storage.collections.contains_key(id) && storage.collections[id] == name,
        )
    } else {
        None
    }
}

/// What comes of a request: the event that answers it, and what
/// persistence holds afterwards. The remote account answers from what it
/// is; persistence answers truthfully, stores what it is asked to store and
/// never gives a stored collection another name.
pub open spec fn answer(remote: Remote, storage: Storage, request: RequestView) -> (
    EventView,
    Storage,
) {
    match request {
        RequestView::CollectionIdByName(name) => (
            EventView::NameResolved(id_by_name(storage, name)),
            storage,
        ),
        RequestView::FetchCollections(page) => (
            EventView::CollectionsPage {
                total: (remote.collections)(page).0,
                items: (remote.collections)(page).1,
            },
            storage,
        ),
        RequestView::FetchDefault => (EventView::DefaultCollection(remote.default), storage),
        RequestView::CollectionExists(id) => (
            EventView::Exists(storage.collections.contains_key(id)),
            storage,
        ),
        RequestView::InsertCollection(id, name) => (
            EventView::CollectionInserted,
            Storage {
                collections: if storage.collections.contains_key(id) {
                    storage.collections
                } else {
                    storage.collections.insert(id, name)
                },
                entries: storage.entries,
            },
        ),
        RequestView::FetchMembers { collection, page } => (
            EventView::MembersPage {
                total: (remote.members)(collection)(page).0,
                items: (remote.members)(collection)(page).1,
            },
            storage,
        ),
        RequestView::Resolve(ids) => (
            match (remote.resolve)(ids) {
                Ok(entries) => EventView::Resolved(entries),
                Err(reason) => EventView::Failed(reason),
            },
            storage,
        ),
        RequestView::UnknownIds(ids) => (
            EventView::Unknown(unknown_of(storage.entries, ids)),
            storage,
        ),
        RequestView::InsertEntries { entries, collection } => (
            EventView::EntriesInserted,
            Storage { collections: storage.collections, entries: learn(storage.entries, entries) },
        ),
    }
}

/// How far the synchronisation of a collection is from its end, first part:
/// the steps before the members, the listing, the groups.
pub open spec fn rank_phase(c: CollectionView) -> int {
    match c.stage {
        StageView::Checking => 4,
        StageView::Recording => 3,
        StageView::Listing(_) => 2,
        _ => 1,
    }
}

/// Second part: whether the first page is still to come, or how many
/// groups are pending.
pub open spec fn rank_major(c: CollectionView) -> int {
    match c.stage {
        StageView::Listing(pager) => if pager.calls == 0 {
            1
        } else {
            0
        },
        StageView::Resolving { pending } => pending.len() as int,
        StageView::Deduplicating { pending, .. } => pending.len() as int,
        StageView::Storing { pending, .. } => pending.len() as int,
        _ => 0,
    }
}

/// Third part: the pages that may still be asked for, or the steps left
/// for the group in hand.
pub open spec fn rank_minor(c: CollectionView) -> int {
    match c.stage {
        StageView::Listing(pager) => max_calls(pager.total, pager.page_size) - pager.calls,
        StageView::Resolving { .. } => 2,
        StageView::Deduplicating { .. } => 1,
        _ => 0,
    }
}

/// How the synchronisation of a collection ended: what persistence holds,
/// the ids of the entries that were stored for the collection, and the
/// reason why it stopped, if it did.
pub struct CollectionRun {
    pub storage: Storage,
    pub persisted: Seq<i32>,
    pub failure: Option<Error>,
}

/// The synchronisation of a collection from the state `c` with `request`
/// pending, run to its end against `remote` and `storage`.
pub open spec fn run_collection(
    remote: Remote,
    storage: Storage,
    c: CollectionView,
    request: RequestView,
) -> CollectionRun
    decreases rank_phase(c), rank_major(c), rank_minor(c),
{
    let (event, after) = answer(remote, storage, request);
    match step_spec(c, event) {
        ProgressView::Next(next, pending) => run_collection(remote, after, next, pending),
        ProgressView::Done(persisted) => CollectionRun { storage: after, persisted, failure: None },
        ProgressView::Failed { reason, persisted } => CollectionRun {
            storage: after,
            persisted,
            failure: Some(reason),
        },
    }
}

/// The entries that the groups resolve to, group by group, up to the first
/// group that cannot be resolved.
pub open spec fn resolved_from(remote: Remote, groups: Seq<Seq<i32>>) -> Seq<Seq<Meaning>>
    decreases groups.len(),
{
    if groups.len() == 0 {
        Seq::empty()
    } else {
        match (remote.resolve)(groups.first()) {
            Err(_) => Seq::empty(),
            Ok(entries) => seq![entries] + resolved_from(remote, groups.drop_first()),
        }
    }
}

/// Why the first group that cannot be resolved cannot, if there is one.
pub open spec fn resolve_failure(remote: Remote, groups: Seq<Seq<i32>>) -> Option<Error>
    decreases groups.len(),
{
    if groups.len() == 0 {
        None
    } else {
        match (remote.resolve)(groups.first()) {
            Err(reason) => Some(reason),
            Ok(_) => resolve_failure(remote, groups.drop_first()),
        }
    }
}

/// The ids of the entries of a list of batches, in order.
pub open spec fn stored_ids(stored: Seq<Seq<Meaning>>) -> Seq<i32>
    decreases stored.len(),
{
    if stored.len() == 0 {
        Seq::empty()
    } else {
        entry_ids(stored.first()) + stored_ids(stored.drop_first())
    }
}

/// What the groups from `groups` on come to, when `storage` is what
/// persistence holds and `persisted` was stored for the collection before.
pub open spec fn groups_outcome(
    remote: Remote,
    storage: Storage,
    persisted: Seq<i32>,
    groups: Seq<Seq<i32>>,
) -> CollectionRun {
    let batches = resolved_from(remote, groups);
    let end = pass(storage.entries, batches);
    CollectionRun {
        storage: Storage { collections: storage.collections, entries: end.known },
        persisted: persisted + stored_ids(end.stored),
        failure: resolve_failure(remote, groups),
    }
}

/// The run through the groups is a pass: from the moment the first group
/// is to be resolved, the run resolves group after group until one fails,
/// stores of each batch what persistence does not hold at that moment, and
/// reports the ids of what it stored.
pub proof fn lemma_run_groups(
    remote: Remote,
    storage: Storage,
    c: CollectionView,
    groups: Seq<Seq<i32>>,
)
    requires
        groups.len() > 0,
        c.stage == (StageView::Resolving { pending: groups.drop_first() }),
    ensures
        run_collection(remote, storage, c, RequestView::Resolve(groups.first())) == groups_outcome(
            remote,
            storage,
            c.persisted,
            groups,
        ),
    decreases groups.len(),
{
    let pending = groups.drop_first();
    let known = storage.entries;
    let run = run_collection(remote, storage, c, RequestView::Resolve(groups.first()));
    let empty = Seq::<Seq<Meaning>>::empty();
    match (remote.resolve)(groups.first()) {
        Err(reason) => {
            assert(pass(known, empty).known == known);
            assert(stored_ids(pass(known, empty).stored) =~= Seq::<i32>::empty());
            assert(c.persisted + Seq::<i32>::empty() =~= c.persisted);
            assert(run.storage == storage);
        },
        Ok(entries) => {
            let rest = resolved_from(remote, pending);
            let batches = seq![entries] + rest;
            assert(batches.first() == entries);
            assert(batches.drop_first() =~= rest);
            let kept = fresh(known, entries);
            let after = Storage { collections: storage.collections, entries: learn(known, kept) };
            let noted = CollectionView { persisted: c.persisted + entry_ids(kept), ..c };
            // What the three steps of the group come to.
            assert(run == run_resolve_next(remote, after, noted, pending)) by {
                if entries.len() == 0 {
                    reveal(Seq::filter);
                    assert(kept =~= Seq::<Meaning>::empty());
                    assert(entry_ids(kept) =~= Seq::<i32>::empty());
                    assert(c.persisted + entry_ids(kept) =~= c.persisted);
                    assert(learn(known, kept) =~= known);
                    assert(after == storage);
                    assert(noted == c);
                } else {
                    let asked = CollectionView {
                        stage: StageView::Deduplicating { pending, entries },
                        ..c
                    };
                    let ask = RequestView::UnknownIds(entry_ids(entries));
                    assert(run == run_collection(remote, storage, asked, ask));
                    if kept.len() == 0 {
                        assert(entry_ids(kept) =~= Seq::<i32>::empty());
                        assert(c.persisted + entry_ids(kept) =~= c.persisted);
                        assert(learn(known, kept) =~= known);
                        assert(after == storage);
                        assert(noted == c);
                    } else {
                        let storing = CollectionView {
                            stage: StageView::Storing { pending, ids: entry_ids(kept) },
                            ..c
                        };
                        let store = RequestView::InsertEntries { entries: kept, collection: c.id };
                        assert(run_collection(remote, storage, asked, ask) == run_collection(
                            remote,
                            storage,
                            storing,
                            store,
                        ));
                    }
                }
            }
            // The groups that are left.
            if pending.len() == 0 {
                assert(rest =~= empty);
                assert(pass(learn(known, kept), empty).known == learn(known, kept));
                assert(stored_ids(empty) =~= Seq::<i32>::empty());
            } else {
                let next = CollectionView {
                    stage: StageView::Resolving { pending: pending.drop_first() },
                    ..noted
                };
                lemma_run_groups(remote, after, next, pending);
            }
            let end = pass(known, batches);
            let tail = pass(learn(known, kept), rest);
            assert(end.known == tail.known);
            assert(end.stored == seq![kept] + tail.stored);
            assert(end.stored.first() == kept);
            assert(end.stored.drop_first() =~= tail.stored);
            assert(stored_ids(end.stored) == entry_ids(kept) + stored_ids(tail.stored));
            assert(c.persisted + stored_ids(end.stored) =~= (c.persisted + entry_ids(kept))
                + stored_ids(tail.stored));
        },
    }
}

/// The run from the moment a group is done: the next group is resolved, or
/// the collection is done.
pub open spec fn run_resolve_next(
    remote: Remote,
    storage: Storage,
    c: CollectionView,
    pending: Seq<Seq<i32>>,
) -> CollectionRun {
    match resolve_next(c, pending) {
        ProgressView::Next(next, request) => run_collection(remote, storage, next, request),
        ProgressView::Done(persisted) => CollectionRun { storage, persisted, failure: None },
        ProgressView::Failed { reason, persisted } => CollectionRun {
            storage,
            persisted,
            failure: Some(reason),
        },
    }
}

/// What a collection comes to once its members are known.
pub open spec fn members_outcome(
    remote: Remote,
    storage: Storage,
    persisted: Seq<i32>,
    members: Option<Seq<Word>>,
) -> CollectionRun {
    match members {
        None => CollectionRun { storage, persisted, failure: Some(diverged()) },
        Some(members) => groups_outcome(
            remote,
            storage,
            persisted,
            batches_spec(member_ids(members)),
        ),
    }
}

/// The run through the listing is a drain: from the moment a page of
/// members is asked for, the run takes pages as the pager decides, fails
/// where the drain gives up, and goes through the groups of the members
/// that the drain returns.
pub proof fn lemma_run_listing(
    remote: Remote,
    storage: Storage,
    c: CollectionView,
    pager: PagerView<Word>,
)
    requires
        c.stage == StageView::Listing(pager),
    ensures
        run_collection(
            remote,
            storage,
            c,
            RequestView::FetchMembers { collection: c.id, page: request_of(pager) },
        ) == members_outcome(
            remote,
            storage,
            c.persisted,
            drain_from((remote.members)(c.id), pager).outcome,
        ),
    decreases (if pager.calls == 0 { 1int } else { 0int }),
        max_calls(pager.total, pager.page_size) - pager.calls,
{
    let server = (remote.members)(c.id);
    let (total, items) = server(request_of(pager));
    match advance_spec(pager, total, items) {
        PagingView::More(next) => {
            let onward = CollectionView { stage: StageView::Listing(next), ..c };
            lemma_run_listing(remote, storage, onward, next);
        },
        PagingView::Done(members) => {
            let groups = batches_spec(member_ids(members));
            lemma_after_listing(remote, storage, c, groups);
        },
        PagingView::Diverged => {},
    }
}

/// Once the members are cut into groups, the run goes through the groups.
proof fn lemma_after_listing(
    remote: Remote,
    storage: Storage,
    c: CollectionView,
    groups: Seq<Seq<i32>>,
)
    ensures
        run_resolve_next(remote, storage, c, groups) == groups_outcome(
            remote,
            storage,
            c.persisted,
            groups,
        ),
{
    if groups.len() == 0 {
        let empty = Seq::<Seq<Meaning>>::empty();
        assert(pass(storage.entries, empty).known == storage.entries);
        assert(stored_ids(pass(storage.entries, empty).stored) =~= Seq::<i32>::empty());
        assert(c.persisted + Seq::<i32>::empty() =~= c.persisted);
    } else {
        let next = CollectionView {
            stage: StageView::Resolving { pending: groups.drop_first() },
            ..c
        };
        lemma_run_groups(remote, storage, next, groups);
    }
}

/// The synchronisation of the collection `id` from its beginning, run to
/// its end.
pub open spec fn run_started(remote: Remote, storage: Storage, id: i32, title: Option<String>) -> CollectionRun {
    match start_spec(id, title) {
        ProgressView::Next(c, request) => run_collection(remote, storage, c, request),
        ProgressView::Done(persisted) => CollectionRun { storage, persisted, failure: None },
        ProgressView::Failed { reason, persisted } => CollectionRun {
            storage,
            persisted,
            failure: Some(reason),
        },
    }
}

/// The members of the collection `id`, as the drain of its pages returns
/// them; `None` where the drain gives up.
pub open spec fn members_of(remote: Remote, id: i32) -> Option<Seq<Word>> {
    drain_all((remote.members)(id), PAGE_SIZE as nat).outcome
}

/// The batches of entries that a synchronisation of the collection `id`
/// resolves, in order. This depends on the remote account alone.
pub open spec fn collection_batches(remote: Remote, id: i32) -> Seq<Seq<Meaning>> {
    match members_of(remote, id) {
        None => Seq::empty(),
        Some(members) => resolved_from(remote, batches_spec(member_ids(members))),
    }
}

/// Why a synchronisation of the collection `id` stops, if it does. This
/// depends on the remote account alone.
pub open spec fn collection_failure(remote: Remote, id: i32) -> Option<Error> {
    match members_of(remote, id) {
        None => Some(diverged()),
        Some(members) => resolve_failure(remote, batches_spec(member_ids(members))),
    }
}

/// The stored collections after the collection `id` was recorded under
/// `title`: it is added where a name is known and no collection of this id
/// is stored; a stored collection keeps its name.
pub open spec fn recorded(collections: Map<i32, String>, id: i32, title: Option<String>) -> Map<
    i32,
    String,
> {
    match title {
        Some(name) if !collections.contains_key(id) => collections.insert(id, name),
        _ => collections,
    }
}

/// The synchronisation of a collection is a pass over its batches: which
/// batches are resolved, and whether the run stops, is for the remote
/// account to say; of each batch exactly the entries are stored that
/// persistence does not hold when the batch has its turn; the ids reported
/// are those of the entries stored; and the collection is recorded once.
pub proof fn lemma_run_collection(remote: Remote, storage: Storage, id: i32, title: Option<String>)
    ensures
        ({
            let run = run_started(remote, storage, id, title);
            let end = pass(storage.entries, collection_batches(remote, id));
            &&& run.storage.collections == recorded(storage.collections, id, title)
            &&& run.storage.entries == end.known
            &&& run.persisted == stored_ids(end.stored)
            &&& run.failure == collection_failure(remote, id)
        }),
{
    let pager = start_of::<Word>(PAGE_SIZE as nat);
    let none = Seq::<i32>::empty();
    let begun = CollectionView { id, title, persisted: none, stage: StageView::Checking };
    let kept = Storage { collections: recorded(storage.collections, id, title), entries: storage.entries };
    let listing = CollectionView { stage: StageView::Listing(pager), ..begun };
    let unnamed = CollectionView { title: None, ..listing };
    let fetch = RequestView::FetchMembers { collection: id, page: request_of(pager) };
    lemma_run_listing(remote, kept, listing, pager);
    lemma_run_listing(remote, kept, unnamed, pager);
    let end = pass(storage.entries, collection_batches(remote, id));
    assert(none + stored_ids(end.stored) =~= stored_ids(end.stored));
    let run = run_started(remote, storage, id, title);
    match title {
        None => {
            assert(kept == storage);
            assert(run == run_collection(remote, storage, listing, fetch));
        },
        Some(name) => {
            let check = RequestView::CollectionExists(id);
            assert(run == run_collection(remote, storage, begun, check));
            if storage.collections.contains_key(id) {
                assert(kept == storage);
                assert(run == run_collection(remote, storage, listing, fetch));
            } else {
                let recording = CollectionView {
                    title: None,
                    stage: StageView::Recording,
                    ..begun
                };
                let record = RequestView::InsertCollection(id, name);
                assert(run == run_collection(remote, storage, recording, record));
                assert(run == run_collection(remote, kept, unnamed, fetch));
            }
        },
    }
}

} // verus!
