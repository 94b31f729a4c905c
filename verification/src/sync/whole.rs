//! The synchronisation of a whole account, run to its end against the
//! model of the remote account and of persistence, and the law that a
//! second run stores nothing.

use crate::client::models::Meaning;
use crate::client::models::Wordset;
use crate::error::Error;
use crate::pagination::advance_spec;
use crate::pagination::diverged;
use crate::pagination::drain_all;
use crate::pagination::drain_from;
use crate::pagination::max_calls;
use crate::pagination::request_of;
use crate::pagination::PagerView;
use crate::pagination::PagingView;
use crate::pagination::PAGE_SIZE;
use crate::sync::account::account_step_spec;
use crate::sync::account::merge_default_spec;
use crate::sync::account::next_collection;
use crate::sync::account::start_account_spec;
use crate::sync::account::AccountStageView;
use crate::sync::account::AccountView;
use crate::sync::account::RunView;
use crate::sync::collection::start_spec;
use crate::sync::collection::step_spec;
use crate::sync::collection::CollectionView;
use crate::sync::collection::ProgressView;
use crate::sync::protocol::RequestView;
use crate::sync::report::empty_report;
use crate::sync::report::with_failure;
use crate::sync::report::with_success;
use crate::sync::report::Failure;
use crate::sync::report::ReportView;
use crate::sync::store::fresh;
use crate::sync::store::learn;
use crate::sync::store::lemma_fresh_members;
use crate::sync::store::lemma_pass_covers;
use crate::sync::store::lemma_pass_of_known;
use crate::sync::store::pass;
use crate::sync::world::answer;
use crate::sync::world::collection_batches;
use crate::sync::world::collection_failure;
use crate::sync::world::lemma_run_collection;
use crate::sync::world::recorded;
use crate::sync::world::stored_ids;
use crate::sync::world::rank_major;
use crate::sync::world::rank_minor;
use crate::sync::world::rank_phase;
use crate::sync::world::run_collection;
use crate::sync::world::run_started;
use crate::sync::world::CollectionRun;
use crate::sync::world::Remote;
use crate::sync::world::Storage;
use vstd::prelude::*;
use vstd::seq_lib::seq_to_set_distributes_over_add;
use vstd::seq_lib::seq_to_set_is_finite;
use vstd::set_lib::lemma_set_disjoint_lens;

verus! {

/// How the synchronisation of an account ended: what persistence holds,
/// and the report, or the reason why there is none.
pub struct AccountRun {
    pub storage: Storage,
    pub outcome: Result<ReportView, Error>,
}

/// How far the synchronisation of an account is from its end: first the
/// listing, then the default collection, then the collections.
pub open spec fn account_phase(a: AccountView) -> int {
    match a.stage {
        AccountStageView::Listing(_) => 2,
        AccountStageView::AwaitingDefault { .. } => 1,
        AccountStageView::Running { .. } => 0,
    }
}

/// Whether the first page of collections is still to come, or how many
/// collections wait for their turn.
pub open spec fn account_major(a: AccountView) -> int {
    match a.stage {
        AccountStageView::Listing(pager) => if pager.calls == 0 {
            1
        } else {
            0
        },
        AccountStageView::AwaitingDefault { .. } => 0,
        AccountStageView::Running { remaining, .. } => remaining.len() as int,
    }
}

/// The pages of collections that may still be asked for, or the phase of
/// the collection in hand.
pub open spec fn account_minor(a: AccountView) -> int {
    match a.stage {
        AccountStageView::Listing(pager) => max_calls(pager.total, pager.page_size) - pager.calls,
        AccountStageView::AwaitingDefault { .. } => 0,
        AccountStageView::Running { current, .. } => rank_phase(current),
    }
}

/// The collection in hand, where there is one.
pub open spec fn in_hand(a: AccountView) -> Option<CollectionView> {
    match a.stage {
        AccountStageView::Running { current, .. } => Some(current),
        _ => None,
    }
}

/// The synchronisation of an account from the state `a` with `request`
/// pending, run to its end against `remote` and `storage`.
pub open spec fn run_account(
    remote: Remote,
    storage: Storage,
    a: AccountView,
    request: RequestView,
) -> AccountRun
    decreases account_phase(a), account_major(a), account_minor(a), match in_hand(a) {
            Some(c) => rank_major(c),
            None => 0,
        }, match in_hand(a) {
            Some(c) => rank_minor(c),
            None => 0,
        },
{
    let (event, after) = answer(remote, storage, request);
    match account_step_spec(a, event) {
        RunView::Next(next, pending) => run_account(remote, after, next, pending),
        RunView::Done(report) => AccountRun { storage: after, outcome: Ok(report) },
        RunView::Failed(reason) => AccountRun { storage: after, outcome: Err(reason) },
    }
}

/// The synchronisation of an account from its beginning, run to its end.
pub open spec fn run_sync(remote: Remote, storage: Storage) -> AccountRun {
    match start_account_spec() {
        RunView::Next(a, request) => run_account(remote, storage, a, request),
        RunView::Done(report) => AccountRun { storage, outcome: Ok(report) },
        RunView::Failed(reason) => AccountRun { storage, outcome: Err(reason) },
    }
}

/// The report after the collection `id` has had its run.
pub open spec fn noted(report: ReportView, id: i32, run: CollectionRun) -> ReportView {
    match run.failure {
        None => with_success(report, id, run.persisted),
        Some(reason) => with_failure(report, id, reason, run.persisted),
    }
}

/// What the collections `remaining` come to, one after the other, each
/// against what persistence holds when its turn comes.
pub open spec fn rest_outcome(
    remote: Remote,
    storage: Storage,
    report: ReportView,
    remaining: Seq<Wordset>,
) -> AccountRun
    decreases remaining.len(),
{
    if remaining.len() == 0 {
        AccountRun { storage, outcome: Ok(report) }
    } else {
        let first = remaining.first();
        let run = run_started(remote, storage, first.id, Some(first.title));
        rest_outcome(remote, run.storage, noted(report, first.id, run), remaining.drop_first())
    }
}

/// The run from the moment a collection is done.
pub open spec fn run_next_collection(
    remote: Remote,
    storage: Storage,
    report: ReportView,
    remaining: Seq<Wordset>,
) -> AccountRun {
    match next_collection(report, remaining) {
        RunView::Next(a, request) => run_account(remote, storage, a, request),
        RunView::Done(report) => AccountRun { storage, outcome: Ok(report) },
        RunView::Failed(reason) => AccountRun { storage, outcome: Err(reason) },
    }
}

/// While a collection is in hand, the run of the account is the run of
/// that collection, then a note in the report, then the collections that
/// wait.
proof fn lemma_run_in_hand(
    remote: Remote,
    storage: Storage,
    a: AccountView,
    current: CollectionView,
    remaining: Seq<Wordset>,
    request: RequestView,
)
    requires
        a.stage == (AccountStageView::Running { current, remaining }),
    ensures
        ({
            let run = run_collection(remote, storage, current, request);
            run_account(remote, storage, a, request) == rest_outcome(
                remote,
                run.storage,
                noted(a.report, current.id, run),
                remaining,
            )
        }),
    decreases remaining.len(), 1int, rank_phase(current), rank_major(current), rank_minor(current),
{
    let (event, after) = answer(remote, storage, request);
    match step_spec(current, event) {
        ProgressView::Next(next, pending) => {
            let onward = AccountView {
                report: a.report,
                stage: AccountStageView::Running { current: next, remaining },
            };
            assert(next.id == current.id);
            lemma_run_in_hand(remote, after, onward, next, remaining, pending);
        },
        ProgressView::Done(stored) => {
            lemma_run_rest(remote, after, with_success(a.report, current.id, stored), remaining);
        },
        ProgressView::Failed { reason, persisted } => {
            lemma_run_rest(
                remote,
                after,
                with_failure(a.report, current.id, reason, persisted),
                remaining,
            );
        },
    }
}

/// From the moment a collection is done, the run of the account is what
/// the collections that wait come to.
proof fn lemma_run_rest(
    remote: Remote,
    storage: Storage,
    report: ReportView,
    remaining: Seq<Wordset>,
)
    ensures
        run_next_collection(remote, storage, report, remaining) == rest_outcome(
            remote,
            storage,
            report,
            remaining,
        ),
    decreases remaining.len(), 0int, 0int, 0int, 0int,
{
    if remaining.len() > 0 {
        let first = remaining.first();
        match start_spec(first.id, Some(first.title)) {
            ProgressView::Next(current, request) => {
                let a = AccountView {
                    report,
                    stage: AccountStageView::Running { current, remaining: remaining.drop_first() },
                };
                assert(current.id == first.id);
                lemma_run_in_hand(remote, storage, a, current, remaining.drop_first(), request);
            },
            _ => {},
        }
    }
}

/// The collections of the account in the order in which they are taken:
/// the listed ones, then the default collection unless it is listed;
/// `None` where the drain of the list gives up.
pub open spec fn collections_of(remote: Remote) -> Option<Seq<Wordset>> {
    match drain_all(remote.collections, PAGE_SIZE as nat).outcome {
        None => None,
        Some(listed) => Some(merge_default_spec(listed, remote.default)),
    }
}

/// What the account comes to once its collections are known.
pub open spec fn listed_outcome(
    remote: Remote,
    storage: Storage,
    report: ReportView,
    listed: Option<Seq<Wordset>>,
) -> AccountRun {
    match listed {
        None => AccountRun { storage, outcome: Err(diverged()) },
        Some(listed) => rest_outcome(
            remote,
            storage,
            report,
            merge_default_spec(listed, remote.default),
        ),
    }
}

/// While the collections are listed, the run of the account is a drain of
/// the list, then the default collection, then the collections in turn.
proof fn lemma_run_account_listing(
    remote: Remote,
    storage: Storage,
    a: AccountView,
    pager: PagerView<Wordset>,
)
    requires
        a.stage == AccountStageView::Listing(pager),
    ensures
        run_account(remote, storage, a, RequestView::FetchCollections(request_of(pager)))
            == listed_outcome(
            remote,
            storage,
            a.report,
            drain_from(remote.collections, pager).outcome,
        ),
    decreases (if pager.calls == 0 { 1int } else { 0int }),
        max_calls(pager.total, pager.page_size) - pager.calls,
{
    let (total, items) = (remote.collections)(request_of(pager));
    match advance_spec(pager, total, items) {
        PagingView::More(next) => {
            let onward = AccountView { report: a.report, stage: AccountStageView::Listing(next) };
            lemma_run_account_listing(remote, storage, onward, next);
        },
        PagingView::Done(listed) => {
            let waiting = AccountView {
                report: a.report,
                stage: AccountStageView::AwaitingDefault { listed },
            };
            let all = merge_default_spec(listed, remote.default);
            assert(run_account(
                remote,
                storage,
                a,
                RequestView::FetchCollections(request_of(pager)),
            ) == run_account(remote, storage, waiting, RequestView::FetchDefault));
            assert(run_account(remote, storage, waiting, RequestView::FetchDefault)
                == run_next_collection(remote, storage, a.report, all));
            lemma_run_rest(remote, storage, a.report, all);
        },
        PagingView::Diverged => {},
    }
}

/// The synchronisation of an account takes its collections in turn: where
/// the list of collections can be drained, the run is what the listed
/// collections and the default collection come to, in that order; where it
/// cannot, the run fails and persistence is left as it was.
pub proof fn lemma_run_sync(remote: Remote, storage: Storage)
    ensures
        run_sync(remote, storage) == (match collections_of(remote) {
            None => AccountRun { storage, outcome: Err(diverged()) },
            Some(all) => rest_outcome(remote, storage, empty_report(), all),
        }),
{
    match start_account_spec() {
        RunView::Next(a, request) => {
            let pager = crate::pagination::start_of::<Wordset>(PAGE_SIZE as nat);
            lemma_run_account_listing(remote, storage, a, pager);
        },
        _ => {},
    }
}

/// The batches of entries that a synchronisation of the collections
/// resolves, collection after collection. This depends on the remote
/// account alone.
pub open spec fn account_batches(remote: Remote, collections: Seq<Wordset>) -> Seq<Seq<Meaning>>
    decreases collections.len(),
{
    if collections.len() == 0 {
        Seq::empty()
    } else {
        collection_batches(remote, collections.first().id) + account_batches(
            remote,
            collections.drop_first(),
        )
    }
}

/// The stored collections after each of `collections` was recorded in
/// turn.
pub open spec fn record_all(stored: Map<i32, String>, collections: Seq<Wordset>) -> Map<
    i32,
    String,
>
    decreases collections.len(),
{
    if collections.len() == 0 {
        stored
    } else {
        record_all(
            recorded(stored, collections.first().id, Some(collections.first().title)),
            collections.drop_first(),
        )
    }
}

/// A pass over two lists of batches, one after the other, is a pass over
/// the first and then a pass over the second against what the first left.
pub proof fn lemma_pass_concat(known: Set<i32>, a: Seq<Seq<Meaning>>, b: Seq<Seq<Meaning>>)
    ensures
        pass(known, a + b).known == pass(pass(known, a).known, b).known,
        pass(known, a + b).stored == pass(known, a).stored + pass(pass(known, a).known, b).stored,
    decreases a.len(),
{
    if a.len() == 0 {
        assert(a + b =~= b);
        assert(pass(known, a).stored + pass(known, b).stored =~= pass(known, b).stored);
    } else {
        let kept = fresh(known, a.first());
        let next = learn(known, kept);
        assert((a + b).first() == a.first());
        assert((a + b).drop_first() =~= a.drop_first() + b);
        lemma_pass_concat(next, a.drop_first(), b);
        let tail = pass(next, a.drop_first());
        assert(seq![kept] + (tail.stored + pass(tail.known, b).stored) =~= (seq![kept]
            + tail.stored) + pass(tail.known, b).stored);
    }
}

/// The ids of two lists of batches, one after the other.
pub proof fn lemma_stored_ids_concat(x: Seq<Seq<Meaning>>, y: Seq<Seq<Meaning>>)
    ensures
        stored_ids(x + y) == stored_ids(x) + stored_ids(y),
    decreases x.len(),
{
    if x.len() == 0 {
        assert(x + y =~= y);
        assert(stored_ids(x) + stored_ids(y) =~= stored_ids(y));
    } else {
        assert((x + y).first() == x.first());
        assert((x + y).drop_first() =~= x.drop_first() + y);
        lemma_stored_ids_concat(x.drop_first(), y);
        assert(entry_ids_of(x.first()) + (stored_ids(x.drop_first()) + stored_ids(y)) =~= (
        entry_ids_of(x.first()) + stored_ids(x.drop_first())) + stored_ids(y));
    }
}

/// The ids of the entries of one batch.
pub open spec fn entry_ids_of(batch: Seq<Meaning>) -> Seq<i32> {
    crate::sync::entry_ids(batch)
}

/// Batches without entries have no ids.
pub proof fn lemma_stored_ids_of_nothing(stored: Seq<Seq<Meaning>>)
    requires
        forall|k: int| 0 <= k < stored.len() ==> (#[trigger] stored[k]).len() == 0,
    ensures
        stored_ids(stored) == Seq::<i32>::empty(),
    decreases stored.len(),
{
    if stored.len() > 0 {
        assert(stored.first() == stored[0]);
        assert forall|k: int| 0 <= k < stored.drop_first().len() implies (
        #[trigger] stored.drop_first()[k]).len() == 0 by {
            assert(stored.drop_first()[k] == stored[k + 1]);
        }
        lemma_stored_ids_of_nothing(stored.drop_first());
        assert(entry_ids_of(stored.first()) =~= Seq::<i32>::empty());
        assert(stored_ids(stored) =~= Seq::<i32>::empty());
    }
}

/// The synchronisation of the collections is one pass over all their
/// batches: persistence ends up holding what that pass leaves, the report
/// gains the ids of exactly the entries that the pass stores, and each
/// collection is recorded once.
pub proof fn lemma_rest_is_a_pass(
    remote: Remote,
    storage: Storage,
    report: ReportView,
    remaining: Seq<Wordset>,
)
    ensures
        ({
            let run = rest_outcome(remote, storage, report, remaining);
            let end = pass(storage.entries, account_batches(remote, remaining));
            &&& run.storage.entries == end.known
            &&& run.storage.collections == record_all(storage.collections, remaining)
            &&& run.outcome is Ok
            &&& run.outcome->Ok_0.persisted == report.persisted + stored_ids(end.stored)
        }),
    decreases remaining.len(),
{
    if remaining.len() == 0 {
        let empty = Seq::<Seq<Meaning>>::empty();
        assert(stored_ids(pass(storage.entries, empty).stored) =~= Seq::<i32>::empty());
        assert(report.persisted + Seq::<i32>::empty() =~= report.persisted);
    } else {
        let first = remaining.first();
        let rest = remaining.drop_first();
        let own = collection_batches(remote, first.id);
        let others = account_batches(remote, rest);
        let run = crate::sync::world::run_started(remote, storage, first.id, Some(first.title));
        lemma_run_collection(remote, storage, first.id, Some(first.title));
        let after = noted(report, first.id, run);
        assert(after.persisted == report.persisted + run.persisted);
        lemma_rest_is_a_pass(remote, run.storage, after, rest);
        lemma_pass_concat(storage.entries, own, others);
        let head = pass(storage.entries, own);
        let tail = pass(head.known, others);
        lemma_stored_ids_concat(head.stored, tail.stored);
        assert((report.persisted + stored_ids(head.stored)) + stored_ids(tail.stored) =~= report.persisted
            + (stored_ids(head.stored) + stored_ids(tail.stored)));
    }
}

/// Recording collections forgets none that was stored and leaves every one
/// of them stored.
pub proof fn lemma_record_all_covers(stored: Map<i32, String>, collections: Seq<Wordset>)
    ensures
        forall|id: i32| stored.contains_key(id) ==> #[trigger] record_all(
            stored,
            collections,
        ).contains_key(id),
        forall|i: int|
            0 <= i < collections.len() ==> record_all(stored, collections).contains_key(
                (#[trigger] collections[i]).id,
            ),
    decreases collections.len(),
{
    if collections.len() > 0 {
        let first = collections.first();
        let rest = collections.drop_first();
        let next = recorded(stored, first.id, Some(first.title));
        let end = record_all(stored, collections);
        lemma_record_all_covers(next, rest);
        assert(end == record_all(next, rest));
        assert(next.contains_key(first.id));
        assert forall|id: i32| stored.contains_key(id) implies #[trigger] end.contains_key(id) by {
            assert(next.contains_key(id));
            assert(record_all(next, rest).contains_key(id));
        }
        assert forall|i: int| 0 <= i < collections.len() implies end.contains_key(
            (#[trigger] collections[i]).id,
        ) by {
            if i > 0 {
                assert(collections[i] == rest[i - 1]);
                assert(record_all(next, rest).contains_key(rest[i - 1].id));
            } else {
                assert(record_all(next, rest).contains_key(first.id));
            }
        }
    }
}

/// Recording collections that are all stored changes nothing.
pub proof fn lemma_record_all_of_stored(stored: Map<i32, String>, collections: Seq<Wordset>)
    requires
        forall|i: int| 0 <= i < collections.len() ==> stored.contains_key(
            (#[trigger] collections[i]).id,
        ),
    ensures
        record_all(stored, collections) == stored,
    decreases collections.len(),
{
    if collections.len() > 0 {
        assert(stored.contains_key(collections[0].id));
        assert forall|i: int| 0 <= i < collections.drop_first().len() implies stored.contains_key(
            (#[trigger] collections.drop_first()[i]).id,
        ) by {
            assert(collections.drop_first()[i] == collections[i + 1]);
        }
        lemma_record_all_of_stored(stored, collections.drop_first());
    }
}

/// Synchronising an account twice stores nothing the second time. Against
/// a remote account that has not changed, and a persistence that answers
/// truthfully and holds what the first run left, a second run leaves
/// persistence exactly as it found it, entries and collections alike, and
/// its report names no stored entry. A run that cannot list the
/// collections fails both times, and stores nothing either time.
pub proof fn lemma_second_sync_stores_nothing(remote: Remote, storage: Storage)
    ensures
        ({
            let first = run_sync(remote, storage);
            let second = run_sync(remote, first.storage);
            &&& second.storage == first.storage
            &&& match second.outcome {
                Ok(report) => first.outcome is Ok && report.persisted == Seq::<i32>::empty(),
                Err(reason) => first.outcome == Err::<ReportView, Error>(reason) && first.storage
                    == storage,
            }
        }),
{
    lemma_run_sync(remote, storage);
    let first = run_sync(remote, storage);
    lemma_run_sync(remote, first.storage);
    let second = run_sync(remote, first.storage);
    match collections_of(remote) {
        None => {},
        Some(all) => {
            let batches = account_batches(remote, all);
            lemma_rest_is_a_pass(remote, storage, empty_report(), all);
            lemma_rest_is_a_pass(remote, first.storage, empty_report(), all);
            lemma_pass_covers(storage.entries, batches);
            lemma_pass_of_known(first.storage.entries, batches);
            lemma_stored_ids_of_nothing(pass(first.storage.entries, batches).stored);
            lemma_record_all_covers(storage.collections, all);
            lemma_record_all_of_stored(first.storage.collections, all);
            assert(empty_report().persisted + Seq::<i32>::empty() =~= Seq::<i32>::empty());
        },
    }
}

/// Every collection has its turn, whatever happens to the others: the run
/// through the collections always ends with a report; the report gains one
/// note for each collection, and the note of a collection says that it
/// failed, and why, exactly if the remote account makes its
/// synchronisation stop.
pub proof fn lemma_every_collection_has_its_turn(
    remote: Remote,
    storage: Storage,
    report: ReportView,
    remaining: Seq<Wordset>,
)
    ensures
        ({
            let run = rest_outcome(remote, storage, report, remaining);
            &&& run.outcome is Ok
            &&& run.outcome->Ok_0.processed.len() + run.outcome->Ok_0.failed.len()
                == report.processed.len() + report.failed.len() + remaining.len()
            &&& forall|i: int|
                0 <= i < remaining.len() ==> match collection_failure(
                    remote,
                    (#[trigger] remaining[i]).id,
                ) {
                    None => run.outcome->Ok_0.processed.contains(remaining[i].id),
                    Some(reason) => run.outcome->Ok_0.failed.contains(
                        Failure { collection: remaining[i].id, reason },
                    ),
                }
            &&& forall|id: i32|
                report.processed.contains(id) ==> run.outcome->Ok_0.processed.contains(id)
            &&& forall|f: Failure| report.failed.contains(f) ==> run.outcome->Ok_0.failed.contains(f)
        }),
    decreases remaining.len(),
{
    if remaining.len() > 0 {
        let first = remaining.first();
        let rest = remaining.drop_first();
        let run = crate::sync::world::run_started(remote, storage, first.id, Some(first.title));
        lemma_run_collection(remote, storage, first.id, Some(first.title));
        let after = noted(report, first.id, run);
        lemma_every_collection_has_its_turn(remote, run.storage, after, rest);
        let end = rest_outcome(remote, storage, report, remaining).outcome->Ok_0;
        assert forall|id: i32| report.processed.contains(id) implies end.processed.contains(id) by {
            let k = choose|k: int| 0 <= k < report.processed.len() && report.processed[k] == id;
            if run.failure is None {
                assert(after.processed[k] == id);
            }
            assert(after.processed.contains(id));
        }
        assert forall|f: Failure| report.failed.contains(f) implies end.failed.contains(f) by {
            let k = choose|k: int| 0 <= k < report.failed.len() && report.failed[k] == f;
            if run.failure is Some {
                assert(after.failed[k] == f);
            }
            assert(after.failed.contains(f));
        }
        assert forall|i: int| 0 <= i < remaining.len() implies match collection_failure(
            remote,
            (#[trigger] remaining[i]).id,
        ) {
            None => end.processed.contains(remaining[i].id),
            Some(reason) => end.failed.contains(Failure { collection: remaining[i].id, reason }),
        } by {
            if i == 0 {
                match run.failure {
                    None => {
                        assert(after.processed[after.processed.len() - 1] == first.id);
                        assert(after.processed.contains(first.id));
                    },
                    Some(reason) => {
                        let f = Failure { collection: first.id, reason };
                        assert(after.failed[after.failed.len() - 1] == f);
                        assert(after.failed.contains(f));
                    },
                }
            } else {
                assert(remaining[i] == rest[i - 1]);
            }
        }
    }
}

/// A pass gains exactly what it stores: what persistence holds after a
/// pass is what it held before together with the ids of the entries that
/// the pass handed on for storing, and none of those ids was held before.
pub proof fn lemma_pass_gains_what_it_stores(known: Set<i32>, batches: Seq<Seq<Meaning>>)
    ensures
        ({
            let end = pass(known, batches);
            let ids = stored_ids(end.stored);
            &&& end.known == known.union(ids.to_set())
            &&& forall|i: int| 0 <= i < ids.len() ==> !known.contains(#[trigger] ids[i])
        }),
    decreases batches.len(),
{
    let end = pass(known, batches);
    let ids = stored_ids(end.stored);
    if batches.len() == 0 {
        assert(ids =~= Seq::<i32>::empty());
        assert(known.union(ids.to_set()) =~= known);
    } else {
        let kept = fresh(known, batches.first());
        let next = learn(known, kept);
        let rest = pass(next, batches.drop_first());
        let own = entry_ids_of(kept);
        let later = stored_ids(rest.stored);
        lemma_pass_gains_what_it_stores(next, batches.drop_first());
        lemma_fresh_members(known, batches.first());
        assert(end.stored.first() == kept);
        assert(end.stored.drop_first() =~= rest.stored);
        assert(ids == own + later);
        seq_to_set_distributes_over_add(own, later);
        assert(end.known =~= known.union(ids.to_set()));
        assert forall|i: int| 0 <= i < ids.len() implies !known.contains(#[trigger] ids[i]) by {
            if i < own.len() {
                assert(ids[i] == kept[i].id);
            } else {
                assert(ids[i] == later[i - own.len()]);
                assert(!next.contains(later[i - own.len()]));
            }
        }
    }
}

/// Where no id is stored twice, a pass makes persistence grow by as many
/// ids as it stores entries.
pub proof fn lemma_pass_grows_by_what_it_stores(known: Set<i32>, batches: Seq<Seq<Meaning>>)
    requires
        known.finite(),
        stored_ids(pass(known, batches).stored).no_duplicates(),
    ensures
        pass(known, batches).known.finite(),
        pass(known, batches).known.len() == known.len() + stored_ids(
            pass(known, batches).stored,
        ).len(),
{
    let ids = stored_ids(pass(known, batches).stored);
    lemma_pass_gains_what_it_stores(known, batches);
    ids.unique_seq_to_set();
    seq_to_set_is_finite(ids);
    assert(known.disjoint(ids.to_set())) by {
        assert forall|id: i32| known.contains(id) implies !ids.to_set().contains(id) by {
            if ids.to_set().contains(id) {
                let i = choose|i: int| 0 <= i < ids.len() && ids[i] == id;
                assert(!known.contains(ids[i]));
            }
        }
    }
    lemma_set_disjoint_lens(known, ids.to_set());
}

/// The report of a run names what persistence gained. A run that ends
/// with a report leaves persistence holding the entries that it held
/// before together with those that the report names as stored, none of
/// which it held before; where the report names no id twice, persistence
/// has grown by as many entries as the report names. A run that ends
/// without a report leaves persistence as it was.
pub proof fn lemma_report_names_what_was_gained(remote: Remote, storage: Storage)
    ensures
        match run_sync(remote, storage).outcome {
            Ok(report) => {
                let after = run_sync(remote, storage).storage.entries;
                &&& after == storage.entries.union(report.persisted.to_set())
                &&& forall|i: int|
                    0 <= i < report.persisted.len() ==> !storage.entries.contains(
                        #[trigger] report.persisted[i],
                    )
                &&& storage.entries.finite() && report.persisted.no_duplicates() ==> after.finite()
                    && after.len() == storage.entries.len() + report.persisted.len()
            },
            Err(_) => run_sync(remote, storage).storage == storage,
        },
{
    lemma_run_sync(remote, storage);
    match collections_of(remote) {
        None => {},
        Some(all) => {
            let batches = account_batches(remote, all);
            let ids = stored_ids(pass(storage.entries, batches).stored);
            lemma_rest_is_a_pass(remote, storage, empty_report(), all);
            assert(empty_report().persisted + ids =~= ids);
            lemma_pass_gains_what_it_stores(storage.entries, batches);
            if storage.entries.finite() && ids.no_duplicates() {
                lemma_pass_grows_by_what_it_stores(storage.entries, batches);
            }
        },
    }
}

} // verus!
