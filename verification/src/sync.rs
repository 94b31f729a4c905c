//! Reconciling the remote account with what is stored: which entries to ask
//! for, in which groups, and which of them are new.

use crate::client::models::Meaning;
use crate::client::models::Word;
use crate::list::reversed;
use crate::sync::account::start_account_spec;
use crate::sync::account::AccountSync;
use crate::sync::account::Run;
use crate::sync::wordset::start_wordset_spec;
use crate::sync::wordset::WordsetSync;
use vstd::prelude::*;

pub mod account;
pub mod collection;
pub mod protocol;
pub mod report;
pub mod store;
pub mod whole;
pub mod wordset;
pub mod world;

verus! {

/// How many entries one resolution request asks for at most.
pub const BATCH_SIZE: usize = 30;

/// Names the collection to synchronise: by its id, or by the name under
/// which it was stored.
#[derive(Debug, Clone, PartialEq, Eq)]
pub enum IdOrName {
    Id(i32),
    Name(String),
}

/// Begins the synchronisation of every collection of the account: the
/// collections are listed, the default collection is added to them, and
/// each is synchronised in turn. The run goes on after a collection that
/// fails; its report says which did.
pub fn sync() -> (r: Run<AccountSync>)
    ensures
        r@ == start_account_spec(),
{
    AccountSync::start()
}

/// Begins the synchronisation of one collection. A failure of the
/// collection is the failure of the run.
pub fn sync_wordset(ws_id_or_name: IdOrName) -> (r: Run<WordsetSync>)
    ensures
        r@ == start_wordset_spec(ws_id_or_name),
{
    WordsetSync::start(ws_id_or_name)
}

/// The entry ids that a list of members points to, in order.
pub open spec fn member_ids(members: Seq<Word>) -> Seq<i32> {
    members.map_values(|w: Word| w.meaning_id)
}

/// The ids of a list of entries, in order.
pub open spec fn entry_ids(entries: Seq<Meaning>) -> Seq<i32> {
    entries.map_values(|m: Meaning| m.id)
}

/// `ids` cut into consecutive groups of `BATCH_SIZE`, the last one holding
/// what is left; no group is empty.
pub open spec fn batches_spec(ids: Seq<i32>) -> Seq<Seq<i32>>
    decreases ids.len(),
{
    if ids.len() == 0 {
        Seq::empty()
    } else if ids.len() <= BATCH_SIZE {
        seq![ids]
    } else {
        seq![ids.take(BATCH_SIZE as int)] + batches_spec(ids.skip(BATCH_SIZE as int))
    }
}

/// What a list of groups holds.
pub open spec fn groups_view(groups: Seq<Vec<i32>>) -> Seq<Seq<i32>> {
    Seq::new(groups.len(), |k: int| groups[k]@)
}

/// The entries of `entries` whose id occurs in `unknown`, in their order.
pub open spec fn select_new_spec(entries: Seq<Meaning>, unknown: Seq<i32>) -> Seq<Meaning> {
    entries.filter(|m: Meaning| unknown.contains(m.id))
}

/// Whether `id` occurs in `ids`.
pub fn contains_id(ids: &Vec<i32>, id: i32) -> (found: bool)
    ensures
        found == ids@.contains(id),
{
    let mut i: usize = 0;
    while i < ids.len()
        invariant
            i <= ids.len(),
            forall|j: int| 0 <= j < i ==> ids@[j] != id,
        decreases ids.len() - i,
    {
        if ids[i] == id {
            return true;
        }
        i += 1;
    }
    false
}

/// The ids of `entries`, in order: what persistence is asked about.
pub fn ids_of(entries: &Vec<Meaning>) -> (ids: Vec<i32>)
    ensures
        ids@ == entry_ids(entries@),
{
    let mut ids: Vec<i32> = Vec::new();
    let mut i: usize = 0;
    while i < entries.len()
        invariant
            i <= entries.len(),
            ids@ == entry_ids(entries@.take(i as int)),
        decreases entries.len() - i,
    {
        ids.push(entries[i].id);
        i += 1;
        assert(ids@ =~= entry_ids(entries@.take(i as int)));
    }
    assert(entries@.take(entries.len() as int) =~= entries@);
    ids
}

/// Cuts the members of a collection into the groups in which their entries
/// are resolved.
pub fn batches(members: &Vec<Word>) -> (groups: Vec<Vec<i32>>)
    ensures
        groups_view(groups@) == batches_spec(member_ids(members@)),
{
    let ghost ids = member_ids(members@);
    let mut groups: Vec<Vec<i32>> = Vec::new();
    let mut group: Vec<i32> = Vec::new();
    let mut i: usize = 0;
    while i < members.len()
        invariant
            i <= members.len(),
            ids == member_ids(members@),
            group.len() < BATCH_SIZE,
            group.len() <= i,
            (i - group.len()) % (BATCH_SIZE as int) == 0,
            group@ == ids.subrange(i - group.len(), i as int),
            groups.len() == batches_spec(ids.take(i - group.len())).len(),
            forall|k: int|
                0 <= k < groups.len() ==> (#[trigger] groups@[k])@ == batches_spec(
                    ids.take(i - group.len()),
                )[k],
        decreases members.len() - i,
    {
        group.push(members[i].meaning_id);
        i += 1;
        assert(group@ =~= ids.subrange(i - group.len(), i as int));
        if group.len() == BATCH_SIZE {
            proof {
                let done = ids.take(i - BATCH_SIZE);
                lemma_batches_push(done, group@);
                assert(done + group@ =~= ids.take(i as int));
            }
            groups.push(group);
            group = Vec::new();
            assert(group@ =~= ids.subrange(i as int, i as int));
        }
    }
    if group.len() > 0 {
        proof {
            let done = ids.take(i - group.len());
            lemma_batches_push(done, group@);
            assert(done + group@ =~= ids);
        }
        groups.push(group);
    } else {
        assert(ids.take(i as int) =~= ids);
    }
    assert(groups_view(groups@) =~= batches_spec(ids));
    groups
}

/// Keeps the entries whose id persistence reported as unknown, and drops
/// the others.
pub fn select_new(entries: Vec<Meaning>, unknown: &Vec<i32>) -> (kept: Vec<Meaning>)
    ensures
        kept@ == select_new_spec(entries@, unknown@),
{
    let ghost all = entries@;
    let ghost wanted = |m: Meaning| unknown@.contains(m.id);
    let mut kept: Vec<Meaning> = Vec::new();
    let mut rest = reversed(entries);
    assert(all.filter(wanted) == select_new_spec(all, unknown@));
    while rest.len() > 0
        invariant
            wanted == |m: Meaning| unknown@.contains(m.id),
            rest.len() <= all.len(),
            forall|j: int| 0 <= j < rest.len() ==> rest@[j] == all[all.len() - 1 - j],
            kept@ == all.take(all.len() - rest.len()).filter(wanted),
        decreases rest.len(),
    {
        let ghost n = all.len() - rest.len();
        let m = rest.pop().unwrap();
        proof {
            assert(m == all[n]);
            assert(all.take(n + 1).drop_last() =~= all.take(n));
            reveal(Seq::filter);
        }
        if contains_id(unknown, m.id) {
            kept.push(m);
        }
    }
    assert(all.take(all.len() as int) =~= all);
    kept
}

/// Cutting a list that ends in one more group, of one to `BATCH_SIZE` ids
/// after full groups, gives the groups of the list before it and then that
/// group.
proof fn lemma_batches_push(done: Seq<i32>, group: Seq<i32>)
    requires
        done.len() % (BATCH_SIZE as nat) == 0,
        1 <= group.len() <= BATCH_SIZE,
    ensures
        batches_spec(done + group) == batches_spec(done).push(group),
    decreases done.len(),
{
    if done.len() == 0 {
        assert(done + group =~= group);
        assert(batches_spec(done) =~= Seq::<Seq<i32>>::empty());
        assert(seq![group] =~= Seq::<Seq<i32>>::empty().push(group));
    } else {
        let size = BATCH_SIZE as int;
        assert(done.len() >= size);
        let all = done + group;
        assert(all.take(size) =~= done.take(size));
        assert(all.skip(size) =~= done.skip(size) + group);
        lemma_batches_push(done.skip(size), group);
        if done.len() == size {
            assert(done.take(size) =~= done);
            assert(done.skip(size).len() == 0);
            assert(batches_spec(done) =~= seq![done]);
            assert(batches_spec(done.skip(size)) =~= Seq::<Seq<i32>>::empty());
            assert(batches_spec(all) =~= seq![done].push(group));
        } else {
            assert(batches_spec(all) =~= (seq![done.take(size)] + batches_spec(
                done.skip(size),
            )).push(group));
        }
    }
}

/// How many groups a list of `n` ids is cut into: `n / BATCH_SIZE`, rounded
/// up.
pub open spec fn batch_count(n: nat) -> int {
    (n + BATCH_SIZE - 1) / (BATCH_SIZE as int)
}

/// The groups partition the list: there are `n / BATCH_SIZE` of them,
/// rounded up, and group `k` is the slice of the list that starts at
/// `k * BATCH_SIZE` and ends `BATCH_SIZE` ids later or where the list ends.
/// So every group but the last holds `BATCH_SIZE` ids, the last holds the
/// one to `BATCH_SIZE` that are left, and the groups in order make up the
/// list.
pub proof fn lemma_batches_partition(ids: Seq<i32>)
    ensures
        batches_spec(ids).len() == batch_count(ids.len()),
        forall|k: int|
            0 <= k < batches_spec(ids).len() ==> {
                let from = k * BATCH_SIZE;
                let to = if from + BATCH_SIZE < ids.len() {
                    from + BATCH_SIZE
                } else {
                    ids.len() as int
                };
                &&& from < ids.len()
                &&& #[trigger] batches_spec(ids)[k] == ids.subrange(from, to)
            },
        batches_spec(ids).flatten() == ids,
    decreases ids.len(),
{
    let size = BATCH_SIZE as int;
    let groups = batches_spec(ids);
    if ids.len() == 0 {
        assert(groups.flatten() =~= ids);
    } else if ids.len() <= BATCH_SIZE {
        assert(ids.subrange(0, ids.len() as int) =~= ids);
        assert(seq![ids].flatten() =~= ids) by {
            seq![ids].lemma_flatten_one_element();
            assert(seq![ids].first() == ids);
        }
    } else {
        let head = ids.take(size);
        let tail = ids.skip(size);
        lemma_batches_partition(tail);
        let rest = batches_spec(tail);
        assert(groups == seq![head] + rest);
        assert forall|k: int| 0 <= k < groups.len() implies {
            let from = k * BATCH_SIZE;
            let to = if from + BATCH_SIZE < ids.len() {
                from + BATCH_SIZE
            } else {
                ids.len() as int
            };
            &&& from < ids.len()
            &&& #[trigger] groups[k] == ids.subrange(from, to)
        } by {
            if k == 0 {
                assert(head =~= ids.subrange(0, size));
            } else {
                assert(groups[k] == rest[k - 1]);
                let from = (k - 1) * size;
                let to = if from + size < tail.len() {
                    from + size
                } else {
                    tail.len() as int
                };
                assert(tail.subrange(from, to) =~= ids.subrange(from + size, to + size));
            }
        }
        assert(groups.flatten() =~= ids) by {
            vstd::seq_lib::lemma_flatten_concat(seq![head], rest);
            seq![head].lemma_flatten_one_element();
            assert(seq![head].first() == head);
            assert(head + tail =~= ids);
        }
    }
}

} // verus!
