//! What persistence knows, as far as the reconciliation depends on it: the
//! set of entry ids that are stored. The laws of deduplication are stated
//! over this model.

use crate::client::models::Meaning;
use crate::sync::entry_ids;
use crate::sync::select_new_spec;
use vstd::prelude::*;

verus! {

/// The answer that persistence owes to the question which of `candidates`
/// are not stored yet, when `known` is what it holds: the candidates that
/// are not in `known`, in their order.
pub open spec fn unknown_of(known: Set<i32>, candidates: Seq<i32>) -> Seq<i32> {
    candidates.filter(|id: i32| !known.contains(id))
}

/// The entries of one resolved batch that are handed on for storing when
/// persistence holds `known`.
pub open spec fn fresh(known: Set<i32>, entries: Seq<Meaning>) -> Seq<Meaning> {
    select_new_spec(entries, unknown_of(known, entry_ids(entries)))
}

/// What persistence holds once `entries` have been stored.
pub open spec fn learn(known: Set<i32>, entries: Seq<Meaning>) -> Set<i32> {
    known.union(entry_ids(entries).to_set())
}

/// One pass over resolved batches: what persistence holds in the end, and
/// what was handed on for storing, batch by batch.
pub struct PassView {
    pub known: Set<i32>,
    pub stored: Seq<Seq<Meaning>>,
}

/// A pass over `batches`, one after the other, each deduplicated against
/// what persistence holds when its turn comes.
pub open spec fn pass(known: Set<i32>, batches: Seq<Seq<Meaning>>) -> PassView
    decreases batches.len(),
{
    if batches.len() == 0 {
        PassView { known, stored: Seq::empty() }
    } else {
        let kept = fresh(known, batches.first());
        let rest = pass(learn(known, kept), batches.drop_first());
        PassView { known: rest.known, stored: seq![kept] + rest.stored }
    }
}

/// Two predicates that agree on every element of a list filter it alike.
pub proof fn lemma_filter_agree<A>(s: Seq<A>, p: spec_fn(A) -> bool, q: spec_fn(A) -> bool)
    requires
        forall|i: int| 0 <= i < s.len() ==> p(#[trigger] s[i]) == q(s[i]),
    ensures
        s.filter(p) == s.filter(q),
    decreases s.len(),
{
    reveal(Seq::filter);
    if s.len() > 0 {
        lemma_filter_agree(s.drop_last(), p, q);
    }
}

/// Deduplication keeps exactly the entries that persistence does not hold:
/// what is handed on for storing is the batch without the entries whose id
/// is known, in the order of the batch.
pub proof fn lemma_fresh_is_unknown(known: Set<i32>, entries: Seq<Meaning>)
    ensures
        fresh(known, entries) == entries.filter(|m: Meaning| !known.contains(m.id)),
{
    let ids = entry_ids(entries);
    let absent = |id: i32| !known.contains(id);
    let unknown = unknown_of(known, ids);
    let p = |m: Meaning| unknown.contains(m.id);
    let q = |m: Meaning| !known.contains(m.id);
    assert forall|i: int| 0 <= i < entries.len() implies p(#[trigger] entries[i]) == q(
        entries[i],
    ) by {
        let id = entries[i].id;
        assert(ids[i] == id);
        if q(entries[i]) {
            assert(absent(ids[i]));
            ids.lemma_filter_contains(absent, i);
        }
        if p(entries[i]) {
            let j = choose|j: int| 0 <= j < unknown.len() && unknown[j] == id;
            ids.lemma_filter_pred(absent, j);
        }
    }
    lemma_filter_agree(entries, p, q);
}

/// Nothing that is handed on for storing is known already, and everything
/// in the batch that is not known is handed on.
pub proof fn lemma_fresh_members(known: Set<i32>, entries: Seq<Meaning>)
    ensures
        forall|i: int|
            0 <= i < fresh(known, entries).len() ==> !known.contains(
                (#[trigger] fresh(known, entries)[i]).id,
            ) && entries.contains(fresh(known, entries)[i]),
        forall|i: int|
            0 <= i < entries.len() && !known.contains((#[trigger] entries[i]).id) ==> fresh(
                known,
                entries,
            ).contains(entries[i]),
{
    lemma_fresh_is_unknown(known, entries);
    let q = |m: Meaning| !known.contains(m.id);
    let kept = entries.filter(q);
    assert forall|i: int| 0 <= i < kept.len() implies !known.contains((#[trigger] kept[i]).id)
        && entries.contains(kept[i]) by {
        entries.lemma_filter_pred(q, i);
        assert(kept.contains(kept[i]));
        entries.lemma_filter_contains_rev(q, kept[i]);
    }
    assert forall|i: int|
        0 <= i < entries.len() && !known.contains((#[trigger] entries[i]).id) implies kept.contains(
        entries[i],
    ) by {
        assert(q(entries[i]));
        entries.lemma_filter_contains(q, i);
    }
}

/// Once the ids of a batch are all known, nothing of it is handed on.
pub proof fn lemma_fresh_of_known(known: Set<i32>, entries: Seq<Meaning>)
    requires
        forall|i: int| 0 <= i < entries.len() ==> known.contains((#[trigger] entries[i]).id),
    ensures
        fresh(known, entries).len() == 0,
{
    lemma_fresh_is_unknown(known, entries);
    let q = |m: Meaning| !known.contains(m.id);
    assert(entries.all(|m: Meaning| !q(m)));
    entries.lemma_all_neg_filter_empty(q);
}

/// After a batch has been deduplicated and its new entries stored, every id
/// of the batch is known, and nothing that was known is forgotten.
pub proof fn lemma_learn_covers(known: Set<i32>, entries: Seq<Meaning>)
    ensures
        known.subset_of(learn(known, fresh(known, entries))),
        forall|i: int|
            0 <= i < entries.len() ==> learn(known, fresh(known, entries)).contains(
                (#[trigger] entries[i]).id,
            ),
{
    let kept = fresh(known, entries);
    let after = learn(known, kept);
    lemma_fresh_members(known, entries);
    assert forall|i: int| 0 <= i < entries.len() implies after.contains(
        (#[trigger] entries[i]).id,
    ) by {
        if !known.contains(entries[i].id) {
            assert(kept.contains(entries[i]));
            let j = choose|j: int| 0 <= j < kept.len() && kept[j] == entries[i];
            assert(entry_ids(kept)[j] == entries[i].id);
            assert(entry_ids(kept).contains(entries[i].id));
        }
    }
}

/// Whether every id of every batch is in `known`.
pub open spec fn covers(known: Set<i32>, batches: Seq<Seq<Meaning>>) -> bool {
    forall|k: int, i: int|
        0 <= k < batches.len() && 0 <= i < batches[k].len() ==> known.contains(
            (#[trigger] batches[k][i]).id,
        )
}

/// A pass hands on one list per batch, forgets nothing that was known, and
/// leaves every id of every batch known.
pub proof fn lemma_pass_covers(known: Set<i32>, batches: Seq<Seq<Meaning>>)
    ensures
        pass(known, batches).stored.len() == batches.len(),
        known.subset_of(pass(known, batches).known),
        covers(pass(known, batches).known, batches),
    decreases batches.len(),
{
    if batches.len() > 0 {
        let kept = fresh(known, batches.first());
        let next = learn(known, kept);
        let rest = batches.drop_first();
        lemma_learn_covers(known, batches.first());
        lemma_pass_covers(next, rest);
        let end = pass(known, batches).known;
        assert forall|k: int, i: int|
            0 <= k < batches.len() && 0 <= i < batches[k].len() implies end.contains(
            (#[trigger] batches[k][i]).id,
        ) by {
            if k == 0 {
                assert(next.contains(batches.first()[i].id));
            } else {
                assert(batches[k] == rest[k - 1]);
                assert(end.contains(rest[k - 1][i].id));
            }
        }
    }
}

/// A pass over batches whose ids are all known hands nothing on and leaves
/// what is known as it was.
pub proof fn lemma_pass_of_known(known: Set<i32>, batches: Seq<Seq<Meaning>>)
    requires
        covers(known, batches),
    ensures
        pass(known, batches).known == known,
        pass(known, batches).stored.len() == batches.len(),
        forall|k: int| 0 <= k < batches.len() ==> (#[trigger] pass(known, batches).stored[k]).len() == 0,
    decreases batches.len(),
{
    if batches.len() > 0 {
        let first = batches.first();
        let rest = batches.drop_first();
        assert forall|i: int| 0 <= i < first.len() implies known.contains((#[trigger] first[i]).id) by {
            assert(first[i] == batches[0][i]);
        }
        lemma_fresh_of_known(known, first);
        let kept = fresh(known, first);
        assert(entry_ids(kept) =~= Seq::<i32>::empty());
        assert(learn(known, kept) =~= known);
        assert forall|k: int, i: int| 0 <= k < rest.len() && 0 <= i < rest[k].len() implies known.contains(
            (#[trigger] rest[k][i]).id,
        ) by {
            assert(rest[k][i] == batches[k + 1][i]);
        }
        lemma_pass_of_known(known, rest);
        let out = pass(known, batches).stored;
        assert forall|k: int| 0 <= k < batches.len() implies (#[trigger] out[k]).len() == 0 by {
            if k > 0 {
                assert(out[k] == pass(known, rest).stored[k - 1]);
            }
        }
    }
}

/// Synchronising twice stores nothing the second time: when the remote
/// account has not changed, so that a second pass resolves the same batches,
/// and persistence holds what the first pass left, the second pass hands no
/// entry on for storing and leaves persistence as it found it.
pub proof fn lemma_second_pass_stores_nothing(known: Set<i32>, batches: Seq<Seq<Meaning>>)
    ensures
        ({
            let first = pass(known, batches);
            let second = pass(first.known, batches);
            &&& second.known == first.known
            &&& second.stored.len() == batches.len()
            &&& forall|k: int| 0 <= k < batches.len() ==> (#[trigger] second.stored[k]).len() == 0
        }),
{
    lemma_pass_covers(known, batches);
    lemma_pass_of_known(pass(known, batches).known, batches);
}

} // verus!
