//! What holds of a multi-threaded session, whatever the number of workers and
//! whatever the order in which they finish: every path is dealt out once, and
//! the results come out in input order.

use vstd::prelude::*;
use crate::img::StatusView;
use crate::threaded::{
    acceptable,
    batch,
    delivered,
    delivered_all,
    partitioned,
    unhashed,
    CompletionView,
    UnitView,
};

verus! {

/// Every unit of a batch carries an index that falls to the worker of the
/// batch, together with the path at that index.
pub open spec fn units_placed(units: Seq<UnitView>, paths: Seq<Seq<char>>, workers: int, w: int) -> bool {
    forall|k: int|
        0 <= k < units.len() ==> {
            let unit = #[trigger] units[k];
            0 <= unit.index < paths.len() && unit.index % workers == w && unit.path
                == paths[unit.index]
        }
}

/// The indices of a batch increase.
pub open spec fn units_ascend(units: Seq<UnitView>) -> bool {
    forall|k: int, l: int|
        0 <= k < l < units.len() ==> (#[trigger] units[k]).index < (#[trigger] units[l]).index
}

/// The batch holds a unit for the given index.
pub open spec fn holds_index(units: Seq<UnitView>, index: int) -> bool {
    exists|k: int| 0 <= k < units.len() && (#[trigger] units[k]).index == index
}

/// The batch of a worker, taken over the first `upto` paths, holds the units
/// that fall to it, each once, in input order.
pub proof fn lemma_batch(paths: Seq<Seq<char>>, workers: int, w: int, upto: nat)
    requires
        workers >= 1,
        0 <= w < workers,
        upto <= paths.len(),
    ensures
        units_placed(batch(paths, workers, w, upto), paths, workers, w),
        units_ascend(batch(paths, workers, w, upto)),
        forall|k: int|
            0 <= k < batch(paths, workers, w, upto).len() ==> (#[trigger] batch(
                paths,
                workers,
                w,
                upto,
            )[k]).index < upto,
        forall|i: int|
            0 <= i < upto && i % workers == w ==> #[trigger] holds_index(
                batch(paths, workers, w, upto),
                i,
            ),
    decreases upto,
{
    if upto > 0 {
        let before = batch(paths, workers, w, (upto - 1) as nat);
        let now = batch(paths, workers, w, upto);
        lemma_batch(paths, workers, w, (upto - 1) as nat);
        assert forall|i: int| 0 <= i < upto && i % workers == w implies #[trigger] holds_index(
            now,
            i,
        ) by {
            if i < upto - 1 {
                assert(holds_index(before, i));
                let k = choose|k: int| 0 <= k < before.len() && (#[trigger] before[k]).index == i;
                assert(now[k].index == i);
            } else {
                assert(now[now.len() - 1].index == i);
            }
        }
    }
}

/// However many workers there are, every path is dealt out exactly once:
/// the unit for the path at index `i` is in the batch of worker
/// `i % workers`, carries that path, and no other unit of any batch carries
/// that index.
pub proof fn lemma_every_path_dealt_once(paths: Seq<Seq<char>>, workers: int)
    requires
        workers >= 1,
    ensures
        partitioned(paths, workers).len() == workers,
        forall|w: int|
            0 <= w < workers ==> units_placed(
                #[trigger] partitioned(paths, workers)[w],
                paths,
                workers,
                w,
            ),
        forall|w: int| 0 <= w < workers ==> units_ascend(#[trigger] partitioned(paths, workers)[w]),
        forall|i: int|
            0 <= i < paths.len() ==> #[trigger] holds_index(
                partitioned(paths, workers)[i % workers],
                i,
            ),
{
    assert forall|w: int| 0 <= w < workers implies units_placed(
        #[trigger] partitioned(paths, workers)[w],
        paths,
        workers,
        w,
    ) && units_ascend(partitioned(paths, workers)[w]) by {
        lemma_batch(paths, workers, w, paths.len());
    }
    assert forall|i: int| 0 <= i < paths.len() implies #[trigger] holds_index(
        partitioned(paths, workers)[i % workers],
        i,
    ) by {
        lemma_batch(paths, workers, i % workers, paths.len());
    }
}

/// Delivering a completion keeps the number of statuses and the path of each.
pub proof fn lemma_delivered_keeps_paths(slots: Seq<StatusView>, completion: CompletionView)
    ensures
        delivered(slots, completion).len() == slots.len(),
        forall|i: int|
            0 <= i < slots.len() ==> (#[trigger] delivered(slots, completion)[i]).path()
                == slots[i].path(),
        forall|i: int|
            0 <= i < slots.len() && slots[i].settled() ==> #[trigger] delivered(
                slots,
                completion,
            )[i] == slots[i],
{
}

/// A completion for the given index is among the first `upto` deliveries.
pub open spec fn arrived(deliveries: Seq<CompletionView>, upto: int, index: int) -> bool {
    exists|k: int| 0 <= k < upto && (#[trigger] deliveries[k]).index == index
}

/// The deliveries bring, for every path, the outcome of that path, once.
pub open spec fn delivers_each_once(
    deliveries: Seq<CompletionView>,
    outcomes: Seq<StatusView>,
) -> bool {
    &&& forall|k: int|
        0 <= k < deliveries.len() ==> 0 <= (#[trigger] deliveries[k]).index < outcomes.len()
            && deliveries[k].status == outcomes[deliveries[k].index]
    &&& forall|k: int, l: int|
        0 <= k < l < deliveries.len() ==> (#[trigger] deliveries[k]).index != (
        #[trigger] deliveries[l]).index
    &&& forall|i: int| 0 <= i < outcomes.len() ==> #[trigger] arrived(
        deliveries,
        deliveries.len() as int,
        i,
    )
}

/// Each outcome is a settled status of the path at its index.
pub open spec fn outcomes_of(outcomes: Seq<StatusView>, paths: Seq<Seq<char>>) -> bool {
    &&& outcomes.len() == paths.len()
    &&& forall|i: int|
        0 <= i < paths.len() ==> (#[trigger] outcomes[i]).settled() && outcomes[i].path()
            == paths[i]
}

/// After the first `upto` deliveries, the paths whose completion has arrived
/// hold their outcome, and the others are unhashed.
proof fn lemma_delivered_prefix(
    paths: Seq<Seq<char>>,
    outcomes: Seq<StatusView>,
    deliveries: Seq<CompletionView>,
    upto: int,
)
    requires
        outcomes_of(outcomes, paths),
        delivers_each_once(deliveries, outcomes),
        0 <= upto <= deliveries.len(),
    ensures
        delivered_all(unhashed(paths), deliveries.take(upto)).len() == paths.len(),
        forall|i: int|
            0 <= i < paths.len() ==> #[trigger] delivered_all(
                unhashed(paths),
                deliveries.take(upto),
            )[i] == if arrived(deliveries, upto, i) {
                outcomes[i]
            } else {
                StatusView::Unhashed(paths[i])
            },
    decreases upto,
{
    if upto > 0 {
        let earlier = delivered_all(unhashed(paths), deliveries.take(upto - 1));
        let completion = deliveries[upto - 1];
        lemma_delivered_prefix(paths, outcomes, deliveries, upto - 1);
        assert(deliveries.take(upto).drop_last() == deliveries.take(upto - 1));
        assert(deliveries.take(upto).last() == completion);
        if arrived(deliveries, upto - 1, completion.index) {
            let k = choose|k: int|
                0 <= k < upto - 1 && (#[trigger] deliveries[k]).index == completion.index;
            assert(deliveries[k].index != deliveries[upto - 1].index);
        }
        assert(earlier[completion.index] == StatusView::Unhashed(paths[completion.index]));
        assert(acceptable(earlier, completion));
        let now = delivered(earlier, completion);
        assert forall|i: int| 0 <= i < paths.len() implies #[trigger] now[i] == if arrived(
            deliveries,
            upto,
            i,
        ) {
            outcomes[i]
        } else {
            StatusView::Unhashed(paths[i])
        } by {
            if i == completion.index {
                assert(deliveries[upto - 1].index == i);
            } else if arrived(deliveries, upto - 1, i) {
                let k = choose|k: int| 0 <= k < upto - 1 && (#[trigger] deliveries[k]).index == i;
                assert(deliveries[k].index == i);
            } else if arrived(deliveries, upto, i) {
                let k = choose|k: int| 0 <= k < upto && (#[trigger] deliveries[k]).index == i;
                assert(deliveries[k].index == i);
            }
        }
    }
}

/// Whatever the order in which the completions are delivered, and so
/// whatever the number of workers and the way the paths were dealt out to
/// them: once the outcome of every path has been delivered, once each, the
/// collector holds exactly the outcomes, in input order.
pub proof fn lemma_collected_in_input_order(
    paths: Seq<Seq<char>>,
    outcomes: Seq<StatusView>,
    deliveries: Seq<CompletionView>,
)
    requires
        outcomes_of(outcomes, paths),
        delivers_each_once(deliveries, outcomes),
    ensures
        delivered_all(unhashed(paths), deliveries) == outcomes,
{
    lemma_delivered_prefix(paths, outcomes, deliveries, deliveries.len() as int);
    assert(deliveries.take(deliveries.len() as int) == deliveries);
    assert(delivered_all(unhashed(paths), deliveries) =~= outcomes);
}

/// `u` is the place of a unit in batch `w`.
pub open spec fn is_unit(batches: Seq<Seq<UnitView>>, w: int, u: int) -> bool {
    0 <= w < batches.len() && 0 <= u < batches[w].len()
}

/// The deliveries are the completions of the units of the batches: each
/// delivery brings the outcome of a unit, the completion of every unit is
/// among them, and none comes twice.
pub open spec fn carries_out(
    deliveries: Seq<CompletionView>,
    batches: Seq<Seq<UnitView>>,
    outcomes: Seq<StatusView>,
) -> bool {
    &&& forall|k: int|
        0 <= k < deliveries.len() ==> deliveries[k].status == outcomes[(
        #[trigger] deliveries[k]).index] && exists|w: int, u: int| #[trigger]
            is_unit(batches, w, u) && batches[w][u].index == deliveries[k].index
    &&& forall|w: int, u: int| #[trigger]
        is_unit(batches, w, u) ==> arrived(
            deliveries,
            deliveries.len() as int,
            batches[w][u].index,
        )
    &&& forall|k: int, l: int|
        0 <= k < l < deliveries.len() ==> (#[trigger] deliveries[k]).index != (
        #[trigger] deliveries[l]).index
}

/// The results do not depend on the number of workers. Deal the paths out
/// to any number of workers, and to any other number; let every unit come to
/// the outcome of its path, and let the completions be delivered in any
/// order, in the one session and in the other. Both collectors then hold the
/// outcomes in input order, and so the same results.
pub proof fn lemma_same_results_for_any_workers(
    paths: Seq<Seq<char>>,
    outcomes: Seq<StatusView>,
    workers: int,
    deliveries: Seq<CompletionView>,
    other_workers: int,
    other_deliveries: Seq<CompletionView>,
)
    requires
        workers >= 1,
        other_workers >= 1,
        outcomes_of(outcomes, paths),
        carries_out(deliveries, partitioned(paths, workers), outcomes),
        carries_out(other_deliveries, partitioned(paths, other_workers), outcomes),
    ensures
        delivered_all(unhashed(paths), deliveries) == outcomes,
        delivered_all(unhashed(paths), other_deliveries) == outcomes,
        delivered_all(unhashed(paths), deliveries) == delivered_all(
            unhashed(paths),
            other_deliveries,
        ),
{
    lemma_carried_out_in_input_order(paths, outcomes, workers, deliveries);
    lemma_carried_out_in_input_order(paths, outcomes, other_workers, other_deliveries);
}

/// Once the completions of all the units of a partition have been
/// delivered, in any order, the collector holds the outcomes in input order.
pub proof fn lemma_carried_out_in_input_order(
    paths: Seq<Seq<char>>,
    outcomes: Seq<StatusView>,
    workers: int,
    deliveries: Seq<CompletionView>,
)
    requires
        workers >= 1,
        outcomes_of(outcomes, paths),
        carries_out(deliveries, partitioned(paths, workers), outcomes),
    ensures
        delivers_each_once(deliveries, outcomes),
        delivered_all(unhashed(paths), deliveries) == outcomes,
{
    let batches = partitioned(paths, workers);
    lemma_every_path_dealt_once(paths, workers);
    assert forall|k: int| 0 <= k < deliveries.len() implies 0 <= (#[trigger] deliveries[k]).index
        < outcomes.len() && deliveries[k].status == outcomes[deliveries[k].index] by {
        let (w, u) = choose|w: int, u: int| #[trigger]
            is_unit(batches, w, u) && batches[w][u].index == deliveries[k].index;
        assert(units_placed(batches[w], paths, workers, w));
        assert(0 <= batches[w][u].index < paths.len());
    }
    assert forall|i: int| 0 <= i < outcomes.len() implies #[trigger] arrived(
        deliveries,
        deliveries.len() as int,
        i,
    ) by {
        assert(holds_index(batches[i % workers], i));
        let u = choose|u: int|
            0 <= u < batches[i % workers].len() && (#[trigger] batches[i % workers][u]).index == i;
        assert(is_unit(batches, i % workers, u));
    }
    lemma_collected_in_input_order(paths, outcomes, deliveries);
}

} // verus!
