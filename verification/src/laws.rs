//! Laws of the pipeline, stated over its mathematical model. Competing
//! consumers deliver each line to exactly one worker, in no fixed pattern;
//! the laws here say the aggregated result does not depend on that pattern,
//! on the worker count, or on the run.

use vstd::prelude::*;
use crate::count::{spec_count_char, spec_count_lines, spec_sum};

verus! {

/// The partial result of worker `w`: the target-character count over exactly
/// those lines of `records` that `assign` hands to `w`.
pub open spec fn worker_share(
    records: Seq<Seq<char>>,
    assign: Seq<int>,
    w: int,
    target: char,
) -> nat
    decreases records.len(),
{
    if records.len() == 0 || assign.len() == 0 {
        0
    } else {
        worker_share(records.drop_last(), assign.drop_last(), w, target) + if assign.last() == w {
            spec_count_char(records.last(), target)
        } else {
            0nat
        }
    }
}

/// The sum of the partial results of workers `0 .. t`.
pub open spec fn shares_total(
    records: Seq<Seq<char>>,
    assign: Seq<int>,
    t: int,
    target: char,
) -> nat
    decreases t,
{
    if t <= 0 {
        0
    } else {
        shares_total(records, assign, t - 1, target) + worker_share(records, assign, t - 1, target)
    }
}

proof fn lemma_shares_total_empty(records: Seq<Seq<char>>, assign: Seq<int>, t: int, target: char)
    requires
        records.len() == 0,
        t >= 0,
    ensures
        shares_total(records, assign, t, target) == 0,
    decreases t,
{
    if t > 0 {
        lemma_shares_total_empty(records, assign, t - 1, target);
    }
}

proof fn lemma_shares_total_step(records: Seq<Seq<char>>, assign: Seq<int>, t: int, target: char)
    requires
        records.len() >= 1,
        assign.len() == records.len(),
    ensures
        shares_total(records, assign, t, target) == shares_total(
            records.drop_last(),
            assign.drop_last(),
            t,
            target,
        ) + if 0 <= assign.last() < t {
            spec_count_char(records.last(), target)
        } else {
            0nat
        },
    decreases t,
{
    if t > 0 {
        lemma_shares_total_step(records, assign, t - 1, target);
    }
}

/// However the lines of a dataset are distributed over `t` workers, the
/// workers' partial results sum to the true count of the target character
/// over the whole dataset: the aggregate is invariant to the parallelism
/// degree and to the non-deterministic delivery pattern.
pub proof fn lemma_partial_results_cover_dataset(
    records: Seq<Seq<char>>,
    assign: Seq<int>,
    t: int,
    target: char,
)
    requires
        assign.len() == records.len(),
        t >= 1,
        forall|i: int| 0 <= i < records.len() ==> 0 <= #[trigger] assign[i] < t,
    ensures
        shares_total(records, assign, t, target) == spec_count_lines(records, target),
    decreases records.len(),
{
    if records.len() == 0 {
        lemma_shares_total_empty(records, assign, t, target);
    } else {
        lemma_shares_total_step(records, assign, t, target);
        let r2 = records.drop_last();
        let a2 = assign.drop_last();
        assert forall|i: int| 0 <= i < r2.len() implies 0 <= #[trigger] a2[i] < t by {
            assert(a2[i] == assign[i]);
        }
        assert(0 <= assign.last() < t);
        lemma_partial_results_cover_dataset(r2, a2, t, target);
    }
}

proof fn lemma_sum_matches_shares(
    records: Seq<Seq<char>>,
    assign: Seq<int>,
    partials: Seq<u64>,
    target: char,
)
    requires
        forall|w: int|
            0 <= w < partials.len() ==> #[trigger] partials[w] as nat == worker_share(
                records,
                assign,
                w,
                target,
            ),
    ensures
        spec_sum(partials) == shares_total(records, assign, partials.len() as int, target),
    decreases partials.len(),
{
    if partials.len() > 0 {
        let rest = partials.drop_last();
        assert forall|w: int| 0 <= w < rest.len() implies #[trigger] rest[w] as nat == worker_share(
            records,
            assign,
            w,
            target,
        ) by {
            assert(rest[w] == partials[w]);
        }
        lemma_sum_matches_shares(records, assign, rest, target);
        assert(partials.last() as nat == worker_share(
            records,
            assign,
            partials.len() - 1,
            target,
        ));
    }
}

/// One partial result per worker, each the count over exactly the lines that
/// worker received: then the partial results sum to the true count of the
/// target character over the whole dataset, whatever the worker count and
/// whatever the delivery pattern.
pub proof fn lemma_partials_sum_to_dataset_count(
    records: Seq<Seq<char>>,
    assign: Seq<int>,
    partials: Seq<u64>,
    target: char,
)
    requires
        assign.len() == records.len(),
        partials.len() >= 1,
        forall|i: int| 0 <= i < records.len() ==> 0 <= #[trigger] assign[i] < partials.len(),
        forall|w: int|
            0 <= w < partials.len() ==> #[trigger] partials[w] as nat == worker_share(
                records,
                assign,
                w,
                target,
            ),
    ensures
        spec_sum(partials) == spec_count_lines(records, target),
{
    lemma_sum_matches_shares(records, assign, partials, target);
    lemma_partial_results_cover_dataset(records, assign, partials.len() as int, target);
}

/// Idempotence: two full runs of the pipeline over the same static dataset
/// aggregate to the same value, since each run's aggregate is pinned to the
/// dataset's own count of the target character.
pub proof fn lemma_trial_idempotent(
    records: Seq<Seq<char>>,
    target: char,
    first_run: nat,
    second_run: nat,
)
    requires
        first_run == spec_count_lines(records, target),
        second_run == spec_count_lines(records, target),
    ensures
        first_run == second_run,
{
}

/// The worker count is immaterial: trials with any two worker counts, one
/// worker or one per physical core alike, aggregate to the same value over
/// the same dataset.
pub proof fn lemma_worker_count_immaterial(
    records: Seq<Seq<char>>,
    target: char,
    t1: int,
    t2: int,
    agg1: nat,
    agg2: nat,
)
    requires
        t1 >= 1,
        t2 >= 1,
        agg1 == spec_count_lines(records, target),
        agg2 == spec_count_lines(records, target),
    ensures
        agg1 == agg2,
{
}

} // verus!
