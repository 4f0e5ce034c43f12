//! A deterministic model of one full trial: a producer drains a line source
//! into the bounded queue until the queue is full or the source is exhausted,
//! workers drain the queue in turn, each counting the target character in the
//! lines it gets, and the partial results are aggregated by addition.

use vstd::prelude::*;
use crate::count::{
    count_in_line, lemma_count_lines_take_le, lemma_count_lines_take_step, lemma_element_le_sum,
    lemma_sum_all_zero, lemma_sum_update, spec_count_lines, spec_sum, sum_results_checked,
};
use crate::lines::MemoryLineSource;
use crate::queue::BoundedLineQueue;

verus! {

/// What one trial yields: one partial result per worker, and their sum.
pub struct TrialOutcome {
    pub partials: Vec<u64>,
    pub aggregate: u64,
}

/// Run one trial over a fresh line source with `workers` workers and a queue
/// of the given capacity. It succeeds exactly when the true count of
/// `target` over the whole dataset fits in a `u64` (a count is bounded by
/// the dataset's size in memory, so this fails only far beyond any real
/// dataset). On success: the aggregate equals that true count, whatever the
/// worker count; exactly one partial result per worker is produced; and the
/// partials sum to the aggregate.
pub fn run_trial(source: MemoryLineSource, workers: usize, capacity: usize, target: char) -> (r:
    Option<TrialOutcome>)
    requires
        workers >= 1,
        capacity >= 1,
        source.spec_pos() == 0,
    ensures
        r is Some <==> spec_count_lines(source.spec_records(), target) <= u64::MAX,
        r matches Some(out) ==> out.partials@.len() == workers as nat && spec_sum(out.partials@)
            == spec_count_lines(source.spec_records(), target) && out.aggregate as nat
            == spec_count_lines(source.spec_records(), target),
{
    let ghost all = source.spec_records();
    let mut src = source;
    let mut queue = BoundedLineQueue::new(capacity);
    let mut partials: Vec<u64> = vec![0u64; workers];
    proof {
        lemma_sum_all_zero(partials@);
        assert(all.take(0) =~= Seq::<Seq<char>>::empty());
    }
    let total: usize = src.num_lines();
    let mut done: usize = 0;
    let mut w: usize = 0;
    while done < total
        invariant
            all == source.spec_records(),
            src.spec_records() == all,
            total as nat == all.len(),
            src.spec_pos() == done as nat,
            done <= total,
            queue.view().len() == 0,
            queue.spec_capacity() == capacity as nat,
            capacity >= 1,
            workers >= 1,
            partials@.len() == workers as nat,
            w < workers,
            spec_sum(partials@) == spec_count_lines(all.take(done as int), target),
        decreases total - done,
    {
        let batch: usize = if total - done < capacity {
            total - done
        } else {
            capacity
        };
        let end: usize = done + batch;
        let mut j: usize = done;
        while j < end
            invariant
                src.spec_records() == all,
                total as nat == all.len(),
                src.spec_pos() == j as nat,
                done <= j <= end <= total,
                end - done <= capacity,
                queue.spec_capacity() == capacity as nat,
                queue.view() == all.subrange(done as int, j as int),
            decreases end - j,
        {
            let line = src.next().unwrap();
            proof {
                assert(queue.view().len() == j - done);
            }
            queue.push(line);
            proof {
                assert(queue.view() =~= all.subrange(done as int, j + 1));
            }
            j = j + 1;
        }
        let mut k: usize = done;
        while k < end
            invariant
                all == source.spec_records(),
                total as nat == all.len(),
                done <= k <= end <= total,
                queue.spec_capacity() == capacity as nat,
                queue.view() == all.subrange(k as int, end as int),
                partials@.len() == workers as nat,
                w < workers,
                workers >= 1,
                spec_sum(partials@) == spec_count_lines(all.take(k as int), target),
            decreases end - k,
        {
            proof {
                assert(queue.view().len() == end - k);
            }
            let line = queue.pop().unwrap();
            proof {
                assert(line@ == all[k as int]);
                assert(queue.view() =~= all.subrange(k + 1, end as int));
            }
            let c: u64 = count_in_line(line.as_str(), target);
            proof {
                lemma_count_lines_take_step(all, k as int, target);
                lemma_count_lines_take_le(all, k + 1, target);
                lemma_element_le_sum(partials@, w as int);
            }
            let cur: u64 = partials[w];
            let ghost pbefore = partials@;
            if cur <= u64::MAX - c {
                partials[w] = cur + c;
                proof {
                    lemma_sum_update(pbefore, w as int, (cur + c) as u64);
                }
            } else {
                proof {
                    assert(spec_count_lines(all, target) > u64::MAX);
                }
                return None;
            }
            w = w + 1;
            if w == workers {
                w = 0;
            }
            k = k + 1;
        }
        done = end;
    }
    proof {
        assert(all.take(total as int) =~= all);
    }
    match sum_results_checked(&partials) {
        Some(aggregate) => Some(TrialOutcome { partials, aggregate }),
        None => None,
    }
}

} // verus!
