//! The concurrent sides of the pipeline, built on crossbeam's bounded
//! channels: the producer that feeds lines in, the worker that drains lines
//! and counts, and the aggregator that drains partial results and sums them.
//! What a shared channel hands back depends on the other threads, so the
//! wrappers promise nothing of the delivered items; all counting and summing
//! is done by verified functions over whatever was delivered.

use vstd::prelude::*;
use crate::count::{
    capped, count_in_line, lemma_count_lines_take_step, line_views, spec_count_lines, spec_sum,
    saturating_add_u64, sum_results_saturating,
};

verus! {

/// The sending half of a crossbeam channel, opaque to verification.
#[verifier::external_type_specification]
#[verifier::external_body]
#[verifier::reject_recursive_types(T)]
pub struct ExSender<T>(crossbeam_channel::Sender<T>);

/// The receiving half of a crossbeam channel, opaque to verification.
#[verifier::external_type_specification]
#[verifier::external_body]
#[verifier::reject_recursive_types(T)]
pub struct ExReceiver<T>(crossbeam_channel::Receiver<T>);

/// Relies on crossbeam_channel::Sender::send: blocks while the bounded
/// channel is full, delivers the message to the channel, and returns the
/// message back exactly when every receiver has been dropped.
#[verifier::external_body]
fn chan_send<T>(tx: &crossbeam_channel::Sender<T>, value: T) -> (r: Result<(), T>)
    ensures
        r matches Err(v) ==> v == value,
{
    match tx.send(value) {
        Ok(()) => Ok(()),
        Err(crossbeam_channel::SendError(v)) => Err(v),
    }
}

/// Relies on crossbeam_channel::Receiver::iter: blocks on each step until a
/// message arrives, and ends once the channel is empty and every sender has
/// been dropped. Which messages this competing consumer gets depends on the
/// other threads, so nothing is promised of the collected items; and the
/// drain ends only when the senders hang up, a termination bound that no
/// loop of this crate could state, so the whole drain stands behind the one
/// call.
#[verifier::external_body]
fn recv_all<T>(rx: &crossbeam_channel::Receiver<T>) -> (items: Vec<T>) {
    rx.iter().collect()
}

/// Count the target character over a batch of delivered lines, clamping the
/// total at `u64::MAX`.
pub fn count_lines_saturating(lines: &Vec<String>, target: char) -> (total: u64)
    ensures
        total as nat == capped(spec_count_lines(line_views(lines@), target)),
{
    let ghost all = line_views(lines@);
    let mut total: u64 = 0;
    let mut i: usize = 0;
    proof {
        assert(all.take(0) =~= Seq::<Seq<char>>::empty());
    }
    while i < lines.len()
        invariant
            i <= lines@.len(),
            all == line_views(lines@),
            all.len() == lines@.len(),
            total as nat == capped(spec_count_lines(all.take(i as int), target)),
        decreases lines@.len() - i,
    {
        let c: u64 = count_in_line(lines[i].as_str(), target);
        proof {
            lemma_count_lines_take_step(all, i as int, target);
        }
        total = saturating_add_u64(total, c);
        i = i + 1;
    }
    proof {
        assert(all.take(lines@.len() as int) =~= all);
    }
    total
}

/// The producer: feed every line, in order, into the sending half of the
/// bounded line channel, then drop the sender so workers see end-of-input.
/// `Ok(n)` reports that all `n` lines were fed; `Err(n)` reports that the
/// workers disconnected early, after `n` lines.
pub fn run_producer(lines: Vec<String>, tx: crossbeam_channel::Sender<String>) -> (r: Result<
    usize,
    usize,
>)
    ensures
        r matches Ok(n) ==> n == lines@.len(),
        r matches Err(n) ==> n < lines@.len(),
{
    let mut i: usize = 0;
    while i < lines.len()
        invariant
            i <= lines@.len(),
        decreases lines@.len() - i,
    {
        match chan_send(&tx, lines[i].clone()) {
            Ok(()) => {
                i = i + 1;
            },
            Err(_) => {
                return Err(i);
            },
        }
    }
    Ok(i)
}

/// A worker: drain the shared line channel until the producer is done and
/// the channel is empty, and return the target-character count over exactly
/// the lines this worker received, clamped at `u64::MAX`.
pub fn run_worker(rx: &crossbeam_channel::Receiver<String>, target: char) -> (count: u64)
    ensures
        exists|received: Seq<Seq<char>>|
            count as nat == capped(spec_count_lines(received, target)),
{
    let lines = recv_all(rx);
    let count = count_lines_saturating(&lines, target);
    proof {
        let received = line_views(lines@);
        assert(count as nat == capped(spec_count_lines(received, target)));
    }
    count
}

/// A worker that also reports: compute the partial result, then send it once
/// on the result channel. `Some` carries the partial result that was
/// delivered; `None` reports that the aggregator disconnected early.
pub fn run_worker_and_report(
    rx: &crossbeam_channel::Receiver<String>,
    results: &crossbeam_channel::Sender<u64>,
    target: char,
) -> (r: Option<u64>)
    ensures
        r matches Some(count) ==> exists|received: Seq<Seq<char>>|
            count as nat == capped(spec_count_lines(received, target)),
{
    let count = run_worker(rx, target);
    match chan_send(results, count) {
        Ok(()) => Some(count),
        Err(_) => None,
    }
}

/// What the aggregator saw: how many partial results arrived, and their sum
/// clamped at `u64::MAX`.
pub struct AggregateReport {
    pub results_received: usize,
    pub total: u64,
}

/// The aggregator: drain the result channel until every worker has reported
/// and dropped its sender, and sum the partial results.
pub fn run_aggregator(rx: &crossbeam_channel::Receiver<u64>) -> (report: AggregateReport)
    ensures
        exists|results: Seq<u64>|
            report.results_received as nat == results.len() && report.total as nat == capped(
                spec_sum(results),
            ),
{
    let results = recv_all(rx);
    let total = sum_results_saturating(&results);
    let report = AggregateReport { results_received: results.len(), total };
    proof {
        let rs = results@;
        assert(report.results_received as nat == rs.len() && report.total as nat == capped(
            spec_sum(rs),
        ));
    }
    report
}

} // verus!
