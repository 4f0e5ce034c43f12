use linebench::channel::{run_aggregator, run_producer, run_worker, run_worker_and_report};
use linebench::count::count_in_line;
use linebench::lines::MemoryLineSource;
use linebench::pipeline::run_trial;

fn dataset(lines: &[&str]) -> Vec<String> {
    lines.iter().map(|l| l.to_string()).collect()
}

#[test]
fn scenario_target_never_appears() {
    // "line 0" .. "line 8": the character '9' never appears.
    let lines: Vec<String> = (0..9).map(|i| format!("line {}", i)).collect();
    for t in 1..=4 {
        let src = MemoryLineSource::from_lines(lines.clone());
        let out = run_trial(src, t, 1000, '9').unwrap();
        assert_eq!(out.aggregate, 0);
        assert_eq!(out.partials.len(), t);
        assert!(out.partials.iter().all(|&p| p == 0));
    }
}

#[test]
fn scenario_three_records_two_workers() {
    let src = MemoryLineSource::from_lines(dataset(&["99", "9", "x"]));
    let out = run_trial(src, 2, 1000, '9').unwrap();
    assert_eq!(out.aggregate, 3);
    assert_eq!(out.partials.len(), 2);
    assert_eq!(out.partials.iter().sum::<u64>(), 3);
}

#[test]
fn scenario_empty_dataset_completes_with_zero() {
    let src = MemoryLineSource::from_lines(Vec::new());
    let out = run_trial(src, 3, 1000, '9').unwrap();
    assert_eq!(out.aggregate, 0);
    assert_eq!(out.partials, vec![0, 0, 0]);
}

#[test]
fn one_partial_result_per_worker() {
    for t in 1..=4 {
        let src = MemoryLineSource::from_lines(dataset(&["9", "99", "999"]));
        let out = run_trial(src, t, 5, '9').unwrap();
        assert_eq!(out.partials.len(), t);
        assert_eq!(out.aggregate, 6);
    }
}

#[test]
fn queue_capacity_smaller_than_dataset_still_counts_all() {
    let lines: Vec<String> = (0..50).map(|i| format!("{}", i)).collect();
    let expected: u64 = lines.iter().map(|l| count_in_line(l, '9')).sum();
    let src = MemoryLineSource::from_lines(lines);
    let out = run_trial(src, 3, 4, '9').unwrap();
    assert_eq!(out.aggregate, expected);
}

#[test]
fn running_twice_yields_the_same_aggregate() {
    let lines = dataset(&["909", "nine 9", "", "99"]);
    let first = run_trial(MemoryLineSource::from_lines(lines.clone()), 2, 8, '9').unwrap();
    let second = run_trial(MemoryLineSource::from_lines(lines), 2, 8, '9').unwrap();
    assert_eq!(first.aggregate, second.aggregate);
}

#[test]
fn one_worker_and_one_per_core_agree() {
    let cores = num_cpus::get_physical().max(1);
    let lines: Vec<String> = (0..100).map(|i| format!("line {}", i)).collect();
    let solo = run_trial(MemoryLineSource::from_lines(lines.clone()), 1, 1000, '9').unwrap();
    let wide = run_trial(MemoryLineSource::from_lines(lines), cores, 1000, '9').unwrap();
    assert_eq!(solo.aggregate, wide.aggregate);
}

#[test]
fn producer_feeds_every_line_in_order() {
    let (tx, rx) = crossbeam_channel::bounded::<String>(1000);
    let r = run_producer(dataset(&["a9", "b", "c99"]), tx);
    assert_eq!(r, Ok(3));
    let got: Vec<String> = rx.iter().collect();
    assert_eq!(got, vec!["a9", "b", "c99"]);
}

#[test]
fn producer_reports_disconnected_workers() {
    let (tx, rx) = crossbeam_channel::bounded::<String>(10);
    drop(rx);
    let r = run_producer(dataset(&["a", "b"]), tx);
    assert_eq!(r, Err(0));
}

#[test]
fn worker_counts_what_the_channel_delivered() {
    let (tx, rx) = crossbeam_channel::bounded::<String>(10);
    let r = run_producer(dataset(&["9", "99", "x"]), tx);
    assert_eq!(r, Ok(3));
    assert_eq!(run_worker(&rx, '9'), 3);
}

#[test]
fn full_channel_pipeline_two_workers() {
    let (line_tx, line_rx) = crossbeam_channel::bounded::<String>(1000);
    let (result_tx, result_rx) = crossbeam_channel::bounded::<u64>(2);

    let r = run_producer(dataset(&["99", "9", "x"]), line_tx);
    assert_eq!(r, Ok(3));

    let first = run_worker_and_report(&line_rx, &result_tx, '9');
    let second = run_worker_and_report(&line_rx, &result_tx, '9');
    assert_eq!(first, Some(3));
    assert_eq!(second, Some(0));
    drop(result_tx);

    let report = run_aggregator(&result_rx);
    assert_eq!(report.results_received, 2);
    assert_eq!(report.total, 3);
}

#[test]
fn empty_dataset_through_channels() {
    let (line_tx, line_rx) = crossbeam_channel::bounded::<String>(1000);
    let (result_tx, result_rx) = crossbeam_channel::bounded::<u64>(3);

    let r = run_producer(Vec::new(), line_tx);
    assert_eq!(r, Ok(0));

    for _ in 0..3 {
        assert_eq!(run_worker_and_report(&line_rx, &result_tx, '9'), Some(0));
    }
    drop(result_tx);

    let report = run_aggregator(&result_rx);
    assert_eq!(report.results_received, 3);
    assert_eq!(report.total, 0);
}

#[test]
fn worker_reports_none_when_aggregator_is_gone() {
    let (line_tx, line_rx) = crossbeam_channel::bounded::<String>(10);
    drop(line_tx);
    let (result_tx, result_rx) = crossbeam_channel::bounded::<u64>(1);
    drop(result_rx);
    assert_eq!(run_worker_and_report(&line_rx, &result_tx, '9'), None);
}

#[test]
fn aggregator_saturates_instead_of_overflowing() {
    let (result_tx, result_rx) = crossbeam_channel::bounded::<u64>(2);
    result_tx.send(u64::MAX).unwrap();
    result_tx.send(5).unwrap();
    drop(result_tx);
    let report = run_aggregator(&result_rx);
    assert_eq!(report.results_received, 2);
    assert_eq!(report.total, u64::MAX);
}
