use linebench::count::{
    count_in_line, saturating_add_u64, sum_results_checked, sum_results_saturating,
};
use linebench::lines::{split_lines, MemoryLineSource};
use linebench::queue::{queue_within_capacity, BoundedLineQueue};

#[test]
fn count_counts_only_the_target() {
    assert_eq!(count_in_line("99x9", '9'), 3);
    assert_eq!(count_in_line("banana", 'a'), 3);
    assert_eq!(count_in_line("banana", 'z'), 0);
    assert_eq!(count_in_line("", '9'), 0);
}

#[test]
fn split_lines_trailing_newline() {
    assert_eq!(split_lines("a\nb\nc\n"), vec!["a", "b", "c"]);
}

#[test]
fn split_lines_no_trailing_newline() {
    assert_eq!(split_lines("a\nb"), vec!["a", "b"]);
}

#[test]
fn split_lines_empty_buffer_has_no_records() {
    assert_eq!(split_lines(""), Vec::<String>::new());
}

#[test]
fn split_lines_lone_newline_is_one_empty_record() {
    assert_eq!(split_lines("\n"), vec![""]);
}

#[test]
fn split_lines_keeps_empty_records_between_newlines() {
    assert_eq!(split_lines("a\n\nb\n"), vec!["a", "", "b"]);
}

#[test]
fn source_yields_in_order_then_exhausts() {
    let mut src = MemoryLineSource::from_text("l0\nl1\nl2\n");
    assert_eq!(src.num_lines(), 3);
    assert_eq!(src.next(), Some("l0".to_string()));
    assert_eq!(src.next(), Some("l1".to_string()));
    assert_eq!(src.next(), Some("l2".to_string()));
    assert_eq!(src.next(), None);
    assert_eq!(src.next(), None);
}

#[test]
fn source_from_lines_counts_known_dataset() {
    let lines: Vec<String> = (0..9).map(|i| format!("line {}", i)).collect();
    let src = MemoryLineSource::from_lines(lines);
    assert_eq!(src.num_lines(), 9);
}

#[test]
fn queue_is_fifo() {
    let mut q = BoundedLineQueue::new(3);
    q.push("first".to_string());
    q.push("second".to_string());
    assert_eq!(q.pop(), Some("first".to_string()));
    assert_eq!(q.pop(), Some("second".to_string()));
    assert_eq!(q.pop(), None);
}

#[test]
fn queue_reports_capacity_and_fullness() {
    let mut q = BoundedLineQueue::new(2);
    assert_eq!(q.capacity(), 2);
    assert!(q.is_empty());
    assert!(!q.is_full());
    q.push("a".to_string());
    q.push("b".to_string());
    assert!(q.is_full());
    assert_eq!(q.len(), 2);
    assert!(queue_within_capacity(&q));
    q.pop();
    assert!(!q.is_full());
    assert!(queue_within_capacity(&q));
}

#[test]
fn sums_are_exact_and_saturate_at_the_cap() {
    assert_eq!(sum_results_checked(&vec![2, 1, 0]), Some(3));
    assert_eq!(sum_results_checked(&vec![]), Some(0));
    assert_eq!(sum_results_checked(&vec![u64::MAX, 1]), None);
    assert_eq!(sum_results_saturating(&vec![u64::MAX, 5]), u64::MAX);
    assert_eq!(sum_results_saturating(&vec![7, 8]), 15);
    assert_eq!(saturating_add_u64(u64::MAX - 1, 3), u64::MAX);
    assert_eq!(saturating_add_u64(40, 2), 42);
}
