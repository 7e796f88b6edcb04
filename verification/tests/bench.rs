use laplace::bench::{fork_label, summarize, LatencyStats};

#[test]
fn statistics_of_a_benchmark() {
    assert_eq!(summarize(&vec![]), None);
    assert_eq!(
        summarize(&vec![30, 10, 20]),
        Some(LatencyStats { p50: 20, p99: 30, avg: 20, min: 10, max: 30, total: 60 })
    );
    assert_eq!(
        summarize(&vec![4, 1]),
        Some(LatencyStats { p50: 4, p99: 4, avg: 2, min: 1, max: 4, total: 5 })
    );
    let many: Vec<u64> = (0..1000).rev().collect();
    let s = summarize(&many).unwrap();
    assert_eq!((s.p50, s.p99, s.min, s.max, s.avg), (500, 990, 0, 999, 499));
}

#[test]
fn sums_do_not_overflow() {
    let s = summarize(&vec![u64::MAX, u64::MAX]).unwrap();
    assert_eq!(s.avg, u64::MAX);
    assert_eq!(s.total, 2 * (u64::MAX as u128));
}

#[test]
fn statistics_are_in_order() {
    let s = summarize(&vec![9, 2, 2, 7, 5, 100, 3]).unwrap();
    assert!(s.min <= s.p50 && s.p50 <= s.p99 && s.p99 <= s.max);
    assert!(s.min <= s.avg && s.avg <= s.max);
}

#[test]
fn labels_say_what_runs() {
    assert_eq!(fork_label(b""), "fork+run (empty)");
    assert_eq!(fork_label(b"1"), "fork+eval JS");
}
