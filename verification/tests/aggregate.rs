use speedtest::aggregate::Aggregate;
use speedtest::aggregate::ShutdownFlag;
use speedtest::aggregate::TransferResult;

#[test]
fn totals_are_sums_in_any_order() {
    let results =
        [TransferResult::new(100, 5), TransferResult::new(2000, 7), TransferResult::new(30, 11)];

    let mut forward = Aggregate::new();
    for r in &results {
        forward.merge(r);
    }
    let mut backward = Aggregate::new();
    for r in results.iter().rev() {
        backward.merge(r);
    }

    assert_eq!(forward.total_bytes, 2130);
    assert_eq!(forward.total_elapsed_millis, 23);
    assert_eq!(forward.completed, 3);
    assert_eq!(forward, backward);
}

#[test]
fn failed_connection_contributes_zero_and_blocks_nothing() {
    let mut agg = Aggregate::new();
    agg.merge(&TransferResult::new(500, 10));
    agg.merge(&TransferResult::failed());
    agg.merge(&TransferResult::new(700, 20));

    assert_eq!(agg.total_bytes, 1200, "the failed connection adds exactly 0 bytes");
    assert_eq!(agg.total_elapsed_millis, 30);
    assert_eq!(agg.completed, 3, "every connection is still counted as completed");
}

#[test]
fn shutdown_flag_is_idempotent_and_never_clears() {
    let mut flag = ShutdownFlag::new();
    assert!(flag.accepting());
    flag.raise();
    assert!(!flag.accepting());
    flag.raise();
    assert!(!flag.accepting(), "a second raise is a no-op, not an error");
}
