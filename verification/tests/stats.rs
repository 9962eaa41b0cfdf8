use speedtest::stats::calculate_statistics;
use speedtest::stats::StatsError;

#[test]
fn zero_duration_is_a_defined_error() {
    assert_eq!(calculate_statistics(0, 123_456), Err(StatsError::ZeroDuration));
    assert_eq!(calculate_statistics(0, 0), Err(StatsError::ZeroDuration));
}

#[test]
fn throughput_formula_exact_values() {
    // 10 seconds, 250 MB: 25 MB/s.
    let s = calculate_statistics(10_000, 250_000_000).unwrap();
    assert_eq!(s.mbytes_per_sec_milli, 25_000);
    assert_eq!(s.mbits_per_sec_milli, 200_000);
    assert_eq!(s.kbytes_per_sec_milli, 25_000_000);
    assert_eq!(s.kbits_per_sec_milli, 200_000_000);
    assert_eq!(s.gbytes_per_sec_milli, 25);
    assert_eq!(s.gbits_per_sec_milli, 200);
    assert_eq!(s.total_mbytes_milli, 250_000);
    assert_eq!(s.total_mbits_milli, 2_000_000);
    assert_eq!(s.total_gbytes_milli, 250);
    assert_eq!(s.total_gbits_milli, 2_000);
}

#[test]
fn fractional_figures_floor() {
    // 3 seconds, 1000 bytes: 333 thousandths of a KB/s.
    let s = calculate_statistics(3_000, 1_000).unwrap();
    assert_eq!(s.kbytes_per_sec_milli, 333);
    assert_eq!(s.mbytes_per_sec_milli, 0);
    assert_eq!(s.total_mbytes_milli, 1);
}

#[test]
fn unit_systems_are_consistent() {
    let s = calculate_statistics(7_321, 987_654_321).unwrap();
    assert_eq!(s.gbits_per_sec_milli, s.mbits_per_sec_milli / 1000);
    assert_eq!(s.gbytes_per_sec_milli, s.mbytes_per_sec_milli / 1000);
    assert_eq!(s.total_gbits_milli, s.total_mbits_milli / 1000);
    assert_eq!(s.total_gbytes_milli, s.total_mbytes_milli / 1000);
}

#[test]
fn throughput_round_trips_to_the_byte_count() {
    let bytes: u64 = 987_654_321;
    let millis: u64 = 7_321;
    let s = calculate_statistics(millis, bytes).unwrap();
    // mbytes_per_sec_milli * millis is MB/s x seconds x one million: bytes.
    let recovered = s.mbytes_per_sec_milli * millis;
    assert!(recovered <= bytes);
    assert!(bytes - recovered < millis);
}

#[test]
fn duration_breakdown() {
    let s = calculate_statistics(125_000, 1).unwrap();
    assert_eq!(s.minutes, 2);
    assert_eq!(s.seconds, 5);

    let s = calculate_statistics(59_999, 1).unwrap();
    assert_eq!(s.minutes, 0);
    assert_eq!(s.seconds, 59);
}
