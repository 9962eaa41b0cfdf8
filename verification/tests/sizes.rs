use speedtest::sizes::file_write_plan;
use speedtest::sizes::generate_test_sizes;
use speedtest::sizes::FILE_BUFFER_SIZE;

#[test]
fn test_generate_test_sizes() {
    let max_size = 100 * 1024 * 1024; // 100 MiB
    let sizes = generate_test_sizes(max_size);

    println!("sizes = {:#?}", sizes);

    assert!(!sizes.is_empty(), "Should generate at least one size");
    assert_eq!(*sizes.last().unwrap(), max_size, "Last size should be max_size");

    // All sizes except the last must be powers of two
    for &size in &sizes[..sizes.len() - 1] {
        assert!(size.is_power_of_two(), "Size {} is not power of two", size);
    }
}

#[test]
fn test_sizes_start_at_4_kib_and_double() {
    let sizes = generate_test_sizes(32 * 1024);
    assert_eq!(sizes, vec![4096, 8192, 16384, 32768]);
}

#[test]
fn test_sizes_power_of_two_max_not_repeated() {
    let sizes = generate_test_sizes(8192);
    assert_eq!(sizes, vec![4096, 8192]);
}

#[test]
fn test_sizes_non_power_max_appended() {
    let sizes = generate_test_sizes(10_000);
    assert_eq!(sizes, vec![4096, 8192, 10_000]);
}

#[test]
fn test_file_write_plan_splits_exactly() {
    let (chunks, rest) = file_write_plan(5 * FILE_BUFFER_SIZE + 123);
    assert_eq!(chunks, 5);
    assert_eq!(rest, 123);

    let (chunks, rest) = file_write_plan(2 * FILE_BUFFER_SIZE);
    assert_eq!(chunks, 2);
    assert_eq!(rest, 0);

    let (chunks, rest) = file_write_plan(17);
    assert_eq!(chunks, 0);
    assert_eq!(rest, 17);
}
