use speedtest::fmt_text::format_duration_hms;
use speedtest::fmt_text::format_number_milli;

#[test]
fn grouped_number_with_two_rounded_decimals() {
    // 1234567.890 thousandths: whole part grouped with dots, decimal
    // comma, thousandths rounded to two places.
    assert_eq!(format_number_milli(1_234_567_890), "1.234.567,89");
    assert_eq!(format_number_milli(1_234), "1,23");
    assert_eq!(format_number_milli(1_236), "1,24");
    assert_eq!(format_number_milli(1_005), "1,01");
    assert_eq!(format_number_milli(1_004), "1,00");
    assert_eq!(format_number_milli(25_000_000), "25.000");
}

#[test]
fn rounding_carries_into_the_whole_part() {
    assert_eq!(format_number_milli(1_996), "2,00");
    assert_eq!(format_number_milli(999_996), "1.000,00");
}

#[test]
fn whole_numbers_have_no_decimal_part() {
    assert_eq!(format_number_milli(0), "0");
    assert_eq!(format_number_milli(42_000), "42");
    assert_eq!(format_number_milli(1_000_000), "1.000");
}

#[test]
fn duration_is_zero_padded_hms() {
    assert_eq!(format_duration_hms(0), "00:00:00");
    assert_eq!(format_duration_hms(59), "00:00:59");
    assert_eq!(format_duration_hms(3_600 + 2 * 60 + 3), "01:02:03");
    assert_eq!(format_duration_hms(100 * 3_600 + 59 * 60 + 59), "100:59:59");
}
