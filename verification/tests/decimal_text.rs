use jobpool::decimal::format_i64;

#[test]
fn zero_renders_as_zero() {
    assert_eq!(format_i64(0), "0");
}

#[test]
fn positive_numbers_render_all_digits() {
    assert_eq!(format_i64(7), "7");
    assert_eq!(format_i64(10), "10");
    assert_eq!(format_i64(1234567890), "1234567890");
    assert_eq!(format_i64(i64::MAX), "9223372036854775807");
}

#[test]
fn negative_numbers_render_with_sign() {
    assert_eq!(format_i64(-1), "-1");
    assert_eq!(format_i64(-987), "-987");
    assert_eq!(format_i64(i64::MIN), "-9223372036854775808");
}
