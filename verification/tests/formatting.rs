use procdash::format::{format_bytes, format_uptime, u64_to_string};

#[test]
fn decimal_rendering() {
    assert_eq!(u64_to_string(0), "0".to_string());
    assert_eq!(u64_to_string(7), "7".to_string());
    assert_eq!(u64_to_string(10), "10".to_string());
    assert_eq!(u64_to_string(12345), "12345".to_string());
    assert_eq!(u64_to_string(18446744073709551615), "18446744073709551615".to_string());
}

#[test]
fn bytes_below_one_kilobyte() {
    assert_eq!(format_bytes(0), "0.00 B".to_string());
    assert_eq!(format_bytes(1), "1.00 B".to_string());
    assert_eq!(format_bytes(1023), "1023.00 B".to_string());
}

#[test]
fn bytes_scale_through_the_units() {
    assert_eq!(format_bytes(1024), "1.00 KB".to_string());
    assert_eq!(format_bytes(1536), "1.50 KB".to_string());
    assert_eq!(format_bytes(1048576), "1.00 MB".to_string());
    assert_eq!(format_bytes(5 * 1048576 + 1048576 / 4), "5.25 MB".to_string());
    assert_eq!(format_bytes(1073741824), "1.00 GB".to_string());
    assert_eq!(format_bytes(1099511627776), "1.00 TB".to_string());
    assert_eq!(format_bytes(1099511627776 + 1099511627776 / 2), "1.50 TB".to_string());
}

#[test]
fn fractions_round_to_nearest_and_are_zero_padded() {
    // 1034/1024 = 1.0097...: rounds up to .01, zero-padded
    assert_eq!(format_bytes(1034), "1.01 KB".to_string());
    // 1106/1024 = 1.0800...: stays .08
    assert_eq!(format_bytes(1106), "1.08 KB".to_string());
    // 1535/1024 = 1.4990...: rounds up to 1.50, not truncated to 1.49
    assert_eq!(format_bytes(1535), "1.50 KB".to_string());
    // 1440/1024 = 1.40625: rounds up to 1.41
    assert_eq!(format_bytes(1440), "1.41 KB".to_string());
}

#[test]
fn exact_half_fractions_round_to_even() {
    // 1152/1024 = 1.125 exactly: ties go to the even hundredth
    assert_eq!(format_bytes(1152), "1.12 KB".to_string());
    // 1177.6 rounds normally: 1178*... no tie involved
    assert_eq!(format_bytes(1178), "1.15 KB".to_string());
}

#[test]
fn bytes_at_unit_boundaries_carry_into_the_whole_part() {
    // 1048575/1024 = 1023.999...: the rounded fraction carries over, and
    // the unit was chosen before rounding
    assert_eq!(format_bytes(1048575), "1024.00 KB".to_string());
    assert_eq!(format_bytes(1073741823), "1024.00 MB".to_string());
}

#[test]
fn uptime_minutes_only() {
    assert_eq!(format_uptime(0), "0m".to_string());
    assert_eq!(format_uptime(59), "0m".to_string());
    assert_eq!(format_uptime(60), "1m".to_string());
    assert_eq!(format_uptime(3599), "59m".to_string());
}

#[test]
fn uptime_with_hours_and_days() {
    assert_eq!(format_uptime(3600), "1h 0m".to_string());
    assert_eq!(format_uptime(3661), "1h 1m".to_string());
    assert_eq!(format_uptime(86399), "23h 59m".to_string());
    assert_eq!(format_uptime(86400), "1d 0h 0m".to_string());
    assert_eq!(format_uptime(90060), "1d 1h 1m".to_string());
    assert_eq!(format_uptime(10 * 86400 + 5 * 3600 + 30 * 60), "10d 5h 30m".to_string());
}
