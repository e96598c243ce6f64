use hwmon_pair::text::{extract_index, int_to_text, parse_i32, parse_usize, text_le};

#[test]
fn extract_index_reads_fan_input() {
    assert_eq!(extract_index("fan2_input", "fan", "_input"), Some("2".to_string()));
    assert_eq!(extract_index("fan12_input", "fan", "_input"), Some("12".to_string()));
}

#[test]
fn extract_index_rejects_non_digits() {
    assert_eq!(extract_index("pwm1_enable", "pwm", ""), None);
    assert_eq!(extract_index("fanX_input", "fan", "_input"), None);
    assert_eq!(extract_index("fan1_label", "fan", "_input"), None);
    assert_eq!(extract_index("temp1_input", "fan", "_input"), None);
}

#[test]
fn extract_index_needs_digits() {
    assert_eq!(extract_index("fan_input", "fan", "_input"), None);
    assert_eq!(extract_index("pwm", "pwm", ""), None);
    assert_eq!(extract_index("pwm3", "pwm", ""), Some("3".to_string()));
}

#[test]
fn extract_index_overlapping_prefix_and_suffix() {
    assert_eq!(extract_index("fan", "fan", "an"), None);
    assert_eq!(extract_index("", "", ""), None);
}

#[test]
fn parse_i32_follows_from_str() {
    assert_eq!(parse_i32("123"), Some(123));
    assert_eq!(parse_i32("-45"), Some(-45));
    assert_eq!(parse_i32("+7"), Some(7));
    assert_eq!(parse_i32(""), None);
    assert_eq!(parse_i32("-"), None);
    assert_eq!(parse_i32("12a"), None);
    assert_eq!(parse_i32("2147483647"), Some(i32::MAX));
    assert_eq!(parse_i32("2147483648"), None);
    assert_eq!(parse_i32("-2147483648"), Some(i32::MIN));
    assert_eq!(parse_i32("99999999999999999999"), None);
}

#[test]
fn parse_usize_follows_from_str() {
    assert_eq!(parse_usize("0"), Some(0));
    assert_eq!(parse_usize("+3"), Some(3));
    assert_eq!(parse_usize("-3"), None);
    assert_eq!(parse_usize("18446744073709551615"), Some(usize::MAX));
    assert_eq!(parse_usize("18446744073709551616"), None);
    assert_eq!(parse_usize("x"), None);
}

#[test]
fn int_to_text_writes_decimal() {
    assert_eq!(int_to_text(0), "0");
    assert_eq!(int_to_text(-5), "-5");
    assert_eq!(int_to_text(1234), "1234");
    assert_eq!(int_to_text(i64::MIN), "-9223372036854775808");
}

#[test]
fn text_le_is_lexicographic() {
    assert!(text_le("/a/hwmon10", "/a/hwmon2"));
    assert!(!text_le("/a/hwmon2", "/a/hwmon10"));
    assert!(text_le("ab", "abc"));
    assert!(text_le("ab", "ab"));
}
