use djbot::util::{format_duration_to_mm_ss, u64_to_dec_string};

#[test]
fn decimal_rendering() {
    assert_eq!(u64_to_dec_string(0), "0");
    assert_eq!(u64_to_dec_string(7), "7");
    assert_eq!(u64_to_dec_string(10), "10");
    assert_eq!(u64_to_dec_string(1234567890), "1234567890");
    assert_eq!(u64_to_dec_string(u64::MAX), "18446744073709551615");
}

#[test]
fn duration_formatting_pads_seconds() {
    assert_eq!(format_duration_to_mm_ss(0), "0:00");
    assert_eq!(format_duration_to_mm_ss(9), "0:09");
    assert_eq!(format_duration_to_mm_ss(59), "0:59");
    assert_eq!(format_duration_to_mm_ss(60), "1:00");
    assert_eq!(format_duration_to_mm_ss(125), "2:05");
    assert_eq!(format_duration_to_mm_ss(600), "10:00");
    assert_eq!(format_duration_to_mm_ss(3599), "59:59");
}

#[test]
fn duration_formatting_wraps_at_the_hour() {
    // Minutes are counted within the hour; whole hours wrap around.
    assert_eq!(format_duration_to_mm_ss(3600), "0:00");
    assert_eq!(format_duration_to_mm_ss(3725), "2:05");
}
