use sensor_monitor::text::{format_i32, parse_i32};

fn fmt(v: i32) -> String {
    String::from_utf8(format_i32(v)).unwrap()
}

#[test]
fn format_i32_matches_display() {
    for v in [0, 7, 42, -7, 1000, -1000, i32::MAX, i32::MIN, 123456789] {
        assert_eq!(fmt(v), v.to_string());
    }
}

#[test]
fn parse_i32_matches_from_str() {
    let cases = [
        "", "+", "-", "0", "-0", "+5", "007", "12a", "a12", " 1", "2147483647", "2147483648",
        "-2147483648", "-2147483649", "99999999999999999999", "++1", "-+1", "1-",
    ];
    for c in cases {
        assert_eq!(parse_i32(c.as_bytes()), c.parse::<i32>().ok(), "case {:?}", c);
    }
}

#[test]
fn parse_reads_back_formatted_numbers() {
    for v in [0, 1, -1, 10, -10, 65535, i32::MAX, i32::MIN] {
        assert_eq!(parse_i32(&format_i32(v)), Some(v));
    }
}
