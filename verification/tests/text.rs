use kimmy_api::text::{
    after_name, byte_len, chars_of, decimal_text, join, parse_i32, parse_i64, parse_u64,
    push_decimal, push_fixed_point, starts_with, strip_prefix, word,
};

#[test]
fn a_number_is_written_in_decimal_and_reads_back() {
    for n in [0, 1, 9, 10, 99, 1_000_000, u64::MAX] {
        assert_eq!(decimal_text(n), n.to_string());
        assert_eq!(parse_u64(&decimal_text(n)), Some(n));
    }
    let mut out = "n = ".to_string();
    push_decimal(&mut out, 42);
    assert_eq!(out, "n = 42");
}

#[test]
fn a_fraction_is_written_exactly_and_without_trailing_zeros() {
    let fixed = |n: u64, places: u32| {
        let mut out = String::new();
        push_fixed_point(&mut out, n, places);
        out
    };
    assert_eq!(fixed(0, 6), "0");
    assert_eq!(fixed(1_500, 6), "0.0015");
    assert_eq!(fixed(6_500_000, 6), "6.5");
    assert_eq!(fixed(30_000_000, 6), "30");
    assert_eq!(fixed(6_384, 3), "6.384");
    for n in [1u64, 250, 999_999, 1_000_001, 123_456_789_012] {
        assert_eq!(fixed(n, 6), (n as f64 / 1e6).to_string(), "{n}");
    }
}

#[test]
fn numbers_are_read_as_the_standard_parser_reads_them() {
    for s in [
        "0", "7", "+7", "-7", "-0", "", "-", "+", " 1", "1 ", "1_0", "0x1", "007",
        "9223372036854775807", "9223372036854775808", "-9223372036854775808",
        "-9223372036854775809", "2147483647", "2147483648", "-2147483648",
        "18446744073709551615", "18446744073709551616", "\u{662}",
    ] {
        assert_eq!(parse_u64(s), s.parse::<u64>().ok(), "{s:?}");
        assert_eq!(parse_i64(s), s.parse::<i64>().ok(), "{s:?}");
        assert_eq!(parse_i32(s), s.parse::<i32>().ok(), "{s:?}");
    }
}

#[test]
fn text_is_joined_and_taken_apart() {
    let parts: Vec<String> = ["a", "b", "c"].iter().map(|s| s.to_string()).collect();
    assert_eq!(join(&parts, ", "), "a, b, c");
    assert_eq!(join(&vec![], ", "), "");
    assert!(starts_with("__kimmy", "__"));
    assert!(!starts_with("_", "__"));
    assert_eq!(strip_prefix("https://host", "https://"), Some("host"));
    assert_eq!(strip_prefix("http://host", "https://"), None);
    assert_eq!(chars_of("aé"), vec!['a', 'é']);
    assert_eq!(byte_len("aé"), 3);
}

#[test]
fn a_field_is_found_at_the_start_of_its_line() {
    let status = "Name:\tx\nVmRSS:\t  12 kB\n";
    assert_eq!(after_name(status, "VmRSS:").map(word), Some("12"));
    assert_eq!(after_name(status, "RSS:"), None);
}
