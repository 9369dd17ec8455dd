//! Sizes printed by yt-dlp, read into bytes.

use x_video_downloader::downloader::{parse_size, progress_line};
use x_video_downloader::rounding::decimal_to_u64;

/// The same reading done with the standard library's floats.
fn float_reading(s: &str) -> Option<u64> {
    let numeric: String = s.chars().take_while(|c| c.is_numeric() || *c == '.').collect();
    let value: f64 = numeric.parse().ok()?;
    if s.contains("KiB") {
        Some((value * 1024.0) as u64)
    } else if s.contains("MiB") {
        Some((value * 1024.0 * 1024.0) as u64)
    } else if s.contains("GiB") {
        Some((value * 1024.0 * 1024.0 * 1024.0) as u64)
    } else {
        Some(value as u64)
    }
}

#[test]
fn test_parse_size() {
    assert_eq!(parse_size("100.00MiB"), Some((100.0 * 1024.0 * 1024.0) as u64));
}

#[test]
fn test_parse_size_boundary() {
    assert_eq!(parse_size("0.00KiB"), Some(0));
    assert_eq!(parse_size("1024.00KiB"), Some(1024 * 1024));

    assert_eq!(parse_size("0.00MiB"), Some(0));
    assert_eq!(parse_size("1.00MiB"), Some(1024 * 1024));
    assert_eq!(parse_size("100.00MiB"), Some((100.0 * 1024.0 * 1024.0) as u64));

    assert_eq!(parse_size("1.00GiB"), Some(1024 * 1024 * 1024));

    assert_eq!(parse_size("123.45"), Some(123));

    assert_eq!(parse_size(""), None);
    assert_eq!(parse_size("abc"), None);
}

#[test]
fn test_parse_size_integer_overflow() {
    let large_value = "9223372036854775808.00MiB";
    let result = parse_size(large_value);
    assert!(result.is_some());
}

#[test]
fn size_saturates_at_u64_max() {
    assert_eq!(parse_size("9223372036854775808.00MiB"), Some(u64::MAX));
    assert_eq!(parse_size("18446744073709551616"), Some(u64::MAX));
    assert_eq!(parse_size("99999999999999999999999999999999GiB"), Some(u64::MAX));
}

#[test]
fn size_number_forms() {
    assert_eq!(parse_size(".5KiB"), Some(512));
    assert_eq!(parse_size("5.KiB"), Some(5 * 1024));
    assert_eq!(parse_size("."), None);
    assert_eq!(parse_size("1.2.3MiB"), None);
    assert_eq!(parse_size("MiB"), None);
    assert_eq!(parse_size("12 MiB"), Some(12 * 1024 * 1024));
    assert_eq!(parse_size("7"), Some(7));
}

#[test]
fn size_non_ascii_numerals_do_not_parse() {
    assert_eq!(parse_size("\u{0663}KiB"), None);
    assert_eq!(parse_size("1\u{00BD}"), None);
}

#[test]
fn size_unit_is_chosen_in_order() {
    assert_eq!(parse_size("1GiB MiB"), Some(1024 * 1024));
    assert_eq!(parse_size("1MiB KiB"), Some(1024));
    assert_eq!(parse_size("2KiB GiB"), Some(2048));
}

#[test]
fn size_rounds_as_a_double() {
    // 2^53 + 1 is not representable; it rounds to 2^53 (ties to even).
    assert_eq!(parse_size("9007199254740993"), Some(9007199254740992));
    // 2^53 + 3 rounds up to 2^53 + 4.
    assert_eq!(parse_size("9007199254740995"), Some(9007199254740996));
    // Just above the tie rounds up.
    assert_eq!(parse_size("9007199254740993.0000000000000000001"), Some(9007199254740994));
    assert_eq!(parse_size("0.1KiB"), Some(102));
    assert_eq!(parse_size("0.001MiB"), Some(1048));
    assert_eq!(parse_size("0.000000001"), Some(0));
}

#[test]
fn size_agrees_with_float_reading() {
    let mut cases: Vec<String> = vec![
        "1.5GiB".to_string(),
        "0.999999999999999999999KiB".to_string(),
        "4294967295.99999999".to_string(),
        "18446744073709549568".to_string(),
        "18446744073709550591".to_string(),
        "18446744073709550592".to_string(),
        "17179869183.999999999GiB".to_string(),
        "0.0000000004656612873077392578125GiB".to_string(),
        "0.00000000046566128730773925781249GiB".to_string(),
        "123456789.123456789MiB".to_string(),
    ];
    let units = ["", "KiB", "MiB", "GiB"];
    let mut seed: u64 = 0x9E37_79B9_7F4A_7C15;
    for _ in 0..3000 {
        seed ^= seed << 13;
        seed ^= seed >> 7;
        seed ^= seed << 17;
        let whole_digits = (seed % 22) as usize;
        let frac_digits = ((seed >> 8) % 25) as usize;
        let mut text = String::new();
        let mut x = seed;
        for _ in 0..whole_digits {
            x = x.wrapping_mul(6364136223846793005).wrapping_add(1442695040888963407);
            text.push(char::from(b'0' + ((x >> 33) % 10) as u8));
        }
        if (seed >> 20) % 4 != 0 {
            text.push('.');
        }
        for _ in 0..frac_digits {
            x = x.wrapping_mul(6364136223846793005).wrapping_add(1442695040888963407);
            text.push(char::from(b'0' + ((x >> 33) % 10) as u8));
        }
        text.push_str(units[((seed >> 40) % 4) as usize]);
        cases.push(text);
    }
    for case in cases {
        assert_eq!(parse_size(&case), float_reading(&case), "size {:?}", case);
    }
}

#[test]
fn decimal_reading_with_shift() {
    let whole: Vec<char> = "3".chars().collect();
    let fraction: Vec<char> = "25".chars().collect();
    assert_eq!(decimal_to_u64(&whole, &fraction, 2), 13);
    assert_eq!(decimal_to_u64(&whole, &fraction, 0), 3);
    assert_eq!(decimal_to_u64(&[], &fraction, 10), 256);
}

#[test]
fn progress_line_fields() {
    let p = progress_line("[download]  45.2% of 100.00MiB at  2.50MiB/s ETA 00:15").unwrap();
    assert_eq!(p.percent, "45.2");
    assert_eq!(p.speed.as_deref(), Some("2.50MiB/"));
    assert_eq!(p.total_bytes, 100 * 1024 * 1024);
}

#[test]
fn progress_line_without_speed_or_size() {
    let p = progress_line("[download] 100%").unwrap();
    assert_eq!(p.percent, "100");
    assert_eq!(p.speed, None);
    assert_eq!(p.total_bytes, 0);
    let q = progress_line("[download]  3.0% of ~unknown").unwrap();
    assert_eq!(q.total_bytes, 0);
}

#[test]
fn progress_line_rejections() {
    assert!(progress_line("[info] 45% done").is_none());
    assert!(progress_line("[download] no percentage").is_none());
    assert!(progress_line("%[download]").is_none());
    // The word before `%` is handed on even when it is no number.
    assert_eq!(progress_line("[download] %").unwrap().percent, "[download]");
    // A speed field with no word before the next `s` rejects the line.
    assert!(progress_line("[download] 5% at s").is_none());
}

#[test]
fn progress_line_uses_the_second_piece() {
    // `of ` twice: only the text between the two counts.
    let p = progress_line("[download] 1% of 2KiB of 9GiB").unwrap();
    assert_eq!(p.total_bytes, 2048);
}
