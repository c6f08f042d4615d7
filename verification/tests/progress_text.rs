use rclone_gui::extractor::parse_rclone_progress;
use rclone_gui::progress::{
    parse_byte_value, parse_transferred_bytes, share_of, text_progress_of, Percent, ProgressInfo,
};

fn close(actual: u64, expected: u64) -> bool {
    let diff = if actual > expected { actual - expected } else { expected - actual };
    (diff as f64) <= (expected as f64) * 0.001
}

#[test]
fn summary_line_with_units() {
    let line = "Transferred: 1.234 MByte / 5.678 MByte, 21%, 345.67 kByte/s, ETA 12s";
    let info = parse_rclone_progress(line).expect("a summary line carries progress");
    assert_eq!(info.percent, Percent { thousandths: 21_000 });
    assert_eq!((info.percent.thousandths as f64) / 1000.0, 21.0);
    assert_eq!(info.transferred, 1_293_942);
    assert_eq!(info.total, 5_953_814);
    assert!(close(info.transferred, 1_294_233));
    assert!(close(info.total, 5_954_992));
}

#[test]
fn summary_line_is_read_the_same_twice() {
    let line = "Transferred: 1.234 MByte / 5.678 MByte, 21%, 345.67 kByte/s, ETA 12s";
    assert_eq!(parse_rclone_progress(line), parse_rclone_progress(line));
    let chars: Vec<char> = line.chars().collect();
    assert_eq!(parse_rclone_progress(line), text_progress_of(&chars));
}

#[test]
fn summary_line_with_padding() {
    let line = "Transferred:   \t   3.456 MByte / 5.678 MByte, 60%, 500 kByte/s, ETA 4s";
    let info = parse_rclone_progress(line).unwrap();
    assert_eq!(info.percent.thousandths, 60_000);
    assert_eq!(info.transferred, 3_623_878);
    assert_eq!(info.total, 5_953_814);
}

#[test]
fn summary_line_without_units() {
    let info = parse_rclone_progress("Transferred:        123 / 456, 27%").unwrap();
    assert_eq!(
        info,
        ProgressInfo { percent: Percent { thousandths: 27_000 }, transferred: 123, total: 456 }
    );
}

#[test]
fn summary_line_without_comma_before_percent() {
    let info = parse_rclone_progress("Transferred: 10 kB / 20 kB 50%").unwrap();
    assert_eq!(info.percent.thousandths, 50_000);
    assert_eq!(info.transferred, 10 * 1024);
    assert_eq!(info.total, 20 * 1024);
}

#[test]
fn summary_line_with_fraction_in_percent() {
    let info = parse_rclone_progress("Transferred: 1 / 3, 33.3339%").unwrap();
    assert_eq!(info.percent.thousandths, 33_333);
    assert_eq!(info.percent.whole(), 33);
}

#[test]
fn summary_line_without_sizes() {
    let info = parse_rclone_progress("Transferred: 12%").unwrap();
    assert_eq!(
        info,
        ProgressInfo { percent: Percent { thousandths: 12_000 }, transferred: 0, total: 0 }
    );
}

#[test]
fn summary_line_needs_a_number_before_the_percent_sign() {
    assert_eq!(parse_rclone_progress("Transferred: a lot, many%"), None);
    assert_eq!(parse_rclone_progress("Transferred:5%"), None);
    assert_eq!(parse_rclone_progress("Transferred: 1 / 2, 5e%"), None);
    assert_eq!(parse_rclone_progress("Transferred: 1 / 2, %"), None);
}

#[test]
fn summary_line_with_every_kind_of_number() {
    let at = |token: &str| {
        parse_rclone_progress(&format!("Transferred: 1 / 2, {}%", token)).map(|p| {
            assert_eq!((p.transferred, p.total), (1, 2));
            p.percent.thousandths
        })
    };
    assert_eq!(at("1e1"), Some(10_000));
    assert_eq!(at("1E1"), Some(10_000));
    assert_eq!(at("+5"), Some(5_000));
    assert_eq!(at("-5"), Some(0));
    assert_eq!(at("2.5e+1"), Some(25_000));
    assert_eq!(at("250e-1"), Some(25_000));
    assert_eq!(at(".5"), Some(500));
    assert_eq!(at("nan"), Some(0));
    assert_eq!(at("NaN"), Some(0));
    assert_eq!(at("inf"), Some(u64::MAX));
    assert_eq!(at("-inf"), Some(0));
    assert_eq!(at("Infinity"), Some(u64::MAX));
    assert_eq!(at("1e400"), Some(u64::MAX));
    assert_eq!(at("1e-400"), Some(0));
    assert_eq!(at("0.0004"), Some(0));
}

#[test]
fn per_file_line() {
    let info = parse_rclone_progress(" * file.txt: 50% /2 MB, 456kB/s, 2s").unwrap();
    assert_eq!(info.percent.thousandths, 50_000);
    assert_eq!(info.total, 2 * 1024 * 1024);
    assert_eq!(info.transferred, 1024 * 1024);
}

#[test]
fn per_file_line_with_size_glued_to_its_unit() {
    let info = parse_rclone_progress(" * file.txt: 100% /1.23MB, 456kB/s, 2s").unwrap();
    assert_eq!(
        info,
        ProgressInfo { percent: Percent { thousandths: 100_000 }, transferred: 0, total: 0 }
    );
}

#[test]
fn per_file_line_needs_a_comma_after_the_size() {
    assert_eq!(parse_rclone_progress(" * file.txt: 50% /2 MB"), None);
}

#[test]
fn other_lines_carry_no_progress() {
    assert_eq!(parse_rclone_progress(""), None);
    assert_eq!(parse_rclone_progress("Checks: 3 / 3, 100%"), None);
    assert_eq!(parse_rclone_progress("Elapsed time: 4.5s"), None);
    assert_eq!(parse_rclone_progress("2024/01/01 12:00:00 NOTICE: nothing to do"), None);
}

#[test]
fn unknown_unit_counts_as_bytes() {
    assert_eq!(parse_byte_value("7 Blob"), 7);
    assert_eq!(parse_byte_value("7 kilo"), 7);
    assert_eq!(parse_byte_value("7 kbytes"), 7);
}

#[test]
fn units_are_binary_multiples() {
    assert_eq!(parse_byte_value("3 Byte"), 3);
    assert_eq!(parse_byte_value("3 Bytes"), 3);
    assert_eq!(parse_byte_value("3 B"), 3);
    assert_eq!(parse_byte_value("3 k"), 3 * 1024);
    assert_eq!(parse_byte_value("3 kB"), 3 * 1024);
    assert_eq!(parse_byte_value("3 KBYTE"), 3 * 1024);
    assert_eq!(parse_byte_value("3 m"), 3 * 1024 * 1024);
    assert_eq!(parse_byte_value("3 Mb"), 3 * 1024 * 1024);
    assert_eq!(parse_byte_value("3 MByte"), 3 * 1024 * 1024);
    assert_eq!(parse_byte_value("3 g"), 3 * 1024 * 1024 * 1024);
    assert_eq!(parse_byte_value("3 GB"), 3 * 1024 * 1024 * 1024);
    assert_eq!(parse_byte_value("3 GByte"), 3 * 1024 * 1024 * 1024);
    assert_eq!(parse_byte_value("3 t"), 3 * 1024u64.pow(4));
    assert_eq!(parse_byte_value("3 tb"), 3 * 1024u64.pow(4));
    assert_eq!(parse_byte_value("3 TByte"), 3 * 1024u64.pow(4));
}

#[test]
fn bare_number_is_bytes() {
    assert_eq!(parse_byte_value("123"), 123);
    assert_eq!(parse_byte_value("  123  "), 123);
    assert_eq!(parse_byte_value("123.999"), 123);
    assert_eq!(parse_byte_value("0"), 0);
}

#[test]
fn fractions_are_exact_and_rounded_down() {
    assert_eq!(parse_byte_value("1.5 k"), 1536);
    assert_eq!(parse_byte_value("0.5 k"), 512);
    assert_eq!(parse_byte_value(".5 k"), 512);
    assert_eq!(parse_byte_value("5. k"), 5120);
    assert_eq!(parse_byte_value("0.0009765625 k"), 1);
    assert_eq!(parse_byte_value("0.0009765624 k"), 0);
    assert_eq!(parse_byte_value("0.99999999999999999999999999999999999999999999 k"), 1023);
    assert_eq!(parse_byte_value("1.234 MByte"), 1_293_942);
    assert_eq!(parse_byte_value("5.678 MByte"), 5_953_814);
}

#[test]
fn sizes_that_do_not_fit_are_the_greatest_size() {
    assert_eq!(parse_byte_value("18446744073709551615"), u64::MAX);
    assert_eq!(parse_byte_value("18446744073709551616"), u64::MAX);
    assert_eq!(parse_byte_value("99999999999999999999999999 T"), u64::MAX);
    assert_eq!(parse_byte_value("16777216 T"), u64::MAX);
    assert_eq!(parse_byte_value("16777215 T"), 16_777_215 * 1024u64.pow(4));
}

#[test]
fn text_that_is_no_number_is_zero() {
    assert_eq!(parse_byte_value(""), 0);
    assert_eq!(parse_byte_value("   "), 0);
    assert_eq!(parse_byte_value("abc"), 0);
    assert_eq!(parse_byte_value("1.23MB"), 0);
    assert_eq!(parse_byte_value("."), 0);
    assert_eq!(parse_byte_value("1.2.3"), 0);
    assert_eq!(parse_byte_value("+"), 0);
    assert_eq!(parse_byte_value("1e"), 0);
    assert_eq!(parse_byte_value("1e+"), 0);
    assert_eq!(parse_byte_value("e5"), 0);
    assert_eq!(parse_byte_value("--1"), 0);
    assert_eq!(parse_byte_value("0x10"), 0);
    assert_eq!(parse_byte_value("1_000"), 0);
    assert_eq!(parse_byte_value("in"), 0);
    assert_eq!(parse_byte_value("infinit"), 0);
}

#[test]
fn negative_numbers_and_nan_are_zero() {
    assert_eq!(parse_byte_value("-1"), 0);
    assert_eq!(parse_byte_value("-0.5 k"), 0);
    assert_eq!(parse_byte_value("-1e30 TB"), 0);
    assert_eq!(parse_byte_value("-inf"), 0);
    assert_eq!(parse_byte_value("nan"), 0);
    assert_eq!(parse_byte_value("NaN MB"), 0);
    assert_eq!(parse_byte_value("-nan"), 0);
    assert_eq!(parse_byte_value("-0"), 0);
}

#[test]
fn numbers_with_exponent() {
    assert_eq!(parse_byte_value("1e3"), 1000);
    assert_eq!(parse_byte_value("1E3"), 1000);
    assert_eq!(parse_byte_value("1e+3"), 1000);
    assert_eq!(parse_byte_value("1.5e3"), 1500);
    assert_eq!(parse_byte_value("1.5e1"), 15);
    assert_eq!(parse_byte_value("1.55e1"), 15);
    assert_eq!(parse_byte_value("15e-1"), 1);
    assert_eq!(parse_byte_value("15e-1 k"), 1536);
    assert_eq!(parse_byte_value("1e-3 k"), 1);
    assert_eq!(parse_byte_value("1e-4 k"), 0);
    assert_eq!(parse_byte_value(".5e1"), 5);
    assert_eq!(parse_byte_value("5.e1"), 50);
    assert_eq!(parse_byte_value("+7"), 7);
    assert_eq!(parse_byte_value("0e99999999999999999999999999999999999999"), 0);
    assert_eq!(parse_byte_value("0.000e-99999999999999999999999999999999999999"), 0);
    assert_eq!(parse_byte_value("1e-99999999999999999999999999999999999999 T"), 0);
    assert_eq!(parse_byte_value("1e0"), 1);
    assert_eq!(parse_byte_value("1e-0"), 1);
    assert_eq!(parse_byte_value("123456e-3"), 123);
    assert_eq!(parse_byte_value("0.00123456e5"), 123);
    assert_eq!(parse_byte_value("1844674407370955161.5e1"), u64::MAX);
    assert_eq!(parse_byte_value("1844674407370955161.4e1"), u64::MAX - 1);
}

#[test]
fn numbers_that_are_too_large_are_the_greatest_size() {
    assert_eq!(parse_byte_value("1e30 TB"), u64::MAX);
    assert_eq!(parse_byte_value("1e20"), u64::MAX);
    assert_eq!(parse_byte_value("1e19"), 10_000_000_000_000_000_000);
    assert_eq!(parse_byte_value("2e19"), u64::MAX);
    assert_eq!(parse_byte_value("inf"), u64::MAX);
    assert_eq!(parse_byte_value("+INF k"), u64::MAX);
    assert_eq!(parse_byte_value("infinity"), u64::MAX);
    assert_eq!(parse_byte_value("1e99999999999999999999999999999999999999"), u64::MAX);
    assert_eq!(parse_byte_value("0.1e99999999999999999999999999999999999999"), u64::MAX);
}

#[test]
fn numbers_are_what_the_standard_parser_takes() {
    let tokens = [
        "0", "1", "12", "1.5", "1.", ".5", ".", "", "+", "-", "+1", "-1", "++1", "+-1", "1e5", "1E5",
        "1e", "1e+", "1e-", "1e+5", "1e-5", "e5", ".e5", "1.e5", ".5e5", "1e5.5", "1e5e5", "inf",
        "Inf", "INF", "infinity", "INFINITY", "infinit", "in", "nan", "NaN", "NAN", "nana", "+inf",
        "-inf", "+nan", "-nan", "1 ", " 1", "1_0", "0x1", "1f", "١", "1,5", "i", "n", "1e０", "1.5.5",
        "--inf", "infinityy", "0e0", "00012", "12e03", "1e+-5", "1d5",
    ];
    for token in tokens {
        let expected = match token.parse::<f64>() {
            Ok(v) => Some(v as u64),
            Err(_) => None,
        };
        let line = format!("Transferred: 1 / 2, {}%", token);
        let read = parse_rclone_progress(&line).map(|p| p.percent.thousandths / 1000);
        if token.contains(' ') || token.contains(',') || token.is_empty() {
            continue;
        }
        let expected = expected.map(|v| if v > u64::MAX / 1000 { u64::MAX / 1000 } else { v });
        assert_eq!(read, expected, "token {:?}", token);
    }
}

#[test]
fn whitespace_and_case_are_those_of_unicode() {
    assert_eq!(parse_byte_value("3\u{a0}MByte"), 3 * 1024 * 1024);
    assert_eq!(parse_byte_value("\u{2003}3\u{3000}k\u{2028}"), 3 * 1024);
    assert_eq!(parse_byte_value("3\tk"), 3 * 1024);
    assert_eq!(parse_byte_value("3\u{b}k"), 3 * 1024);
    assert_eq!(parse_byte_value("3 \u{212a}B"), 3 * 1024);
    assert_eq!(parse_byte_value("3 \u{212a}"), 3 * 1024);
    assert_eq!(parse_byte_value("3 KBYTE"), 3 * 1024);
    assert_eq!(parse_byte_value("3\u{200b}k"), 0);
    assert_eq!(
        parse_transferred_bytes("Transferred:\u{a0}\u{a0}5 k / 10 k, 50%"),
        (5120, 10240)
    );
    let info = parse_rclone_progress("Transferred: 1 / 2,\u{a0}50\u{2009}%");
    assert_eq!(info.map(|p| p.percent.thousandths), Some(50_000));
    let info = parse_rclone_progress("Transferred: 1 / 2, \u{a0}50\u{2009}%");
    assert_eq!(info.map(|p| p.percent.thousandths), Some(50_000));
}

#[test]
fn transferred_pair_of_a_summary_line() {
    assert_eq!(
        parse_transferred_bytes("Transferred: 1.234 MByte / 5.678 MByte, 21%, ETA 12s"),
        (1_293_942, 5_953_814)
    );
    assert_eq!(parse_transferred_bytes("Transferred: 123 / 456, 27%"), (123, 456));
    assert_eq!(parse_transferred_bytes("Transferred: 123 / 456"), (123, 456));
    assert_eq!(parse_transferred_bytes("Transferred: 5 k / 10 k 50%"), (5120, 10240));
}

#[test]
fn transferred_pair_is_zero_without_marker_or_separator() {
    assert_eq!(parse_transferred_bytes("nothing here"), (0, 0));
    assert_eq!(parse_transferred_bytes("Transferred: 123"), (0, 0));
    assert_eq!(parse_transferred_bytes("Transferred: 123/456"), (0, 0));
}

#[test]
fn share_is_rounded_down() {
    assert_eq!(share_of(Percent { thousandths: 50_000 }, 3), 1);
    assert_eq!(share_of(Percent { thousandths: 100_000 }, u64::MAX), u64::MAX);
    assert_eq!(share_of(Percent { thousandths: 200_000 }, u64::MAX), u64::MAX);
    assert_eq!(share_of(Percent { thousandths: 0 }, 77), 0);
    assert_eq!(share_of(Percent { thousandths: 33_333 }, 1000), 333);
}

#[test]
fn percent_is_capped_at_a_hundred() {
    assert_eq!(Percent { thousandths: 150_000 }.capped(), Percent { thousandths: 100_000 });
    assert_eq!(Percent { thousandths: 99_999 }.capped(), Percent { thousandths: 99_999 });
}
