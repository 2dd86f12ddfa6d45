use robogit::line::{readme_line, timestamp_digits};

#[test]
fn digits_of_zero() {
    assert_eq!(timestamp_digits(0), "0");
}

#[test]
fn digits_of_small_numbers() {
    assert_eq!(timestamp_digits(7), "7");
    assert_eq!(timestamp_digits(10), "10");
    assert_eq!(timestamp_digits(42), "42");
    assert_eq!(timestamp_digits(1000), "1000");
}

#[test]
fn digits_of_largest_value() {
    assert_eq!(timestamp_digits(u64::MAX), "18446744073709551615");
}

#[test]
fn line_for_zero() {
    assert_eq!(readme_line(0), "* Line added at 0\n");
}

#[test]
fn line_for_fixed_timestamp() {
    assert_eq!(readme_line(1234567890), "* Line added at 1234567890\n");
}

#[test]
fn line_for_largest_timestamp() {
    assert_eq!(
        readme_line(u64::MAX),
        "* Line added at 18446744073709551615\n"
    );
}

#[test]
fn lines_of_distinct_timestamps_differ() {
    assert_ne!(readme_line(5), readme_line(9));
    assert_ne!(readme_line(1234567890), readme_line(1234567891));
}

#[test]
fn line_appends_exactly_one_line() {
    let line = readme_line(1700000000);
    assert!(line.ends_with('\n'));
    assert_eq!(line.matches('\n').count(), 1);
    assert!(line.starts_with("* Line added at "));
    let middle = &line["* Line added at ".len()..line.len() - 1];
    assert!(!middle.is_empty());
    assert!(middle.chars().all(|c| c.is_ascii_digit()));
}
