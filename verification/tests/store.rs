use typoo::store::{
    format_score, load_score, parse_score, score_directory, FALLBACK_DIRECTORY, SCORE_FILE_NAME,
};

#[test]
fn a_plain_number_is_read() {
    assert_eq!(parse_score("0"), 0);
    assert_eq!(parse_score("7"), 7);
    assert_eq!(parse_score("42"), 42);
    assert_eq!(parse_score("4294967295"), u32::MAX);
}

#[test]
fn whitespace_around_the_number_is_ignored() {
    assert_eq!(parse_score(" 42"), 42);
    assert_eq!(parse_score("42\n"), 42);
    assert_eq!(parse_score("\t 42 \r\n"), 42);
    assert_eq!(parse_score("\u{a0}42\u{3000}"), 42);
}

#[test]
fn leading_zeros_and_a_plus_sign_are_accepted() {
    assert_eq!(parse_score("007"), 7);
    assert_eq!(parse_score("+7"), 7);
    assert_eq!(parse_score(" +0012 "), 12);
    assert_eq!(parse_score("00000000000000000000042"), 42);
}

#[test]
fn content_without_a_score_reads_as_zero() {
    assert_eq!(parse_score(""), 0);
    assert_eq!(parse_score("   "), 0);
    assert_eq!(parse_score("abc"), 0);
    assert_eq!(parse_score("-1"), 0);
    assert_eq!(parse_score("+"), 0);
    assert_eq!(parse_score("++1"), 0);
    assert_eq!(parse_score("+ 1"), 0);
    assert_eq!(parse_score("12 34"), 0);
    assert_eq!(parse_score("12a"), 0);
    assert_eq!(parse_score("a12"), 0);
    assert_eq!(parse_score("1.5"), 0);
    assert_eq!(parse_score("1e3"), 0);
    assert_eq!(parse_score("0x10"), 0);
    assert_eq!(parse_score("１２"), 0);
    assert_eq!(parse_score("٣"), 0);
}

#[test]
fn a_number_that_does_not_fit_reads_as_zero() {
    assert_eq!(parse_score("4294967296"), 0);
    assert_eq!(parse_score("42949672950"), 0);
    assert_eq!(parse_score("99999999999999999999999999999999999999999999"), 0);
    assert_eq!(parse_score("18446744073709551616"), 0);
}

#[test]
fn reading_agrees_with_the_standard_parser() {
    let samples = [
        "", " ", "0", "1", "10", "+1", "-1", "-0", "+0", "00", "+", "-", "4294967295",
        "4294967296", "04294967295", " 5 ", "5 5", "five", "5\n", "\n5", "+-5", "5+", "٥", "5_000",
        "12345678901234567890", "3000000000", "\u{feff}5",
    ];
    for s in samples.iter() {
        let expected: u32 = s.trim().parse().unwrap_or(0);
        assert_eq!(parse_score(s), expected, "content {:?}", s);
    }
}

#[test]
fn a_score_is_written_in_decimal_digits() {
    assert_eq!(format_score(0), "0");
    assert_eq!(format_score(7), "7");
    assert_eq!(format_score(10), "10");
    assert_eq!(format_score(25), "25");
    assert_eq!(format_score(1_000_000), "1000000");
    assert_eq!(format_score(u32::MAX), "4294967295");
}

#[test]
fn writing_agrees_with_the_standard_formatting() {
    let mut value = 0u32;
    while value < 20_000 {
        assert_eq!(format_score(value), value.to_string());
        value += 1;
    }
    for value in [99_999u32, 100_000, 123_456_789, 999_999_999, 1_000_000_000, 4_294_967_294] {
        assert_eq!(format_score(value), value.to_string());
    }
}

#[test]
fn what_is_written_reads_back_as_the_same_score() {
    let mut value = 0u32;
    while value < 20_000 {
        assert_eq!(parse_score(&format_score(value)), value);
        value += 1;
    }
    let mut value = 1u32;
    while value < u32::MAX / 3 {
        assert_eq!(parse_score(&format_score(value)), value);
        assert_eq!(load_score(Some(&format_score(value - 1))), value - 1);
        value *= 3;
    }
    assert_eq!(parse_score(&format_score(u32::MAX)), u32::MAX);
}

#[test]
fn a_missing_file_reads_as_zero() {
    assert_eq!(load_score(None), 0);
}

#[test]
fn a_file_that_is_there_reads_as_its_content() {
    assert_eq!(load_score(Some("25")), 25);
    assert_eq!(load_score(Some("25\n")), 25);
    assert_eq!(load_score(Some("garbage")), 0);
    assert_eq!(load_score(Some("")), 0);
}

#[test]
fn the_score_file_lives_in_the_home_directory() {
    assert_eq!(score_directory(Some(String::from("/home/ada"))), "/home/ada");
    assert_eq!(score_directory(Some(String::new())), "");
    assert_eq!(SCORE_FILE_NAME, ".typo_highest_wpm");
}

#[test]
fn without_a_home_directory_the_current_one_is_used() {
    assert_eq!(score_directory(None), ".");
    assert_eq!(FALLBACK_DIRECTORY, ".");
}
