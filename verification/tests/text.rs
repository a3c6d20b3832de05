use ebay::text::{
    chars_of, contains_chars, contains_ignoring_case, decimal_string, find_chars, has_char,
    join_chars, join_chars_from, parse_count_chars, position_of_char, prefix_of, remove_char,
    slice_chars, split_words, text_contains, trim_chars, trimmed,
};

fn chars(s: &str) -> Vec<char> {
    s.chars().collect()
}

#[test]
fn chars_of_gives_the_characters_in_order() {
    assert_eq!(chars_of("héllo"), vec!['h', 'é', 'l', 'l', 'o']);
    assert_eq!(chars_of(""), Vec::<char>::new());
}

#[test]
fn trimming_removes_white_space_at_both_ends_only() {
    assert_eq!(trimmed("  a b \t\n"), "a b");
    assert_eq!(trimmed("a"), "a");
    assert_eq!(trimmed(""), "");
    assert_eq!(trimmed(" \u{a0}\u{3000} "), "");
    assert_eq!(trimmed("\u{2003}x\u{2003}"), "x");
    assert_eq!(trim_chars(&chars(" x  y ")), chars("x  y"));
}

#[test]
fn words_are_runs_without_white_space() {
    assert_eq!(split_words(&chars("  one two\tthree\n")), vec![chars("one"), chars("two"), chars("three")]);
    assert_eq!(split_words(&chars("single")), vec![chars("single")]);
    assert_eq!(split_words(&chars("   ")), Vec::<Vec<char>>::new());
    assert_eq!(split_words(&chars("")), Vec::<Vec<char>>::new());
}

#[test]
fn joining_puts_the_separator_between_neighbours() {
    let parts = vec![chars("a"), chars("bc"), chars("")];
    assert_eq!(join_chars(&parts, &chars("; ")), chars("a; bc; "));
    assert_eq!(join_chars(&vec![chars("only")], &chars("; ")), chars("only"));
    assert_eq!(join_chars(&vec![], &chars("; ")), chars(""));
    assert_eq!(join_chars_from(&parts, 1, &chars("-")), chars("bc-"));
    assert_eq!(join_chars_from(&parts, 3, &chars("-")), chars(""));
}

#[test]
fn search_finds_the_first_occurrence() {
    assert_eq!(find_chars(&chars("abcabc"), &chars("bc"), 0), Some(1));
    assert_eq!(find_chars(&chars("abcabc"), &chars("bc"), 2), Some(4));
    assert_eq!(find_chars(&chars("abcabc"), &chars("bc"), 5), None);
    assert_eq!(find_chars(&chars("abc"), &chars("abcd"), 0), None);
    assert_eq!(find_chars(&chars("abc"), &chars(""), 0), Some(0));
    assert_eq!(find_chars(&chars("abc"), &chars(""), 3), Some(3));
    assert_eq!(find_chars(&chars("abc"), &chars(""), 4), None);
    assert!(contains_chars(&chars("abc"), &chars("c")));
    assert!(!contains_chars(&chars("abc"), &chars("ca")));
    assert!(text_contains("Free shipping", "ship"));
    assert!(!text_contains("Free shipping", "Ship"));
}

#[test]
fn case_is_ignored_by_lowering_the_text() {
    assert!(contains_ignoring_case("Free SHIPPING", "shipping"));
    assert!(contains_ignoring_case("free shipping", "shipping"));
    assert!(!contains_ignoring_case("free shipping", "SHIPPING"));
    assert!(contains_ignoring_case("ÄB", "äb"));
}

#[test]
fn characters_are_found_and_removed() {
    assert!(has_char("95.7% positive", '%'));
    assert!(!has_char("positive", '%'));
    assert!(!has_char("", '%'));
    assert_eq!(position_of_char(&chars("a?b?c"), '?', 0), 1);
    assert_eq!(position_of_char(&chars("a?b?c"), '?', 2), 3);
    assert_eq!(position_of_char(&chars("abc"), '?', 0), 3);
    assert_eq!(remove_char(&chars("1,234,567"), ','), chars("1234567"));
    assert_eq!(remove_char(&chars(",,"), ','), chars(""));
    assert_eq!(slice_chars(&chars("abcdef"), 2, 4), chars("cd"));
}

#[test]
fn counts_are_read_as_decimal_numbers() {
    assert_eq!(parse_count_chars(&chars("0")), Some(0));
    assert_eq!(parse_count_chars(&chars("42")), Some(42));
    assert_eq!(parse_count_chars(&chars("+42")), Some(42));
    assert_eq!(parse_count_chars(&chars("0042")), Some(42));
    assert_eq!(parse_count_chars(&chars("4294967295")), Some(4294967295));
    assert_eq!(parse_count_chars(&chars("4294967296")), None);
    assert_eq!(parse_count_chars(&chars("99999999999999999999999")), None);
    assert_eq!(parse_count_chars(&chars("00000000000000000000001")), Some(1));
    assert_eq!(parse_count_chars(&chars("")), None);
    assert_eq!(parse_count_chars(&chars("+")), None);
    assert_eq!(parse_count_chars(&chars("-1")), None);
    assert_eq!(parse_count_chars(&chars("++1")), None);
    assert_eq!(parse_count_chars(&chars("1 ")), None);
    assert_eq!(parse_count_chars(&chars(" 1")), None);
    assert_eq!(parse_count_chars(&chars("12a")), None);
    assert_eq!(parse_count_chars(&chars("١٢")), None);
}

#[test]
fn counts_agree_with_the_standard_parser() {
    for text in ["0", "7", "+7", "007", "4294967295", "4294967296", "", "+", "-0", "1_000", "1e3"] {
        assert_eq!(parse_count_chars(&chars(text)), text.parse::<u32>().ok(), "{}", text);
    }
}

#[test]
fn numbers_are_written_in_decimal() {
    assert_eq!(decimal_string(0), "0");
    assert_eq!(decimal_string(7), "7");
    assert_eq!(decimal_string(10), "10");
    assert_eq!(decimal_string(1204), "1204");
    assert_eq!(decimal_string(u64::MAX), "18446744073709551615");
}

#[test]
fn prefix_takes_the_first_characters() {
    assert_eq!(prefix_of("abcdef", 3), "abc");
    assert_eq!(prefix_of("abc", 3), "abc");
    assert_eq!(prefix_of("ab", 3), "ab");
    assert_eq!(prefix_of("", 3), "");
    assert_eq!(prefix_of("äöüß", 2), "äö");
    assert_eq!(prefix_of("abc", 0), "");
}
