use notedeck_channels::text::{
    chars_of, clone_strings, compare_text, contains, decimal_string, join, push_decimal,
    same_strings, same_text, trim, trim_range, whitespace_flags, TextOrder,
};

#[test]
fn texts_compare_as_strings_do() {
    let samples = ["", "a", "ab", "b", "B", "\u{e9}", "\u{4e2d}", "a\u{e9}", "\u{1f600}", "z"];
    for a in samples {
        for b in samples {
            let expected = if a < b {
                TextOrder::Before
            } else if a == b {
                TextOrder::Same
            } else {
                TextOrder::After
            };
            assert_eq!(compare_text(a, b), expected);
            assert_eq!(same_text(a, b), a == b);
        }
    }
}

#[test]
fn a_prefix_stands_before_the_longer_text() {
    assert_eq!(compare_text("abc", "abcd"), TextOrder::Before);
    assert_eq!(compare_text("abcd", "abc"), TextOrder::After);
    assert_eq!(compare_text("abc", "abc"), TextOrder::Same);
}

#[test]
fn trimming_takes_white_space_from_both_ends_only() {
    assert_eq!(trim("  general  "), "general");
    assert_eq!(trim("\t a b \n"), "a b");
    assert_eq!(trim(""), "");
    assert_eq!(trim(" \u{a0}\u{3000} "), "");
    assert_eq!(trim("\u{2003}caf\u{e9}\u{2003}"), "caf\u{e9}");
    assert_eq!(trim("x"), "x");
    assert_eq!(trim("_ _"), "_ _");
}

#[test]
fn white_space_is_what_the_standard_library_says() {
    let chars = chars_of(" a\t\u{a0}b\u{200b}");
    assert_eq!(chars, vec![' ', 'a', '\t', '\u{a0}', 'b', '\u{200b}']);
    assert_eq!(whitespace_flags(&chars), vec![true, false, true, true, false, false]);
}

#[test]
fn trim_range_finds_the_unmarked_middle() {
    let spaces = vec![true, true, false, true, false, true];
    assert_eq!(trim_range(&spaces, 0, 6), (2, 5));
    assert_eq!(trim_range(&spaces, 3, 6), (4, 5));
    assert_eq!(trim_range(&spaces, 0, 2), (2, 2));
    assert_eq!(trim_range(&spaces, 2, 3), (2, 3));
    assert_eq!(trim_range(&spaces, 4, 4), (4, 4));
    assert_eq!(trim_range(&Vec::new(), 0, 0), (0, 0));
}

#[test]
fn joining_puts_the_separator_between_neighbours() {
    let none: Vec<String> = Vec::new();
    assert_eq!(join(&none, ", "), "");
    assert_eq!(join(&vec!["a".to_string()], ", "), "a");
    assert_eq!(join(&vec!["a".to_string(), "b".to_string(), "".to_string()], ", "), "a, b, ");
    assert_eq!(join(&vec!["x".to_string(), "y".to_string()], ""), "xy");
}

#[test]
fn numbers_are_written_in_decimal() {
    assert_eq!(decimal_string(0), "0");
    assert_eq!(decimal_string(7), "7");
    assert_eq!(decimal_string(10), "10");
    assert_eq!(decimal_string(99), "99");
    assert_eq!(decimal_string(1000), "1000");
    assert_eq!(decimal_string(u64::MAX), "18446744073709551615");
    let mut text = String::from("n=");
    push_decimal(&mut text, 420);
    assert_eq!(text, "n=420");
}

#[test]
fn lists_of_strings_are_copied_and_compared_by_text() {
    let list = vec!["nostr".to_string(), "".to_string(), "bitcoin".to_string()];
    let copy = clone_strings(&list);
    assert_eq!(copy, list);
    assert!(same_strings(&list, &copy));
    assert!(!same_strings(&list, &vec!["nostr".to_string(), "".to_string()]));
    assert!(!same_strings(
        &list,
        &vec!["nostr".to_string(), "".to_string(), "Bitcoin".to_string()]
    ));
    assert!(same_strings(&Vec::new(), &Vec::new()));
}

#[test]
fn a_text_holds_its_contiguous_parts() {
    assert!(contains("", ""));
    assert!(contains("abc", ""));
    assert!(!contains("", "a"));
    assert!(contains("abc", "abc"));
    assert!(contains("abc", "a"));
    assert!(contains("abc", "bc"));
    assert!(!contains("abc", "ac"));
    assert!(!contains("abc", "abcd"));
    assert!(!contains("abc", "B"));
    assert!(contains("aab", "ab"));
    assert!(contains("caf\u{e9} \u{4e2d}\u{6587}", "\u{e9} \u{4e2d}"));
    assert!(!contains("caf\u{e9}", "e"));
    let samples = ["", "a", "ab", "ba", "aba", "b\u{e9}b", "\u{e9}", "abab"];
    for hay in samples {
        for needle in samples {
            assert_eq!(contains(hay, needle), hay.contains(needle));
        }
    }
}
