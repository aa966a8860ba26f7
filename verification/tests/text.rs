use fast_file::text::{
    byte_len, chars_of, contains, ends_with, find_from, is_blank, lower_chars_of, matches_at,
    same_text, starts_with, utf8_width,
};

fn chars(s: &str) -> Vec<char> {
    s.chars().collect()
}

#[test]
fn chars_of_keeps_order() {
    assert_eq!(chars_of("héllo"), vec!['h', 'é', 'l', 'l', 'o']);
    assert_eq!(chars_of(""), Vec::<char>::new());
}

#[test]
fn lower_chars_of_lowers_every_letter() {
    assert_eq!(lower_chars_of("MaIn.RS"), chars("main.rs"));
    assert_eq!(lower_chars_of("ÄÖÜ"), chars("äöü"));
    assert_eq!(lower_chars_of("İ"), chars("i\u{307}"));
}

#[test]
fn matches_at_tests_one_place() {
    assert!(matches_at(&chars("hello"), &chars("ell"), 1));
    assert!(!matches_at(&chars("hello"), &chars("ell"), 0));
    assert!(!matches_at(&chars("hello"), &chars("llo!"), 2));
    assert!(matches_at(&chars("hello"), &chars(""), 5));
    assert!(!matches_at(&chars("hello"), &chars(""), 6));
    assert!(!matches_at(&chars("hello"), &chars("o"), usize::MAX));
}

#[test]
fn find_from_returns_the_first_place() {
    assert_eq!(find_from(&chars("abcabc"), &chars("bc"), 0), Some(1));
    assert_eq!(find_from(&chars("abcabc"), &chars("bc"), 2), Some(4));
    assert_eq!(find_from(&chars("abcabc"), &chars("bc"), 5), None);
    assert_eq!(find_from(&chars("abc"), &chars(""), 3), Some(3));
    assert_eq!(find_from(&chars("abc"), &chars(""), 4), None);
    assert_eq!(find_from(&chars("abc"), &chars("abcd"), 0), None);
}

#[test]
fn contains_starts_and_ends() {
    assert!(contains(&chars("domain"), &chars("main")));
    assert!(!contains(&chars("domain"), &chars("mane")));
    assert!(contains(&chars(""), &chars("")));
    assert!(starts_with(&chars("main.rs"), &chars("main")));
    assert!(!starts_with(&chars("domain"), &chars("main")));
    assert!(starts_with(&chars("x"), &chars("")));
    assert!(ends_with(&chars("main.rs"), &chars(".rs")));
    assert!(!ends_with(&chars("main.rs"), &chars("main")));
    assert!(!ends_with(&chars("rs"), &chars(".rs")));
    assert!(ends_with(&chars("rs"), &chars("")));
}

#[test]
fn utf8_width_of_each_range() {
    assert_eq!(utf8_width('a'), 1);
    assert_eq!(utf8_width('\u{7f}'), 1);
    assert_eq!(utf8_width('\u{80}'), 2);
    assert_eq!(utf8_width('é'), 2);
    assert_eq!(utf8_width('\u{7ff}'), 2);
    assert_eq!(utf8_width('\u{800}'), 3);
    assert_eq!(utf8_width('€'), 3);
    assert_eq!(utf8_width('\u{ffff}'), 3);
    assert_eq!(utf8_width('\u{10000}'), 4);
    assert_eq!(utf8_width('🦀'), 4);
    for c in ['a', 'é', '€', '🦀', '\u{0}', '\u{10ffff}'] {
        assert_eq!(utf8_width(c), c.len_utf8());
    }
}

#[test]
fn byte_len_counts_bytes() {
    assert_eq!(byte_len(""), 0);
    assert_eq!(byte_len("aé€🦀"), 10);
}

#[test]
fn blank_is_nothing_but_whitespace() {
    assert!(is_blank(""));
    assert!(is_blank(" \t\n\u{a0}"));
    assert!(!is_blank(" x "));
}

#[test]
fn same_text_compares_characters() {
    assert!(same_text("", ""));
    assert!(same_text("héllo", "héllo"));
    assert!(!same_text("hello", "hellO"));
    assert!(!same_text("hello", "hell"));
    assert!(!same_text("", "x"));
}
