use personal_mail_client::text::{
    blank, char_ascii_lower, char_is_whitespace, chars_of, clip_chars, decimal_string,
    first_strings, join_strings, same_ignoring_ascii_case, split_words, str_contains, string_of,
    text_eq, text_le, to_lower_case, trimmed,
};

fn chars(s: &str) -> Vec<char> {
    s.chars().collect()
}

#[test]
fn whitespace_agrees_with_the_standard_library_on_every_character() {
    let mut code: u32 = 0;
    while code <= 0x10FFFF {
        if let Some(c) = char::from_u32(code) {
            assert_eq!(char_is_whitespace(c), c.is_whitespace(), "U+{:04X}", code);
        }
        code += 1;
    }
}

#[test]
fn ascii_lower_agrees_with_the_standard_library() {
    let mut code: u32 = 0;
    while code < 0x3000 {
        if let Some(c) = char::from_u32(code) {
            assert_eq!(char_ascii_lower(c), c.to_ascii_lowercase());
        }
        code += 1;
    }
}

#[test]
fn trimmed_removes_whitespace_at_both_ends_only() {
    assert_eq!(trimmed("  hello world \t\r\n"), "hello world");
    assert_eq!(trimmed("\u{3000}a b\u{a0}"), "a b");
    assert_eq!(trimmed(""), "");
    assert_eq!(trimmed(" \n "), "");
    assert_eq!(trimmed("x"), "x");
    for sample in ["  a", "a  ", " a b ", "\tä\t", "no-space", "   "] {
        assert_eq!(trimmed(sample), sample.trim());
    }
}

#[test]
fn blank_holds_of_empty_and_whitespace_only_text() {
    assert!(blank(""));
    assert!(blank(" \t\n"));
    assert!(!blank(" a "));
}

#[test]
fn chars_and_strings_convert_both_ways() {
    let v = chars_of("héllo…");
    assert_eq!(v, vec!['h', 'é', 'l', 'l', 'o', '…']);
    assert_eq!(string_of(&v), "héllo…");
}

#[test]
fn text_eq_compares_content() {
    assert!(text_eq("gmail", "gmail"));
    assert!(!text_eq("gmail", "Gmail"));
    assert!(!text_eq("gmail", "gmai"));
    assert!(text_eq("", ""));
}

#[test]
fn str_contains_finds_substrings() {
    assert!(str_contains("server busy, try again later", "try again later"));
    assert!(str_contains("abc", ""));
    assert!(str_contains("", ""));
    assert!(!str_contains("", "a"));
    assert!(!str_contains("abc", "abcd"));
    assert!(str_contains("aab", "ab"));
    assert!(!str_contains("rat", "rate"));
    for (hay, needle) in [("hello", "ll"), ("hello", "lo"), ("hello", "he"), ("hello", "hx")] {
        assert_eq!(str_contains(hay, needle), hay.contains(needle));
    }
}

#[test]
fn same_ignoring_ascii_case_folds_ascii_letters_only() {
    assert!(same_ignoring_ascii_case(&chars("Billing"), &chars("billing")));
    assert!(same_ignoring_ascii_case(&chars("URGENT"), &chars("urgent")));
    assert!(!same_ignoring_ascii_case(&chars("urgent"), &chars("urgen")));
    assert!(!same_ignoring_ascii_case(&chars("Ä"), &chars("ä")));
    assert!(same_ignoring_ascii_case(&chars(""), &chars("")));
}

#[test]
fn join_strings_puts_the_separator_between_neighbours() {
    let parts = vec!["a".to_string(), "b".to_string(), "c".to_string()];
    assert_eq!(join_strings(&parts, ", "), "a, b, c");
    assert_eq!(join_strings(&vec!["only".to_string()], ","), "only");
    assert_eq!(join_strings(&Vec::new(), ","), "");
}

#[test]
fn decimal_string_prints_numbers() {
    assert_eq!(decimal_string(0), "0");
    assert_eq!(decimal_string(7), "7");
    assert_eq!(decimal_string(10), "10");
    assert_eq!(decimal_string(4294967295), "4294967295");
    assert_eq!(decimal_string(u64::MAX), u64::MAX.to_string());
}

#[test]
fn split_words_yields_the_runs_between_whitespace() {
    assert_eq!(split_words(&chars("  one two\r\nthree  ")), vec!["one", "two", "three"]);
    assert!(split_words(&chars(" \t ")).is_empty());
    assert!(split_words(&chars("")).is_empty());
    assert_eq!(split_words(&chars("single")), vec!["single"]);
    let sample = "a  b\u{a0}c\nd";
    let expected: Vec<String> = sample.split_whitespace().map(|s| s.to_string()).collect();
    assert_eq!(split_words(&chars(sample)), expected);
}

#[test]
fn clip_chars_cuts_and_marks_long_text() {
    assert_eq!(clip_chars(&chars("abcdef"), 3), "abc…");
    assert_eq!(clip_chars(&chars("abc"), 3), "abc");
    assert_eq!(clip_chars(&chars(""), 0), "");
    assert_eq!(clip_chars(&chars("ab"), 0), "…");
}

#[test]
fn first_strings_takes_a_prefix() {
    let list = vec!["a".to_string(), "b".to_string(), "c".to_string()];
    assert_eq!(first_strings(&list, 2), vec!["a", "b"]);
    assert_eq!(first_strings(&list, 5), vec!["a", "b", "c"]);
    assert!(first_strings(&list, 0).is_empty());
}

#[test]
fn text_le_is_the_order_of_strings() {
    let samples = ["", "a", "ab", "b", "B", "é", "abc", "abd", "z", "…"];
    for a in samples {
        for b in samples {
            assert_eq!(text_le(&chars(a), &chars(b)), a <= b, "{:?} <= {:?}", a, b);
        }
    }
}

#[test]
fn lower_case_folds_ascii_letters_and_follows_unicode_elsewhere() {
    assert_eq!(to_lower_case("POS"), "pos");
    assert_eq!(to_lower_case("HIGH"), "high");
    assert_eq!(to_lower_case("Alice@Example.COM"), "alice@example.com");
    assert_eq!(to_lower_case("a-Z_0 [9]"), "a-z_0 [9]");
    assert_eq!(to_lower_case(""), "");
    assert_eq!(to_lower_case("ÄÖ"), "äö");
    for sample in ["Rate LIMIT", "İstanbul", "ΣΑΣ", "straße", "@[\\`{"] {
        assert_eq!(to_lower_case(sample), sample.to_lowercase());
    }
}
