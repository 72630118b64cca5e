use docstruct::text::chars::{is_whitespace, CharClass};
use docstruct::text::decimal::{decimal, padded_decimal, signed_decimal};
use docstruct::text::lines::{parse_count, split_lines, starts_with_chars, trim_chars};
use docstruct::text::strings::{
    any_class, chars_equal, chars_of, contains_chars, count_class, distinct_char_count,
    keep_class, remove_class, string_of,
};
use docstruct::text::words::{
    collapse_whitespace_chars, distinct_words, has_word, is_blank_chars, join_chars, split_words,
};

fn cs(s: &str) -> Vec<char> {
    s.chars().collect()
}

fn strings(v: Vec<Vec<char>>) -> Vec<String> {
    v.into_iter().map(|w| w.into_iter().collect()).collect()
}

#[test]
fn strings_and_characters_convert_both_ways() {
    for s in ["", "a", "héllo", "한글 test", "\u{10FFFF}\u{0}"] {
        assert_eq!(chars_of(s), cs(s));
        assert_eq!(string_of(&cs(s)), s);
    }
    assert!(chars_equal(&cs("abc"), &cs("abc")));
    assert!(!chars_equal(&cs("abc"), &cs("abd")));
    assert!(!chars_equal(&cs("abc"), &cs("ab")));
    assert!(chars_equal(&[], &[]));
}

#[test]
fn whitespace_follows_unicode() {
    for c in 0u32..=0x3100 {
        if let Some(ch) = char::from_u32(c) {
            assert_eq!(is_whitespace(ch), ch.is_whitespace(), "U+{:04X}", c);
        }
    }
}

#[test]
fn character_classes_have_exact_borders() {
    let inside = |class: CharClass, lo: u32, hi: u32| {
        assert!(class.test(char::from_u32(lo).unwrap()));
        assert!(class.test(char::from_u32(hi).unwrap()));
        assert!(!class.test(char::from_u32(lo - 1).unwrap()));
        assert!(!class.test(char::from_u32(hi + 1).unwrap()));
    };
    inside(CharClass::HangulSyllable, 0xAC00, 0xD7A3);
    inside(CharClass::HangulJamo, 0x1100, 0x11FF);
    inside(CharClass::HangulJamo, 0x3130, 0x318F);
    inside(CharClass::HangulJamo, 0xA960, 0xA97F);
    inside(CharClass::Hanja, 0x3400, 0x4DBF);
    inside(CharClass::Hanja, 0x4E00, 0x9FFF);
    inside(CharClass::Hanja, 0xF900, 0xFAFF);
    inside(CharClass::AsciiDigit, 0x30, 0x39);
    inside(CharClass::AsciiAlphanumeric, 0x41, 0x5A);
    inside(CharClass::AsciiAlphanumeric, 0x61, 0x7A);
    inside(CharClass::AlnumOrSyllable, 0xAC00, 0xD7A3);
    assert!(CharClass::HangulJamo.test('\u{D7B0}'));
    assert!(CharClass::HangulJamo.test('\u{D7FF}'));
    assert!(!CharClass::HangulJamo.test('\u{D7AF}'));
    assert!(CharClass::Korean.test('한'));
    assert!(CharClass::Korean.test('ㄱ'));
    assert!(!CharClass::Korean.test('漢'));
    assert!(CharClass::Whitespace.test('\u{3000}'));
    for c in 0u32..128 {
        let ch = char::from_u32(c).unwrap();
        assert_eq!(CharClass::AsciiAlphanumeric.test(ch), ch.is_ascii_alphanumeric());
        assert_eq!(CharClass::AsciiDigit.test(ch), ch.is_ascii_digit());
    }
}

#[test]
fn counting_and_keeping_by_class() {
    let text = cs("a1 한ㄱ b2\t漢");
    assert_eq!(count_class(&text, CharClass::AsciiDigit), 2);
    assert_eq!(count_class(&text, CharClass::Whitespace), 3);
    assert_eq!(count_class(&text, CharClass::Korean), 2);
    assert_eq!(count_class(&[], CharClass::Korean), 0);
    assert!(any_class(&text, CharClass::Hanja));
    assert!(!any_class(&cs("abc"), CharClass::Hanja));
    assert_eq!(keep_class(&text, CharClass::AsciiAlphanumeric), cs("a1b2"));
    assert_eq!(remove_class(&text, CharClass::Whitespace), cs("a1한ㄱb2漢"));
    assert_eq!(distinct_char_count(&cs("abracadabra")), 5);
    assert_eq!(distinct_char_count(&[]), 0);
    assert_eq!(distinct_char_count(&cs("aaaa")), 1);
}

#[test]
fn substring_search() {
    assert!(contains_chars(&cs("hello world"), &cs("lo wo")));
    assert!(contains_chars(&cs("hello"), &cs("")));
    assert!(contains_chars(&cs(""), &cs("")));
    assert!(contains_chars(&cs("hello"), &cs("hello")));
    assert!(contains_chars(&cs("hello"), &cs("o")));
    assert!(!contains_chars(&cs("hello"), &cs("hello!")));
    assert!(!contains_chars(&cs("hello"), &cs("lol")));
    assert!(!contains_chars(&cs(""), &cs("a")));
    assert!(contains_chars(&cs("aaab"), &cs("aab")));
}

#[test]
fn words_are_runs_without_whitespace() {
    assert_eq!(strings(split_words(&cs("  a bc\t\n d  "))), vec!["a", "bc", "d"]);
    assert_eq!(strings(split_words(&cs(""))), Vec::<String>::new());
    assert_eq!(strings(split_words(&cs(" \u{3000} "))), Vec::<String>::new());
    assert_eq!(strings(split_words(&cs("one"))), vec!["one"]);
    for s in ["", " a  b ", "x\u{00A0}y\u{2003}z", "한 글\r\n테스트"] {
        let expected: Vec<String> = s.split_whitespace().map(|w| w.to_string()).collect();
        assert_eq!(strings(split_words(&cs(s))), expected);
    }
}

#[test]
fn joining_and_collapsing() {
    let parts = vec![cs("a"), cs(""), cs("bc")];
    assert_eq!(join_chars(&parts, &cs(", ")), cs("a, , bc"));
    assert_eq!(join_chars(&vec![], &cs(", ")), cs(""));
    assert_eq!(join_chars(&vec![cs("solo")], &cs(", ")), cs("solo"));
    assert_eq!(join_chars(&parts, &[]), cs("abc"));
    assert_eq!(collapse_whitespace_chars(&cs("  a \t b\n\nc ")), cs("a b c"));
    assert_eq!(collapse_whitespace_chars(&cs("   ")), cs(""));
    assert!(is_blank_chars(&cs(" \t")));
    assert!(is_blank_chars(&[]));
    assert!(!is_blank_chars(&cs(" . ")));
}

#[test]
fn distinct_words_keep_the_first_of_each() {
    let words = vec![cs("b"), cs("a"), cs("b"), cs("c"), cs("a")];
    assert_eq!(strings(distinct_words(&words)), vec!["b", "a", "c"]);
    assert!(has_word(&words, &cs("c")));
    assert!(!has_word(&words, &cs("d")));
    assert!(distinct_words(&vec![]).is_empty());
}

#[test]
fn trimming() {
    assert_eq!(trim_chars(&cs("  a b \n")), cs("a b"));
    assert_eq!(trim_chars(&cs("a")), cs("a"));
    assert_eq!(trim_chars(&cs("   ")), cs(""));
    assert_eq!(trim_chars(&cs("")), cs(""));
    assert_eq!(trim_chars(&cs("\u{3000}한 글\u{00A0}")), cs("한 글"));
}

#[test]
fn lines_follow_the_line_feeds() {
    for s in ["", "a", "a\n", "a\nb", "a\r\nb\r\n", "a\n\nb", "\n", "\n\n", "a\r", "a\rb\n", "\r\n", "a\r\r\nb"] {
        let expected: Vec<String> = s.lines().map(|l| l.to_string()).collect();
        assert_eq!(strings(split_lines(&cs(s))), expected, "{:?}", s);
    }
}

#[test]
fn prefixes() {
    assert!(starts_with_chars(&cs("Pages: 3"), &cs("Pages:")));
    assert!(starts_with_chars(&cs("Pages:"), &cs("Pages:")));
    assert!(starts_with_chars(&cs("x"), &cs("")));
    assert!(!starts_with_chars(&cs("Page"), &cs("Pages:")));
    assert!(!starts_with_chars(&cs(" Pages:"), &cs("Pages:")));
}

#[test]
fn counts_are_read_like_numbers() {
    assert_eq!(parse_count(&cs("0")), Some(0));
    assert_eq!(parse_count(&cs("007")), Some(7));
    assert_eq!(parse_count(&cs("+12")), Some(12));
    assert_eq!(parse_count(&cs("")), None);
    assert_eq!(parse_count(&cs("+")), None);
    assert_eq!(parse_count(&cs("-1")), None);
    assert_eq!(parse_count(&cs("1 ")), None);
    assert_eq!(parse_count(&cs("12a")), None);
    assert_eq!(parse_count(&cs("++1")), None);
    assert_eq!(parse_count(&cs("١")), None);
    let max = usize::MAX.to_string();
    assert_eq!(parse_count(&cs(&max)), Some(usize::MAX));
    let over = (usize::MAX as u128 + 1).to_string();
    assert_eq!(parse_count(&cs(&over)), None);
    assert_eq!(parse_count(&cs("99999999999999999999999999999999999999999")), None);
    for s in ["5", "+5", "05", "18446744073709551615", "18446744073709551616", "", "+", "a"] {
        assert_eq!(parse_count(&cs(s)), s.parse::<usize>().ok(), "{:?}", s);
    }
}

#[test]
fn decimal_numerals() {
    assert_eq!(decimal(0), cs("0"));
    assert_eq!(decimal(7), cs("7"));
    assert_eq!(decimal(10), cs("10"));
    assert_eq!(decimal(1234567890), cs("1234567890"));
    assert_eq!(decimal(u128::MAX), cs(&u128::MAX.to_string()));
    assert_eq!(padded_decimal(7, 3), cs("007"));
    assert_eq!(padded_decimal(0, 2), cs("00"));
    assert_eq!(padded_decimal(123, 3), cs("123"));
    assert_eq!(padded_decimal(1234, 3), cs("1234"));
    assert_eq!(padded_decimal(5, 0), cs("5"));
    assert_eq!(signed_decimal(0), cs("0"));
    assert_eq!(signed_decimal(-1), cs("-1"));
    assert_eq!(signed_decimal(42), cs("42"));
    assert_eq!(signed_decimal(i64::MIN), cs(&i64::MIN.to_string()));
    assert_eq!(signed_decimal(i64::MAX), cs(&i64::MAX.to_string()));
}
