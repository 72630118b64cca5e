use docstruct::fusion::compare::{
    normalized_levenshtein, numeric_mismatch, text_similarity, token_overlap,
};
use docstruct::fusion::quality::{
    has_korean_chars, hanja_count, is_blank_text, is_korean_parser_degraded, is_noisy_normalized,
    is_noisy_ocr_text, korean_text_quality, normalize_text_for_compare,
};

#[test]
fn similarity_penalizes_numeric_mismatch() {
    let score = text_similarity("2024 report", "2023 report");
    assert!(score < 900_000);
}

#[test]
fn similarity_of_report_years_is_exact() {
    // edit distance 1 of 11 characters, one of three distinct words shared, digits differ
    assert_eq!(normalized_levenshtein("2024 report", "2023 report"), 909_090);
    assert_eq!(token_overlap("2024 report", "2023 report"), 333_333);
    assert!(numeric_mismatch("2024 report", "2023 report"));
    assert_eq!(text_similarity("2024 report", "2023 report"), 521_211);
}

#[test]
fn similarity_of_a_text_with_itself_is_one() {
    for x in ["a", "Hello", "2024 report", "  spaced   out  ", "한글 테스트", "x\ty\nz", "9"] {
        assert_eq!(text_similarity(x, x), 1_000_000, "{:?}", x);
    }
}

#[test]
fn similarity_of_a_blank_text_with_itself_is_a_half() {
    assert_eq!(text_similarity(" ", " "), 500_000);
    assert_eq!(text_similarity("\t\n", "\t\n"), 500_000);
}

#[test]
fn similarity_is_zero_when_a_side_is_empty() {
    assert_eq!(text_similarity("", ""), 0);
    assert_eq!(text_similarity("", "abc"), 0);
    assert_eq!(text_similarity("abc", ""), 0);
}

#[test]
fn similarity_stays_in_range() {
    let texts = ["a", "b", "1", "2", "a 1", "b 2", "kitten", "sitting", "x y z", "z y x w"];
    for a in texts {
        for b in texts {
            let s = text_similarity(a, b);
            assert!(s <= 1_000_000);
            assert_eq!(s, text_similarity(b, a));
        }
    }
    // nothing in common and differing digits: the penalty would go below zero
    assert_eq!(text_similarity("1", "2"), 0);
}

#[test]
fn edit_distance_is_normalized_by_the_longer_text() {
    // kitten -> sitting: 3 edits, 7 characters
    assert_eq!(normalized_levenshtein("kitten", "sitting"), 571_428);
    assert_eq!(normalized_levenshtein("", ""), 1_000_000);
    assert_eq!(normalized_levenshtein("", "second"), 0);
    assert_eq!(normalized_levenshtein("first", ""), 0);
    assert_eq!(normalized_levenshtein("string", "string"), 1_000_000);
    // characters count, not bytes
    assert_eq!(normalized_levenshtein("한글", "한국"), 500_000);
}

#[test]
fn word_overlap_counts_distinct_words() {
    assert_eq!(token_overlap("a b c", "b c d"), 500_000);
    assert_eq!(token_overlap("a a a", "a"), 1_000_000);
    assert_eq!(token_overlap("a b", "c d"), 0);
    assert_eq!(token_overlap("", "a"), 0);
    assert_eq!(token_overlap("   ", "a"), 0);
    assert_eq!(token_overlap("a  b\tc", "c\nb a"), 1_000_000);
    assert_eq!(token_overlap("a b c d e f g", "a"), 142_857);
}

#[test]
fn digits_are_compared_as_streams() {
    assert!(!numeric_mismatch("abc", "abc 1"));
    assert!(!numeric_mismatch("a1b2", "12"));
    assert!(numeric_mismatch("12", "21"));
    assert!(numeric_mismatch("1", "11"));
    assert!(!numeric_mismatch("", ""));
    // only ASCII digits count
    assert!(!numeric_mismatch("١٢", "1"));
}

#[test]
fn korean_quality_counts_syllables_and_jamo() {
    assert_eq!(korean_text_quality(""), 0);
    assert_eq!(korean_text_quality("hello"), 0);
    assert_eq!(korean_text_quality("한글"), 4);
    assert_eq!(korean_text_quality("ㅁ ㅁ ㅁ ㅁ ㅁ"), -15);
    assert_eq!(korean_text_quality("한ㄱ"), -1);
    // one character of each jamo block, and the ends of the syllable block
    assert_eq!(korean_text_quality("\u{1100}\u{11FF}\u{3130}\u{318F}\u{A960}\u{A97F}\u{D7B0}\u{D7FF}"), -24);
    assert_eq!(korean_text_quality("\u{AC00}\u{D7A3}"), 4);
    assert_eq!(korean_text_quality("\u{10FF}\u{1200}\u{312F}\u{3190}\u{A95F}\u{A980}\u{D7A4}\u{ABFF}"), 0);
}

#[test]
fn korean_presence_and_degradation() {
    assert!(has_korean_chars("abc 한"));
    assert!(has_korean_chars("ㄱ"));
    assert!(!has_korean_chars("abc 漢字"));
    assert!(!has_korean_chars(""));
    assert!(is_korean_parser_degraded("ㄱ"));
    assert!(!is_korean_parser_degraded("한ㄱ"));
    assert!(is_korean_parser_degraded("한ㄱㄴ"));
    assert!(!is_korean_parser_degraded("abc"));
}

#[test]
fn hanja_are_counted_by_block() {
    assert_eq!(hanja_count("哲 豆 吳"), 3);
    assert_eq!(hanja_count("\u{3400}\u{4DBF}\u{4E00}\u{9FFF}\u{F900}\u{FAFF}"), 6);
    assert_eq!(hanja_count("\u{33FF}\u{4DC0}\u{A000}\u{F8FF}\u{FB00}abc한"), 0);
}

#[test]
fn normalization_collapses_whitespace_and_lowers_case() {
    assert_eq!(normalize_text_for_compare("  Hello \t\n World  "), "hello world");
    assert_eq!(normalize_text_for_compare("ÀB"), "àb");
    assert_eq!(normalize_text_for_compare(""), "");
    assert_eq!(normalize_text_for_compare(" \u{3000} "), "");
    assert_eq!(normalize_text_for_compare("a\u{00A0}b\u{2003}c"), "a b c");
}

#[test]
fn blank_texts() {
    assert!(is_blank_text(""));
    assert!(is_blank_text(" \t\r\n\u{000B}\u{000C}\u{0085}\u{00A0}\u{1680}\u{2000}\u{200A}\u{2028}\u{2029}\u{202F}\u{205F}\u{3000}"));
    assert!(!is_blank_text(" a "));
    // zero-width space and the Mongolian vowel separator are not whitespace
    assert!(!is_blank_text("\u{200B}"));
    assert!(!is_blank_text("\u{180E}"));
}

#[test]
fn noisy_ocr_text_by_each_rule() {
    // too short
    assert!(is_noisy_ocr_text(""));
    assert!(is_noisy_ocr_text(" a "));
    // next to no letters
    assert!(is_noisy_ocr_text("-- a --"));
    assert!(!is_noisy_ocr_text("ab"));
    // one or two characters repeated
    assert!(is_noisy_ocr_text("ababab"));
    assert!(!is_noisy_ocr_text("ababa"));
    assert!(!is_noisy_ocr_text("abcabc"));
    // Hangul with two Han ideographs
    assert!(is_noisy_ocr_text("이것은 哲 豆 테스트"));
    assert!(!is_noisy_ocr_text("이것은 哲 테스트"));
    // Korean of quality below -6
    assert!(is_noisy_ocr_text("한글 ㄱㄴㄷㄹ ab"));
    assert!(!is_noisy_ocr_text("한글 ㄱㄴㄷ ab"));
    // sound text
    assert!(!is_noisy_ocr_text("English heading"));
    assert!(!is_noisy_ocr_text("이것은 OCR 테스트 문서입니다."));
}

#[test]
fn noise_is_judged_on_the_normalized_text() {
    assert!(is_noisy_normalized("a"));
    assert!(!is_noisy_normalized("ab"));
    assert!(!is_noisy_normalized("a a a"));
    assert!(is_noisy_normalized("a a a a"));
    // upper case counts as two more characters until it is lowered
    assert!(!is_noisy_normalized("aAbBaA"));
    assert!(is_noisy_ocr_text("aAaAaA"));
}
