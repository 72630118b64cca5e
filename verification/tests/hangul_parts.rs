use docstruct::parser::hangul::{
    combine_hangul, compose_jamo, compose_syllable, get_choseong_index, get_jongseong_index,
    get_jungseong_index, is_choseong, is_hangul_jamo_or_compat, is_jongseong, is_jungseong,
    remove_intra_jamo_whitespace,
};

#[test]
fn jamo_indices() {
    assert_eq!(get_choseong_index('\u{1100}'), Some(0));
    assert_eq!(get_choseong_index('\u{1112}'), Some(18));
    assert_eq!(get_choseong_index('\u{1113}'), None);
    assert_eq!(get_choseong_index('\u{10FF}'), None);
    assert_eq!(get_jungseong_index('\u{1161}'), Some(0));
    assert_eq!(get_jungseong_index('\u{1175}'), Some(20));
    assert_eq!(get_jungseong_index('\u{1160}'), None);
    assert_eq!(get_jungseong_index('\u{1176}'), None);
    assert_eq!(get_jongseong_index('\u{11A8}'), Some(1));
    assert_eq!(get_jongseong_index('\u{11C2}'), Some(27));
    assert_eq!(get_jongseong_index('\u{11A7}'), None);
    assert_eq!(get_jongseong_index('\u{11C3}'), None);
    assert!(is_choseong('ᄒ'));
    assert!(!is_choseong('ㅎ'));
    assert!(is_jungseong('ᅡ'));
    assert!(!is_jungseong('ㅏ'));
    assert!(is_jongseong('ᆫ'));
    assert!(!is_jongseong('ᄂ'));
    assert!(is_hangul_jamo_or_compat('ㄱ'));
    assert!(is_hangul_jamo_or_compat('ᄀ'));
    assert!(is_hangul_jamo_or_compat('\u{A960}'));
    assert!(is_hangul_jamo_or_compat('\u{D7B0}'));
    assert!(!is_hangul_jamo_or_compat('가'));
    assert!(!is_hangul_jamo_or_compat('a'));
}

#[test]
fn syllables_are_composed_by_formula() {
    assert_eq!(compose_syllable(0, 0, 0), Some('가'));
    assert_eq!(compose_syllable(18, 0, 4), Some('한'));
    assert_eq!(compose_syllable(0, 18, 8), Some('글'));
    assert_eq!(compose_syllable(18, 20, 27), Some('\u{D7A3}'));
    assert_eq!(compose_syllable(0, 0, 1), Some('\u{AC01}'));
    assert_eq!(compose_syllable(0, 1, 0), Some('\u{AC1C}'));
    assert_eq!(compose_syllable(1, 0, 0), Some('\u{AE4C}'));
    assert_eq!(compose_syllable(19, 0, 0), None);
    assert_eq!(compose_syllable(0, 21, 0), None);
    assert_eq!(compose_syllable(0, 0, 28), None);
    assert_eq!(compose_syllable(u32::MAX, u32::MAX, u32::MAX), None);
}

#[test]
fn whitespace_between_jamo_is_removed() {
    assert_eq!(remove_intra_jamo_whitespace("ᄒ ᅡ ᆫ ᄀ ᅳ ᆯ"), "한글");
    assert_eq!(remove_intra_jamo_whitespace("ᄀ \t\n ᅡ"), "가");
    assert_eq!(remove_intra_jamo_whitespace("ㄱ ㅏ"), "ㄱㅏ");
    // whitespace beside anything else stays
    assert_eq!(remove_intra_jamo_whitespace("a ᄀ"), "a ᄀ");
    assert_eq!(remove_intra_jamo_whitespace("ᄀ a"), "ᄀ a");
    assert_eq!(remove_intra_jamo_whitespace(" ᄀ "), " ᄀ ");
    assert_eq!(remove_intra_jamo_whitespace("한 글"), "한 글");
    assert_eq!(remove_intra_jamo_whitespace("Hello  world"), "Hello  world");
    assert_eq!(remove_intra_jamo_whitespace(""), "");
    assert_eq!(remove_intra_jamo_whitespace("   "), "   ");
    assert_eq!(remove_intra_jamo_whitespace("ᄀ ᅡ x ᄂ ᅡ"), "가 x 나");
}

#[test]
fn jamo_are_composed_left_to_right() {
    assert_eq!(compose_jamo("한글"), "한글");
    assert_eq!(compose_jamo("가"), "가");
    assert_eq!(compose_jamo("ᄀ"), "ᄀ");
    assert_eq!(compose_jamo("ᅡᆫ"), "ᅡᆫ");
    assert_eq!(compose_jamo("ᄀ가"), "ᄀ가");
    assert_eq!(compose_jamo("간ᆫ"), "간ᆫ");
    assert_eq!(compose_jamo("가ᄂ"), "가ᄂ");
    assert_eq!(compose_jamo("a가b"), "a가b");
    assert_eq!(compose_jamo(""), "");
    // compatibility jamo are no conjoining jamo
    assert_eq!(compose_jamo("ㄱㅏ"), "ㄱㅏ");
    // a syllable and a trailing consonant are left as they are
    assert_eq!(compose_jamo("간"), "간");
}

#[test]
fn combination_covers_all_three_kinds_of_jamo() {
    // every leading consonant with the first vowel
    for cho in 0..19u32 {
        let input: String = [char::from_u32(0x1100 + cho).unwrap(), ' ', '\u{1161}'].iter().collect();
        let expected: String = [char::from_u32(0xAC00 + cho * 588).unwrap()].iter().collect();
        assert_eq!(combine_hangul(&input), expected);
    }
    // every vowel after the first leading consonant
    for jung in 0..21u32 {
        let input: String = ['\u{1100}', char::from_u32(0x1161 + jung).unwrap()].iter().collect();
        let expected: String = [char::from_u32(0xAC00 + jung * 28).unwrap()].iter().collect();
        assert_eq!(combine_hangul(&input), expected);
    }
    // every trailing consonant
    for jong in 1..28u32 {
        let input: String = ['\u{1100}', ' ', '\u{1161}', ' ', char::from_u32(0x11A7 + jong).unwrap()].iter().collect();
        let expected: String = [char::from_u32(0xAC00 + jong).unwrap()].iter().collect();
        assert_eq!(combine_hangul(&input), expected);
    }
}

#[test]
fn combination_reads_compatibility_jamo() {
    assert_eq!(combine_hangul("ㄱㅏ"), "가");
    // a compatibility consonant stands for a leading consonant, never for a trailing one
    assert_eq!(combine_hangul("ㅎ ㅏ ㄴ ㄱ ㅡ ㄹ"), "\u{D558}\u{1102}\u{ADF8}\u{1105}");
    assert_eq!(combine_hangul("ㅎㅏㄴㄱㅡㄹ ㅌㅔㅅㅡㅌㅡ"), "\u{D558}\u{1102}\u{ADF8}\u{1105} \u{D14C}\u{C2A4}\u{D2B8}");
    assert_eq!(combine_hangul("한 글"), "한 글");
    assert_eq!(combine_hangul("Hello, world"), "Hello, world");
    assert_eq!(combine_hangul(""), "");
    // compatibility forms of other scripts are normalized too
    assert_eq!(combine_hangul("ｆｕｌｌ　ｗｉｄｔｈ"), "full width");
    assert_eq!(combine_hangul("e\u{301}"), "\u{e9}");
}
