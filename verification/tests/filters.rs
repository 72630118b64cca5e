use docstruct::base::geometry::BBox;
use docstruct::base::model::{Block, Line, PageClass, Provenance, Span};
use docstruct::fusion::filters::{
    filter_korean_ocr_when_parser_reliable, filter_low_quality_ocr_text_blocks,
    filter_ocr_text_when_parser_reliable, filter_redundant_ocr_text_blocks,
};
use docstruct::fusion::filters::{
    filter_degraded_parser_blocks, is_duplicate_ocr_text_block, parser_reliable_for_accuracy,
    repeats_normalized_text,
};

fn text_block(text: &str, source: Provenance, bbox: BBox) -> Block {
    Block::TextBlock {
        bbox,
        lines: vec![Line {
            spans: vec![Span {
                text: text.to_string(),
                bbox,
                source,
                style: None,
            }],
        }],
        confidence: 500_000,
        source,
        debug: None,
    }
}

#[test]
fn parser_dominant_filter_drops_duplicate_ocr_snippet() {
    let parser_text = "This is a long parser block with enough content to be parser dominant \
        and should suppress duplicate OCR snippets on the same region of the page.";
    let parser = text_block(
        parser_text,
        Provenance::Parser,
        BBox::new(0, 0, 900, 700),
    );
    let ocr_dup = text_block(
        "duplicate OCR snippets on the same region",
        Provenance::Ocr,
        BBox::new(50, 60, 300, 120),
    );

    let filtered = filter_redundant_ocr_text_blocks(vec![parser, ocr_dup]);

    assert_eq!(filtered.len(), 1);
    assert_eq!(filtered[0].provenance(), Provenance::Parser);
}

#[test]
fn parser_dominant_filter_keeps_unique_ocr_text() {
    let parser_text = "This is a long parser block with enough content to be parser dominant \
        and should only remove OCR blocks that are clearly duplicated.";
    let parser = text_block(
        parser_text,
        Provenance::Parser,
        BBox::new(0, 0, 900, 700),
    );
    let ocr_unique = text_block(
        "Appendix C checksum 9A7F",
        Provenance::Ocr,
        BBox::new(50, 720, 320, 760),
    );

    let filtered = filter_redundant_ocr_text_blocks(vec![parser, ocr_unique]);

    assert_eq!(filtered.len(), 2);
    assert!(filtered
        .iter()
        .any(|block| block.provenance() == Provenance::Ocr));
}

#[test]
fn filters_noisy_ocr_text_block() {
    let parser = text_block(
        "정상 파서 텍스트 블록입니다.",
        Provenance::Parser,
        BBox::new(0, 0, 800, 300),
    );
    let ocr_noise = text_block(
        "ㅁ ㅁ ㅁ ㅁ ㅁ",
        Provenance::Ocr,
        BBox::new(10, 320, 180, 350),
    );

    let filtered = filter_low_quality_ocr_text_blocks(vec![parser, ocr_noise], false);
    assert_eq!(filtered.len(), 1);
    assert_eq!(filtered[0].provenance(), Provenance::Parser);
}

#[test]
fn filters_hanja_mixed_korean_noise() {
    let parser = text_block(
        "이것은 OCR 테스트 문서입니다.",
        Provenance::Parser,
        BBox::new(0, 0, 800, 300),
    );
    let ocr_noise = text_block(
        "이것은 哲 豆 吳 테스트 문서",
        Provenance::Ocr,
        BBox::new(10, 320, 280, 360),
    );

    let filtered = filter_low_quality_ocr_text_blocks(vec![parser, ocr_noise], false);
    assert_eq!(filtered.len(), 1);
    assert_eq!(filtered[0].provenance(), Provenance::Parser);
}

#[test]
fn drops_korean_ocr_when_parser_is_reliable() {
    let parser = text_block(
        "이것은 OCR 테스트 문서입니다. 영어와 한글을 동시에 처리할 수 있는지 확인합니다.",
        Provenance::Parser,
        BBox::new(0, 0, 900, 500),
    );
    let ocr_korean = text_block(
        "이것은 OCR 테스트 문서 입니다",
        Provenance::Ocr,
        BBox::new(10, 10, 420, 60),
    );
    let ocr_english = text_block(
        "English heading",
        Provenance::Ocr,
        BBox::new(20, 520, 260, 560),
    );

    let filtered =
        filter_korean_ocr_when_parser_reliable(vec![parser, ocr_korean, ocr_english], true);
    assert_eq!(filtered.len(), 2);
    assert!(filtered.iter().any(|b| matches!(
        b,
        Block::TextBlock {
            source: Provenance::Ocr,
            ..
        }
    )));
    assert!(!filtered.iter().any(|b| {
        matches!(
            b,
            Block::TextBlock {
                source: Provenance::Ocr,
                ..
            }
        ) && b.text_content().unwrap_or_default().contains("문서")
    }));
}

#[test]
fn drops_all_ocr_text_when_parser_is_reliable_non_scanned() {
    let parser = text_block(
        "DocStruct Stress Test Comprehensive PDF Feature Test mixed content equations tables graphics symbols \
        section one narrative text with multiple clauses and punctuation for parser dominance \
        section two equations and inline notation with additional wording to increase reliable parser coverage \
        section three tables lists diagrams hyperlinks and code fragments to represent broad page coverage",
        Provenance::Parser,
        BBox::new(0, 0, 900, 700),
    );
    let ocr_noise = text_block(
        "VxE=——, ot' V-B=0",
        Provenance::Ocr,
        BBox::new(40, 710, 420, 760),
    );

    let filtered =
        filter_ocr_text_when_parser_reliable(vec![parser, ocr_noise], PageClass::Hybrid);
    assert_eq!(filtered.len(), 1);
    assert_eq!(filtered[0].provenance(), Provenance::Parser);
}

#[test]
fn duplicates_are_judged_on_normalized_texts() {
    let parser_box = BBox::new(0, 0, 900, 700);
    let parsers = vec![("The Quick  Brown Fox jumps over the lazy dog".to_string(), parser_box)];
    let apart = BBox::new(0, 800, 100, 900);
    // too short to stand alone
    assert!(is_duplicate_ocr_text_block("a b", &apart, &parsers));
    assert!(is_duplicate_ocr_text_block("한글", &apart, &vec![]));
    assert!(!is_duplicate_ocr_text_block("word", &apart, &vec![]));
    // contained once it is normalized
    assert!(is_duplicate_ocr_text_block("QUICK brown   fox", &apart, &parsers));
    // contained, but shorter than eight characters
    assert!(!is_duplicate_ocr_text_block("lazy", &apart, &parsers));
    assert!(!is_duplicate_ocr_text_block("something else entirely", &apart, &parsers));
    // an empty parser text repeats nothing
    assert!(!is_duplicate_ocr_text_block("something", &apart, &vec![(" ".to_string(), parser_box)]));

    // similar to 0.82 or more
    assert!(repeats_normalized_text(
        "the quick brown fox jumps over the lazy dog todai",
        &apart,
        "the quick brown fox jumps over the lazy dog today",
        &parser_box
    ));
    assert!(!repeats_normalized_text("the quick brown fox jumps", &apart, "the quick brown fox jumped", &parser_box));
    // similar to 0.55 only: the boxes must overlap by 0.55 as well
    let a = "alpha beta gamma delta";
    let b = "alpha beta gamma omega";
    assert!(!repeats_normalized_text(a, &apart, b, &parser_box));
    assert!(repeats_normalized_text(a, &parser_box, b, &parser_box));
    assert!(!repeats_normalized_text(a, &BBox::new(0, 0, 900, 300), b, &parser_box));
    assert!(!repeats_normalized_text("abcdefgh", &parser_box, "", &parser_box));
}

#[test]
fn degraded_parser_text_yields_to_better_ocr() {
    let bbox = BBox::new(0, 0, 10, 10);
    let degraded = text_block("ㄱㄴㄷㄹ", Provenance::Parser, bbox);
    let mild = text_block("ㄱㄴㄷ", Provenance::Parser, bbox);
    let fused = text_block("ㄱㄴㄷㄹ", Provenance::Fused, bbox);
    let good_ocr = text_block("한글", Provenance::Ocr, bbox);
    let bad_ocr = text_block("ㄱㄴㄷㄹ", Provenance::Ocr, bbox);
    let worse_ocr = text_block("ㄱㄴㄷㄹㅁ", Provenance::Ocr, bbox);
    let kept = |blocks: Vec<Block>| filter_degraded_parser_blocks(blocks).len();
    assert_eq!(kept(vec![degraded.clone(), good_ocr.clone()]), 1);
    assert_eq!(kept(vec![good_ocr.clone(), degraded.clone(), degraded.clone()]), 1);
    // without OCR text nothing is dropped
    assert_eq!(kept(vec![degraded.clone()]), 1);
    assert_eq!(kept(vec![degraded.clone(), fused.clone()]), 2);
    // the OCR text must be better
    assert_eq!(kept(vec![degraded.clone(), bad_ocr.clone()]), 2);
    assert_eq!(kept(vec![degraded.clone(), worse_ocr.clone()]), 2);
    assert_eq!(kept(vec![degraded.clone(), worse_ocr, good_ocr.clone()]), 2);
    // quality -9 is not below -10; fused text stays
    assert_eq!(kept(vec![mild, good_ocr.clone()]), 2);
    assert_eq!(kept(vec![fused, good_ocr]), 2);
    assert_eq!(kept(vec![]), 0);
}

#[test]
fn short_ocr_text_goes_only_in_aggressive_mode() {
    let bbox = BBox::new(0, 0, 10, 10);
    let short = text_block("abc", Provenance::Ocr, bbox);
    let longer = text_block("abcd", Provenance::Ocr, bbox);
    let blank = text_block("  ", Provenance::Ocr, bbox);
    let parser = text_block("", Provenance::Parser, bbox);
    let table = Block::TableBlock { bbox, confidence: 0, source: Provenance::Ocr, debug: None };
    let all = vec![short, longer, blank, parser, table];
    let texts = |blocks: Vec<Block>| -> Vec<String> {
        blocks.iter().map(|b| b.text_content().unwrap_or("-".to_string())).collect()
    };
    assert_eq!(texts(filter_low_quality_ocr_text_blocks(all.clone(), false)), vec!["abc", "abcd", "", "-"]);
    assert_eq!(texts(filter_low_quality_ocr_text_blocks(all, true)), vec!["abcd", "", "-"]);
}

#[test]
fn reliable_parser_needs_text_quality_and_share() {
    let bbox = BBox::new(0, 0, 10, 10);
    let parser = |n: usize| text_block(&"a".repeat(n), Provenance::Parser, bbox);
    let ocr = |n: usize| text_block(&"b".repeat(n), Provenance::Ocr, bbox);
    assert!(parser_reliable_for_accuracy(&vec![parser(220)]));
    assert!(!parser_reliable_for_accuracy(&vec![parser(219)]));
    assert!(parser_reliable_for_accuracy(&vec![parser(110), parser(110)]));
    assert!(!parser_reliable_for_accuracy(&vec![]));
    assert!(!parser_reliable_for_accuracy(&vec![ocr(500)]));
    // ten times the parser's text against seven times the OCR's
    assert!(parser_reliable_for_accuracy(&vec![parser(280), ocr(400)]));
    assert!(!parser_reliable_for_accuracy(&vec![parser(279), ocr(400)]));
    assert!(parser_reliable_for_accuracy(&vec![parser(220), ocr(0)]));
    // quality: five jamo give -15, one text of quality -2 or better is needed
    let jamo = text_block(&("ㄱ".repeat(5) + &"a".repeat(300)), Provenance::Parser, bbox);
    assert!(!parser_reliable_for_accuracy(&vec![jamo.clone()]));
    assert!(parser_reliable_for_accuracy(&vec![jamo, parser(1)]));
    let fused = text_block(&"a".repeat(220), Provenance::Fused, bbox);
    assert!(parser_reliable_for_accuracy(&vec![fused.clone()]));
    assert_eq!(filter_ocr_text_when_parser_reliable(vec![fused.clone(), ocr(10)], PageClass::Digital).len(), 1);
    assert_eq!(filter_ocr_text_when_parser_reliable(vec![fused, ocr(10)], PageClass::Scanned).len(), 2);
}
