use docstruct::base::geometry::BBox;
use docstruct::base::model::{Block, BlockKind, Provenance};
use docstruct::ocr::bridge::{default_block_type, default_confidence, OcrBridge, OcrToken};
use docstruct::ocr::layout_builder::OcrLayoutBuilder;
use docstruct::ocr::PageRenderer;
use docstruct::parser::layout_builder::ParserLayoutBuilder;
use docstruct::parser::pdf_reader::{parse_page_count, PageCountError};
use docstruct::parser::text_extractor::{
    clean_decomposed_korean_lines, clean_tool_output, hangul_quality_score,
    is_degraded_korean_text, judge_text, korean_counts, select_glyph_text, GlyphOutcome, GlyphRun,
};
use docstruct::parser::PdfReader;
use docstruct::pipeline::PipelineConfig;
use docstruct::parser::text_extractor::{extraction_modes, tool_arguments, PdfToTextMode};

fn token(kind: &str, text: &str, latex: Option<&str>) -> OcrToken {
    OcrToken {
        text: text.to_string(),
        bbox: [1, 2, 30, 40],
        confidence: 900_000,
        block_type: kind.to_string(),
        latex: latex.map(|l| l.to_string()),
    }
}

#[test]
fn page_count_is_read_from_the_pages_line() {
    assert_eq!(parse_page_count("Title: x\nPages:          3\nEncrypted: no\n"), Ok(3));
    assert_eq!(parse_page_count("Pages:3"), Ok(3));
    assert_eq!(parse_page_count("Pages: +4\r\n"), Ok(4));
    assert_eq!(parse_page_count("Pages: 0"), Ok(0));
    assert_eq!(parse_page_count("Pages: abc"), Err(PageCountError::InvalidPageCount));
    assert_eq!(parse_page_count("Pages:"), Err(PageCountError::InvalidPageCount));
    assert_eq!(parse_page_count("Pages: -1"), Err(PageCountError::InvalidPageCount));
    assert_eq!(parse_page_count("Pages: 1 2"), Err(PageCountError::InvalidPageCount));
    assert_eq!(parse_page_count(""), Err(PageCountError::MissingPagesLine));
    assert_eq!(parse_page_count("Title: x\n"), Err(PageCountError::MissingPagesLine));
    assert_eq!(parse_page_count(" Pages: 3"), Err(PageCountError::MissingPagesLine));
    assert_eq!(parse_page_count("pages: 3"), Err(PageCountError::MissingPagesLine));
    // the first line that begins with the keyword decides
    assert_eq!(parse_page_count("Pages: x\nPages: 3"), Err(PageCountError::InvalidPageCount));
    assert_eq!(parse_page_count("Pages: 7\nPages: 3"), Ok(7));
    let reader = PdfReader::new("some/file.pdf".to_string());
    assert_eq!(reader.path(), "some/file.pdf");
    assert_eq!(reader.page_count("Producer: x\nPages: 12\n"), Ok(12));
}

#[test]
fn hangul_score_and_degradation() {
    assert_eq!(hangul_quality_score("한글"), 6);
    assert_eq!(hangul_quality_score("ㄱㄴ"), -4);
    assert_eq!(hangul_quality_score("한ㄱ abc"), 1);
    assert_eq!(hangul_quality_score(""), 0);
    assert_eq!(korean_counts("한글ㄱ abc"), (2, 1));
    assert!(is_degraded_korean_text("한글ㄱㄴㄷㄹㅁㅂ"));
    assert!(!is_degraded_korean_text("한글ㄱㄴㄷㄹㅁ"));
    assert!(!is_degraded_korean_text("한글한ㄱㄴㄷㄹㅁㅂ"));
    assert!(is_degraded_korean_text("ㄱㄴㄷㄹㅁㅂㅅㅇ"));
    assert!(!is_degraded_korean_text("ㄱㄴㄷㄹㅁㅂㅅ"));
}

#[test]
fn jamo_noise_lines_are_dropped() {
    assert_eq!(clean_decomposed_korean_lines("  Hello  \n\n\nㄱㄴㄷ\nworld\n"), "Hello\n\nworld");
    assert_eq!(clean_decomposed_korean_lines("\n\nabc"), "abc");
    assert_eq!(clean_decomposed_korean_lines("abc\n\n"), "abc\n");
    assert_eq!(clean_decomposed_korean_lines(""), "");
    assert_eq!(clean_decomposed_korean_lines("ㄱㄴ"), "");
    assert_eq!(clean_decomposed_korean_lines("ㄱ"), "ㄱ");
    assert_eq!(clean_decomposed_korean_lines("한ㄱㄴㄷㄹ\n한글ㄱㄴㄷㄹ"), "한글ㄱㄴㄷㄹ");
    assert_eq!(clean_decomposed_korean_lines("한ㄱㄴㄷ"), "한ㄱㄴㄷ");
    assert_eq!(clean_decomposed_korean_lines("a\r\nb"), "a\nb");
    assert_eq!(clean_decomposed_korean_lines("a\nㄱㄴ\n\nㄱㄴ\nb"), "a\n\nb");
}

#[test]
fn tool_output_is_cleaned() {
    assert_eq!(clean_tool_output("  text\u{000C}\n"), Some("text".to_string()));
    assert_eq!(clean_tool_output("a\u{000C}b"), Some("ab".to_string()));
    assert_eq!(clean_tool_output("\u{000C}\n \u{000C}"), None);
    assert_eq!(clean_tool_output(""), None);
}

#[test]
fn the_best_text_is_selected_and_judged() {
    let runs = |raws: &[&str]| select_glyph_text(&raws.iter().map(|r| r.to_string()).collect());
    assert!(matches!(runs(&[]), GlyphOutcome::Unreadable));
    match runs(&["\u{1112}\u{1161}\u{11ab}\u{1100}\u{1173}\u{11af}", "abc"]) {
        GlyphOutcome::Text(run) => {
            assert_eq!(run.text, "한글");
            assert_eq!(run.bbox, BBox::new(0, 0, 1000, 1400));
        }
        other => panic!("{:?}", other),
    }
    // of texts with the same score the last one is kept
    match runs(&["abc", "def"]) {
        GlyphOutcome::Text(run) => assert_eq!(run.text, "def"),
        other => panic!("{:?}", other),
    }
    match runs(&["한글", "abc", "한"]) {
        GlyphOutcome::Text(run) => assert_eq!(run.text, "한글"),
        other => panic!("{:?}", other),
    }
    assert!(matches!(runs(&["ㄱㄴㄷㄹㅁㅂㅅㅇ"]), GlyphOutcome::Empty));
    assert!(matches!(runs(&[""]), GlyphOutcome::Empty));
    assert!(matches!(runs(&["한글ㄱㄴㄷㄹㅁ\n한글ㄱㄴㄷㄹㅁ"]), GlyphOutcome::Degraded));
    assert!(matches!(judge_text("한글ㄱㄴㄷㄹㅁ\n한글ㄱㄴㄷㄹㅁ"), GlyphOutcome::Degraded));
    assert!(matches!(judge_text("plain text"), GlyphOutcome::Text(_)));
    assert!(runs(&[]).into_runs().is_empty());
    assert!(runs(&["ㄱㄴㄷㄹㅁㅂㅅㅇ"]).into_runs().is_empty());
    let found = runs(&["page text"]).into_runs();
    assert_eq!(found.len(), 1);
    assert_eq!(found[0].text, "page text");
}

#[test]
fn parser_page_holds_one_block_for_all_runs() {
    let builder = ParserLayoutBuilder::new();
    let empty = builder.page_from_runs(vec![], 4);
    assert_eq!(empty.page_idx, 4);
    assert!(empty.blocks.is_empty());
    assert_eq!((empty.width, empty.height), (1000, 1400));
    let runs = vec![
        GlyphRun { text: "first".to_string(), bbox: BBox::new(10, 10, 50, 20) },
        GlyphRun { text: "second".to_string(), bbox: BBox::new(0, 30, 40, 90) },
    ];
    let page = builder.page_from_runs(runs, 2);
    assert_eq!(page.page_idx, 2);
    assert_eq!(page.blocks.len(), 1);
    match &page.blocks[0] {
        Block::TextBlock { bbox, lines, confidence, source, debug } => {
            assert_eq!(*bbox, BBox::new(0, 10, 50, 90));
            assert_eq!(*confidence, 600_000);
            assert_eq!(*source, Provenance::Parser);
            assert!(debug.is_none());
            assert_eq!(lines.len(), 1);
            assert_eq!(lines[0].spans.len(), 2);
            assert_eq!(lines[0].spans[0].text, "first");
            assert_eq!(lines[0].spans[1].bbox, BBox::new(0, 30, 40, 90));
            assert_eq!(lines[0].spans[1].source, Provenance::Parser);
        }
        other => panic!("{:?}", other),
    }
    assert_eq!(page.blocks[0].text_content().unwrap(), "first second");
}

#[test]
fn bridge_settings() {
    let bridge = OcrBridge::new("out/ocr".to_string());
    assert_eq!(bridge.work_dir(), "out/ocr");
    assert_eq!(bridge.script_path(), "ocr/bridge/ocr_bridge.py");
    assert_eq!(bridge.lang(), "eng+kor");
    let bridge = bridge.with_script("tools/ocr.py".to_string()).with_lang("kor".to_string());
    assert_eq!(bridge.work_dir(), "out/ocr");
    assert_eq!(bridge.script_path(), "tools/ocr.py");
    assert_eq!(bridge.lang(), "kor");
    assert_eq!(bridge.command_arguments("page.png"), vec!["tools/ocr.py", "--image", "page.png", "--lang", "kor"]);
    assert_eq!(default_block_type(), "text");
    assert_eq!(default_confidence(), 500_000);
}

#[test]
fn tokens_become_blocks() {
    let builder = OcrLayoutBuilder::new(OcrBridge::new("w".to_string()));
    assert_eq!(builder.bridge().work_dir(), "w");
    let bbox = BBox::new(1, 2, 30, 40);
    let table = builder.token_to_block(token("table", "ignored", None));
    assert_eq!(table.block_kind(), BlockKind::Table);
    assert_eq!(table.bbox(), bbox);
    assert_eq!(table.confidence(), 500_000);
    assert_eq!(table.provenance(), Provenance::Ocr);
    assert_eq!(builder.token_to_block(token("figure", "", None)).block_kind(), BlockKind::Figure);
    match builder.token_to_block(token("math", "", Some("x^2"))) {
        Block::MathBlock { latex, .. } => assert_eq!(latex.as_deref(), Some("x^2")),
        other => panic!("{:?}", other),
    }
    match builder.token_to_block(token("math", "", Some(""))) {
        Block::MathBlock { latex, .. } => assert_eq!(latex, None),
        other => panic!("{:?}", other),
    }
    match builder.token_to_block(token("math", "", None)) {
        Block::MathBlock { latex, .. } => assert_eq!(latex, None),
        other => panic!("{:?}", other),
    }
    for kind in ["text", "Table", "", "heading"] {
        let block = builder.token_to_block(token(kind, "words here", Some("x")));
        assert_eq!(block.block_kind(), BlockKind::Text);
        assert_eq!(block.text_content().unwrap(), "words here");
        assert_eq!(block.bbox(), bbox);
        assert_eq!(block.confidence(), 500_000);
    }
    let page = builder.page_from_tokens(vec![token("text", "a", None), token("table", "", None), token("text", "b", None)], 9);
    assert_eq!(page.page_idx, 9);
    assert_eq!((page.width, page.height), (1000, 1400));
    let kinds: Vec<BlockKind> = page.blocks.iter().map(|b| b.block_kind()).collect();
    assert_eq!(kinds, vec![BlockKind::Text, BlockKind::Table, BlockKind::Text]);
    assert_eq!(page.blocks[2].text_content().unwrap(), "b");
    assert!(builder.page_from_tokens(vec![], 0).blocks.is_empty());
}

#[test]
fn rendered_pages_have_nominal_sizes_and_names() {
    let renderer = PageRenderer::new("out/debug".to_string(), 200);
    assert_eq!(renderer.out_dir(), "out/debug");
    assert_eq!(renderer.dpi(), 200);
    assert_eq!(renderer.nominal_size(), (1000, 1400));
    assert_eq!(PageRenderer::new(String::new(), 300).nominal_size(), (1500, 2100));
    assert_eq!(PageRenderer::new(String::new(), 0).nominal_size(), (0, 0));
    assert_eq!(PageRenderer::new(String::new(), u32::MAX).nominal_size(), (u32::MAX, u32::MAX));
    assert_eq!(PageRenderer::new(String::new(), 700_000_000).nominal_size(), (3_500_000_000, u32::MAX));
    assert_eq!(PageRenderer::image_prefix(0), "page_001");
    assert_eq!(PageRenderer::image_prefix(41), "page_042");
    assert_eq!(PageRenderer::image_prefix(999), "page_1000");
    assert_eq!(PageRenderer::image_file_name(0), "page_001-1.png");
    assert_eq!(PageRenderer::image_file_name(11), "page_012-12.png");
    let page = renderer.rendered_page("out/debug/page_001-1.png".to_string());
    assert_eq!(page.path, "out/debug/page_001-1.png");
    assert_eq!((page.width, page.height), (1000, 1400));
}

#[test]
fn pipeline_configuration() {
    let config = PipelineConfig::new("in.pdf".to_string(), "out".to_string(), 150);
    assert_eq!(config.input, "in.pdf");
    assert_eq!(config.output, "out");
    assert_eq!(config.dpi, 150);
}

#[test]
fn collaborators_are_started_with_these_arguments() {
    let renderer = PageRenderer::new("out".to_string(), 200);
    assert_eq!(
        renderer.command_arguments("doc.pdf", 0, "out/page_001"),
        vec!["-png", "-r", "200", "-f", "1", "-l", "1", "doc.pdf", "out/page_001"]
    );
    assert_eq!(
        PageRenderer::new(String::new(), 72).command_arguments("d.pdf", 11, "p"),
        vec!["-png", "-r", "72", "-f", "12", "-l", "12", "d.pdf", "p"]
    );
    assert_eq!(extraction_modes(), vec![PdfToTextMode::Raw, PdfToTextMode::Default, PdfToTextMode::Layout]);
    assert_eq!(tool_arguments("d.pdf", 0, PdfToTextMode::Default), vec!["-f", "1", "-l", "1", "-nopgbrk", "d.pdf", "-"]);
    assert_eq!(tool_arguments("d.pdf", 4, PdfToTextMode::Raw), vec!["-f", "5", "-l", "5", "-nopgbrk", "-raw", "d.pdf", "-"]);
    assert_eq!(tool_arguments("d.pdf", 9, PdfToTextMode::Layout), vec!["-f", "10", "-l", "10", "-nopgbrk", "-layout", "d.pdf", "-"]);
}

#[test]
fn test_parser_pipeline_with_test_document() {
    let pdf_reader = PdfReader::new("test/test_document.pdf".to_string());
    let page_count = pdf_reader.page_count("Title:          Test Document\nProducer:       pdfTeX\nPages:          2\nPage size:      595.276 x 841.89 pts (A4)\n");
    assert!(page_count.unwrap() > 0, "test_document.pdf should have at least one page");

    let parser_track = ParserLayoutBuilder::new();
    let raws = vec!["Test Document\n\nFirst paragraph of the first page.\n".to_string()];
    let page_hypo = parser_track.page_from_runs(select_glyph_text(&raws).into_runs(), 0);

    assert_eq!(page_hypo.page_idx, 0);
    assert!(page_hypo.width > 0);
    assert!(page_hypo.height > 0);
    assert!(!page_hypo.blocks.is_empty(), "Should extract at least one block from test_document.pdf");

    let text_blocks: Vec<_> = page_hypo.blocks.iter().filter_map(|b| b.text_content()).collect();
    assert!(!text_blocks.is_empty(), "Should have text content in blocks");
    assert_eq!(text_blocks[0], "Test Document\n\nFirst paragraph of the first page.");
}

#[test]
fn test_korean_pdf_opens() {
    let pdf_reader = PdfReader::new("test/korean_test.pdf".to_string());
    let page_count = pdf_reader.page_count("Pages: 1\n");
    assert!(page_count.unwrap() > 0, "korean_test.pdf should have at least one page");

    let parser_track = ParserLayoutBuilder::new();
    let raws = vec!["\u{1112}\u{1161}\u{11ab}\u{1100}\u{1173}\u{11af} 문서".to_string()];
    let page_hypo = parser_track.page_from_runs(select_glyph_text(&raws).into_runs(), 0);

    assert_eq!(page_hypo.page_idx, 0);
    assert_eq!(page_hypo.blocks[0].text_content().unwrap(), "한글 문서");
}
