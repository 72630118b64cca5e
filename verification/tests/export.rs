use docstruct::base::geometry::BBox;
use docstruct::base::model::{
    Block, BlockDebug, BlockKind, DocumentFinal, Line, PageClass, PageDebug, PageFinal,
    Provenance, Span,
};
use docstruct::export::html_debug_export::{
    block_type_label, extract_debug, provenance_label, ratio_text, three_places,
};
use docstruct::export::markdown_export::{
    count_symbols, crop_region, noisy_by_counts, size_placeholder, BlockPlan,
};
use docstruct::export::text_export::{placeholder, plain_text_of};
use docstruct::export::{HtmlDebugExporter, JsonExporter, MarkdownExporter, TextExporter};

fn span(text: &str) -> Span {
    Span { text: text.to_string(), bbox: BBox::new(0, 0, 1, 1), source: Provenance::Parser, style: None }
}

fn lines(rows: &[&[&str]]) -> Vec<Line> {
    rows.iter().map(|row| Line { spans: row.iter().map(|t| span(t)).collect() }).collect()
}

fn text_block(rows: &[&[&str]], source: Provenance) -> Block {
    Block::TextBlock { bbox: BBox::new(0, 0, 50, 50), lines: lines(rows), confidence: 950_000, source, debug: None }
}

fn table() -> Block {
    Block::TableBlock { bbox: BBox::new(10, 20, 110, 70), confidence: 500_000, source: Provenance::Ocr, debug: None }
}

fn math(latex: Option<&str>) -> Block {
    Block::MathBlock { bbox: BBox::new(-5, 0, 5, 8), confidence: 400_000, source: Provenance::Ocr, latex: latex.map(|l| l.to_string()), debug: None }
}

fn s(v: Vec<char>) -> String {
    v.into_iter().collect()
}

fn inline(plan: BlockPlan) -> String {
    match plan {
        BlockPlan::Inline(text) => text,
        other => panic!("{:?}", other),
    }
}

#[test]
fn exporters_remember_their_directory() {
    assert_eq!(TextExporter::new("out".to_string()).out_dir(), "out");
    assert_eq!(MarkdownExporter::new("out/md".to_string()).out_dir(), "out/md");
    assert_eq!(HtmlDebugExporter::new("out/debug".to_string()).out_dir(), "out/debug");
    assert_eq!(JsonExporter::new("".to_string()).out_dir(), "");
    assert_eq!(JsonExporter::document_file_name(), "document.json");
    assert_eq!(TextExporter::document_file_name(), "document.txt");
    assert_eq!(MarkdownExporter::document_file_name(), "document.md");
    assert_eq!(MarkdownExporter::image_dir_name(), "figures");
    assert_eq!(TextExporter::page_file_name(0), "page_001.txt");
    assert_eq!(MarkdownExporter::page_file_name(9), "page_010.md");
    assert_eq!(HtmlDebugExporter::page_file_name(0), "page_001.html");
    assert_eq!(HtmlDebugExporter::page_file_name(1233), "page_1234.html");
}

#[test]
fn plain_text_joins_spans_and_lines() {
    assert_eq!(s(plain_text_of(&lines(&[&["Hel", "lo"], &["wor", "ld"]]))), "Hello\nworld");
    assert_eq!(s(plain_text_of(&lines(&[&["one"]]))), "one");
    assert_eq!(s(plain_text_of(&lines(&[&[], &["x"], &[]]))), "\nx\n");
    assert_eq!(s(plain_text_of(&lines(&[]))), "");
    // the text that fusion compares joins all spans with spaces instead
    assert_eq!(text_block(&[&["Hel", "lo"], &["wor", "ld"]], Provenance::Parser).text_content().unwrap(), "Hel lo wor ld");
}

#[test]
fn text_export_of_blocks() {
    assert_eq!(TextExporter::format_block(&text_block(&[&["Hello"]], Provenance::Parser)), "Hello");
    assert_eq!(TextExporter::format_block(&table()), "[TABLE at x:10 y:20 w:100 h:50]");
    assert_eq!(TextExporter::format_block(&math(None)), "[MATH at x:-5 y:0 w:10 h:8]");
    let figure = Block::FigureBlock { bbox: BBox::new(0, 0, 0, 0), confidence: 0, source: Provenance::Fused, debug: None };
    assert_eq!(TextExporter::format_block(&figure), "[FIGURE at x:0 y:0 w:0 h:0]");
    assert_eq!(s(placeholder("TABLE", &BBox::new(i32::MIN, i32::MAX, i32::MAX, i32::MIN))), "[TABLE at x:-2147483648 y:2147483647 w:4294967295 h:0]");
    // decomposed parser text is left out, the same text from OCR is not
    let jamo: &[&[&str]] = &[&["ㄱㄴㄷㄹㅁㅂㅅㅇ"]];
    assert_eq!(TextExporter::format_block(&text_block(jamo, Provenance::Parser)), "");
    assert_eq!(TextExporter::format_block(&text_block(jamo, Provenance::Ocr)), "ㄱㄴㄷㄹㅁㅂㅅㅇ");
    assert!(TextExporter::should_skip_degraded_parser_text(Provenance::Parser, "한글한글ㄱㄴㄷㄹㅁㅂㅅㅇ"));
    assert!(!TextExporter::should_skip_degraded_parser_text(Provenance::Parser, "한글한글한ㄱㄴㄷㄹㅁㅂㅅㅇ"));
    assert!(!TextExporter::should_skip_degraded_parser_text(Provenance::Parser, "ㄱㄴㄷㄹㅁㅂㅅ"));
    assert!(!TextExporter::should_skip_degraded_parser_text(Provenance::Fused, "ㄱㄴㄷㄹㅁㅂㅅㅇ"));
    assert_eq!(TextExporter::korean_counts("한글ㄱ x"), (2, 1));
    assert_eq!(MarkdownExporter::korean_counts("한글ㄱ x"), (2, 1));
}

#[test]
fn text_export_of_a_document() {
    let page = |idx: usize, blocks: Vec<Block>| PageFinal { page_idx: idx, class: PageClass::Digital, blocks, width: 100, height: 100, debug: None };
    let document = DocumentFinal {
        pages: vec![
            page(0, vec![text_block(&[&["Hello"]], Provenance::Fused), text_block(&[&[""]], Provenance::Fused), table()]),
            page(1, vec![]),
            page(41, vec![text_block(&[&["Bye"]], Provenance::Ocr)]),
        ],
    };
    assert_eq!(
        TextExporter::render_document(&document),
        "=== Page 1 ===\n\nHello\n\n[TABLE at x:10 y:20 w:100 h:50]\n\n\n=== Page 2 ===\n\n\n=== Page 42 ===\n\nBye\n\n\n"
    );
    assert_eq!(TextExporter::render_page(&document.pages[0].blocks), "Hello\n\n[TABLE at x:10 y:20 w:100 h:50]\n\n");
    assert_eq!(TextExporter::render_page(&document.pages[1].blocks), "");
    assert_eq!(TextExporter::render_document(&DocumentFinal { pages: vec![] }), "");
}

#[test]
fn markdown_noise_rules() {
    assert!(MarkdownExporter::should_skip_noisy_ocr_text(Provenance::Ocr, "ab"));
    assert!(MarkdownExporter::should_skip_noisy_ocr_text(Provenance::Ocr, " a b "));
    assert!(!MarkdownExporter::should_skip_noisy_ocr_text(Provenance::Ocr, "abc"));
    assert!(MarkdownExporter::should_skip_noisy_ocr_text(Provenance::Ocr, "a--"));
    assert!(!MarkdownExporter::should_skip_noisy_ocr_text(Provenance::Ocr, "한글 --"));
    assert!(MarkdownExporter::should_skip_noisy_ocr_text(Provenance::Ocr, "한글 ---"));
    assert!(MarkdownExporter::should_skip_noisy_ocr_text(Provenance::Ocr, ""));
    assert!(!MarkdownExporter::should_skip_noisy_ocr_text(Provenance::Parser, "ab"));
    assert!(!MarkdownExporter::should_skip_noisy_ocr_text(Provenance::Fused, ""));
    assert!(noisy_by_counts(2, 2, 0));
    assert!(!noisy_by_counts(3, 3, 0));
    assert!(noisy_by_counts(3, 1, 0));
    assert!(!noisy_by_counts(4, 2, 0));
    assert!(noisy_by_counts(20, 10, 11));
    assert!(!noisy_by_counts(20, 10, 10));
    assert!(!noisy_by_counts(20, 10, 7));
    assert!(!noisy_by_counts(20, 10, 8));
    assert!(noisy_by_counts(usize::MAX, usize::MAX / 2, 0));
    assert!(MarkdownExporter::should_skip_degraded_parser_text(Provenance::Parser, "ㄱㄴㄷㄹㅁㅂㅅㅇ"));
    // letters of any script are no symbols
    let chars: Vec<char> = "a-é! 한 ,".chars().collect();
    assert_eq!(count_symbols(&chars), 3);
    assert_eq!(count_symbols(&[]), 0);
}

#[test]
fn markdown_plans() {
    let text = text_block(&[&["Hel", "lo"], &["world"]], Provenance::Fused);
    for has_image in [false, true] {
        assert_eq!(inline(MarkdownExporter::plan_block(&text, 0, has_image, true)), "Hello\nworld");
        let noise = text_block(&[&["--"]], Provenance::Ocr);
        assert_eq!(inline(MarkdownExporter::plan_block(&noise, 0, has_image, true)), "");
        let jamo = text_block(&[&["ㄱㄴㄷㄹㅁㅂㅅㅇ"]], Provenance::Parser);
        assert_eq!(inline(MarkdownExporter::plan_block(&jamo, 0, has_image, false)), "");
    }
    match MarkdownExporter::plan_block(&table(), 3, true, true) {
        BlockPlan::Image { kind, bbox } => {
            assert_eq!(kind, BlockKind::Table);
            assert_eq!(bbox, BBox::new(10, 20, 110, 70));
        }
        other => panic!("{:?}", other),
    }
    assert_eq!(inline(MarkdownExporter::plan_block(&table(), 3, false, true)), "\n[TABLE: 100x50 at (10, 20)]\n");
    assert_eq!(inline(MarkdownExporter::plan_block(&table(), 3, false, false)), "\n[TABLE: 100x50]\n");
    let figure = Block::FigureBlock { bbox: BBox::new(1, 2, 3, 4), confidence: 0, source: Provenance::Fused, debug: None };
    assert_eq!(inline(MarkdownExporter::plan_block(&figure, 0, false, true)), "\n[FIGURE: 2x2 at (1, 2)]\n");
    assert!(matches!(MarkdownExporter::plan_block(&figure, 0, true, false), BlockPlan::Image { kind: BlockKind::Figure, .. }));
    assert_eq!(inline(MarkdownExporter::plan_block(&math(Some("x^2")), 2, true, true)), "\n**Math Equation 3:**\n\n$$\nx^2\n$$\n");
    assert_eq!(inline(MarkdownExporter::plan_block(&math(Some("x^2")), 2, false, true)), "\n$$\nx^2\n$$\n");
    assert!(matches!(MarkdownExporter::plan_block(&math(Some("")), 2, true, true), BlockPlan::Image { kind: BlockKind::Math, .. }));
    assert!(matches!(MarkdownExporter::plan_block(&math(None), 2, true, true), BlockPlan::Image { kind: BlockKind::Math, .. }));
    assert_eq!(inline(MarkdownExporter::plan_block(&math(None), 2, false, true)), "\n[MATH: 10x8 at (-5, 0)]\n");
    assert_eq!(inline(MarkdownExporter::plan_block(&math(Some("")), 2, false, false)), "\n[MATH: 10x8]\n");
    assert_eq!(size_placeholder(BlockKind::Figure, &BBox::new(0, 0, 7, 9), false), "\n[FIGURE: 7x9]\n");
}

#[test]
fn markdown_images() {
    assert_eq!(crop_region(&BBox::new(-5, 10, 50, 2000), 100, 1000), Some((0, 10, 50, 990)));
    assert_eq!(crop_region(&BBox::new(10, 20, 30, 40), 100, 100), Some((10, 20, 20, 20)));
    assert_eq!(crop_region(&BBox::new(200, 0, 300, 10), 100, 1000), None);
    assert_eq!(crop_region(&BBox::new(0, 0, 0, 10), 100, 100), None);
    assert_eq!(crop_region(&BBox::new(-20, -20, -10, -10), 100, 100), None);
    assert_eq!(crop_region(&BBox::new(0, 0, 10, 10), 0, 0), None);
    assert_eq!(crop_region(&BBox::new(i32::MIN, i32::MIN, i32::MAX, i32::MAX), u32::MAX, u32::MAX), Some((0, 0, i32::MAX as u32, i32::MAX as u32)));
    assert_eq!(MarkdownExporter::crop_file_name(0, BlockKind::Table, 3), "page_001_table__03.png");
    assert_eq!(MarkdownExporter::crop_file_name(122, BlockKind::Math, 123), "page_123_math__123.png");
    assert_eq!(MarkdownExporter::crop_file_name(0, BlockKind::Figure, 0), "page_001_figure__00.png");
    assert_eq!(MarkdownExporter::image_markdown(BlockKind::Table, 0, "figures/x.png"), "\n**Table 1:**\n\n![Table](figures/x.png)\n");
    assert_eq!(MarkdownExporter::image_markdown(BlockKind::Figure, 4, "f.png"), "\n**Figure 5:**\n\n![Figure](f.png)\n");
    assert_eq!(MarkdownExporter::image_markdown(BlockKind::Math, 9, "m.png"), "\n**Math Equation 10:**\n\n![Math](m.png)\n");
    assert_eq!(MarkdownExporter::captioned_latex(0, "a+b"), "\n**Math Equation 1:**\n\n$$\na+b\n$$\n");
    assert_eq!(MarkdownExporter::latex_display("a+b"), "\n$$\na+b\n$$\n");
}

#[test]
fn markdown_documents() {
    let texts = vec!["Hello".to_string(), String::new(), "World".to_string()];
    assert_eq!(MarkdownExporter::page_markdown(0, &texts), "# Page 1\n\nHello\n\nWorld\n\n");
    assert_eq!(MarkdownExporter::page_markdown(6, &vec![]), "# Page 7\n\n");
    assert_eq!(
        MarkdownExporter::document_markdown(&vec![(0, texts), (1, vec![]), (4, vec!["x".to_string()])]),
        "# Document\n\n---\n\n## Page 1\n\nHello\n\nWorld\n\n---\n\n## Page 2\n\n---\n\n## Page 5\n\nx\n\n"
    );
    assert_eq!(MarkdownExporter::document_markdown(&vec![]), "# Document\n\n");
}

#[test]
fn ratios_are_written_as_decimal_fractions() {
    assert_eq!(s(ratio_text(950_000)), "0.95");
    assert_eq!(s(ratio_text(1_000_000)), "1");
    assert_eq!(s(ratio_text(0)), "0");
    assert_eq!(s(ratio_text(500_000)), "0.5");
    assert_eq!(s(ratio_text(123_456)), "0.123456");
    assert_eq!(s(ratio_text(1_500_000)), "1.5");
    assert_eq!(s(ratio_text(10)), "0.00001");
    assert_eq!(s(ratio_text(100_000)), "0.1");
    assert_eq!(s(ratio_text(u32::MAX)), "4294.967295");
    assert_eq!(s(three_places(521_211)), "0.521");
    assert_eq!(s(three_places(521_500)), "0.522");
    assert_eq!(s(three_places(999_500)), "1.000");
    assert_eq!(s(three_places(999_499)), "0.999");
    assert_eq!(s(three_places(0)), "0.000");
    assert_eq!(s(three_places(1_000_000)), "1.000");
    assert_eq!(s(three_places(7_000)), "0.007");
    assert_eq!(s(three_places(u32::MAX)), "4294.967");
}

#[test]
fn html_elements() {
    let block = Block::TextBlock {
        bbox: BBox::new(0, -3, 50, 47),
        lines: lines(&[&["a & b", "<c>"]]),
        confidence: 950_000,
        source: Provenance::Fused,
        debug: Some(BlockDebug {
            parser_text: Some("a & b <c>".to_string()),
            ocr_text: Some("it's \"x\"".to_string()),
            final_text: None,
            similarity: Some(521_211),
        }),
    };
    assert_eq!(
        HtmlDebugExporter::block_to_div(&block, "fused"),
        "<div class='bbox fused text' style='left:0px; top:-3px; width:50px; height:50px;' data-text='a &amp; b &lt;c&gt;' data-type='text' data-provenance='fused' data-confidence='0.95' data-parser-text='a &amp; b &lt;c&gt;' data-ocr-text='it's \"x\"' data-final-text='' data-similarity='0.521'></div>"
    );
    assert_eq!(
        HtmlDebugExporter::block_to_div(&table(), "ocr"),
        "<div class='bbox ocr table' style='left:10px; top:20px; width:100px; height:50px;' data-text='' data-type='table' data-provenance='ocr' data-confidence='0.5' data-parser-text='' data-ocr-text='' data-final-text='' data-similarity=''></div>"
    );
    assert_eq!(provenance_label(Provenance::Parser), "parser");
    assert_eq!(provenance_label(Provenance::Ocr), "ocr");
    assert_eq!(provenance_label(Provenance::Fused), "fused");
    assert_eq!(block_type_label(&table()), "table");
    assert_eq!(block_type_label(&math(None)), "math");
    assert_eq!(block_type_label(&block), "text");
    assert_eq!(block.kind(), "text");
    assert_eq!(table().kind(), "table");
    assert_eq!(math(None).kind(), "math");
    let debug = extract_debug(&block);
    assert_eq!(debug.similarity, Some(521_211));
    assert_eq!(debug.ocr_text.as_deref(), Some("it's \"x\""));
    let none = extract_debug(&table());
    assert!(none.parser_text.is_none() && none.ocr_text.is_none() && none.final_text.is_none() && none.similarity.is_none());
}

#[test]
fn html_pages() {
    let page = PageFinal {
        page_idx: 0,
        class: PageClass::Hybrid,
        blocks: vec![table()],
        width: 100,
        height: 100,
        debug: Some(PageDebug { parser_blocks: vec![text_block(&[&["p"]], Provenance::Parser)], ocr_blocks: vec![table(), table()] }),
    };
    let html = HtmlDebugExporter::render_page(&page);
    assert!(html.starts_with("<!DOCTYPE html>\n<html>\n<head>\n<meta charset='utf-8'>\n<title>DocStruct Debug Page 1</title>\n<style>\nbody { margin: 0;"));
    assert!(html.ends_with("</script>\n</body>\n</html>"));
    assert!(html.contains("<div id='canvas'>\n<img src='page_001.png' />\n<div class='bbox parser text'"));
    assert!(html.contains("info.innerHTML = `type: ${el.dataset.type}<br/>"));
    assert_eq!(html.matches("<div class='bbox ").count(), 4);
    assert_eq!(html.matches("<div class='bbox ocr table'").count(), 2);
    assert_eq!(html.matches("<div class='bbox fused table'").count(), 1);
    let parser_at = html.find("bbox parser").unwrap();
    let ocr_at = html.find("bbox ocr").unwrap();
    let fused_at = html.find("bbox fused").unwrap();
    assert!(parser_at < ocr_at && ocr_at < fused_at);
    assert!(html.contains("></div>\n</div>\n<script>"));
    let bare = PageFinal { page_idx: 11, class: PageClass::Digital, blocks: vec![], width: 1, height: 1, debug: None };
    let html = HtmlDebugExporter::render_page(&bare);
    assert!(html.contains("<title>DocStruct Debug Page 12</title>"));
    assert!(html.contains("<img src='page_012.png' />\n\n</div>"));
    assert_eq!(html.matches("<div class='bbox ").count(), 0);
}
