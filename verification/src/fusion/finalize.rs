use vstd::prelude::*;
use crate::base::fixed::{ratio_millionths, ratio_millionths_spec, MILLION};
use crate::base::model::{Block, BlockView, PageClass, PageHypothesis, PageHypothesisView};
use crate::base::page_classifier::{classify_page as classify_signals, classify_page_spec, PageSignals};
use crate::fusion::filters::block_text;

verus! {

/// The number of characters of all text blocks.
pub open spec fn glyph_total(blocks: Seq<BlockView>) -> nat
    decreases blocks.len(),
{
    if blocks.len() == 0 {
        0
    } else {
        glyph_total(blocks.drop_last()) + blocks.last().text().len()
    }
}

/// The glyph count as the signals hold it: held at the largest machine count.
pub open spec fn glyph_count_spec(blocks: Seq<BlockView>) -> usize {
    if glyph_total(blocks) > usize::MAX {
        usize::MAX
    } else {
        glyph_total(blocks) as usize
    }
}

/// The area of the largest block, zero when there is none.
pub open spec fn largest_block_area(blocks: Seq<BlockView>) -> int
    decreases blocks.len(),
{
    if blocks.len() == 0 {
        0
    } else {
        let rest = largest_block_area(blocks.drop_last());
        let last = blocks.last().bbox().spec_area();
        if rest >= last {
            rest
        } else {
            last
        }
    }
}

/// The larger of two sizes.
pub open spec fn larger(a: u32, b: u32) -> u32 {
    if a >= b {
        a
    } else {
        b
    }
}

/// The share of the page that the largest OCR block covers, in millionths,
/// at most one; zero for a page without area.
pub open spec fn image_coverage_spec(parser: PageHypothesisView, ocr: PageHypothesisView) -> int {
    ratio_millionths_spec(
        largest_block_area(ocr.blocks),
        larger(parser.width, ocr.width) * larger(parser.height, ocr.height),
    )
}

/// A thousandth of the OCR glyph count, at most one, in millionths.
pub open spec fn text_density_spec(ocr_glyphs: usize) -> int {
    if ocr_glyphs >= 1000 {
        MILLION as int
    } else {
        ocr_glyphs * 1000
    }
}

/// The signals of a page, read off the two hypotheses.
pub open spec fn page_signals_spec(parser: PageHypothesisView, ocr: PageHypothesisView) -> PageSignals {
    PageSignals {
        parser_glyphs: glyph_count_spec(parser.blocks),
        ocr_glyphs: glyph_count_spec(ocr.blocks),
        image_coverage: image_coverage_spec(parser, ocr) as u32,
        ocr_text_density: text_density_spec(glyph_count_spec(ocr.blocks)) as u32,
    }
}

/// Counts the characters of all text blocks.
pub fn glyph_count(blocks: &Vec<Block>) -> (n: usize)
    ensures
        n == glyph_count_spec(blocks.deep_view()),
{
    let ghost views = blocks.deep_view();
    let mut n: usize = 0;
    let mut i: usize = 0;
    assert(views.take(0) =~= Seq::<BlockView>::empty());
    while i < blocks.len()
        invariant
            i <= blocks.len(),
            views == blocks.deep_view(),
            n == glyph_count_spec(views.take(i as int)),
        decreases blocks.len() - i,
    {
        proof {
            assert(views.take(i + 1).drop_last() == views.take(i as int));
            assert(views[i as int] == blocks@[i as int]@);
        }
        let text = block_text(&blocks[i]);
        let len: usize = text.as_str().unicode_len();
        n = if len > usize::MAX - n {
            usize::MAX
        } else {
            n + len
        };
        i += 1;
    }
    assert(views.take(blocks@.len() as int) == views);
    n
}

/// The area of the largest block.
pub fn max_block_area(blocks: &Vec<Block>) -> (area: u64)
    ensures
        area == largest_block_area(blocks.deep_view()),
{
    let ghost views = blocks.deep_view();
    let mut area: u64 = 0;
    let mut i: usize = 0;
    assert(views.take(0) =~= Seq::<BlockView>::empty());
    while i < blocks.len()
        invariant
            i <= blocks.len(),
            views == blocks.deep_view(),
            area == largest_block_area(views.take(i as int)),
        decreases blocks.len() - i,
    {
        proof {
            assert(views.take(i + 1).drop_last() == views.take(i as int));
            assert(views[i as int] == blocks@[i as int]@);
        }
        let a: u64 = blocks[i].bbox().area();
        if a > area {
            area = a;
        }
        i += 1;
    }
    assert(views.take(blocks@.len() as int) == views);
    area
}

/// Reads the signals of a page off the two hypotheses.
pub fn page_signals(parser: &PageHypothesis, ocr: &PageHypothesis) -> (signals: PageSignals)
    ensures
        signals == page_signals_spec(parser@, ocr@),
        signals.image_coverage <= MILLION,
        signals.ocr_text_density <= MILLION,
{
    let parser_glyphs: usize = glyph_count(&parser.blocks);
    let ocr_glyphs: usize = glyph_count(&ocr.blocks);
    let width: u32 = if parser.width >= ocr.width { parser.width } else { ocr.width };
    let height: u32 = if parser.height >= ocr.height { parser.height } else { ocr.height };
    assert(width * height <= u32::MAX * u32::MAX) by (nonlinear_arith)
        requires
            width <= u32::MAX,
            height <= u32::MAX,
    ;
    let page_area: u64 = (width as u64) * (height as u64);
    let coverage: u32 = ratio_millionths(max_block_area(&ocr.blocks), page_area as u128);
    let density: u32 = if ocr_glyphs >= 1000 {
        MILLION
    } else {
        (ocr_glyphs as u32) * 1000
    };
    PageSignals { parser_glyphs, ocr_glyphs, image_coverage: coverage, ocr_text_density: density }
}

/// Classifies a page from the two hypotheses of it.
pub fn classify_page(parser: &PageHypothesis, ocr: &PageHypothesis) -> (class: PageClass)
    ensures
        class == classify_page_spec(page_signals_spec(parser@, ocr@)),
{
    classify_signals(page_signals(parser, ocr))
}

} // verus!
