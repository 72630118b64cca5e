use vstd::prelude::*;
use crate::base::geometry::BBox;
use crate::base::model::{
    Block, BlockView, Line, LineView, PageHypothesis, PageHypothesisView, Provenance, Span,
    SpanView,
};
use crate::ocr::layout_builder::{NOMINAL_PAGE_HEIGHT, NOMINAL_PAGE_WIDTH};
use crate::parser::text_extractor::{GlyphRun, GlyphRunView};

verus! {

/// Builds the parser track's hypothesis of a page from its glyph runs.
#[derive(Debug, Clone, Copy, PartialEq, Eq, Structural)]
pub struct ParserLayoutBuilder;

/// The smallest box that encloses `first` and the boxes of all runs.
pub open spec fn enclosing_box(first: BBox, runs: Seq<GlyphRunView>) -> BBox
    decreases runs.len(),
{
    if runs.len() == 0 {
        first
    } else {
        enclosing_box(first, runs.drop_last()).spec_union(runs.last().bbox)
    }
}

/// The span of a glyph run.
pub open spec fn run_span(run: GlyphRunView) -> SpanView {
    SpanView { text: run.text, bbox: run.bbox, source: Provenance::Parser, style: None }
}

/// The hypothesis of a page: no block for a page without runs, else one text
/// block of one line that holds a span for each run, in a box that encloses
/// them all, with confidence 0.6.
pub open spec fn page_from_runs_spec(runs: Seq<GlyphRunView>, page_idx: usize) -> PageHypothesisView {
    PageHypothesisView {
        page_idx,
        blocks: if runs.len() == 0 {
            Seq::empty()
        } else {
            seq![
                BlockView::TextBlock {
                    bbox: enclosing_box(runs[0].bbox, runs),
                    lines: seq![LineView { spans: runs.map_values(|r: GlyphRunView| run_span(r)) }],
                    confidence: 600_000,
                    source: Provenance::Parser,
                    debug: None,
                },
            ]
        },
        width: NOMINAL_PAGE_WIDTH,
        height: NOMINAL_PAGE_HEIGHT,
    }
}

impl ParserLayoutBuilder {
    pub fn new() -> (r: Self)
        ensures
            r == ParserLayoutBuilder,
    {
        ParserLayoutBuilder
    }

    /// Builds the hypothesis of a page from the glyph runs read off it.
    pub fn page_from_runs(&self, glyph_runs: Vec<GlyphRun>, page_idx: usize) -> (page:
        PageHypothesis)
        ensures
            page@ == page_from_runs_spec(glyph_runs.deep_view(), page_idx),
    {
        let ghost views = glyph_runs.deep_view();
        let ghost wanted = views.map_values(|r: GlyphRunView| run_span(r));
        let ghost items = glyph_runs@;
        let mut blocks: Vec<Block> = Vec::new();
        if glyph_runs.len() > 0 {
            let first: BBox = glyph_runs[0].bbox;
            let mut bbox: BBox = first;
            let mut spans: Vec<Span> = Vec::new();
            assert(views.take(0) =~= Seq::<GlyphRunView>::empty());
            for run in it: glyph_runs
                invariant
                    it.seq() == items,
                    views.len() == items.len(),
                    forall|k: int| 0 <= k < items.len() ==> views[k] == (#[trigger] items[k])@,
                    wanted == views.map_values(|r: GlyphRunView| run_span(r)),
                    spans.deep_view() == wanted.take(it.index() as int),
                    bbox == enclosing_box(first, views.take(it.index() as int)),
            {
                let ghost before = spans.deep_view();
                let ghost i = it.index() as int;
                assert(run == items[i]);
                proof {
                    assert(views.take(i + 1).drop_last() == views.take(i));
                    assert(views.take(i + 1).last() == run@);
                }
                bbox = bbox.union(&run.bbox);
                spans.push(
                    Span { text: run.text, bbox: run.bbox, source: Provenance::Parser, style: None },
                );
                proof {
                    assert(spans.deep_view() =~= before.push(wanted[i]));
                    assert(wanted.take(i + 1) =~= before.push(wanted[i]));
                }
            }
            proof {
                assert(wanted.take(wanted.len() as int) == wanted);
                assert(views.take(views.len() as int) == views);
            }
            let mut lines: Vec<Line> = Vec::new();
            lines.push(Line { spans });
            assert(lines.deep_view() =~= seq![LineView { spans: wanted }]);
            blocks.push(
                Block::TextBlock {
                    bbox,
                    lines,
                    confidence: 600_000,
                    source: Provenance::Parser,
                    debug: None,
                },
            );
            assert(blocks.deep_view() =~= page_from_runs_spec(views, page_idx).blocks);
        } else {
            assert(blocks.deep_view() =~= Seq::<BlockView>::empty());
        }
        PageHypothesis { page_idx, blocks, width: NOMINAL_PAGE_WIDTH, height: NOMINAL_PAGE_HEIGHT }
    }
}

} // verus!
