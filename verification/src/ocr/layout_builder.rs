use vstd::prelude::*;
use vstd::string::StringExecFns;
use crate::base::geometry::BBox;
use crate::base::model::{
    Block, BlockView, Line, LineView, PageHypothesis, PageHypothesisView, Provenance, Span,
    SpanView,
};
use crate::ocr::bridge::{OcrBridge, OcrToken, OcrTokenView};

verus! {

/// The width of the page that both tracks assume.
pub const NOMINAL_PAGE_WIDTH: u32 = 1000;

/// The height of the page that both tracks assume.
pub const NOMINAL_PAGE_HEIGHT: u32 = 1400;

/// Builds the OCR track's hypothesis of a page from the tokens of the bridge.
#[derive(Debug, Clone)]
pub struct OcrLayoutBuilder {
    bridge: OcrBridge,
}

/// The box of a token.
pub open spec fn token_box(token: OcrTokenView) -> BBox {
    BBox { x0: token.bbox[0], y0: token.bbox[1], x1: token.bbox[2], y1: token.bbox[3] }
}

/// The block of a token: a table, a figure or a formula where the token says
/// so, else a text block of one span. Every block has confidence one half; a
/// formula keeps its LaTeX unless that is empty.
pub open spec fn token_block_spec(token: OcrTokenView) -> BlockView {
    let bbox = token_box(token);
    if token.block_type == "table"@ {
        BlockView::TableBlock { bbox, confidence: 500_000, source: Provenance::Ocr, debug: None }
    } else if token.block_type == "figure"@ {
        BlockView::FigureBlock { bbox, confidence: 500_000, source: Provenance::Ocr, debug: None }
    } else if token.block_type == "math"@ {
        BlockView::MathBlock {
            bbox,
            confidence: 500_000,
            source: Provenance::Ocr,
            latex: match token.latex {
                Some(l) => if l.len() == 0 {
                    None
                } else {
                    Some(l)
                },
                None => None,
            },
            debug: None,
        }
    } else {
        BlockView::TextBlock {
            bbox,
            lines: seq![
                LineView {
                    spans: seq![
                        SpanView { text: token.text, bbox, source: Provenance::Ocr, style: None },
                    ],
                },
            ],
            confidence: 500_000,
            source: Provenance::Ocr,
            debug: None,
        }
    }
}

/// The hypothesis of a page: one block for each token, in order, on a page of nominal size.
pub open spec fn page_from_tokens_spec(tokens: Seq<OcrTokenView>, page_idx: usize) -> PageHypothesisView {
    PageHypothesisView {
        page_idx,
        blocks: tokens.map_values(|t: OcrTokenView| token_block_spec(t)),
        width: NOMINAL_PAGE_WIDTH,
        height: NOMINAL_PAGE_HEIGHT,
    }
}

impl OcrLayoutBuilder {
    pub closed spec fn spec_bridge(&self) -> OcrBridge {
        self.bridge
    }

    pub fn new(bridge: OcrBridge) -> (r: Self)
        ensures
            r.spec_bridge() == bridge,
    {
        OcrLayoutBuilder { bridge }
    }

    pub fn bridge(&self) -> (r: &OcrBridge)
        ensures
            *r == self.spec_bridge(),
    {
        &self.bridge
    }

    /// Turns a token into a block.
    pub fn token_to_block(&self, token: OcrToken) -> (block: Block)
        ensures
            block@ == token_block_spec(token@),
            block@.wf(),
    {
        let bbox = BBox::new(token.bbox[0], token.bbox[1], token.bbox[2], token.bbox[3]);
        let confidence: u32 = 500_000;
        let source = Provenance::Ocr;
        if token.block_type == String::from_str("table") {
            Block::TableBlock { bbox, confidence, source, debug: None }
        } else if token.block_type == String::from_str("figure") {
            Block::FigureBlock { bbox, confidence, source, debug: None }
        } else if token.block_type == String::from_str("math") {
            let latex = match token.latex {
                Some(l) => if l.as_str().is_empty() {
                    None
                } else {
                    Some(l)
                },
                None => None,
            };
            Block::MathBlock { bbox, confidence, source, latex, debug: None }
        } else {
            let span = Span { text: token.text, bbox, source: Provenance::Ocr, style: None };
            let mut spans: Vec<Span> = Vec::new();
            spans.push(span);
            let line = Line { spans };
            let mut lines: Vec<Line> = Vec::new();
            lines.push(line);
            proof {
                assert(lines@[0].spans.deep_view() =~= seq![
                    SpanView { text: token.text@, bbox, source: Provenance::Ocr, style: None },
                ]);
                assert(lines.deep_view() =~= seq![LineView { spans: lines@[0].spans.deep_view() }]);
            }
            Block::TextBlock { bbox, lines, confidence, source, debug: None }
        }
    }

    /// Builds the hypothesis of a page from the tokens that the bridge returned for it.
    pub fn page_from_tokens(&self, tokens: Vec<OcrToken>, page_idx: usize) -> (page:
        PageHypothesis)
        ensures
            page@ == page_from_tokens_spec(tokens.deep_view(), page_idx),
    {
        let ghost views = tokens.deep_view();
        let ghost wanted = views.map_values(|t: OcrTokenView| token_block_spec(t));
        let ghost items = tokens@;
        let mut blocks: Vec<Block> = Vec::new();
        for token in it: tokens
            invariant
                it.seq() == items,
                views.len() == items.len(),
                forall|k: int| 0 <= k < items.len() ==> views[k] == (#[trigger] items[k])@,
                wanted == views.map_values(|t: OcrTokenView| token_block_spec(t)),
                blocks.deep_view() == wanted.take(it.index() as int),
        {
            let ghost before = blocks.deep_view();
            let ghost i = it.index() as int;
            assert(token == items[i]);
            blocks.push(self.token_to_block(token));
            proof {
                assert(blocks.deep_view() =~= before.push(wanted[i]));
                assert(wanted.take(i + 1) =~= before.push(wanted[i]));
            }
        }
        assert(wanted.take(wanted.len() as int) == wanted);
        PageHypothesis { page_idx, blocks, width: NOMINAL_PAGE_WIDTH, height: NOMINAL_PAGE_HEIGHT }
    }
}

} // verus!
