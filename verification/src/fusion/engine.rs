use vstd::prelude::*;
use crate::base::model::{PageFinal, PageFinalView, PageHypothesis, PageHypothesisView};
use crate::base::page_classifier::classify_page_spec;
use crate::fusion::align::{align_blocks, align_spec};
use crate::fusion::finalize::{classify_page, larger, page_signals_spec};
use crate::fusion::resolve::{resolve_blocks, resolve_blocks_spec};

verus! {

/// The fusion of two hypotheses of a page: the page is classified, the blocks
/// are aligned and resolved under that class, and the page takes the larger
/// of the two sizes. The page index is that of the parser's hypothesis.
pub open spec fn fuse_spec(parser: PageHypothesisView, ocr: PageHypothesisView) -> PageFinalView {
    let class = classify_page_spec(page_signals_spec(parser, ocr));
    PageFinalView {
        page_idx: parser.page_idx,
        class,
        blocks: resolve_blocks_spec(align_spec(parser.blocks, ocr.blocks), class),
        width: larger(parser.width, ocr.width),
        height: larger(parser.height, ocr.height),
        debug: None,
    }
}

/// The fusion engine: greedy alignment, class-dependent resolution, filter cascade.
#[derive(Debug, Clone, Copy, PartialEq, Eq, Structural)]
pub struct SimpleFusionEngine;

impl SimpleFusionEngine {
    pub fn new() -> (r: Self)
        ensures
            r == SimpleFusionEngine,
    {
        SimpleFusionEngine
    }

    /// Fuses the parser's and the OCR's hypothesis of one page.
    pub fn fuse(&self, parser: &PageHypothesis, ocr: &PageHypothesis) -> (page: PageFinal)
        ensures
            page@ == fuse_spec(parser@, ocr@),
            forall|i: int| 0 <= i < page.blocks@.len() ==> (#[trigger] page.blocks@[i])@.wf(),
    {
        let class = classify_page(parser, ocr);
        let parser_blocks = parser.blocks.as_slice();
        let ocr_blocks = ocr.blocks.as_slice();
        assert(parser_blocks.deep_view() =~= parser.blocks.deep_view());
        assert(ocr_blocks.deep_view() =~= ocr.blocks.deep_view());
        let aligned = align_blocks(parser_blocks, ocr_blocks);
        let blocks = resolve_blocks(&aligned, class);
        PageFinal {
            page_idx: parser.page_idx,
            class,
            blocks,
            width: if parser.width >= ocr.width { parser.width } else { ocr.width },
            height: if parser.height >= ocr.height { parser.height } else { ocr.height },
            debug: None,
        }
    }
}

} // verus!
