use vstd::prelude::*;
use crate::base::model::{
    copy_blocks, PageDebug, PageDebugView, PageFinal, PageFinalView, PageHypothesis,
};
use crate::fusion::engine::{fuse_spec, SimpleFusionEngine};

verus! {

/// What a run needs: the document to read, the directory to write to, and the
/// resolution at which pages are rendered for OCR.
#[derive(Debug, Clone)]
pub struct PipelineConfig {
    pub input: String,
    pub output: String,
    pub dpi: u32,
}

impl PipelineConfig {
    pub fn new(input: String, output: String, dpi: u32) -> (r: Self)
        ensures
            r.input@ == input@,
            r.output@ == output@,
            r.dpi == dpi,
    {
        PipelineConfig { input, output, dpi }
    }
}

/// Stores copies of the blocks of both hypotheses beside the fused page.
pub fn attach_debug_info(fused: &mut PageFinal, parser: &PageHypothesis, ocr: &PageHypothesis)
    ensures
        final(fused)@ == (PageFinalView {
            debug: Some(
                PageDebugView { parser_blocks: parser@.blocks, ocr_blocks: ocr@.blocks },
            ),
            ..old(fused)@
        }),
{
    let parser_slice = parser.blocks.as_slice();
    let ocr_slice = ocr.blocks.as_slice();
    assert(parser_slice.deep_view() =~= parser.blocks.deep_view());
    assert(ocr_slice.deep_view() =~= ocr.blocks.deep_view());
    let parser_blocks = copy_blocks(parser_slice);
    let ocr_blocks = copy_blocks(ocr_slice);
    fused.debug = Some(PageDebug { parser_blocks, ocr_blocks });
}

/// Fuses the two hypotheses of a page and keeps both beside the result.
pub fn fuse_page(parser: &PageHypothesis, ocr: &PageHypothesis) -> (page: PageFinal)
    ensures
        page@ == (PageFinalView {
            debug: Some(
                PageDebugView { parser_blocks: parser@.blocks, ocr_blocks: ocr@.blocks },
            ),
            ..fuse_spec(parser@, ocr@)
        }),
{
    let engine = SimpleFusionEngine::new();
    let mut fused = engine.fuse(parser, ocr);
    attach_debug_info(&mut fused, parser, ocr);
    fused
}

} // verus!
