use vstd::prelude::*;
use crate::base::model::PageClass;

verus! {

/// What the classifier reads off a page; the two ratios are counted in millionths.
#[derive(Debug, Clone, Copy, PartialEq, Eq, Structural)]
pub struct PageSignals {
    pub parser_glyphs: usize,
    pub ocr_glyphs: usize,
    pub image_coverage: u32,
    pub ocr_text_density: u32,
}

/// Twice `n`, held at the largest count where the product would not fit.
pub open spec fn saturating_double(n: usize) -> int {
    if 2 * n > usize::MAX {
        usize::MAX as int
    } else {
        2 * n
    }
}

/// The class of a page; the first rule that applies decides.
pub open spec fn classify_page_spec(s: PageSignals) -> PageClass {
    if s.parser_glyphs >= 120 && s.parser_glyphs >= saturating_double(s.ocr_glyphs) {
        PageClass::Digital
    } else if s.ocr_glyphs >= saturating_double(s.parser_glyphs) && (s.ocr_text_density > 350_000
        || s.image_coverage > 300_000) {
        PageClass::Scanned
    } else if s.parser_glyphs > 220 && s.ocr_text_density < 250_000 && s.image_coverage < 250_000 {
        PageClass::Digital
    } else {
        PageClass::Hybrid
    }
}

fn double_saturating(n: usize) -> (r: usize)
    ensures
        r == saturating_double(n),
{
    if n > usize::MAX / 2 {
        usize::MAX
    } else {
        2 * n
    }
}

/// Classifies a page from its signals. Every combination of signals has exactly one class.
pub fn classify_page(signals: PageSignals) -> (class: PageClass)
    ensures
        class == classify_page_spec(signals),
{
    let parser: usize = signals.parser_glyphs;
    let ocr: usize = signals.ocr_glyphs;
    let density: u32 = signals.ocr_text_density;
    let coverage: u32 = signals.image_coverage;
    if parser >= 120 && parser >= double_saturating(ocr) {
        PageClass::Digital
    } else if ocr >= double_saturating(parser) && (density > 350_000 || coverage > 300_000) {
        PageClass::Scanned
    } else if parser > 220 && density < 250_000 && coverage < 250_000 {
        PageClass::Digital
    } else {
        PageClass::Hybrid
    }
}

} // verus!
