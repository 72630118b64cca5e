//! Page-structure recovery for PDF documents by cross-validating a text-parser
//! track against an OCR track.
//!
//! All fractional quantities are fixed-point integers: ratios (overlap,
//! similarity, confidence) are counted in millionths and rounded down,
//! lengths derived from box centres are counted in hundredths of a page unit.

pub mod base;
pub mod export;
pub mod text;
pub mod fusion;
pub mod ocr;
pub mod parser;
pub mod pdfparser;
pub mod pipeline;

pub use base::model::{DocumentFinal, PageFinal, PageHypothesis};
