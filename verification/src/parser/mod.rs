pub mod hangul;
pub mod layout_builder;
pub mod pdf_reader;
pub mod text_extractor;

pub use pdf_reader::PdfReader;
