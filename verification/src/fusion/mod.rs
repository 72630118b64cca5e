pub mod align;
pub mod compare;
pub mod engine;
pub mod filters;
pub mod laws;
pub mod finalize;
pub mod quality;
pub mod resolve;

pub use engine::SimpleFusionEngine;
