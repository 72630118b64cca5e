pub mod bridge;
pub mod layout_builder;
pub mod renderer;

pub use renderer::PageRenderer;
