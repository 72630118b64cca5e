pub mod fixed;
pub mod geometry;
pub mod model;
pub mod confidence;
pub mod page_classifier;
