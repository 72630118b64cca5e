pub mod chars;
pub mod decimal;
pub mod lines;
pub mod strings;
pub mod words;
