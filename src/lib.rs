//! Parses screenplay markup into a typed document model and renders it as HTML.
pub mod data;
pub mod text;
pub mod grammar;
pub mod parse;
pub mod error;
pub mod utils;
pub mod html;
pub mod report;
