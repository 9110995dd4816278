//! Text transformations applied to handler output.
pub mod markdown;
