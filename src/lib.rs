//! Finds which candidate test names a source module actually exposes.

pub mod text;
pub mod comments;
pub mod header;
pub mod exposure;
