//! A diff-aware copy engine: brings a destination byte file into agreement
//! with a source byte stream while writing only from the first point where
//! the two diverge, then truncating any stale tail.

pub mod chunk;
pub mod engine;
pub mod file_model;
