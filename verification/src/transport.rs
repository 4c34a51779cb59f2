//! Transport layers of a stream pipeline.
pub mod tcp;
