//! Network layers of a stream pipeline.
pub mod none;
