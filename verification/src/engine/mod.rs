//! The cleaning engine.
pub mod cancellation;
pub mod memory;
pub mod pipeline;
pub mod rules;
pub mod storage;
pub mod walker;
