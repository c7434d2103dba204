//! The decisions of a Qwen3.8 inference engine, with their proofs.

pub mod cache;
pub mod cli;
pub mod format;
pub mod json;
pub mod model;
pub mod serve;
pub mod speculative;
pub mod text;
pub mod tokenizer;
