//! The files that weights come in.

pub mod dtype;
pub mod safetensor;
pub mod shards;
