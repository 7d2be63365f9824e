//! Model metadata: quantisation variants, rows of the model index, merging.
pub mod types;
pub mod hf_api;
pub mod gguf;
pub mod cache;
