//! Ranking of local LLM builds against the hardware of a machine:
//! hardware-report parsing, quantisation tables, VRAM and speed estimates,
//! benchmark merging and the ranking pipeline.

pub mod text;
pub mod models;
pub mod benchmarks;
pub mod hardware;
pub mod engine;
pub mod cli;
pub mod output;
