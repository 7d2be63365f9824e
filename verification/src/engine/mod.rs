//! Fitting models to hardware: VRAM, speed, score components and ranking.
pub mod types;
pub mod vram;
pub mod speed;
pub mod scoring;
pub mod laws;
