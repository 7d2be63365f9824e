//! The command-line options.
use vstd::prelude::*;

verus! {

/// What the command line asks for.
#[derive(Debug, Clone)]
pub struct Args {
    /// A GPU to simulate (e.g. "RTX 4090").
    pub gpu: Option<String>,
    /// How many results to show.
    pub top: usize,
    /// JSON output.
    pub json: bool,
    /// Fetch fresh data, bypassing the cache.
    pub refresh: bool,
    /// Speed filter: "usable" (>= 10 t/s) or "fast" (>= 30 t/s).
    pub speed: Option<String>,
}

} // verus!
