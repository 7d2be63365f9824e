//! What the result listing shows for placements, markers and speeds.
use vstd::prelude::*;
use crate::engine::types::{FitType, ScoreMarker};

verus! {

/// The placement column of the listing.
pub open spec fn fit_label_of(f: FitType) -> Seq<char> {
    match f {
        FitType::FullGpu => "GPU"@,
        FitType::PartialOffload => "OFFLOAD"@,
        FitType::CpuOnly => "CPU"@,
    }
}

/// The placement column of the listing: `GPU`, `OFFLOAD` or `CPU`.
pub fn fit_label(f: FitType) -> (s: &'static str)
    ensures
        s@ == fit_label_of(f),
{
    match f {
        FitType::FullGpu => "GPU",
        FitType::PartialOffload => "OFFLOAD",
        FitType::CpuOnly => "CPU",
    }
}

/// The placement as JSON names it.
pub open spec fn fit_json_of(f: FitType) -> Seq<char> {
    match f {
        FitType::FullGpu => "full_gpu"@,
        FitType::PartialOffload => "partial_offload"@,
        FitType::CpuOnly => "cpu_only"@,
    }
}

/// The placement as JSON names it: `full_gpu`, `partial_offload` or `cpu_only`.
pub fn fit_json_name(f: FitType) -> (s: &'static str)
    ensures
        s@ == fit_json_of(f),
{
    match f {
        FitType::FullGpu => "full_gpu",
        FitType::PartialOffload => "partial_offload",
        FitType::CpuOnly => "cpu_only",
    }
}

/// The text shown after a score for its marker.
pub open spec fn marker_text_of(m: ScoreMarker) -> Seq<char> {
    match m {
        ScoreMarker::Unmarked => ""@,
        ScoreMarker::Inferred => " ~"@,
        ScoreMarker::NoData => " ?"@,
        ScoreMarker::SelfReported => " !sr"@,
    }
}

/// The text shown after a score: nothing, ` ~` (inferred), ` ?` (no data) or
/// ` !sr` (self-reported).
pub fn marker_text(m: ScoreMarker) -> (s: &'static str)
    ensures
        s@ == marker_text_of(m),
{
    match m {
        ScoreMarker::Unmarked => "",
        ScoreMarker::Inferred => " ~",
        ScoreMarker::NoData => " ?",
        ScoreMarker::SelfReported => " !sr",
    }
}

/// How usable a speed is, which sets the colour it is shown in.
#[derive(Debug, Clone, Copy, PartialEq, Eq, Structural)]
pub enum SpeedBand {
    /// No estimate.
    Unknown,
    /// Below 4 tok/s.
    Slow,
    /// 4 to 10 tok/s.
    Marginal,
    /// 10 to 30 tok/s.
    Usable,
    /// 30 tok/s and more.
    Fast,
}

/// The band of a speed in hundredths of a token per second.
pub open spec fn band_of(tps: u64) -> SpeedBand {
    if tps == 0 {
        SpeedBand::Unknown
    } else if tps >= 3000 {
        SpeedBand::Fast
    } else if tps >= 1000 {
        SpeedBand::Usable
    } else if tps >= 400 {
        SpeedBand::Marginal
    } else {
        SpeedBand::Slow
    }
}

/// A faster speed never falls in a lower band; only no estimate at all is
/// `Unknown`.
pub proof fn lemma_band_monotone(t1: u64, t2: u64)
    requires
        0 < t1 <= t2,
    ensures
        band_rank(band_of(t1)) <= band_rank(band_of(t2)),
        band_of(t1) != SpeedBand::Unknown,
        band_of(0) == SpeedBand::Unknown,
{
}

/// The order of the bands, slowest first.
pub open spec fn band_rank(b: SpeedBand) -> int {
    match b {
        SpeedBand::Unknown => 0,
        SpeedBand::Slow => 1,
        SpeedBand::Marginal => 2,
        SpeedBand::Usable => 3,
        SpeedBand::Fast => 4,
    }
}

/// The band of a speed given in hundredths of a token per second.
pub fn speed_band(tps: u64) -> (b: SpeedBand)
    ensures
        b == band_of(tps),
{
    if tps == 0 {
        SpeedBand::Unknown
    } else if tps >= 3000 {
        SpeedBand::Fast
    } else if tps >= 1000 {
        SpeedBand::Usable
    } else if tps >= 400 {
        SpeedBand::Marginal
    } else {
        SpeedBand::Slow
    }
}

} // verus!
