//! Generation speed of a model build.
use vstd::prelude::*;
use crate::hardware::types::{HardwareInfo, MAX_BANDWIDTH_TENTHS};
use super::types::FitType;

verus! {

/// The share of the bandwidth-bound speed a placement reaches, in hundredths.
pub open spec fn speed_fit_factor(f: FitType) -> u64 {
    match f {
        FitType::FullGpu => 100,
        FitType::PartialOffload => 35,
        FitType::CpuOnly => 10,
    }
}

/// Tokens per second in hundredths: memory bandwidth over model size, times the
/// quantisation efficiency, times two, times the placement factor; on the CPU
/// at most 1.5 tokens per second per core. Zero without bandwidth, parameters
/// or size.
pub open spec fn tps_of(
    vram_mb: u64,
    bandwidth_tenths: u64,
    params_m: u64,
    quant_eff: u64,
    fit: FitType,
    cores: usize,
) -> int {
    if bandwidth_tenths == 0 || params_m == 0 || vram_mb == 0 {
        0
    } else {
        let t = bandwidth_tenths * 2048 * quant_eff * speed_fit_factor(fit) / (1000 * vram_mb);
        if fit == FitType::CpuOnly && t > cores * 150 {
            cores * 150
        } else {
            t
        }
    }
}

/// Estimated generation speed in hundredths of a token per second, from the
/// VRAM a build needs, the GPUs' bandwidth (tenths of a GB/s), the
/// parameter count in millions, the quantisation efficiency (hundredths) and
/// the placement.
pub fn estimate_tps(
    vram_required_mb: u64,
    bandwidth_tenths: u64,
    params_m: u64,
    quant_eff: u64,
    fit_type: FitType,
    hw: &HardwareInfo,
) -> (t: u64)
    requires
        bandwidth_tenths <= MAX_BANDWIDTH_TENTHS,
        quant_eff <= 100,
    ensures
        t == tps_of(vram_required_mb, bandwidth_tenths, params_m, quant_eff, fit_type, hw.cpu.cores),
{
    if bandwidth_tenths == 0 || params_m == 0 || vram_required_mb == 0 {
        return 0;
    }
    let ff: u64 = match fit_type {
        FitType::FullGpu => 100,
        FitType::PartialOffload => 35,
        FitType::CpuOnly => 10,
    };
    assert(bandwidth_tenths * 2048 * quant_eff * ff <= MAX_BANDWIDTH_TENTHS * 2048 * 100 * 100)
        by (nonlinear_arith)
        requires
            bandwidth_tenths <= MAX_BANDWIDTH_TENTHS,
            quant_eff <= 100,
            ff <= 100,
    ;
    let num: u128 = (bandwidth_tenths as u128) * 2048 * (quant_eff as u128) * (ff as u128);
    let den: u128 = 1000 * (vram_required_mb as u128);
    let t: u128 = num / den;
    assert(t <= 0xffff_ffff_ffff_ffffu128) by (nonlinear_arith)
        requires
            den >= 1000,
            t == num / den,
            num <= 900_719_925_474_099u128 * 2048 * 100 * 100,
    ;
    let t64: u64 = t as u64;
    if fit_type == FitType::CpuOnly {
        let cap: u128 = (hw.cpu.cores as u128) * 150;
        if (t64 as u128) > cap {
            return cap as u64;
        }
    }
    t64
}

/// Speed efficiency of a quantisation from its bits per weight (hundredths of
/// a bit), in hundredths.
pub open spec fn quant_eff_of(bits: u64) -> u64 {
    if bits <= 300 {
        85
    } else if bits <= 450 {
        100
    } else if bits <= 600 {
        95
    } else if bits <= 800 {
        90
    } else {
        85
    }
}

/// Speed efficiency of a quantisation, in hundredths, from its bits per weight
/// in hundredths of a bit: 0.85 up to 3 bits, 1.00 up to 4.5, 0.95 up to 6,
/// 0.90 up to 8, 0.85 above.
pub fn quant_efficiency(bits_per_weight: u64) -> (e: u64)
    ensures
        e == quant_eff_of(bits_per_weight),
        85 <= e <= 100,
{
    if bits_per_weight <= 300 {
        85
    } else if bits_per_weight <= 450 {
        100
    } else if bits_per_weight <= 600 {
        95
    } else if bits_per_weight <= 800 {
        90
    } else {
        85
    }
}

} // verus!
