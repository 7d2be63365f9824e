//! VRAM needed by a model build, and where it fits.
use vstd::prelude::*;
use crate::models::types::{GGUFVariant, ModelInfo, QuantType, quant_bits};
use crate::hardware::types::{HardwareInfo, total_vram, vram_total};
use super::types::FitType;

verus! {

/// Fixed runtime overhead, in MB.
pub const FRAMEWORK_OVERHEAD_MB: u64 = 500;

/// VRAM in MB that a build needs: weights (the file size when known, else
/// parameters times bits per weight), plus a KV cache of 2 MB per billion
/// parameters, plus 500 MB; a model of unknown size counts as 7B.
pub open spec fn vram_needed(params_m: Option<u64>, size_bytes: u64, quant: QuantType) -> int {
    let p: int = match params_m {
        Some(p) => p as int,
        None => 7000,
    };
    let kv = p / 500;
    if size_bytes > 0 {
        size_bytes / 1_048_576 + kv + 500
    } else {
        p * quant_bits(quant) * 10000 / 8_388_608 + kv + 500
    }
}

/// VRAM in MB that a GGUF build of a model needs.
pub fn estimate_vram(model: &ModelInfo, variant: &GGUFVariant) -> (mb: u64)
    requires
        vram_needed(model.params_m, variant.size_bytes, variant.quant) <= u64::MAX,
    ensures
        mb == vram_needed(model.params_m, variant.size_bytes, variant.quant),
{
    let p: u64 = match model.params_m {
        Some(p) => p,
        None => 7000,
    };
    let kv: u64 = p / 500;
    if variant.size_bytes > 0 {
        let weights: u64 = variant.size_bytes / 1_048_576;
        return weights + kv + FRAMEWORK_OVERHEAD_MB;
    }
    let bits: u64 = variant.quant.bits_per_weight();
    assert((p as int) * (bits as int) * 10000 <= 0xffff_ffff_ffff_ffff * 3200 * 10000) by (nonlinear_arith)
        requires
            bits <= 3200,
    ;
    let w: u128 = (p as u128) * (bits as u128) * 10000 / 8_388_608;
    let weights: u64 = w as u64;
    weights + kv + FRAMEWORK_OVERHEAD_MB
}

/// Where a build needing `vram` MB runs: on the GPUs when their VRAM holds it,
/// split with system memory when both together hold it, else on the CPU.
pub open spec fn fit_of(vram: u64, gpu_vram: int, ram_mb: u64) -> FitType {
    if vram <= gpu_vram {
        FitType::FullGpu
    } else if vram <= gpu_vram + ram_mb {
        FitType::PartialOffload
    } else {
        FitType::CpuOnly
    }
}

/// Where a build needing `vram_required_mb` MB runs on the given hardware.
pub fn fit_type(vram_required_mb: u64, hw: &HardwareInfo) -> (f: FitType)
    requires
        vram_total(hw.gpus@) <= u64::MAX,
        vram_required_mb > vram_total(hw.gpus@) ==> vram_total(hw.gpus@) + hw.ram_mb <= u64::MAX,
    ensures
        f == fit_of(vram_required_mb, vram_total(hw.gpus@) as int, hw.ram_mb),
{
    let gpu_vram = total_vram(&hw.gpus);
    if vram_required_mb <= gpu_vram {
        FitType::FullGpu
    } else if vram_required_mb <= gpu_vram + hw.ram_mb {
        FitType::PartialOffload
    } else {
        FitType::CpuOnly
    }
}

} // verus!
