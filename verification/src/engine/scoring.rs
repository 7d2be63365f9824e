//! Score components and the ranking of model builds.
use vstd::prelude::*;
use crate::text::{chars_of, opt_chars, pieces, same_chars, same_str, split_char, views};
use crate::models::types::{ModelInfo, QuantType, quant_bits};
use crate::hardware::types::{HardwareInfo, bandwidth_min, min_bandwidth, sums_fit, sums_within, vram_total};
use super::types::{FitType, ScoreMarker};
use super::vram::{estimate_vram, fit_of, fit_type, vram_needed};
use super::speed::{estimate_tps, quant_eff_of, quant_efficiency, tps_of};

verus! {

/// The score factor of a placement, in hundredths.
pub open spec fn fit_score_factor(f: FitType) -> u64 {
    match f {
        FitType::FullGpu => 100,
        FitType::PartialOffload => 72,
        FitType::CpuOnly => 50,
    }
}

/// The score factor of a placement, in hundredths: 1.00 on the GPU, 0.72 when
/// offloading, 0.50 on the CPU.
pub fn fit_factor(f: FitType) -> (r: u64)
    ensures
        r == fit_score_factor(f),
        50 <= r <= 100,
{
    match f {
        FitType::FullGpu => 100,
        FitType::PartialOffload => 72,
        FitType::CpuOnly => 50,
    }
}

/// The score adjustment for a speed given in hundredths of a token per second.
pub open spec fn speed_adj_of(tps: u64) -> int {
    if tps >= 3000 {
        8
    } else if tps >= 1000 {
        4
    } else if tps >= 400 {
        -2
    } else {
        -8
    }
}

/// The score adjustment for a speed in hundredths of a token per second: +8
/// from 30 tok/s, +4 from 10, -2 from 4, -8 below.
pub fn speed_adjustment(tps: u64) -> (a: i64)
    ensures
        a == speed_adj_of(tps),
        -8 <= a <= 8,
{
    if tps >= 3000 {
        8
    } else if tps >= 1000 {
        4
    } else if tps >= 400 {
        -2
    } else {
        -8
    }
}

/// The model id names an organisation (the part before its first `/`, when
/// there is one) that is the model's author.
pub open spec fn official_org(model_id: Seq<char>, author: Seq<char>) -> bool {
    let parts = pieces(model_id, '/');
    parts.len() >= 2 && parts[0] == author
}

/// Whether a model is published under its author's own organisation.
pub fn is_official_org(model: &ModelInfo) -> (r: bool)
    ensures
        r == official_org(model.model_id@, model.author@),
{
    let id = chars_of(model.model_id.as_str());
    let parts = split_char(&id, '/');
    if parts.len() < 2 {
        return false;
    }
    assert(views(parts@)[0] == parts@[0]@);
    let author = chars_of(model.author.as_str());
    same_chars(&parts[0], &author)
}

/// The score adjustment for the source of a model: +3 for an official organisation.
pub fn trust_adjustment(model: &ModelInfo) -> (a: i64)
    ensures
        a == (if official_org(model.model_id@, model.author@) {
            3i64
        } else {
            0i64
        }),
{
    if is_official_org(model) {
        3
    } else {
        0
    }
}

/// The marker of a model's score: no benchmark, or no confidence, is `NoData`;
/// confidence up to 0.55 is self-reported; below 1.00 inferred; else unmarked.
pub open spec fn marker_of(m: ModelInfo) -> ScoreMarker {
    if m.benchmark_score is None {
        ScoreMarker::NoData
    } else {
        match m.benchmark_confidence {
            Some(c) => if c <= 55 {
                ScoreMarker::SelfReported
            } else if c < 100 {
                ScoreMarker::Inferred
            } else {
                ScoreMarker::Unmarked
            },
            None => ScoreMarker::NoData,
        }
    }
}

/// The marker shown beside a model's score.
pub fn score_marker(model: &ModelInfo) -> (s: ScoreMarker)
    ensures
        s == marker_of(*model),
{
    if model.benchmark_score.is_none() {
        ScoreMarker::NoData
    } else {
        match model.benchmark_confidence {
            Some(c) => if c <= 55 {
                ScoreMarker::SelfReported
            } else if c < 100 {
                ScoreMarker::Inferred
            } else {
                ScoreMarker::Unmarked
            },
            None => ScoreMarker::NoData,
        }
    }
}

/// The speed floor of a speed filter, in hundredths of a token per second:
/// `usable` 10 tok/s, `fast` 30, any other name none at all; no filter, no floor.
pub open spec fn speed_floor(filter: Option<Seq<char>>) -> Option<u64> {
    match filter {
        Some(f) => if f == "usable"@ {
            Some(1000u64)
        } else if f == "fast"@ {
            Some(3000u64)
        } else {
            Some(0u64)
        },
        None => None,
    }
}

/// The speed floor a `--speed` filter sets.
pub fn min_speed(filter: Option<&str>) -> (r: Option<u64>)
    ensures
        r == speed_floor(opt_chars(filter)),
{
    match filter {
        Some(f) => if same_str(f, "usable") {
            Some(1000)
        } else if same_str(f, "fast") {
            Some(3000)
        } else {
            Some(0)
        },
        None => None,
    }
}

/// One model build considered for the ranking, everything but its score.
#[derive(Debug, Clone, Copy, PartialEq, Eq, Structural)]
pub struct Candidate {
    /// Index of the model in the model list.
    pub model_index: usize,
    /// Index of the build among the model's GGUF variants.
    pub variant_index: usize,
    pub vram_required_mb: u64,
    pub fit_type: FitType,
    /// Estimated speed in hundredths of a token per second.
    pub estimated_tps: u64,
    pub score_marker: ScoreMarker,
}

/// The candidate for variant `vi` of model `mi` on the given hardware.
pub open spec fn candidate_of(models: Seq<ModelInfo>, mi: int, vi: int, hw: HardwareInfo) -> Candidate {
    let m = models[mi];
    let v = m.gguf_variants@[vi];
    let vram = vram_needed(m.params_m, v.size_bytes, v.quant) as u64;
    let fit = fit_of(vram, vram_total(hw.gpus@) as int, hw.ram_mb);
    let p = match m.params_m {
        Some(p) => p,
        None => 0,
    };
    let tps = tps_of(
        vram,
        bandwidth_min(hw.gpus@),
        p,
        quant_eff_of(quant_bits(v.quant)),
        fit,
        hw.cpu.cores,
    ) as u64;
    Candidate {
        model_index: mi as usize,
        variant_index: vi as usize,
        vram_required_mb: vram,
        fit_type: fit,
        estimated_tps: tps,
        score_marker: marker_of(m),
    }
}

/// A candidate is fast enough for a speed floor.
pub open spec fn passes(floor: Option<u64>, c: Candidate) -> bool {
    match floor {
        Some(t) => c.estimated_tps >= t,
        None => true,
    }
}

/// The candidates from the first `k` variants of model `mi` that pass the floor.
pub open spec fn variant_candidates(
    models: Seq<ModelInfo>,
    mi: int,
    k: int,
    hw: HardwareInfo,
    floor: Option<u64>,
) -> Seq<Candidate>
    decreases k,
{
    if k <= 0 {
        Seq::empty()
    } else {
        let prev = variant_candidates(models, mi, k - 1, hw, floor);
        let c = candidate_of(models, mi, k - 1, hw);
        if passes(floor, c) {
            prev.push(c)
        } else {
            prev
        }
    }
}

/// The candidates from the first `n` models, model by model and variant by
/// variant, that pass the floor.
pub open spec fn all_candidates(models: Seq<ModelInfo>, n: int, hw: HardwareInfo, floor: Option<
    u64,
>) -> Seq<Candidate>
    decreases n,
{
    if n <= 0 {
        Seq::empty()
    } else {
        all_candidates(models, n - 1, hw, floor) + variant_candidates(
            models,
            n - 1,
            models[n - 1].gguf_variants@.len() as int,
            hw,
            floor,
        )
    }
}

/// Every build of every model needs a VRAM figure that fits in `u64`.
pub open spec fn vram_needs_fit(models: Seq<ModelInfo>) -> bool {
    forall|i: int, j: int|
        0 <= i < models.len() && 0 <= j < models[i].gguf_variants@.len() ==> vram_needed(
            models[i].params_m,
            #[trigger] models[i].gguf_variants@[j].size_bytes,
            models[i].gguf_variants@[j].quant,
        ) <= u64::MAX
}

/// Whether the VRAM a build needs fits in `u64` MB.
fn vram_fits(params_m: Option<u64>, size_bytes: u64, quant: QuantType) -> (r: bool)
    ensures
        r == (vram_needed(params_m, size_bytes, quant) <= u64::MAX),
{
    let p: u64 = match params_m {
        Some(p) => p,
        None => 7000,
    };
    let kv: u128 = (p / 500) as u128;
    let need: u128 = if size_bytes > 0 {
        (size_bytes / 1_048_576) as u128 + kv + 500
    } else {
        let bits: u64 = quant.bits_per_weight();
        assert((p as int) * (bits as int) * 10000 <= 0xffff_ffff_ffff_ffff * 3200 * 10000)
            by (nonlinear_arith)
            requires
                bits <= 3200,
        ;
        (p as u128) * (bits as u128) * 10000 / 8_388_608 + kv + 500
    };
    need <= 0xffff_ffff_ffff_ffffu128
}

/// Whether a ranking of these models on this machine keeps every figure within
/// its integer type: the VRAM of every build, and the machine's sums (the
/// condition `rank_candidates` asks for).
pub fn ranking_fits(models: &Vec<ModelInfo>, hw: &HardwareInfo) -> (r: bool)
    ensures
        r == (vram_needs_fit(models@) && sums_fit(*hw)),
{
    let mut mi: usize = 0;
    while mi < models.len()
        invariant
            mi <= models.len(),
            forall|i: int, j: int|
                0 <= i < mi && 0 <= j < models@[i].gguf_variants@.len() ==> vram_needed(
                    models@[i].params_m,
                    #[trigger] models@[i].gguf_variants@[j].size_bytes,
                    models@[i].gguf_variants@[j].quant,
                ) <= u64::MAX,
        decreases models.len() - mi,
    {
        let m = &models[mi];
        let mut vi: usize = 0;
        while vi < m.gguf_variants.len()
            invariant
                mi < models.len(),
                m == &models@[mi as int],
                vi <= m.gguf_variants.len(),
                forall|j: int|
                    0 <= j < vi ==> vram_needed(
                        m.params_m,
                        #[trigger] m.gguf_variants@[j].size_bytes,
                        m.gguf_variants@[j].quant,
                    ) <= u64::MAX,
            decreases m.gguf_variants.len() - vi,
        {
            let v = &m.gguf_variants[vi];
            if !vram_fits(m.params_m, v.size_bytes, v.quant) {
                assert(vram_needed(
                    models@[mi as int].params_m,
                    models@[mi as int].gguf_variants@[vi as int].size_bytes,
                    models@[mi as int].gguf_variants@[vi as int].quant,
                ) > u64::MAX);
                return false;
            }
            vi = vi + 1;
        }
        mi = mi + 1;
    }
    sums_within(hw)
}

/// The candidate for variant `vi` of model `mi`.
fn make_candidate(models: &Vec<ModelInfo>, mi: usize, vi: usize, hw: &HardwareInfo, gpu_bw: u64) -> (c: Candidate)
    requires
        mi < models.len(),
        vi < models@[mi as int].gguf_variants.len(),
        vram_needs_fit(models@),
        sums_fit(*hw),
        gpu_bw == bandwidth_min(hw.gpus@),
    ensures
        c == candidate_of(models@, mi as int, vi as int, *hw),
{
    let model = &models[mi];
    let variant = &model.gguf_variants[vi];
    assert(models@[mi as int].gguf_variants@[vi as int] == *variant);
    let vram_mb = estimate_vram(model, variant);
    let fit = fit_type(vram_mb, hw);
    let q_eff = quant_efficiency(variant.quant.bits_per_weight());
    let params: u64 = match model.params_m {
        Some(p) => p,
        None => 0,
    };
    let tps = estimate_tps(vram_mb, gpu_bw, params, q_eff, fit, hw);
    let marker = score_marker(model);
    Candidate {
        model_index: mi,
        variant_index: vi,
        vram_required_mb: vram_mb,
        fit_type: fit,
        estimated_tps: tps,
        score_marker: marker,
    }
}

/// The model builds the ranking weighs, model by model and variant by variant,
/// each with its VRAM need, placement, speed and score marker; builds slower
/// than the `--speed` filter's floor are left out.
pub fn rank_candidates(models: &Vec<ModelInfo>, hw: &HardwareInfo, speed_filter: Option<&str>) -> (r: Vec<
    Candidate,
>)
    requires
        vram_needs_fit(models@),
        sums_fit(*hw),
    ensures
        r@ == all_candidates(models@, models@.len() as int, *hw, speed_floor(opt_chars(speed_filter))),
{
    let floor = min_speed(speed_filter);
    let gpu_bw = min_bandwidth(&hw.gpus);
    let mut out: Vec<Candidate> = Vec::new();
    let mut mi: usize = 0;
    while mi < models.len()
        invariant
            mi <= models.len(),
            vram_needs_fit(models@),
            sums_fit(*hw),
            gpu_bw == bandwidth_min(hw.gpus@),
            floor == speed_floor(opt_chars(speed_filter)),
            out@ == all_candidates(models@, mi as int, *hw, floor),
        decreases models.len() - mi,
    {
        let ghost base = out@;
        let nv = models[mi].gguf_variants.len();
        let mut vi: usize = 0;
        while vi < nv
            invariant
                mi < models.len(),
                vi <= nv,
                nv == models@[mi as int].gguf_variants@.len(),
                vram_needs_fit(models@),
                sums_fit(*hw),
                gpu_bw == bandwidth_min(hw.gpus@),
                out@ == base + variant_candidates(models@, mi as int, vi as int, *hw, floor),
            decreases nv - vi,
        {
            let c = make_candidate(models, mi, vi, hw, gpu_bw);
            let keep = match floor {
                Some(t) => c.estimated_tps >= t,
                None => true,
            };
            if keep {
                out.push(c);
                assert(out@ =~= base + variant_candidates(models@, mi as int, vi + 1, *hw, floor));
            } else {
                assert(out@ =~= base + variant_candidates(models@, mi as int, vi + 1, *hw, floor));
            }
            vi = vi + 1;
        }
        mi = mi + 1;
    }
    out
}

/// The indices of the first occurrence of each distinct id, in order.
pub open spec fn first_occurrences<A>(ids: Seq<A>) -> Seq<int>
    decreases ids.len(),
{
    if ids.len() == 0 {
        Seq::empty()
    } else {
        let prev = first_occurrences(ids.drop_last());
        if exists|j: int| 0 <= j < ids.len() - 1 && ids[j] == ids.last() {
            prev
        } else {
            prev.push(ids.len() - 1)
        }
    }
}

/// The first occurrences of the distinct ids, at most `top` of them.
pub open spec fn kept_first<A>(ids: Seq<A>, top: int) -> Seq<int> {
    let fo = first_occurrences(ids);
    fo.take(
        if fo.len() < top {
            fo.len() as int
        } else {
            top
        },
    )
}

/// The ids of a list of strings.
pub open spec fn string_views(v: Seq<String>) -> Seq<Seq<char>> {
    v.map_values(|s: String| s@)
}

/// The indices, in order, of the first occurrence of each distinct model id in
/// a ranking sorted best first, at most `top` of them: the ranked results
/// without a second build of any model.
pub fn top_unique(ids: &Vec<String>, top: usize) -> (r: Vec<usize>)
    ensures
        r@.map_values(|x: usize| x as int) == kept_first(string_views(ids@), top as int),
{
    let ghost iv = string_views(ids@);
    let mut all: Vec<usize> = Vec::new();
    let mut i: usize = 0;
    assert(iv.take(0) =~= Seq::<Seq<char>>::empty());
    assert(all@.map_values(|x: usize| x as int) =~= Seq::<int>::empty());
    while i < ids.len()
        invariant
            i <= ids.len(),
            iv == string_views(ids@),
            all@.map_values(|x: usize| x as int) == first_occurrences(iv.take(i as int)),
        decreases ids.len() - i,
    {
        let ghost t = iv.take(i + 1);
        assert(t.drop_last() == iv.take(i as int));
        let cur = chars_of(ids[i].as_str());
        let mut seen = false;
        let mut j: usize = 0;
        while j < i
            invariant
                j <= i < ids.len(),
                iv == string_views(ids@),
                cur@ == iv[i as int],
                seen == exists|k: int| 0 <= k < j && iv[k] == cur@,
            decreases i - j,
        {
            let other = chars_of(ids[j].as_str());
            assert(iv[j as int] == other@);
            if same_chars(&other, &cur) {
                seen = true;
            }
            j = j + 1;
        }
        assert(t.last() == iv[i as int]);
        assert(forall|k: int| 0 <= k < i ==> t[k] == iv[k]);
        if !seen {
            let ghost before = all@.map_values(|x: usize| x as int);
            all.push(i);
            assert(all@.map_values(|x: usize| x as int) =~= before.push(i as int));
        }
        i = i + 1;
    }
    assert(iv.take(ids.len() as int) == iv);
    let ghost full = all@.map_values(|x: usize| x as int);
    let n = if all.len() < top {
        all.len()
    } else {
        top
    };
    let mut r: Vec<usize> = Vec::new();
    let mut k: usize = 0;
    while k < n
        invariant
            k <= n <= all.len(),
            full == all@.map_values(|x: usize| x as int),
            r@.map_values(|x: usize| x as int) == full.take(k as int),
        decreases n - k,
    {
        let ghost before = r@.map_values(|x: usize| x as int);
        assert(full[k as int] == all@[k as int] as int);
        r.push(all[k]);
        assert(r@.map_values(|x: usize| x as int) =~= before.push(full[k as int]));
        assert(full.take(k + 1) =~= full.take(k as int).push(full[k as int]));
        k = k + 1;
    }
    r
}

} // verus!
