//! Properties of the estimates and of the ranking that hold for every input.
use vstd::prelude::*;
use vstd::arithmetic::div_mod::{lemma_div_is_ordered, lemma_div_is_ordered_by_denominator};
use vstd::arithmetic::mul::lemma_mul_inequality;
use crate::models::types::{ModelInfo, QuantType};
use crate::benchmarks::types::{Evidence, evidence_weight};
use crate::hardware::types::HardwareInfo;
use super::types::{FitType, ScoreMarker};
use super::vram::{fit_of, vram_needed};
use super::speed::{speed_fit_factor, tps_of};
use super::scoring::{
    Candidate,
    all_candidates,
    candidate_of,
    first_occurrences,
    kept_first,
    marker_of,
    passes,
    speed_adj_of,
    variant_candidates,
};

verus! {

/// How good a placement is: 2 on the GPU, 1 offloading, 0 on the CPU.
pub open spec fn placement_rank(f: FitType) -> int {
    match f {
        FitType::FullGpu => 2,
        FitType::PartialOffload => 1,
        FitType::CpuOnly => 0,
    }
}

/// A build never needs less than the fixed runtime overhead of 500 MB.
pub proof fn lemma_vram_covers_overhead(params_m: Option<u64>, size_bytes: u64, quant: QuantType)
    ensures
        vram_needed(params_m, size_bytes, quant) >= 500,
{
    let p: int = match params_m {
        Some(p) => p as int,
        None => 7000,
    };
    assert(p * super::super::models::types::quant_bits(quant) * 10000 >= 0) by (nonlinear_arith)
        requires
            p >= 0,
    ;
}

/// A build that needs more VRAM never gets a better placement on the same
/// hardware.
pub proof fn lemma_fit_monotone_in_need(a: u64, b: u64, gpu_vram: int, ram_mb: u64)
    requires
        a <= b,
    ensures
        placement_rank(fit_of(b, gpu_vram, ram_mb)) <= placement_rank(fit_of(a, gpu_vram, ram_mb)),
{
}

/// More GPU memory, or more system memory, never makes a placement worse.
pub proof fn lemma_fit_monotone_in_memory(need: u64, g1: int, g2: int, r1: u64, r2: u64)
    requires
        g1 <= g2,
        r1 <= r2,
    ensures
        placement_rank(fit_of(need, g1, r1)) <= placement_rank(fit_of(need, g2, r2)),
{
}

/// A faster build never gets a lower speed adjustment, which runs from -8 to +8.
pub proof fn lemma_speed_adjustment_monotone(t1: u64, t2: u64)
    requires
        t1 <= t2,
    ensures
        speed_adj_of(t1) <= speed_adj_of(t2),
        -8 <= speed_adj_of(t1) <= 8,
{
}

/// On the CPU the estimate is never above 1.5 tokens per second per core.
pub proof fn lemma_cpu_speed_cap(vram_mb: u64, bandwidth_tenths: u64, params_m: u64, quant_eff: u64, cores: usize)
    ensures
        tps_of(vram_mb, bandwidth_tenths, params_m, quant_eff, FitType::CpuOnly, cores) <= cores * 150,
{
}

/// For one build on one machine, running on the GPU is never slower than
/// offloading, and offloading never slower than the CPU.
pub proof fn lemma_speed_follows_placement(
    vram_mb: u64,
    bandwidth_tenths: u64,
    params_m: u64,
    quant_eff: u64,
    cores: usize,
)
    ensures
        tps_of(vram_mb, bandwidth_tenths, params_m, quant_eff, FitType::FullGpu, cores) >= tps_of(
            vram_mb,
            bandwidth_tenths,
            params_m,
            quant_eff,
            FitType::PartialOffload,
            cores,
        ),
        tps_of(vram_mb, bandwidth_tenths, params_m, quant_eff, FitType::PartialOffload, cores)
            >= tps_of(vram_mb, bandwidth_tenths, params_m, quant_eff, FitType::CpuOnly, cores),
{
    if !(bandwidth_tenths == 0 || params_m == 0 || vram_mb == 0) {
        let x: int = bandwidth_tenths * 2048 * quant_eff;
        let d: int = 1000 * vram_mb;
        assert(x >= 0) by (nonlinear_arith)
            requires
                x == bandwidth_tenths * 2048 * quant_eff,
        ;
        lemma_mul_inequality(35, 100, x);
        lemma_mul_inequality(10, 35, x);
        assert(x * 35 == 35 * x && x * 100 == 100 * x && x * 10 == 10 * x) by (nonlinear_arith);
        lemma_div_is_ordered(x * 35, x * 100, d);
        lemma_div_is_ordered(x * 10, x * 35, d);
        assert(bandwidth_tenths * 2048 * quant_eff * speed_fit_factor(FitType::FullGpu) == x * 100);
        assert(bandwidth_tenths * 2048 * quant_eff * speed_fit_factor(FitType::PartialOffload) == x
            * 35);
        assert(bandwidth_tenths * 2048 * quant_eff * speed_fit_factor(FitType::CpuOnly) == x * 10);
    }
}

/// More memory bandwidth never makes a build slower.
pub proof fn lemma_speed_grows_with_bandwidth(
    vram_mb: u64,
    b1: u64,
    b2: u64,
    params_m: u64,
    quant_eff: u64,
    fit: FitType,
    cores: usize,
)
    requires
        b1 <= b2,
    ensures
        tps_of(vram_mb, b1, params_m, quant_eff, fit, cores) <= tps_of(
            vram_mb,
            b2,
            params_m,
            quant_eff,
            fit,
            cores,
        ),
{
    if !(b1 == 0 || params_m == 0 || vram_mb == 0) {
        let k: int = 2048 * quant_eff * speed_fit_factor(fit);
        let d: int = 1000 * vram_mb;
        assert(k >= 0 && d > 0) by (nonlinear_arith)
            requires
                k == 2048 * quant_eff * speed_fit_factor(fit),
                d == 1000 * vram_mb,
                vram_mb > 0,
        ;
        assert(b1 * 2048 * quant_eff * speed_fit_factor(fit) == b1 * k) by (nonlinear_arith)
            requires
                k == 2048 * quant_eff * speed_fit_factor(fit),
        ;
        assert(b2 * 2048 * quant_eff * speed_fit_factor(fit) == b2 * k) by (nonlinear_arith)
            requires
                k == 2048 * quant_eff * speed_fit_factor(fit),
        ;
        lemma_mul_inequality(b1 as int, b2 as int, k);
        lemma_div_is_ordered(b1 * k, b2 * k, d);
    } else {
        let x: int = b2 * 2048 * quant_eff * speed_fit_factor(fit);
        if vram_mb > 0 {
            assert(x >= 0 && 1000 * vram_mb > 0) by (nonlinear_arith)
                requires
                    x == b2 * 2048 * quant_eff * speed_fit_factor(fit),
                    vram_mb > 0,
            ;
            vstd::arithmetic::div_mod::lemma_div_pos_is_pos(x, 1000 * vram_mb);
        }
    }
}

/// A build that needs more VRAM never runs faster on the same machine.
pub proof fn lemma_speed_falls_with_vram(
    v1: u64,
    v2: u64,
    bandwidth_tenths: u64,
    params_m: u64,
    quant_eff: u64,
    fit: FitType,
    cores: usize,
)
    requires
        1 <= v1 <= v2,
    ensures
        tps_of(v2, bandwidth_tenths, params_m, quant_eff, fit, cores) <= tps_of(
            v1,
            bandwidth_tenths,
            params_m,
            quant_eff,
            fit,
            cores,
        ),
{
    if !(bandwidth_tenths == 0 || params_m == 0) {
        let x: int = bandwidth_tenths * 2048 * quant_eff * speed_fit_factor(fit);
        assert(x >= 0) by (nonlinear_arith)
            requires
                x == bandwidth_tenths * 2048 * quant_eff * speed_fit_factor(fit),
        ;
        lemma_div_is_ordered_by_denominator(x, 1000 * v1, 1000 * v2);
    }
}

/// A benchmark attached with a given kind of evidence (its confidence that
/// kind's weight) is shown unmarked only when measured directly, flagged as
/// self-reported only when self-reported, and as inferred otherwise.
pub proof fn lemma_marker_follows_evidence(m: ModelInfo, e: Evidence)
    requires
        m.benchmark_score is Some,
        m.benchmark_confidence == Some(evidence_weight(e)),
    ensures
        marker_of(m) == (match e {
            Evidence::Direct => ScoreMarker::Unmarked,
            Evidence::SelfReported => ScoreMarker::SelfReported,
            _ => ScoreMarker::Inferred,
        }),
{
}

/// Every candidate the ranking weighs is the build named by its own indices,
/// on that hardware, and is at least as fast as the speed floor.
pub proof fn lemma_candidates_are_builds(
    models: Seq<ModelInfo>,
    n: int,
    hw: HardwareInfo,
    floor: Option<u64>,
)
    requires
        0 <= n <= models.len() <= usize::MAX,
    ensures
        forall|k: int|
            0 <= k < all_candidates(models, n, hw, floor).len() ==> {
                let c = #[trigger] all_candidates(models, n, hw, floor)[k];
                &&& c.model_index < n
                &&& c.variant_index < models[c.model_index as int].gguf_variants@.len()
                &&& c == candidate_of(models, c.model_index as int, c.variant_index as int, hw)
                &&& passes(floor, c)
            },
    decreases n,
{
    if n > 0 {
        lemma_candidates_are_builds(models, n - 1, hw, floor);
        let nv = models[n - 1].gguf_variants@.len() as int;
        assert(nv == models[n - 1].gguf_variants.len());
        lemma_variant_candidates_are_builds(models, n - 1, nv, hw, floor);
        let prev = all_candidates(models, n - 1, hw, floor);
        let more = variant_candidates(models, n - 1, nv, hw, floor);
        assert(all_candidates(models, n, hw, floor) == prev + more);
        assert forall|k: int| 0 <= k < all_candidates(models, n, hw, floor).len() implies {
            let c = #[trigger] all_candidates(models, n, hw, floor)[k];
            &&& c.model_index < n
            &&& c.variant_index < models[c.model_index as int].gguf_variants@.len()
            &&& c == candidate_of(models, c.model_index as int, c.variant_index as int, hw)
            &&& passes(floor, c)
        } by {
            if k < prev.len() {
                assert(all_candidates(models, n, hw, floor)[k] == prev[k]);
            } else {
                assert(all_candidates(models, n, hw, floor)[k] == more[k - prev.len()]);
            }
        }
    }
}

proof fn lemma_variant_candidates_are_builds(
    models: Seq<ModelInfo>,
    mi: int,
    k: int,
    hw: HardwareInfo,
    floor: Option<u64>,
)
    requires
        0 <= mi < models.len() <= usize::MAX,
        k <= models[mi].gguf_variants.len(),
    ensures
        forall|j: int|
            0 <= j < variant_candidates(models, mi, k, hw, floor).len() ==> {
                let c = #[trigger] variant_candidates(models, mi, k, hw, floor)[j];
                &&& c.model_index == mi
                &&& c.variant_index < k
                &&& c == candidate_of(models, mi, c.variant_index as int, hw)
                &&& passes(floor, c)
            },
    decreases k,
{
    if k > 0 {
        lemma_variant_candidates_are_builds(models, mi, k - 1, hw, floor);
    }
}

/// Some candidate of `cs` is variant `vi` of model `mi`.
pub open spec fn lists_build(cs: Seq<Candidate>, mi: int, vi: int) -> bool {
    exists|k: int|
        0 <= k < cs.len() && (#[trigger] cs[k]).model_index == mi && cs[k].variant_index == vi
}

/// Candidate `c1` comes before `c2` in model order, then variant order.
pub open spec fn build_before(c1: Candidate, c2: Candidate) -> bool {
    c1.model_index < c2.model_index || (c1.model_index == c2.model_index && c1.variant_index
        < c2.variant_index)
}

proof fn lemma_variant_candidates_complete(
    models: Seq<ModelInfo>,
    mi: int,
    k: int,
    hw: HardwareInfo,
    floor: Option<u64>,
)
    requires
        0 <= mi < models.len() <= usize::MAX,
        0 <= k <= models[mi].gguf_variants.len(),
    ensures
        forall|vi: int|
            0 <= vi < k && passes(floor, candidate_of(models, mi, vi, hw)) ==> #[trigger] lists_build(
                variant_candidates(models, mi, k, hw, floor),
                mi,
                vi,
            ),
        forall|j1: int, j2: int|
            0 <= j1 < j2 < variant_candidates(models, mi, k, hw, floor).len() ==> (
            #[trigger] variant_candidates(models, mi, k, hw, floor)[j1]).variant_index < (
            #[trigger] variant_candidates(models, mi, k, hw, floor)[j2]).variant_index,
    decreases k,
{
    if k > 0 {
        lemma_variant_candidates_complete(models, mi, k - 1, hw, floor);
        lemma_variant_candidates_are_builds(models, mi, k - 1, hw, floor);
        let prev = variant_candidates(models, mi, k - 1, hw, floor);
        let cur = variant_candidates(models, mi, k, hw, floor);
        let c = candidate_of(models, mi, k - 1, hw);
        assert forall|vi: int|
            0 <= vi < k && passes(floor, candidate_of(models, mi, vi, hw)) implies #[trigger] lists_build(
            cur,
            mi,
            vi,
        ) by {
            if vi < k - 1 {
                assert(lists_build(prev, mi, vi));
                let j = choose|j: int|
                    0 <= j < prev.len() && (#[trigger] prev[j]).model_index == mi && prev[j].variant_index
                        == vi;
                assert(cur[j] == prev[j]);
            } else {
                assert(cur[prev.len() as int] == c);
            }
        }
        assert forall|j1: int, j2: int|
            0 <= j1 < j2 < cur.len() implies (#[trigger] cur[j1]).variant_index < (
            #[trigger] cur[j2]).variant_index by {
            if j2 < prev.len() {
                assert(cur[j1] == prev[j1] && cur[j2] == prev[j2]);
            } else {
                assert(cur[j1] == prev[j1]);
                assert(prev[j1].variant_index < k - 1);
            }
        }
    }
}

/// The ranking weighs every build it may: each variant of each model whose
/// speed reaches the floor is among the candidates (with no floor, every
/// variant of every model), and the candidates come in model order, then
/// variant order, each build once.
pub proof fn lemma_candidates_complete(
    models: Seq<ModelInfo>,
    n: int,
    hw: HardwareInfo,
    floor: Option<u64>,
)
    requires
        0 <= n <= models.len() <= usize::MAX,
    ensures
        forall|mi: int, vi: int|
            0 <= mi < n && 0 <= vi < models[mi].gguf_variants.len() && passes(
                floor,
                candidate_of(models, mi, vi, hw),
            ) ==> #[trigger] lists_build(all_candidates(models, n, hw, floor), mi, vi),
        floor is None ==> forall|mi: int, vi: int|
            0 <= mi < n && 0 <= vi < models[mi].gguf_variants.len() ==> #[trigger] lists_build(
                all_candidates(models, n, hw, floor),
                mi,
                vi,
            ),
        forall|k1: int, k2: int|
            0 <= k1 < k2 < all_candidates(models, n, hw, floor).len() ==> build_before(
                #[trigger] all_candidates(models, n, hw, floor)[k1],
                #[trigger] all_candidates(models, n, hw, floor)[k2],
            ),
    decreases n,
{
    if n > 0 {
        lemma_candidates_complete(models, n - 1, hw, floor);
        lemma_candidates_are_builds(models, n - 1, hw, floor);
        let nv = models[n - 1].gguf_variants@.len() as int;
        assert(nv == models[n - 1].gguf_variants.len());
        lemma_variant_candidates_complete(models, n - 1, nv, hw, floor);
        lemma_variant_candidates_are_builds(models, n - 1, nv, hw, floor);
        let prev = all_candidates(models, n - 1, hw, floor);
        let more = variant_candidates(models, n - 1, nv, hw, floor);
        let all = all_candidates(models, n, hw, floor);
        assert(all == prev + more);
        assert forall|mi: int, vi: int|
            0 <= mi < n && 0 <= vi < models[mi].gguf_variants.len() && passes(
                floor,
                candidate_of(models, mi, vi, hw),
            ) implies #[trigger] lists_build(all, mi, vi) by {
            if mi < n - 1 {
                assert(lists_build(prev, mi, vi));
                let j = choose|j: int|
                    0 <= j < prev.len() && (#[trigger] prev[j]).model_index == mi && prev[j].variant_index
                        == vi;
                assert(all[j] == prev[j]);
            } else {
                assert(lists_build(more, mi, vi));
                let j = choose|j: int|
                    0 <= j < more.len() && (#[trigger] more[j]).model_index == mi && more[j].variant_index
                        == vi;
                assert(all[prev.len() + j] == more[j]);
            }
        }
        assert forall|k1: int, k2: int|
            0 <= k1 < k2 < all.len() implies build_before(#[trigger] all[k1], #[trigger] all[k2]) by {
            if k2 < prev.len() {
                assert(all[k1] == prev[k1] && all[k2] == prev[k2]);
            } else if k1 < prev.len() {
                assert(all[k1] == prev[k1]);
                assert(all[k2] == more[k2 - prev.len()]);
            } else {
                assert(all[k1] == more[k1 - prev.len()]);
                assert(all[k2] == more[k2 - prev.len()]);
            }
        }
    }
}

/// The id at index `i` is also at one of the indices in `at`.
pub open spec fn listed_in<A>(ids: Seq<A>, at: Seq<int>, i: int) -> bool {
    exists|a: int| 0 <= a < at.len() && ids[#[trigger] at[a]] == ids[i]
}

/// The first occurrences of the ids in a list are in increasing order, each
/// names a different id, and every id of the list is among them.
pub proof fn lemma_first_occurrences<A>(ids: Seq<A>)
    ensures
        forall|a: int, b: int|
            0 <= a < b < first_occurrences(ids).len() ==> first_occurrences(ids)[a]
                < first_occurrences(ids)[b],
        forall|a: int|
            0 <= a < first_occurrences(ids).len() ==> 0 <= #[trigger] first_occurrences(ids)[a]
                < ids.len(),
        forall|a: int, b: int|
            0 <= a < first_occurrences(ids).len() && 0 <= b < first_occurrences(ids).len() && a
                != b ==> ids[first_occurrences(ids)[a]] != ids[first_occurrences(ids)[b]],
        forall|i: int| 0 <= i < ids.len() ==> #[trigger] listed_in(ids, first_occurrences(ids), i),
    decreases ids.len(),
{
    if ids.len() > 0 {
        let prev_ids = ids.drop_last();
        lemma_first_occurrences(prev_ids);
        let prev = first_occurrences(prev_ids);
        let fo = first_occurrences(ids);
        let last = ids.len() - 1;
        assert forall|a: int| 0 <= a < prev.len() implies ids[prev[a]] == prev_ids[prev[a]] by {}
        if exists|j: int| 0 <= j < ids.len() - 1 && ids[j] == ids.last() {
            assert(fo == prev);
            assert forall|i: int| 0 <= i < ids.len() implies #[trigger] listed_in(ids, fo, i) by {
                if i < last {
                    assert(prev_ids[i] == ids[i]);
                    assert(listed_in(prev_ids, prev, i));
                    let a = choose|a: int| 0 <= a < prev.len() && prev_ids[#[trigger] prev[a]] == prev_ids[i];
                    assert(ids[fo[a]] == ids[i]);
                } else {
                    let j = choose|j: int| 0 <= j < ids.len() - 1 && ids[j] == ids.last();
                    assert(prev_ids[j] == ids[j]);
                    assert(listed_in(prev_ids, prev, j));
                    let a = choose|a: int| 0 <= a < prev.len() && prev_ids[#[trigger] prev[a]] == prev_ids[j];
                    assert(ids[fo[a]] == ids[i]);
                }
            }
        } else {
            assert(fo == prev.push(last));
            assert forall|a: int| 0 <= a < prev.len() implies ids[prev[a]] != ids[last] by {
                assert(0 <= prev[a] < ids.len() - 1);
            }
            assert forall|a: int, b: int|
                0 <= a < fo.len() && 0 <= b < fo.len() && a != b implies ids[fo[a]] != ids[fo[b]] by {
                if a < prev.len() && b < prev.len() {
                    assert(fo[a] == prev[a] && fo[b] == prev[b]);
                } else if a < prev.len() {
                    assert(fo[a] == prev[a] && fo[b] == last);
                } else {
                    assert(fo[b] == prev[b] && fo[a] == last);
                }
            }
            assert forall|i: int| 0 <= i < ids.len() implies #[trigger] listed_in(ids, fo, i) by {
                if i < last {
                    assert(prev_ids[i] == ids[i]);
                    assert(listed_in(prev_ids, prev, i));
                    let a = choose|a: int| 0 <= a < prev.len() && prev_ids[#[trigger] prev[a]] == prev_ids[i];
                    assert(fo[a] == prev[a]);
                    assert(ids[fo[a]] == ids[i]);
                } else {
                    assert(fo[prev.len() as int] == last);
                }
            }
        }
    }
}

/// What the ranking keeps of a best-first list of results: at most `top` of
/// them, in ranked order, no two of one model; and when fewer than `top`
/// models were ranked, every one of them.
pub proof fn lemma_kept_first<A>(ids: Seq<A>, top: int)
    requires
        top >= 0,
    ensures
        kept_first(ids, top).len() <= top,
        forall|a: int, b: int|
            0 <= a < b < kept_first(ids, top).len() ==> kept_first(ids, top)[a] < kept_first(
                ids,
                top,
            )[b],
        forall|a: int|
            0 <= a < kept_first(ids, top).len() ==> 0 <= #[trigger] kept_first(ids, top)[a]
                < ids.len(),
        forall|a: int, b: int|
            0 <= a < kept_first(ids, top).len() && 0 <= b < kept_first(ids, top).len() && a != b
                ==> ids[kept_first(ids, top)[a]] != ids[kept_first(ids, top)[b]],
        first_occurrences(ids).len() <= top ==> forall|i: int|
            0 <= i < ids.len() ==> #[trigger] listed_in(ids, kept_first(ids, top), i),
{
    lemma_first_occurrences(ids);
    let fo = first_occurrences(ids);
    let k = kept_first(ids, top);
    assert forall|a: int| 0 <= a < k.len() implies k[a] == fo[a] by {}
    if fo.len() <= top {
        assert(k == fo);
    }
}

} // verus!
