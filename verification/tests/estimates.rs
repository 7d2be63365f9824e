use whichllm::engine::scoring::{
    fit_factor, is_official_org, min_speed, rank_candidates, ranking_fits, score_marker,
    speed_adjustment, top_unique, trust_adjustment,
};
use whichllm::engine::speed::{estimate_tps, quant_efficiency};
use whichllm::engine::types::{FitType, ScoreMarker};
use whichllm::engine::vram::{estimate_vram, fit_type, FRAMEWORK_OVERHEAD_MB};
use whichllm::hardware::types::{make_gpu, CpuInfo, GpuInfo, GpuVendor, HardwareInfo, OsType};
use whichllm::models::types::{GGUFVariant, ModelInfo, QuantType};
use whichllm::output::{fit_json_name, fit_label, marker_text, speed_band, SpeedBand};

fn variant(q: QuantType, size: u64) -> GGUFVariant {
    GGUFVariant { filename: format!("m-{}.gguf", q.display_name()), size_bytes: size, quant: q }
}

fn model(id: &str, author: &str, params_m: Option<u64>, variants: Vec<GGUFVariant>) -> ModelInfo {
    ModelInfo {
        model_id: id.to_string(),
        author: author.to_string(),
        downloads: 0,
        likes: 0,
        params_m,
        architecture: None,
        base_model: None,
        family: None,
        gguf_variants: variants,
        pipeline_tag: None,
        eval_results: None,
        benchmark_score: None,
        benchmark_confidence: None,
        benchmark_source: None,
    }
}

fn machine(gpus: Vec<GpuInfo>, ram_mb: u64, cores: usize) -> HardwareInfo {
    HardwareInfo { gpus, cpu: CpuInfo { name: "cpu".to_string(), cores }, ram_mb, os: OsType::Linux }
}

fn rtx4090() -> GpuInfo {
    make_gpu("RTX 4090".to_string(), 24576, 10080, GpuVendor::Nvidia)
}

#[test]
fn vram_from_parameters() {
    // 7B at 4.5 bits: 3755 MB of weights, 14 MB of KV cache, 500 MB overhead.
    let m = model("a/b", "a", Some(7000), vec![]);
    assert_eq!(estimate_vram(&m, &variant(QuantType::Q4_K_M, 0)), 4269);
    // Unknown size counts as 7B.
    let u = model("a/b", "a", None, vec![]);
    assert_eq!(estimate_vram(&u, &variant(QuantType::Q4_K_M, 0)), 4269);
    // 70B at 8 bits: 66757 + 140 + 500.
    let big = model("a/b", "a", Some(70000), vec![]);
    assert_eq!(estimate_vram(&big, &variant(QuantType::Q8_0, 0)), 67397);
}

#[test]
fn vram_from_file_size() {
    let m = model("a/b", "a", Some(7000), vec![]);
    assert_eq!(estimate_vram(&m, &variant(QuantType::Q4_K_M, 4_368_438_944)), 4166 + 14 + 500);
    assert_eq!(FRAMEWORK_OVERHEAD_MB, 500);
    let tiny = model("a/b", "a", Some(0), vec![]);
    assert_eq!(estimate_vram(&tiny, &variant(QuantType::Q2_K, 0)), 500);
}

#[test]
fn placement() {
    let hw = machine(vec![rtx4090()], 32768, 16);
    assert_eq!(fit_type(24576, &hw), FitType::FullGpu);
    assert_eq!(fit_type(24577, &hw), FitType::PartialOffload);
    assert_eq!(fit_type(57344, &hw), FitType::PartialOffload);
    assert_eq!(fit_type(57345, &hw), FitType::CpuOnly);
    let cpu_only = machine(vec![], 16384, 8);
    assert_eq!(fit_type(4269, &cpu_only), FitType::PartialOffload);
    assert_eq!(fit_type(0, &cpu_only), FitType::FullGpu);
}

#[test]
fn speed_on_gpu() {
    let hw = machine(vec![rtx4090()], 32768, 16);
    // 1008 GB/s over 4269 MB, times 2: 483.57 tok/s.
    assert_eq!(estimate_tps(4269, 10080, 7000, 100, FitType::FullGpu, &hw), 48357);
    assert_eq!(estimate_tps(4269, 10080, 7000, 100, FitType::PartialOffload, &hw), 16925);
    assert_eq!(estimate_tps(4269, 10080, 7000, 90, FitType::FullGpu, &hw), 43521);
}

#[test]
fn speed_on_cpu_is_capped_per_core() {
    let hw = machine(vec![rtx4090()], 32768, 4);
    // Uncapped this would be 48.35 tok/s; 4 cores allow 6.
    assert_eq!(estimate_tps(4269, 10080, 7000, 100, FitType::CpuOnly, &hw), 600);
    let many = machine(vec![rtx4090()], 32768, 64);
    assert_eq!(estimate_tps(4269, 10080, 7000, 100, FitType::CpuOnly, &many), 4835);
}

#[test]
fn speed_without_data_is_zero() {
    let hw = machine(vec![], 32768, 4);
    assert_eq!(estimate_tps(4269, 0, 7000, 100, FitType::CpuOnly, &hw), 0);
    assert_eq!(estimate_tps(4269, 10080, 0, 100, FitType::FullGpu, &hw), 0);
    assert_eq!(estimate_tps(0, 10080, 7000, 100, FitType::FullGpu, &hw), 0);
}

#[test]
fn quantisation_efficiency() {
    assert_eq!(quant_efficiency(256), 85);
    assert_eq!(quant_efficiency(300), 85);
    assert_eq!(quant_efficiency(450), 100);
    assert_eq!(quant_efficiency(550), 95);
    assert_eq!(quant_efficiency(800), 90);
    assert_eq!(quant_efficiency(1600), 85);
}

#[test]
fn score_factors() {
    assert_eq!(fit_factor(FitType::FullGpu), 100);
    assert_eq!(fit_factor(FitType::PartialOffload), 72);
    assert_eq!(fit_factor(FitType::CpuOnly), 50);
    assert_eq!(speed_adjustment(3000), 8);
    assert_eq!(speed_adjustment(2999), 4);
    assert_eq!(speed_adjustment(1000), 4);
    assert_eq!(speed_adjustment(999), -2);
    assert_eq!(speed_adjustment(400), -2);
    assert_eq!(speed_adjustment(399), -8);
    assert_eq!(speed_adjustment(0), -8);
}

#[test]
fn speed_adjustment_never_drops_as_speed_rises() {
    let mut last = speed_adjustment(0);
    for t in (0..5000u64).step_by(7) {
        let a = speed_adjustment(t);
        assert!(a >= last);
        assert!((-8..=8).contains(&a));
        last = a;
    }
}

#[test]
fn official_organisation() {
    assert!(is_official_org(&model("Qwen/Qwen3-32B", "Qwen", None, vec![])));
    assert!(!is_official_org(&model("bartowski/Qwen3-32B-GGUF", "Qwen", None, vec![])));
    assert!(!is_official_org(&model("Qwen3-32B", "Qwen3-32B", None, vec![])));
    assert_eq!(trust_adjustment(&model("Qwen/Qwen3-32B", "Qwen", None, vec![])), 3);
    assert_eq!(trust_adjustment(&model("x/Qwen3-32B", "Qwen", None, vec![])), 0);
}

#[test]
fn markers() {
    let mut m = model("a/b", "a", None, vec![]);
    assert_eq!(score_marker(&m), ScoreMarker::NoData);
    m.benchmark_score = Some(7000);
    assert_eq!(score_marker(&m), ScoreMarker::NoData);
    m.benchmark_confidence = Some(55);
    assert_eq!(score_marker(&m), ScoreMarker::SelfReported);
    m.benchmark_confidence = Some(88);
    assert_eq!(score_marker(&m), ScoreMarker::Inferred);
    m.benchmark_confidence = Some(100);
    assert_eq!(score_marker(&m), ScoreMarker::Unmarked);
}

#[test]
fn speed_filters() {
    assert_eq!(min_speed(Some("usable")), Some(1000));
    assert_eq!(min_speed(Some("fast")), Some(3000));
    assert_eq!(min_speed(Some("slow")), Some(0));
    assert_eq!(min_speed(None), None);
}

#[test]
fn candidates_in_model_order() {
    let models = vec![
        model("a/one", "a", Some(7000), vec![variant(QuantType::Q4_K_M, 0), variant(QuantType::Q8_0, 0)]),
        model("b/none", "b", Some(7000), vec![]),
        model("c/huge", "c", Some(400000), vec![variant(QuantType::Fp16, 0)]),
    ];
    let hw = machine(vec![rtx4090()], 32768, 8);
    assert!(ranking_fits(&models, &hw));
    let c = rank_candidates(&models, &hw, None);
    assert_eq!(c.len(), 3);
    assert_eq!((c[0].model_index, c[0].variant_index), (0, 0));
    assert_eq!((c[1].model_index, c[1].variant_index), (0, 1));
    assert_eq!((c[2].model_index, c[2].variant_index), (2, 0));
    assert_eq!(c[0].vram_required_mb, 4269);
    assert_eq!(c[0].fit_type, FitType::FullGpu);
    assert_eq!(c[0].estimated_tps, 48357);
    assert_eq!(c[0].score_marker, ScoreMarker::NoData);
    assert_eq!(c[2].fit_type, FitType::CpuOnly);
    assert_eq!(c[2].vram_required_mb, 764239);
    assert_eq!(c[2].estimated_tps, 22);
}

#[test]
fn candidates_below_speed_floor_are_dropped() {
    let models = vec![
        model("a/one", "a", Some(7000), vec![variant(QuantType::Q4_K_M, 0)]),
        model("c/huge", "c", Some(400000), vec![variant(QuantType::Fp16, 0)]),
    ];
    let hw = machine(vec![rtx4090()], 32768, 8);
    let fast = rank_candidates(&models, &hw, Some("fast"));
    assert_eq!(fast.len(), 1);
    assert_eq!(fast[0].model_index, 0);
    for c in &fast {
        assert!(c.estimated_tps >= 3000);
    }
    let any = rank_candidates(&models, &hw, Some("whatever"));
    assert_eq!(any.len(), 2);
}

#[test]
fn ranking_inputs_out_of_range() {
    let models = vec![model("a/x", "a", Some(u64::MAX), vec![variant(QuantType::Fp32, 0)])];
    let hw = machine(vec![rtx4090()], 32768, 8);
    assert!(!ranking_fits(&models, &hw));
    let bad_hw = machine(vec![rtx4090()], u64::MAX, 8);
    assert!(!ranking_fits(&vec![], &bad_hw));
}

#[test]
fn unique_top_results() {
    let ids: Vec<String> = ["a", "b", "a", "c", "b", "d"].iter().map(|s| s.to_string()).collect();
    assert_eq!(top_unique(&ids, 10), vec![0, 1, 3, 5]);
    assert_eq!(top_unique(&ids, 2), vec![0, 1]);
    assert_eq!(top_unique(&ids, 0), Vec::<usize>::new());
    assert_eq!(top_unique(&vec![], 5), Vec::<usize>::new());
}

#[test]
fn listing_labels() {
    assert_eq!(fit_label(FitType::FullGpu), "GPU");
    assert_eq!(fit_label(FitType::PartialOffload), "OFFLOAD");
    assert_eq!(fit_label(FitType::CpuOnly), "CPU");
    assert_eq!(fit_json_name(FitType::FullGpu), "full_gpu");
    assert_eq!(fit_json_name(FitType::PartialOffload), "partial_offload");
    assert_eq!(fit_json_name(FitType::CpuOnly), "cpu_only");
    assert_eq!(marker_text(ScoreMarker::Unmarked), "");
    assert_eq!(marker_text(ScoreMarker::Inferred), " ~");
    assert_eq!(marker_text(ScoreMarker::NoData), " ?");
    assert_eq!(marker_text(ScoreMarker::SelfReported), " !sr");
}

#[test]
fn speed_bands() {
    assert_eq!(speed_band(0), SpeedBand::Unknown);
    assert_eq!(speed_band(399), SpeedBand::Slow);
    assert_eq!(speed_band(400), SpeedBand::Marginal);
    assert_eq!(speed_band(1000), SpeedBand::Usable);
    assert_eq!(speed_band(3000), SpeedBand::Fast);
}

#[test]
fn speed_grows_with_bandwidth_and_falls_with_vram() {
    let hw = machine(vec![rtx4090()], 32768, 8);
    let mut last = 0;
    for bw in (0..40000u64).step_by(997) {
        let t = estimate_tps(4269, bw, 7000, 100, FitType::FullGpu, &hw);
        assert!(t >= last);
        last = t;
    }
    let mut last = u64::MAX;
    for vram in (1..100000u64).step_by(991) {
        let t = estimate_tps(vram, 10080, 7000, 100, FitType::PartialOffload, &hw);
        assert!(t <= last);
        last = t;
    }
}

#[test]
fn several_gpus_run_at_the_slowest_bandwidth() {
    let slow = make_gpu("RTX 4060".to_string(), 8192, 2720, GpuVendor::Nvidia);
    let hw = machine(vec![rtx4090(), slow], 32768, 8);
    let models = vec![model("a/one", "a", Some(7000), vec![variant(QuantType::Q4_K_M, 0)])];
    let c = rank_candidates(&models, &hw, None);
    assert_eq!(c[0].fit_type, FitType::FullGpu);
    // 272 GB/s over 4269 MB, times two.
    assert_eq!(c[0].estimated_tps, 2720 * 2048 * 100 * 100 / (1000 * 4269));
    assert_eq!(c[0].estimated_tps, estimate_tps(4269, 2720, 7000, 100, FitType::FullGpu, &hw));
}
