use whichllm::benchmarks::types::{BenchmarkEntry, Evidence};
use whichllm::benchmarks::{merge_benchmarks, strip_suffixes};
use whichllm::engine::scoring::score_marker;
use whichllm::engine::types::ScoreMarker;
use whichllm::models::types::{EvalResults, ModelInfo};

fn model(id: &str, base: Option<&str>, card: Vec<(&str, i64)>) -> ModelInfo {
    ModelInfo {
        model_id: id.to_string(),
        author: "x".to_string(),
        downloads: 0,
        likes: 0,
        params_m: None,
        architecture: None,
        base_model: base.map(|b| b.to_string()),
        family: None,
        gguf_variants: vec![],
        pipeline_tag: None,
        eval_results: if card.is_empty() {
            None
        } else {
            Some(EvalResults {
                scores: card.iter().map(|(t, s)| (t.to_string(), *s)).collect(),
                source: "huggingface_card".to_string(),
            })
        },
        benchmark_score: None,
        benchmark_confidence: None,
        benchmark_source: None,
    }
}

fn entry(id: &str, score: i64, source: &str, confidence: Evidence) -> BenchmarkEntry {
    BenchmarkEntry {
        model_id: id.to_string(),
        score,
        source: source.to_string(),
        confidence,
        date: "2025-01-01".to_string(),
    }
}

#[test]
fn evidence_names() {
    assert_eq!(Evidence::from_str("direct"), Evidence::Direct);
    assert_eq!(Evidence::from_str("variant"), Evidence::Variant);
    assert_eq!(Evidence::from_str("base_model"), Evidence::BaseModel);
    assert_eq!(Evidence::from_str("interpolated"), Evidence::Interpolated);
    assert_eq!(Evidence::from_str("self_reported"), Evidence::SelfReported);
    assert_eq!(Evidence::from_str("Direct"), Evidence::SelfReported);
    assert_eq!(Evidence::from_str(""), Evidence::SelfReported);
}

#[test]
fn evidence_weights() {
    assert_eq!(Evidence::Direct.weight(), 100);
    assert_eq!(Evidence::Variant.weight(), 88);
    assert_eq!(Evidence::BaseModel.weight(), 78);
    assert_eq!(Evidence::Interpolated.weight(), 65);
    assert_eq!(Evidence::SelfReported.weight(), 55);
}

#[test]
fn stronger_evidence_weighs_more() {
    let order = [
        Evidence::SelfReported,
        Evidence::Interpolated,
        Evidence::BaseModel,
        Evidence::Variant,
        Evidence::Direct,
    ];
    for w in order.windows(2) {
        assert!(w[0] < w[1]);
        assert!(w[0].weight() <= w[1].weight());
    }
}

#[test]
fn suffixes_are_stripped() {
    assert_eq!(strip_suffixes("Qwen/Qwen2.5-7B-Instruct"), "Qwen/Qwen2.5-7B");
    assert_eq!(strip_suffixes("TheBloke/Llama-2-7B-chat-GGUF"), "TheBloke/Llama-2-7B");
    assert_eq!(strip_suffixes("x/y-Instruct-GGUF-Instruct"), "x/y");
    assert_eq!(strip_suffixes("x/y"), "x/y");
    assert_eq!(strip_suffixes("-Chat"), "");
    assert_eq!(strip_suffixes("x/y-instruct"), "x/y-instruct");
}

#[test]
fn stripping_twice_changes_nothing_more() {
    for id in ["a-Instruct-chat", "b-GGUF", "c", "d-Chat-gguf-Instruct", "-GGUF-GGUF"] {
        let once = strip_suffixes(id);
        assert_eq!(strip_suffixes(&once), once);
        assert!(id.starts_with(&once));
    }
}

#[test]
fn benchmarks_by_id_base_variant_and_card() {
    let entries = vec![
        entry("Qwen/Qwen2.5-7B", 7100, "open_llm", Evidence::Direct),
        entry("meta/Llama-3-8B", 6600, "open_llm", Evidence::Interpolated),
        entry("meta/Llama-3-8B", 6800, "arena", Evidence::Direct),
    ];
    let mut models = vec![
        model("meta/Llama-3-8B", None, vec![]),
        model("someone/finetune", Some("Qwen/Qwen2.5-7B"), vec![]),
        model("Qwen/Qwen2.5-7B-Instruct", None, vec![]),
        model("z/card-only", None, vec![("a", 5000), ("b", 6001)]),
        model("z/nothing", None, vec![]),
    ];
    merge_benchmarks(&mut models, &entries);

    // The last entry of an id wins.
    assert_eq!(models[0].benchmark_score, Some(6800));
    assert_eq!(models[0].benchmark_confidence, Some(100));
    assert_eq!(models[0].benchmark_source.as_deref(), Some("arena"));
    assert_eq!(score_marker(&models[0]), ScoreMarker::Unmarked);

    assert_eq!(models[1].benchmark_score, Some(7100));
    assert_eq!(models[1].benchmark_confidence, Some(78));
    assert_eq!(score_marker(&models[1]), ScoreMarker::Inferred);

    assert_eq!(models[2].benchmark_score, Some(7100));
    assert_eq!(models[2].benchmark_confidence, Some(88));
    assert_eq!(models[2].benchmark_source.as_deref(), Some("open_llm"));

    assert_eq!(models[3].benchmark_score, Some(5500));
    assert_eq!(models[3].benchmark_confidence, Some(55));
    assert_eq!(models[3].benchmark_source.as_deref(), Some("huggingface_card"));
    assert_eq!(score_marker(&models[3]), ScoreMarker::SelfReported);

    assert_eq!(models[4].benchmark_score, None);
    assert_eq!(models[4].benchmark_confidence, None);
    assert_eq!(score_marker(&models[4]), ScoreMarker::NoData);
}

#[test]
fn card_mean_rounds_down() {
    let mut models = vec![model("z/a", None, vec![("a", -1), ("b", -2)])];
    merge_benchmarks(&mut models, &vec![]);
    assert_eq!(models[0].benchmark_score, Some(-2));
}

#[test]
fn stripped_tail_is_made_of_suffixes() {
    let sufs = ["-Instruct", "-GGUF", "-gguf", "-chat", "-Chat"];
    for id in ["m-Instruct-GGUF", "m-chat-Instruct-gguf", "m-Chat", "m", "m-instruct"] {
        let r = strip_suffixes(id);
        assert!(id.starts_with(&r));
        let mut tail = &id[r.len()..];
        while !tail.is_empty() {
            let s = sufs.iter().find(|s| tail.ends_with(*s)).unwrap();
            tail = &tail[..tail.len() - s.len()];
        }
        assert!(!sufs.iter().any(|s| r.ends_with(s)));
    }
}
