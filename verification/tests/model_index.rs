use whichllm::models::cache::{entry_file_name, is_fresh, Cache, CACHE_TTL_SECS};
use whichllm::models::gguf::merge_models;
use whichllm::models::hf_api::{
    base_model_from, extract_params, fetch_step, listing_after_fetch, listing_source, ListingSource, parse_eval_results, variants_from,
    BaseModelField, EvalEntry, EvalField, FetchStep, HfModel, HfModelRow, MAX_ATTEMPTS,
};
use whichllm::models::types::{GGUFVariant, QuantType};

fn strings(v: &[&str]) -> Vec<String> {
    v.iter().map(|s| s.to_string()).collect()
}

fn hf(id: &str, downloads: u64, siblings: &[&str], tags: &[&str]) -> HfModel {
    HfModel {
        id: id.to_string(),
        author: id.split('/').next().map(|s| s.to_string()),
        downloads,
        likes: 1,
        siblings: strings(siblings),
        tags: strings(tags),
        pipeline_tag: Some("text-generation".to_string()),
        base_model: None,
        eval_results: None,
    }
}

fn row(id: &str, downloads: u64, variants: Vec<GGUFVariant>, gguf_repo: bool) -> HfModelRow {
    HfModelRow {
        id: id.to_string(),
        author: "x".to_string(),
        downloads,
        likes: 0,
        gguf_variants: variants,
        params_m: None,
        base_model: None,
        pipeline_tag: None,
        eval_scores: vec![],
        is_gguf_repo: gguf_repo,
    }
}

fn v(name: &str) -> GGUFVariant {
    GGUFVariant { filename: name.to_string(), size_bytes: 0, quant: QuantType::from_filename(name) }
}

#[test]
fn params_from_model_id() {
    assert_eq!(extract_params("meta-llama/Llama-3.1-8B-Instruct", &vec![]), Some(8000));
    // A point between digits stays inside the size word.
    assert_eq!(extract_params("Qwen/Qwen2.5-0.5B", &vec![]), Some(500));
    assert_eq!(extract_params("Qwen/Qwen2.5-1.5B-Instruct", &vec![]), Some(1500));
    assert_eq!(extract_params("Qwen/Qwen2.5 1.5b chat", &vec![]), Some(1500));
    // Any other point separates words.
    assert_eq!(extract_params("org/model.7b", &vec![]), Some(7000));
    assert_eq!(extract_params("org/v1.b", &vec![]), None);
    assert_eq!(extract_params("org/model_70b", &vec![]), Some(70000));
    assert_eq!(extract_params("org/gpt2", &vec![]), None);
    assert_eq!(extract_params("org/b", &vec![]), None);
}

#[test]
fn params_from_tags_first() {
    let tags = strings(&["license:mit", "7 billion parameters"]);
    assert_eq!(extract_params("org/model-13b", &tags), Some(7000));
    let tags = strings(&["3.8B parameters"]);
    assert_eq!(extract_params("org/x", &tags), None);
    let tags = strings(&["0.5 B parameters"]);
    assert_eq!(extract_params("org/x", &tags), Some(500));
    let tags = strings(&["many billion"]);
    assert_eq!(extract_params("org/x-2b", &tags), Some(2000));
}

#[test]
fn base_model_fields() {
    assert_eq!(base_model_from(&Some(BaseModelField::Text("a/b".to_string()))), Some("a/b".to_string()));
    assert_eq!(
        base_model_from(&Some(BaseModelField::List(vec![Some("a/c".to_string()), Some("a/d".to_string())]))),
        Some("a/c".to_string())
    );
    assert_eq!(base_model_from(&Some(BaseModelField::List(vec![None]))), None);
    assert_eq!(base_model_from(&Some(BaseModelField::List(vec![]))), None);
    assert_eq!(base_model_from(&Some(BaseModelField::Other)), None);
    assert_eq!(base_model_from(&None), None);
}

#[test]
fn card_scores() {
    let f = Some(EvalField::List(vec![
        EvalEntry { task: Some("mmlu".to_string()), value: Some(7150) },
        EvalEntry { task: None, value: None },
    ]));
    assert_eq!(
        parse_eval_results(&f),
        vec![("mmlu".to_string(), 7150), ("unknown".to_string(), 0)]
    );
    assert!(parse_eval_results(&Some(EvalField::Other)).is_empty());
    assert!(parse_eval_results(&None).is_empty());
}

#[test]
fn variants_from_files() {
    let files = strings(&["README.md", "m.Q4_K_M.gguf", "m.Q8_0.gguf", "config.json"]);
    let vs = variants_from(&files, true);
    assert_eq!(vs.len(), 2);
    assert_eq!(vs[0].filename, "m.Q4_K_M.gguf");
    assert_eq!(vs[0].quant, QuantType::Q4_K_M);
    assert_eq!(vs[0].size_bytes, 0);
    assert_eq!(vs[1].quant, QuantType::Q8_0);
}

#[test]
fn placeholder_variants() {
    let repo = variants_from(&vec![], true);
    let names: Vec<&str> = repo.iter().map(|v| v.filename.as_str()).collect();
    assert_eq!(names, vec!["model-q4_k_m.gguf", "model-q5_k_m.gguf", "model-q8_0.gguf"]);
    assert_eq!(repo[2].quant, QuantType::Q8_0);
    let plain = variants_from(&strings(&["model.safetensors"]), false);
    let names: Vec<&str> = plain.iter().map(|v| v.filename.as_str()).collect();
    assert_eq!(names, vec!["model-q4_k_m.gguf", "model-q5_k_m.gguf"]);
}

#[test]
fn row_from_index_model() {
    let mut m = hf("TheBloke/Mistral-7B-Instruct-GGUF", 500, &["mistral.Q5_K_M.gguf"], &[]);
    m.base_model = Some(BaseModelField::Text("mistralai/Mistral-7B-Instruct".to_string()));
    m.eval_results = Some(EvalField::List(vec![EvalEntry { task: Some("arc".to_string()), value: Some(6000) }]));
    let r = HfModelRow::from_hf(m);
    assert_eq!(r.id, "TheBloke/Mistral-7B-Instruct-GGUF");
    assert_eq!(r.author, "TheBloke");
    assert_eq!(r.downloads, 500);
    assert_eq!(r.likes, 1);
    assert!(r.is_gguf_repo);
    assert_eq!(r.gguf_variants.len(), 1);
    assert_eq!(r.gguf_variants[0].quant, QuantType::Q5_K_M);
    assert_eq!(r.params_m, Some(7000));
    assert_eq!(r.base_model, Some("mistralai/Mistral-7B-Instruct".to_string()));
    assert_eq!(r.pipeline_tag, Some("text-generation".to_string()));
    assert_eq!(r.eval_scores, vec![("arc".to_string(), 6000)]);
}

#[test]
fn row_without_author() {
    let mut m = hf("org/tiny", 1, &[], &[]);
    m.author = None;
    let r = HfModelRow::from_hf(m);
    assert_eq!(r.author, "");
    assert!(!r.is_gguf_repo);
    assert_eq!(r.gguf_variants.len(), 2);
    assert_eq!(r.params_m, None);
}

#[test]
fn merged_models_by_downloads() {
    let text_gen = vec![
        row("a/one", 10, vec![], false),
        row("b/two", 30, vec![v("two.Q4_K_M.gguf")], false),
    ];
    let gguf = vec![
        row("a/one", 50, vec![v("one.Q4_K_M.gguf"), v("one.Q8_0.gguf")], true),
        row("c/three", 20, vec![], true),
    ];
    let ms = merge_models(text_gen, gguf);
    let ids: Vec<&str> = ms.iter().map(|m| m.model_id.as_str()).collect();
    assert_eq!(ids, vec!["a/one", "b/two", "c/three"]);
    assert_eq!(ms[0].downloads, 50);
    assert_eq!(ms[0].gguf_variants.len(), 2);
    assert_eq!(ms[1].gguf_variants.len(), 1);
    assert!(ms[0].eval_results.is_none());
}

#[test]
fn merging_keeps_one_model_per_id() {
    let rows = vec![
        row("a/one", 5, vec![v("x.Q4_K_M.gguf")], false),
        row("a/one", 3, vec![v("y.Q8_0.gguf")], true),
        row("a/one", 9, vec![], false),
    ];
    let ms = merge_models(rows, vec![]);
    assert_eq!(ms.len(), 1);
    assert_eq!(ms[0].downloads, 9);
    // A GGUF repository's variants replace earlier ones.
    assert_eq!(ms[0].gguf_variants[0].filename, "y.Q8_0.gguf");
    assert!(merge_models(vec![], vec![]).is_empty());
}

#[test]
fn merged_model_keeps_card_scores() {
    let mut r = row("a/one", 5, vec![], false);
    r.eval_scores = vec![("mmlu".to_string(), 6500)];
    let ms = merge_models(vec![r], vec![]);
    let ev = ms[0].eval_results.as_ref().unwrap();
    assert_eq!(ev.scores, vec![("mmlu".to_string(), 6500)]);
    assert_eq!(ev.source, "huggingface_card");
}

#[test]
fn fetch_steps() {
    assert_eq!(MAX_ATTEMPTS, 3);
    assert_eq!(fetch_step(0, 429), FetchStep::Wait { secs: 1 });
    assert_eq!(fetch_step(1, 429), FetchStep::Wait { secs: 2 });
    assert_eq!(fetch_step(2, 429), FetchStep::Wait { secs: 4 });
    assert_eq!(fetch_step(0, 200), FetchStep::Accept);
    assert_eq!(fetch_step(0, 204), FetchStep::Accept);
    assert_eq!(fetch_step(0, 500), FetchStep::Fail);
    assert_eq!(fetch_step(1, 404), FetchStep::Fail);
    assert_eq!(fetch_step(0, 199), FetchStep::Fail);
    assert_eq!(fetch_step(0, 300), FetchStep::Fail);
}

#[test]
fn cache_freshness() {
    assert_eq!(CACHE_TTL_SECS, 6 * 3600);
    assert!(is_fresh(1000, 1000, CACHE_TTL_SECS));
    assert!(is_fresh(1000 + 21600, 1000, CACHE_TTL_SECS));
    assert!(!is_fresh(1000 + 21601, 1000, CACHE_TTL_SECS));
    // A timestamp in the future counts as no time passed.
    assert!(is_fresh(5, 1000, 0));
    assert!(is_fresh(u64::MAX, 0, u64::MAX));
}

#[test]
fn cache_files() {
    assert_eq!(entry_file_name("hf_gguf"), "hf_gguf.json");
    let c = Cache::in_dir("/home/u/.cache/whichllm".to_string());
    assert_eq!(c.dir(), "/home/u/.cache/whichllm");
    assert_eq!(c.entry_path("hf_text_generation"), "/home/u/.cache/whichllm/hf_text_generation.json");
}

#[test]
fn listing_sources() {
    assert_eq!(listing_source(false, true), ListingSource::Cache);
    assert_eq!(listing_source(false, false), ListingSource::Network);
    assert_eq!(listing_source(true, true), ListingSource::Network);
    assert_eq!(listing_source(true, false), ListingSource::Network);
}

#[test]
fn listing_falls_back_to_stale_cache() {
    let fetched = vec![row("a/new", 1, vec![], false)];
    let stale = vec![row("a/old", 1, vec![], false)];
    let r = listing_after_fetch(Some(fetched.clone()), Some(stale.clone()));
    assert_eq!(r.len(), 1);
    assert_eq!(r[0].id, "a/new");
    let r = listing_after_fetch(None, Some(stale));
    assert_eq!(r[0].id, "a/old");
    assert!(listing_after_fetch(None, None).is_empty());
    let r = listing_after_fetch(Some(vec![]), None);
    assert!(r.is_empty());
}
