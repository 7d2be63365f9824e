//! Model metadata and the quantisation formats of GGUF builds.
use vstd::prelude::*;
use vstd::utf8::is_ascii_chars;
use crate::text::{ascii_lower, ascii_upper, matches_at, chars_of, contains_str, copy_opt_string, copy_string, has_sub, lowercase, opt_string, to_lowercase};

verus! {

/// A GGUF quantisation format.
#[allow(non_camel_case_types)]
#[derive(Debug, Clone, Copy, PartialEq, Eq, Structural)]
pub enum QuantType {
    Q2_K,
    Q3_K_S,
    Q3_K_M,
    Q3_K_L,
    Q4_0,
    Q4_K_S,
    Q4_K_M,
    Q5_0,
    Q5_K_S,
    Q5_K_M,
    Q6_K,
    Q8_0,
    Fp16,
    Fp32,
    Unknown,
}

/// The format named in an already lower-cased file name: the first tag of the
/// list below that occurs in it wins.
pub open spec fn quant_in_lower(l: Seq<char>) -> QuantType {
    if has_sub(l, "q2_k"@) {
        QuantType::Q2_K
    } else if has_sub(l, "q3_k_l"@) {
        QuantType::Q3_K_L
    } else if has_sub(l, "q3_k_m"@) {
        QuantType::Q3_K_M
    } else if has_sub(l, "q3_k_s"@) {
        QuantType::Q3_K_S
    } else if has_sub(l, "q4_k_m"@) {
        QuantType::Q4_K_M
    } else if has_sub(l, "q4_k_s"@) {
        QuantType::Q4_K_S
    } else if has_sub(l, "q4_0"@) {
        QuantType::Q4_0
    } else if has_sub(l, "q5_k_m"@) {
        QuantType::Q5_K_M
    } else if has_sub(l, "q5_k_s"@) {
        QuantType::Q5_K_S
    } else if has_sub(l, "q5_0"@) {
        QuantType::Q5_0
    } else if has_sub(l, "q6_k"@) {
        QuantType::Q6_K
    } else if has_sub(l, "q8_0"@) {
        QuantType::Q8_0
    } else if has_sub(l, "fp16"@) || has_sub(l, "f16"@) {
        QuantType::Fp16
    } else if has_sub(l, "fp32"@) || has_sub(l, "f32"@) {
        QuantType::Fp32
    } else {
        QuantType::Unknown
    }
}

/// The name under which a format is shown.
pub open spec fn quant_label(q: QuantType) -> Seq<char> {
    match q {
        QuantType::Q2_K => "Q2_K"@,
        QuantType::Q3_K_S => "Q3_K_S"@,
        QuantType::Q3_K_M => "Q3_K_M"@,
        QuantType::Q3_K_L => "Q3_K_L"@,
        QuantType::Q4_0 => "Q4_0"@,
        QuantType::Q4_K_S => "Q4_K_S"@,
        QuantType::Q4_K_M => "Q4_K_M"@,
        QuantType::Q5_0 => "Q5_0"@,
        QuantType::Q5_K_S => "Q5_K_S"@,
        QuantType::Q5_K_M => "Q5_K_M"@,
        QuantType::Q6_K => "Q6_K"@,
        QuantType::Q8_0 => "Q8_0"@,
        QuantType::Fp16 => "FP16"@,
        QuantType::Fp32 => "FP32"@,
        QuantType::Unknown => "???"@,
    }
}

/// Bits stored per weight, in hundredths of a bit.
pub open spec fn quant_bits(q: QuantType) -> u64 {
    match q {
        QuantType::Q2_K => 256,
        QuantType::Q3_K_S => 300,
        QuantType::Q3_K_M => 325,
        QuantType::Q3_K_L => 350,
        QuantType::Q4_0 => 400,
        QuantType::Q4_K_S => 425,
        QuantType::Q4_K_M => 450,
        QuantType::Q5_0 => 500,
        QuantType::Q5_K_S => 525,
        QuantType::Q5_K_M => 550,
        QuantType::Q6_K => 600,
        QuantType::Q8_0 => 800,
        QuantType::Fp16 => 1600,
        QuantType::Fp32 => 3200,
        QuantType::Unknown => 450,
    }
}

/// The quality kept by a format, in hundredths (1.00 = lossless).
pub open spec fn quant_penalty(q: QuantType) -> u64 {
    match q {
        QuantType::Q2_K => 60,
        QuantType::Q3_K_S | QuantType::Q3_K_M | QuantType::Q3_K_L => 75,
        QuantType::Q4_0 | QuantType::Q4_K_S | QuantType::Q4_K_M => 88,
        QuantType::Q5_0 | QuantType::Q5_K_S | QuantType::Q5_K_M => 95,
        QuantType::Q6_K => 97,
        QuantType::Q8_0 => 98,
        QuantType::Fp16 | QuantType::Fp32 => 100,
        QuantType::Unknown => 85,
    }
}

/// Among the known formats, one that stores more bits per weight never keeps
/// less quality: lower-bit formats are discounted more.
pub proof fn lemma_penalty_follows_bits(a: QuantType, b: QuantType)
    requires
        a != QuantType::Unknown,
        b != QuantType::Unknown,
        quant_bits(a) <= quant_bits(b),
    ensures
        quant_penalty(a) <= quant_penalty(b),
        60 <= quant_penalty(a) <= 100,
{
}

/// The quality a format keeps goes by how many bits it stores per weight:
/// 0.60 below 3 bits, 0.75 for 3 to 3.5 bits, 0.88 for 4 to 4.5, 0.95 for 5
/// to 5.5, 0.97 at 6, 0.98 at 8 and 1.00 for 16 bits and more (an unknown
/// format, read as 4.5 bits, keeps 0.85).
pub proof fn lemma_penalty_by_bits(q: QuantType)
    ensures
        q != QuantType::Unknown ==> {
            &&& quant_bits(q) < 300 ==> quant_penalty(q) == 60
            &&& 300 <= quant_bits(q) <= 350 ==> quant_penalty(q) == 75
            &&& 400 <= quant_bits(q) <= 450 ==> quant_penalty(q) == 88
            &&& 500 <= quant_bits(q) <= 550 ==> quant_penalty(q) == 95
            &&& quant_bits(q) == 600 ==> quant_penalty(q) == 97
            &&& quant_bits(q) == 800 ==> quant_penalty(q) == 98
            &&& quant_bits(q) >= 1600 ==> quant_penalty(q) == 100
        },
        q == QuantType::Unknown ==> quant_bits(q) == 450 && quant_penalty(q) == 85,
{
}

impl QuantType {
    /// The format named in a file name, compared without regard to case.
    pub fn from_filename(filename: &str) -> (q: QuantType)
        ensures
            q == quant_in_lower(lowercase(filename@)),
            is_ascii_chars(filename@) ==> q == quant_in_lower(
                filename@.map_values(|c: char| ascii_lower(c)),
            ),
    {
        let lower = to_lowercase(filename);
        let l = chars_of(lower.as_str());
        if contains_str(&l, "q2_k") {
            QuantType::Q2_K
        } else if contains_str(&l, "q3_k_l") {
            QuantType::Q3_K_L
        } else if contains_str(&l, "q3_k_m") {
            QuantType::Q3_K_M
        } else if contains_str(&l, "q3_k_s") {
            QuantType::Q3_K_S
        } else if contains_str(&l, "q4_k_m") {
            QuantType::Q4_K_M
        } else if contains_str(&l, "q4_k_s") {
            QuantType::Q4_K_S
        } else if contains_str(&l, "q4_0") {
            QuantType::Q4_0
        } else if contains_str(&l, "q5_k_m") {
            QuantType::Q5_K_M
        } else if contains_str(&l, "q5_k_s") {
            QuantType::Q5_K_S
        } else if contains_str(&l, "q5_0") {
            QuantType::Q5_0
        } else if contains_str(&l, "q6_k") {
            QuantType::Q6_K
        } else if contains_str(&l, "q8_0") {
            QuantType::Q8_0
        } else if contains_str(&l, "fp16") || contains_str(&l, "f16") {
            QuantType::Fp16
        } else if contains_str(&l, "fp32") || contains_str(&l, "f32") {
            QuantType::Fp32
        } else {
            QuantType::Unknown
        }
    }

    /// Bits per weight, in hundredths of a bit (Q4_K_M stores 4.50 bits: 450).
    pub fn bits_per_weight(&self) -> (b: u64)
        ensures
            b == quant_bits(*self),
    {
        match self {
            QuantType::Q2_K => 256,
            QuantType::Q3_K_S => 300,
            QuantType::Q3_K_M => 325,
            QuantType::Q3_K_L => 350,
            QuantType::Q4_0 => 400,
            QuantType::Q4_K_S => 425,
            QuantType::Q4_K_M => 450,
            QuantType::Q5_0 => 500,
            QuantType::Q5_K_S => 525,
            QuantType::Q5_K_M => 550,
            QuantType::Q6_K => 600,
            QuantType::Q8_0 => 800,
            QuantType::Fp16 => 1600,
            QuantType::Fp32 => 3200,
            QuantType::Unknown => 450,
        }
    }

    /// The factor by which the format discounts a score, in hundredths.
    pub fn quality_penalty(&self) -> (p: u64)
        ensures
            p == quant_penalty(*self),
    {
        match self {
            QuantType::Q2_K => 60,
            QuantType::Q3_K_S | QuantType::Q3_K_M | QuantType::Q3_K_L => 75,
            QuantType::Q4_0 | QuantType::Q4_K_S | QuantType::Q4_K_M => 88,
            QuantType::Q5_0 | QuantType::Q5_K_S | QuantType::Q5_K_M => 95,
            QuantType::Q6_K => 97,
            QuantType::Q8_0 => 98,
            QuantType::Fp16 | QuantType::Fp32 => 100,
            QuantType::Unknown => 85,
        }
    }

    /// The name under which the format is shown.
    pub fn display_name(&self) -> (s: &'static str)
        ensures
            s@ == quant_label(*self),
    {
        match self {
            QuantType::Q2_K => "Q2_K",
            QuantType::Q3_K_S => "Q3_K_S",
            QuantType::Q3_K_M => "Q3_K_M",
            QuantType::Q3_K_L => "Q3_K_L",
            QuantType::Q4_0 => "Q4_0",
            QuantType::Q4_K_S => "Q4_K_S",
            QuantType::Q4_K_M => "Q4_K_M",
            QuantType::Q5_0 => "Q5_0",
            QuantType::Q5_K_S => "Q5_K_S",
            QuantType::Q5_K_M => "Q5_K_M",
            QuantType::Q6_K => "Q6_K",
            QuantType::Q8_0 => "Q8_0",
            QuantType::Fp16 => "FP16",
            QuantType::Fp32 => "FP32",
            QuantType::Unknown => "???",
        }
    }
}

/// One GGUF file of a model.
#[derive(Debug, Clone)]
pub struct GGUFVariant {
    pub filename: String,
    pub size_bytes: u64,
    pub quant: QuantType,
}

/// Scores a model card reports for itself.
#[derive(Debug, Clone)]
pub struct EvalResults {
    /// Task name and score, the score in hundredths of a point.
    pub scores: Vec<(String, i64)>,
    pub source: String,
}

impl View for GGUFVariant {
    type V = (Seq<char>, u64, QuantType);

    open spec fn view(&self) -> (Seq<char>, u64, QuantType) {
        (self.filename@, self.size_bytes, self.quant)
    }
}

/// The values of a list of GGUF variants.
pub open spec fn variant_views(v: Seq<GGUFVariant>) -> Seq<(Seq<char>, u64, QuantType)> {
    v.map_values(|x: GGUFVariant| x@)
}

/// The values of a list of task scores.
pub open spec fn score_views(v: Seq<(String, i64)>) -> Seq<(Seq<char>, i64)> {
    v.map_values(|x: (String, i64)| (x.0@, x.1))
}

impl View for EvalResults {
    type V = (Seq<(Seq<char>, i64)>, Seq<char>);

    open spec fn view(&self) -> (Seq<(Seq<char>, i64)>, Seq<char>) {
        (score_views(self.scores@), self.source@)
    }
}

/// A copy of a GGUF variant.
pub fn copy_variant(v: &GGUFVariant) -> (r: GGUFVariant)
    ensures
        r@ == v@,
{
    GGUFVariant { filename: copy_string(&v.filename), size_bytes: v.size_bytes, quant: v.quant }
}

/// A copy of a list of GGUF variants.
pub fn copy_variants(v: &Vec<GGUFVariant>) -> (r: Vec<GGUFVariant>)
    ensures
        variant_views(r@) == variant_views(v@),
{
    let mut r: Vec<GGUFVariant> = Vec::new();
    let mut i: usize = 0;
    while i < v.len()
        invariant
            i <= v.len(),
            variant_views(r@) == variant_views(v@).take(i as int),
        decreases v.len() - i,
    {
        let ghost before = variant_views(r@);
        let c = copy_variant(&v[i]);
        let ghost cv = c@;
        r.push(c);
        assert(variant_views(r@) =~= before.push(cv));
        assert(variant_views(v@).take(i + 1) =~= variant_views(v@).take(i as int).push(
            v@[i as int]@,
        ));
        i = i + 1;
    }
    assert(variant_views(v@).take(v.len() as int) =~= variant_views(v@));
    r
}

/// A copy of a list of task scores.
pub fn copy_scores(v: &Vec<(String, i64)>) -> (r: Vec<(String, i64)>)
    ensures
        score_views(r@) == score_views(v@),
{
    let mut r: Vec<(String, i64)> = Vec::new();
    let mut i: usize = 0;
    while i < v.len()
        invariant
            i <= v.len(),
            score_views(r@) == score_views(v@).take(i as int),
        decreases v.len() - i,
    {
        let ghost before = score_views(r@);
        let c = (copy_string(&v[i].0), v[i].1);
        let ghost cv = (c.0@, c.1);
        r.push(c);
        assert(score_views(r@) =~= before.push(cv));
        assert(score_views(v@).take(i + 1) =~= score_views(v@).take(i as int).push(
            (v@[i as int].0@, v@[i as int].1),
        ));
        i = i + 1;
    }
    assert(score_views(v@).take(v.len() as int) =~= score_views(v@));
    r
}

/// What is known of one model.
#[derive(Debug, Clone)]
pub struct ModelInfo {
    pub model_id: String,
    pub author: String,
    pub downloads: u64,
    pub likes: u64,
    /// Parameter count in millions (a 7B model: 7000).
    pub params_m: Option<u64>,
    pub architecture: Option<String>,
    pub base_model: Option<String>,
    pub family: Option<String>,
    pub gguf_variants: Vec<GGUFVariant>,
    pub pipeline_tag: Option<String>,
    pub eval_results: Option<EvalResults>,
    /// Benchmark score in hundredths of a point.
    pub benchmark_score: Option<i64>,
    /// Confidence in the benchmark score, in hundredths.
    pub benchmark_confidence: Option<u64>,
    pub benchmark_source: Option<String>,
}

/// The value of a `ModelInfo`.
pub struct ModelView {
    pub model_id: Seq<char>,
    pub author: Seq<char>,
    pub downloads: u64,
    pub likes: u64,
    pub params_m: Option<u64>,
    pub architecture: Option<Seq<char>>,
    pub base_model: Option<Seq<char>>,
    pub family: Option<Seq<char>>,
    pub gguf_variants: Seq<(Seq<char>, u64, QuantType)>,
    pub pipeline_tag: Option<Seq<char>>,
    pub eval_results: Option<(Seq<(Seq<char>, i64)>, Seq<char>)>,
    pub benchmark_score: Option<i64>,
    pub benchmark_confidence: Option<u64>,
    pub benchmark_source: Option<Seq<char>>,
}

/// The value of an optional set of card scores.
pub open spec fn eval_view(e: Option<EvalResults>) -> Option<(Seq<(Seq<char>, i64)>, Seq<char>)> {
    match e {
        Some(r) => Some(r@),
        None => None,
    }
}

impl View for ModelInfo {
    type V = ModelView;

    open spec fn view(&self) -> ModelView {
        ModelView {
            model_id: self.model_id@,
            author: self.author@,
            downloads: self.downloads,
            likes: self.likes,
            params_m: self.params_m,
            architecture: opt_string(self.architecture),
            base_model: opt_string(self.base_model),
            family: opt_string(self.family),
            gguf_variants: variant_views(self.gguf_variants@),
            pipeline_tag: opt_string(self.pipeline_tag),
            eval_results: eval_view(self.eval_results),
            benchmark_score: self.benchmark_score,
            benchmark_confidence: self.benchmark_confidence,
            benchmark_source: opt_string(self.benchmark_source),
        }
    }
}

/// A copy of a model.
pub fn copy_model(m: &ModelInfo) -> (r: ModelInfo)
    ensures
        r@ == m@,
{
    let eval_results = match &m.eval_results {
        Some(e) => Some(EvalResults { scores: copy_scores(&e.scores), source: copy_string(&e.source) }),
        None => None,
    };
    ModelInfo {
        model_id: copy_string(&m.model_id),
        author: copy_string(&m.author),
        downloads: m.downloads,
        likes: m.likes,
        params_m: m.params_m,
        architecture: copy_opt_string(&m.architecture),
        base_model: copy_opt_string(&m.base_model),
        family: copy_opt_string(&m.family),
        gguf_variants: copy_variants(&m.gguf_variants),
        pipeline_tag: copy_opt_string(&m.pipeline_tag),
        eval_results,
        benchmark_score: m.benchmark_score,
        benchmark_confidence: m.benchmark_confidence,
        benchmark_source: copy_opt_string(&m.benchmark_source),
    }
}

/// The values of a list of models.
pub open spec fn model_views(m: Seq<ModelInfo>) -> Seq<ModelView> {
    m.map_values(|x: ModelInfo| x@)
}

/// The first `n` chars of `pat` stand in `s` from index `k` on.
spec fn prefix_at(s: Seq<char>, pat: Seq<char>, k: int, n: int) -> bool
    decreases n,
{
    if n <= 0 {
        true
    } else {
        prefix_at(s, pat, k, n - 1) && s[k + n - 1] == pat[n - 1]
    }
}

proof fn lemma_prefix_at(s: Seq<char>, pat: Seq<char>, k: int, n: int)
    requires
        0 <= n <= pat.len(),
    ensures
        prefix_at(s, pat, k, n) <==> forall|j: int| 0 <= j < n ==> s[k + j] == pat[j],
    decreases n,
{
    if n > 0 {
        lemma_prefix_at(s, pat, k, n - 1);
    }
}

/// `c` does not occur in `s` from index `k` on.
spec fn absent_from(s: Seq<char>, c: char, k: int) -> bool
    decreases s.len() - k,
{
    if k < 0 || k >= s.len() {
        true
    } else {
        s[k] != c && absent_from(s, c, k + 1)
    }
}

proof fn lemma_absent_from(s: Seq<char>, c: char, k: int)
    requires
        0 <= k,
        absent_from(s, c, k),
    ensures
        forall|i: int| k <= i < s.len() ==> s[i] != c,
    decreases s.len() - k,
{
    if k < s.len() {
        lemma_absent_from(s, c, k + 1);
    }
}

/// `pat` is not in `s` when it is not at its start and its first char does not
/// occur after the start.
proof fn lemma_no_sub(s: Seq<char>, pat: Seq<char>)
    requires
        pat.len() > 0,
        s.len() < pat.len() || !prefix_at(s, pat, 0, pat.len() as int),
        absent_from(s, pat[0], 1),
    ensures
        !has_sub(s, pat),
{
    lemma_absent_from(s, pat[0], 1);
    lemma_prefix_at(s, pat, 0, pat.len() as int);
    if has_sub(s, pat) {
        let k = choose|k: int| matches_at(s, pat, k);
        if k == 0 {
            assert(forall|j: int| 0 <= j < pat.len() ==> s[0 + j] == pat[j]);
        } else {
            assert(s[k + 0] == pat[0]);
        }
    }
}

/// `c` does not occur in `s` at the indices from `k` up to, not including, `end`.
spec fn absent_between(s: Seq<char>, c: char, k: int, end: int) -> bool
    decreases end - k,
{
    if k < 0 || k >= end || k >= s.len() {
        true
    } else {
        s[k] != c && absent_between(s, c, k + 1, end)
    }
}

proof fn lemma_absent_between(s: Seq<char>, c: char, k: int, end: int)
    requires
        0 <= k,
        absent_between(s, c, k, end),
    ensures
        forall|i: int| k <= i < end && i < s.len() ==> s[i] != c,
    decreases end - k,
{
    if k < end && k < s.len() {
        lemma_absent_between(s, c, k + 1, end);
    }
}

/// `pat` is not in `s` when it is not at index `k0` and its first char occurs
/// nowhere else where `pat` could start.
proof fn lemma_no_sub_at(s: Seq<char>, pat: Seq<char>, k0: int)
    requires
        pat.len() > 0,
        0 <= k0,
        k0 + pat.len() > s.len() || !prefix_at(s, pat, k0, pat.len() as int),
        absent_between(s, pat[0], 0, k0),
        absent_between(s, pat[0], k0 + 1, s.len() - pat.len() + 1),
    ensures
        !has_sub(s, pat),
{
    lemma_absent_between(s, pat[0], 0, k0);
    lemma_absent_between(s, pat[0], k0 + 1, s.len() - pat.len() + 1);
    lemma_prefix_at(s, pat, k0, pat.len() as int);
    if has_sub(s, pat) {
        let k = choose|k: int| matches_at(s, pat, k);
        if k == k0 {
            assert(forall|j: int| 0 <= j < pat.len() ==> s[k0 + j] == pat[j]);
        } else {
            assert(s[k + 0] == pat[0]);
        }
    }
}

/// The placeholder file name of a format: `model-<shown name in lower case>.gguf`.
pub open spec fn placeholder_name(q: QuantType) -> Seq<char> {
    "model-"@ + quant_label(q).map_values(|c: char| ascii_lower(c)) + ".gguf"@
}

/// The lower-case form of each format's shown name.
spec fn lower_label(q: QuantType) -> Seq<char> {
    match q {
        QuantType::Q2_K => "q2_k"@,
        QuantType::Q3_K_S => "q3_k_s"@,
        QuantType::Q3_K_M => "q3_k_m"@,
        QuantType::Q3_K_L => "q3_k_l"@,
        QuantType::Q4_0 => "q4_0"@,
        QuantType::Q4_K_S => "q4_k_s"@,
        QuantType::Q4_K_M => "q4_k_m"@,
        QuantType::Q5_0 => "q5_0"@,
        QuantType::Q5_K_S => "q5_k_s"@,
        QuantType::Q5_K_M => "q5_k_m"@,
        QuantType::Q6_K => "q6_k"@,
        QuantType::Q8_0 => "q8_0"@,
        QuantType::Fp16 => "fp16"@,
        QuantType::Fp32 => "fp32"@,
        QuantType::Unknown => "???"@,
    }
}

proof fn lemma_lower_label(q: QuantType)
    ensures
        is_ascii_chars(quant_label(q)),
        quant_label(q).map_values(|c: char| ascii_lower(c)) == lower_label(q),
{
    match q {
        QuantType::Q2_K => {
            reveal_strlit("Q2_K");
            reveal_strlit("q2_k");
            assert(quant_label(q).map_values(|c: char| ascii_lower(c)) =~= lower_label(q));
        },
        QuantType::Q3_K_S => {
            reveal_strlit("Q3_K_S");
            reveal_strlit("q3_k_s");
            assert(quant_label(q).map_values(|c: char| ascii_lower(c)) =~= lower_label(q));
        },
        QuantType::Q3_K_M => {
            reveal_strlit("Q3_K_M");
            reveal_strlit("q3_k_m");
            assert(quant_label(q).map_values(|c: char| ascii_lower(c)) =~= lower_label(q));
        },
        QuantType::Q3_K_L => {
            reveal_strlit("Q3_K_L");
            reveal_strlit("q3_k_l");
            assert(quant_label(q).map_values(|c: char| ascii_lower(c)) =~= lower_label(q));
        },
        QuantType::Q4_0 => {
            reveal_strlit("Q4_0");
            reveal_strlit("q4_0");
            assert(quant_label(q).map_values(|c: char| ascii_lower(c)) =~= lower_label(q));
        },
        QuantType::Q4_K_S => {
            reveal_strlit("Q4_K_S");
            reveal_strlit("q4_k_s");
            assert(quant_label(q).map_values(|c: char| ascii_lower(c)) =~= lower_label(q));
        },
        QuantType::Q4_K_M => {
            reveal_strlit("Q4_K_M");
            reveal_strlit("q4_k_m");
            assert(quant_label(q).map_values(|c: char| ascii_lower(c)) =~= lower_label(q));
        },
        QuantType::Q5_0 => {
            reveal_strlit("Q5_0");
            reveal_strlit("q5_0");
            assert(quant_label(q).map_values(|c: char| ascii_lower(c)) =~= lower_label(q));
        },
        QuantType::Q5_K_S => {
            reveal_strlit("Q5_K_S");
            reveal_strlit("q5_k_s");
            assert(quant_label(q).map_values(|c: char| ascii_lower(c)) =~= lower_label(q));
        },
        QuantType::Q5_K_M => {
            reveal_strlit("Q5_K_M");
            reveal_strlit("q5_k_m");
            assert(quant_label(q).map_values(|c: char| ascii_lower(c)) =~= lower_label(q));
        },
        QuantType::Q6_K => {
            reveal_strlit("Q6_K");
            reveal_strlit("q6_k");
            assert(quant_label(q).map_values(|c: char| ascii_lower(c)) =~= lower_label(q));
        },
        QuantType::Q8_0 => {
            reveal_strlit("Q8_0");
            reveal_strlit("q8_0");
            assert(quant_label(q).map_values(|c: char| ascii_lower(c)) =~= lower_label(q));
        },
        QuantType::Fp16 => {
            reveal_strlit("FP16");
            reveal_strlit("fp16");
            assert(quant_label(q).map_values(|c: char| ascii_lower(c)) =~= lower_label(q));
        },
        QuantType::Fp32 => {
            reveal_strlit("FP32");
            reveal_strlit("fp32");
            assert(quant_label(q).map_values(|c: char| ascii_lower(c)) =~= lower_label(q));
        },
        QuantType::Unknown => {
            reveal_strlit("???");
            assert(quant_label(q).map_values(|c: char| ascii_lower(c)) =~= lower_label(q));
        },
    }
}

proof fn lemma_reads_q2_k()
    ensures
        quant_in_lower(lower_label(QuantType::Q2_K)) == QuantType::Q2_K,
{
    reveal_with_fuel(absent_from, 7);
    reveal_with_fuel(prefix_at, 7);
    reveal_strlit("q2_k");
    assert(matches_at("q2_k"@, "q2_k"@, 0));
}

proof fn lemma_reads_q3_k_s()
    ensures
        quant_in_lower(lower_label(QuantType::Q3_K_S)) == QuantType::Q3_K_S,
{
    reveal_with_fuel(absent_from, 7);
    reveal_with_fuel(prefix_at, 7);
    reveal_strlit("q3_k_s");
    reveal_strlit("q2_k");
    reveal_strlit("q3_k_l");
    reveal_strlit("q3_k_m");
    lemma_no_sub("q3_k_s"@, "q2_k"@);
    lemma_no_sub("q3_k_s"@, "q3_k_l"@);
    lemma_no_sub("q3_k_s"@, "q3_k_m"@);
    assert(matches_at("q3_k_s"@, "q3_k_s"@, 0));
}

proof fn lemma_reads_q3_k_m()
    ensures
        quant_in_lower(lower_label(QuantType::Q3_K_M)) == QuantType::Q3_K_M,
{
    reveal_with_fuel(absent_from, 7);
    reveal_with_fuel(prefix_at, 7);
    reveal_strlit("q3_k_m");
    reveal_strlit("q2_k");
    reveal_strlit("q3_k_l");
    lemma_no_sub("q3_k_m"@, "q2_k"@);
    lemma_no_sub("q3_k_m"@, "q3_k_l"@);
    assert(matches_at("q3_k_m"@, "q3_k_m"@, 0));
}

proof fn lemma_reads_q3_k_l()
    ensures
        quant_in_lower(lower_label(QuantType::Q3_K_L)) == QuantType::Q3_K_L,
{
    reveal_with_fuel(absent_from, 7);
    reveal_with_fuel(prefix_at, 7);
    reveal_strlit("q3_k_l");
    reveal_strlit("q2_k");
    lemma_no_sub("q3_k_l"@, "q2_k"@);
    assert(matches_at("q3_k_l"@, "q3_k_l"@, 0));
}

proof fn lemma_reads_q4_0()
    ensures
        quant_in_lower(lower_label(QuantType::Q4_0)) == QuantType::Q4_0,
{
    reveal_with_fuel(absent_from, 7);
    reveal_with_fuel(prefix_at, 7);
    reveal_strlit("q4_0");
    reveal_strlit("q2_k");
    reveal_strlit("q3_k_l");
    reveal_strlit("q3_k_m");
    reveal_strlit("q3_k_s");
    reveal_strlit("q4_k_m");
    reveal_strlit("q4_k_s");
    lemma_no_sub("q4_0"@, "q2_k"@);
    lemma_no_sub("q4_0"@, "q3_k_l"@);
    lemma_no_sub("q4_0"@, "q3_k_m"@);
    lemma_no_sub("q4_0"@, "q3_k_s"@);
    lemma_no_sub("q4_0"@, "q4_k_m"@);
    lemma_no_sub("q4_0"@, "q4_k_s"@);
    assert(matches_at("q4_0"@, "q4_0"@, 0));
}

proof fn lemma_reads_q4_k_s()
    ensures
        quant_in_lower(lower_label(QuantType::Q4_K_S)) == QuantType::Q4_K_S,
{
    reveal_with_fuel(absent_from, 7);
    reveal_with_fuel(prefix_at, 7);
    reveal_strlit("q4_k_s");
    reveal_strlit("q2_k");
    reveal_strlit("q3_k_l");
    reveal_strlit("q3_k_m");
    reveal_strlit("q3_k_s");
    reveal_strlit("q4_k_m");
    lemma_no_sub("q4_k_s"@, "q2_k"@);
    lemma_no_sub("q4_k_s"@, "q3_k_l"@);
    lemma_no_sub("q4_k_s"@, "q3_k_m"@);
    lemma_no_sub("q4_k_s"@, "q3_k_s"@);
    lemma_no_sub("q4_k_s"@, "q4_k_m"@);
    assert(matches_at("q4_k_s"@, "q4_k_s"@, 0));
}

proof fn lemma_reads_q4_k_m()
    ensures
        quant_in_lower(lower_label(QuantType::Q4_K_M)) == QuantType::Q4_K_M,
{
    reveal_with_fuel(absent_from, 7);
    reveal_with_fuel(prefix_at, 7);
    reveal_strlit("q4_k_m");
    reveal_strlit("q2_k");
    reveal_strlit("q3_k_l");
    reveal_strlit("q3_k_m");
    reveal_strlit("q3_k_s");
    lemma_no_sub("q4_k_m"@, "q2_k"@);
    lemma_no_sub("q4_k_m"@, "q3_k_l"@);
    lemma_no_sub("q4_k_m"@, "q3_k_m"@);
    lemma_no_sub("q4_k_m"@, "q3_k_s"@);
    assert(matches_at("q4_k_m"@, "q4_k_m"@, 0));
}

proof fn lemma_reads_q5_0()
    ensures
        quant_in_lower(lower_label(QuantType::Q5_0)) == QuantType::Q5_0,
{
    reveal_with_fuel(absent_from, 7);
    reveal_with_fuel(prefix_at, 7);
    reveal_strlit("q5_0");
    reveal_strlit("q2_k");
    reveal_strlit("q3_k_l");
    reveal_strlit("q3_k_m");
    reveal_strlit("q3_k_s");
    reveal_strlit("q4_k_m");
    reveal_strlit("q4_k_s");
    reveal_strlit("q4_0");
    reveal_strlit("q5_k_m");
    reveal_strlit("q5_k_s");
    lemma_no_sub("q5_0"@, "q2_k"@);
    lemma_no_sub("q5_0"@, "q3_k_l"@);
    lemma_no_sub("q5_0"@, "q3_k_m"@);
    lemma_no_sub("q5_0"@, "q3_k_s"@);
    lemma_no_sub("q5_0"@, "q4_k_m"@);
    lemma_no_sub("q5_0"@, "q4_k_s"@);
    lemma_no_sub("q5_0"@, "q4_0"@);
    lemma_no_sub("q5_0"@, "q5_k_m"@);
    lemma_no_sub("q5_0"@, "q5_k_s"@);
    assert(matches_at("q5_0"@, "q5_0"@, 0));
}

proof fn lemma_reads_q5_k_s()
    ensures
        quant_in_lower(lower_label(QuantType::Q5_K_S)) == QuantType::Q5_K_S,
{
    reveal_with_fuel(absent_from, 7);
    reveal_with_fuel(prefix_at, 7);
    reveal_strlit("q5_k_s");
    reveal_strlit("q2_k");
    reveal_strlit("q3_k_l");
    reveal_strlit("q3_k_m");
    reveal_strlit("q3_k_s");
    reveal_strlit("q4_k_m");
    reveal_strlit("q4_k_s");
    reveal_strlit("q4_0");
    reveal_strlit("q5_k_m");
    lemma_no_sub("q5_k_s"@, "q2_k"@);
    lemma_no_sub("q5_k_s"@, "q3_k_l"@);
    lemma_no_sub("q5_k_s"@, "q3_k_m"@);
    lemma_no_sub("q5_k_s"@, "q3_k_s"@);
    lemma_no_sub("q5_k_s"@, "q4_k_m"@);
    lemma_no_sub("q5_k_s"@, "q4_k_s"@);
    lemma_no_sub("q5_k_s"@, "q4_0"@);
    lemma_no_sub("q5_k_s"@, "q5_k_m"@);
    assert(matches_at("q5_k_s"@, "q5_k_s"@, 0));
}

proof fn lemma_reads_q5_k_m()
    ensures
        quant_in_lower(lower_label(QuantType::Q5_K_M)) == QuantType::Q5_K_M,
{
    reveal_with_fuel(absent_from, 7);
    reveal_with_fuel(prefix_at, 7);
    reveal_strlit("q5_k_m");
    reveal_strlit("q2_k");
    reveal_strlit("q3_k_l");
    reveal_strlit("q3_k_m");
    reveal_strlit("q3_k_s");
    reveal_strlit("q4_k_m");
    reveal_strlit("q4_k_s");
    reveal_strlit("q4_0");
    lemma_no_sub("q5_k_m"@, "q2_k"@);
    lemma_no_sub("q5_k_m"@, "q3_k_l"@);
    lemma_no_sub("q5_k_m"@, "q3_k_m"@);
    lemma_no_sub("q5_k_m"@, "q3_k_s"@);
    lemma_no_sub("q5_k_m"@, "q4_k_m"@);
    lemma_no_sub("q5_k_m"@, "q4_k_s"@);
    lemma_no_sub("q5_k_m"@, "q4_0"@);
    assert(matches_at("q5_k_m"@, "q5_k_m"@, 0));
}

proof fn lemma_reads_q6_k()
    ensures
        quant_in_lower(lower_label(QuantType::Q6_K)) == QuantType::Q6_K,
{
    reveal_with_fuel(absent_from, 7);
    reveal_with_fuel(prefix_at, 7);
    reveal_strlit("q6_k");
    reveal_strlit("q2_k");
    reveal_strlit("q3_k_l");
    reveal_strlit("q3_k_m");
    reveal_strlit("q3_k_s");
    reveal_strlit("q4_k_m");
    reveal_strlit("q4_k_s");
    reveal_strlit("q4_0");
    reveal_strlit("q5_k_m");
    reveal_strlit("q5_k_s");
    reveal_strlit("q5_0");
    lemma_no_sub("q6_k"@, "q2_k"@);
    lemma_no_sub("q6_k"@, "q3_k_l"@);
    lemma_no_sub("q6_k"@, "q3_k_m"@);
    lemma_no_sub("q6_k"@, "q3_k_s"@);
    lemma_no_sub("q6_k"@, "q4_k_m"@);
    lemma_no_sub("q6_k"@, "q4_k_s"@);
    lemma_no_sub("q6_k"@, "q4_0"@);
    lemma_no_sub("q6_k"@, "q5_k_m"@);
    lemma_no_sub("q6_k"@, "q5_k_s"@);
    lemma_no_sub("q6_k"@, "q5_0"@);
    assert(matches_at("q6_k"@, "q6_k"@, 0));
}

proof fn lemma_reads_q8_0()
    ensures
        quant_in_lower(lower_label(QuantType::Q8_0)) == QuantType::Q8_0,
{
    reveal_with_fuel(absent_from, 7);
    reveal_with_fuel(prefix_at, 7);
    reveal_strlit("q8_0");
    reveal_strlit("q2_k");
    reveal_strlit("q3_k_l");
    reveal_strlit("q3_k_m");
    reveal_strlit("q3_k_s");
    reveal_strlit("q4_k_m");
    reveal_strlit("q4_k_s");
    reveal_strlit("q4_0");
    reveal_strlit("q5_k_m");
    reveal_strlit("q5_k_s");
    reveal_strlit("q5_0");
    reveal_strlit("q6_k");
    lemma_no_sub("q8_0"@, "q2_k"@);
    lemma_no_sub("q8_0"@, "q3_k_l"@);
    lemma_no_sub("q8_0"@, "q3_k_m"@);
    lemma_no_sub("q8_0"@, "q3_k_s"@);
    lemma_no_sub("q8_0"@, "q4_k_m"@);
    lemma_no_sub("q8_0"@, "q4_k_s"@);
    lemma_no_sub("q8_0"@, "q4_0"@);
    lemma_no_sub("q8_0"@, "q5_k_m"@);
    lemma_no_sub("q8_0"@, "q5_k_s"@);
    lemma_no_sub("q8_0"@, "q5_0"@);
    lemma_no_sub("q8_0"@, "q6_k"@);
    assert(matches_at("q8_0"@, "q8_0"@, 0));
}

proof fn lemma_reads_fp16()
    ensures
        quant_in_lower(lower_label(QuantType::Fp16)) == QuantType::Fp16,
{
    reveal_with_fuel(absent_from, 7);
    reveal_with_fuel(prefix_at, 7);
    reveal_strlit("fp16");
    reveal_strlit("q2_k");
    reveal_strlit("q3_k_l");
    reveal_strlit("q3_k_m");
    reveal_strlit("q3_k_s");
    reveal_strlit("q4_k_m");
    reveal_strlit("q4_k_s");
    reveal_strlit("q4_0");
    reveal_strlit("q5_k_m");
    reveal_strlit("q5_k_s");
    reveal_strlit("q5_0");
    reveal_strlit("q6_k");
    reveal_strlit("q8_0");
    lemma_no_sub("fp16"@, "q2_k"@);
    lemma_no_sub("fp16"@, "q3_k_l"@);
    lemma_no_sub("fp16"@, "q3_k_m"@);
    lemma_no_sub("fp16"@, "q3_k_s"@);
    lemma_no_sub("fp16"@, "q4_k_m"@);
    lemma_no_sub("fp16"@, "q4_k_s"@);
    lemma_no_sub("fp16"@, "q4_0"@);
    lemma_no_sub("fp16"@, "q5_k_m"@);
    lemma_no_sub("fp16"@, "q5_k_s"@);
    lemma_no_sub("fp16"@, "q5_0"@);
    lemma_no_sub("fp16"@, "q6_k"@);
    lemma_no_sub("fp16"@, "q8_0"@);
    assert(matches_at("fp16"@, "fp16"@, 0));
}

proof fn lemma_reads_fp32()
    ensures
        quant_in_lower(lower_label(QuantType::Fp32)) == QuantType::Fp32,
{
    reveal_with_fuel(absent_from, 7);
    reveal_with_fuel(prefix_at, 7);
    reveal_strlit("fp32");
    reveal_strlit("q2_k");
    reveal_strlit("q3_k_l");
    reveal_strlit("q3_k_m");
    reveal_strlit("q3_k_s");
    reveal_strlit("q4_k_m");
    reveal_strlit("q4_k_s");
    reveal_strlit("q4_0");
    reveal_strlit("q5_k_m");
    reveal_strlit("q5_k_s");
    reveal_strlit("q5_0");
    reveal_strlit("q6_k");
    reveal_strlit("q8_0");
    reveal_strlit("fp16");
    reveal_strlit("f16");
    lemma_no_sub("fp32"@, "q2_k"@);
    lemma_no_sub("fp32"@, "q3_k_l"@);
    lemma_no_sub("fp32"@, "q3_k_m"@);
    lemma_no_sub("fp32"@, "q3_k_s"@);
    lemma_no_sub("fp32"@, "q4_k_m"@);
    lemma_no_sub("fp32"@, "q4_k_s"@);
    lemma_no_sub("fp32"@, "q4_0"@);
    lemma_no_sub("fp32"@, "q5_k_m"@);
    lemma_no_sub("fp32"@, "q5_k_s"@);
    lemma_no_sub("fp32"@, "q5_0"@);
    lemma_no_sub("fp32"@, "q6_k"@);
    lemma_no_sub("fp32"@, "q8_0"@);
    lemma_no_sub("fp32"@, "fp16"@);
    lemma_no_sub("fp32"@, "f16"@);
    assert(matches_at("fp32"@, "fp32"@, 0));
}

proof fn lemma_reads_unknown()
    ensures
        quant_in_lower(lower_label(QuantType::Unknown)) == QuantType::Unknown,
{
    reveal_with_fuel(absent_from, 7);
    reveal_with_fuel(prefix_at, 7);
    reveal_strlit("???");
    reveal_strlit("q2_k");
    reveal_strlit("q3_k_l");
    reveal_strlit("q3_k_m");
    reveal_strlit("q3_k_s");
    reveal_strlit("q4_k_m");
    reveal_strlit("q4_k_s");
    reveal_strlit("q4_0");
    reveal_strlit("q5_k_m");
    reveal_strlit("q5_k_s");
    reveal_strlit("q5_0");
    reveal_strlit("q6_k");
    reveal_strlit("q8_0");
    reveal_strlit("fp16");
    reveal_strlit("f16");
    reveal_strlit("fp32");
    reveal_strlit("f32");
    lemma_no_sub("???"@, "q2_k"@);
    lemma_no_sub("???"@, "q3_k_l"@);
    lemma_no_sub("???"@, "q3_k_m"@);
    lemma_no_sub("???"@, "q3_k_s"@);
    lemma_no_sub("???"@, "q4_k_m"@);
    lemma_no_sub("???"@, "q4_k_s"@);
    lemma_no_sub("???"@, "q4_0"@);
    lemma_no_sub("???"@, "q5_k_m"@);
    lemma_no_sub("???"@, "q5_k_s"@);
    lemma_no_sub("???"@, "q5_0"@);
    lemma_no_sub("???"@, "q6_k"@);
    lemma_no_sub("???"@, "q8_0"@);
    lemma_no_sub("???"@, "fp16"@);
    lemma_no_sub("???"@, "f16"@);
    lemma_no_sub("???"@, "fp32"@);
    lemma_no_sub("???"@, "f32"@);
}

proof fn lemma_reads_placeholder_q2_k()
    ensures
        quant_in_lower("model-q2_k.gguf"@) == QuantType::Q2_K,
{
    reveal_with_fuel(absent_between, 19);
    reveal_with_fuel(prefix_at, 7);
    reveal_strlit("model-q2_k.gguf");
    reveal_strlit("q2_k");
    assert(matches_at("model-q2_k.gguf"@, "q2_k"@, 6));
}

proof fn lemma_reads_placeholder_q3_k_s()
    ensures
        quant_in_lower("model-q3_k_s.gguf"@) == QuantType::Q3_K_S,
{
    reveal_with_fuel(absent_between, 19);
    reveal_with_fuel(prefix_at, 7);
    reveal_strlit("model-q3_k_s.gguf");
    reveal_strlit("q2_k");
    reveal_strlit("q3_k_l");
    reveal_strlit("q3_k_m");
    reveal_strlit("q3_k_s");
    lemma_no_sub_at("model-q3_k_s.gguf"@, "q2_k"@, 6);
    lemma_no_sub_at("model-q3_k_s.gguf"@, "q3_k_l"@, 6);
    lemma_no_sub_at("model-q3_k_s.gguf"@, "q3_k_m"@, 6);
    assert(matches_at("model-q3_k_s.gguf"@, "q3_k_s"@, 6));
}

proof fn lemma_reads_placeholder_q3_k_m()
    ensures
        quant_in_lower("model-q3_k_m.gguf"@) == QuantType::Q3_K_M,
{
    reveal_with_fuel(absent_between, 19);
    reveal_with_fuel(prefix_at, 7);
    reveal_strlit("model-q3_k_m.gguf");
    reveal_strlit("q2_k");
    reveal_strlit("q3_k_l");
    reveal_strlit("q3_k_m");
    lemma_no_sub_at("model-q3_k_m.gguf"@, "q2_k"@, 6);
    lemma_no_sub_at("model-q3_k_m.gguf"@, "q3_k_l"@, 6);
    assert(matches_at("model-q3_k_m.gguf"@, "q3_k_m"@, 6));
}

proof fn lemma_reads_placeholder_q3_k_l()
    ensures
        quant_in_lower("model-q3_k_l.gguf"@) == QuantType::Q3_K_L,
{
    reveal_with_fuel(absent_between, 19);
    reveal_with_fuel(prefix_at, 7);
    reveal_strlit("model-q3_k_l.gguf");
    reveal_strlit("q2_k");
    reveal_strlit("q3_k_l");
    lemma_no_sub_at("model-q3_k_l.gguf"@, "q2_k"@, 6);
    assert(matches_at("model-q3_k_l.gguf"@, "q3_k_l"@, 6));
}

proof fn lemma_reads_placeholder_q4_0()
    ensures
        quant_in_lower("model-q4_0.gguf"@) == QuantType::Q4_0,
{
    reveal_with_fuel(absent_between, 19);
    reveal_with_fuel(prefix_at, 7);
    reveal_strlit("model-q4_0.gguf");
    reveal_strlit("q2_k");
    reveal_strlit("q3_k_l");
    reveal_strlit("q3_k_m");
    reveal_strlit("q3_k_s");
    reveal_strlit("q4_k_m");
    reveal_strlit("q4_k_s");
    reveal_strlit("q4_0");
    lemma_no_sub_at("model-q4_0.gguf"@, "q2_k"@, 6);
    lemma_no_sub_at("model-q4_0.gguf"@, "q3_k_l"@, 6);
    lemma_no_sub_at("model-q4_0.gguf"@, "q3_k_m"@, 6);
    lemma_no_sub_at("model-q4_0.gguf"@, "q3_k_s"@, 6);
    lemma_no_sub_at("model-q4_0.gguf"@, "q4_k_m"@, 6);
    lemma_no_sub_at("model-q4_0.gguf"@, "q4_k_s"@, 6);
    assert(matches_at("model-q4_0.gguf"@, "q4_0"@, 6));
}

proof fn lemma_reads_placeholder_q4_k_s()
    ensures
        quant_in_lower("model-q4_k_s.gguf"@) == QuantType::Q4_K_S,
{
    reveal_with_fuel(absent_between, 19);
    reveal_with_fuel(prefix_at, 7);
    reveal_strlit("model-q4_k_s.gguf");
    reveal_strlit("q2_k");
    reveal_strlit("q3_k_l");
    reveal_strlit("q3_k_m");
    reveal_strlit("q3_k_s");
    reveal_strlit("q4_k_m");
    reveal_strlit("q4_k_s");
    lemma_no_sub_at("model-q4_k_s.gguf"@, "q2_k"@, 6);
    lemma_no_sub_at("model-q4_k_s.gguf"@, "q3_k_l"@, 6);
    lemma_no_sub_at("model-q4_k_s.gguf"@, "q3_k_m"@, 6);
    lemma_no_sub_at("model-q4_k_s.gguf"@, "q3_k_s"@, 6);
    lemma_no_sub_at("model-q4_k_s.gguf"@, "q4_k_m"@, 6);
    assert(matches_at("model-q4_k_s.gguf"@, "q4_k_s"@, 6));
}

proof fn lemma_reads_placeholder_q4_k_m()
    ensures
        quant_in_lower("model-q4_k_m.gguf"@) == QuantType::Q4_K_M,
{
    reveal_with_fuel(absent_between, 19);
    reveal_with_fuel(prefix_at, 7);
    reveal_strlit("model-q4_k_m.gguf");
    reveal_strlit("q2_k");
    reveal_strlit("q3_k_l");
    reveal_strlit("q3_k_m");
    reveal_strlit("q3_k_s");
    reveal_strlit("q4_k_m");
    lemma_no_sub_at("model-q4_k_m.gguf"@, "q2_k"@, 6);
    lemma_no_sub_at("model-q4_k_m.gguf"@, "q3_k_l"@, 6);
    lemma_no_sub_at("model-q4_k_m.gguf"@, "q3_k_m"@, 6);
    lemma_no_sub_at("model-q4_k_m.gguf"@, "q3_k_s"@, 6);
    assert(matches_at("model-q4_k_m.gguf"@, "q4_k_m"@, 6));
}

proof fn lemma_reads_placeholder_q5_0()
    ensures
        quant_in_lower("model-q5_0.gguf"@) == QuantType::Q5_0,
{
    reveal_with_fuel(absent_between, 19);
    reveal_with_fuel(prefix_at, 7);
    reveal_strlit("model-q5_0.gguf");
    reveal_strlit("q2_k");
    reveal_strlit("q3_k_l");
    reveal_strlit("q3_k_m");
    reveal_strlit("q3_k_s");
    reveal_strlit("q4_k_m");
    reveal_strlit("q4_k_s");
    reveal_strlit("q4_0");
    reveal_strlit("q5_k_m");
    reveal_strlit("q5_k_s");
    reveal_strlit("q5_0");
    lemma_no_sub_at("model-q5_0.gguf"@, "q2_k"@, 6);
    lemma_no_sub_at("model-q5_0.gguf"@, "q3_k_l"@, 6);
    lemma_no_sub_at("model-q5_0.gguf"@, "q3_k_m"@, 6);
    lemma_no_sub_at("model-q5_0.gguf"@, "q3_k_s"@, 6);
    lemma_no_sub_at("model-q5_0.gguf"@, "q4_k_m"@, 6);
    lemma_no_sub_at("model-q5_0.gguf"@, "q4_k_s"@, 6);
    lemma_no_sub_at("model-q5_0.gguf"@, "q4_0"@, 6);
    lemma_no_sub_at("model-q5_0.gguf"@, "q5_k_m"@, 6);
    lemma_no_sub_at("model-q5_0.gguf"@, "q5_k_s"@, 6);
    assert(matches_at("model-q5_0.gguf"@, "q5_0"@, 6));
}

proof fn lemma_reads_placeholder_q5_k_s()
    ensures
        quant_in_lower("model-q5_k_s.gguf"@) == QuantType::Q5_K_S,
{
    reveal_with_fuel(absent_between, 19);
    reveal_with_fuel(prefix_at, 7);
    reveal_strlit("model-q5_k_s.gguf");
    reveal_strlit("q2_k");
    reveal_strlit("q3_k_l");
    reveal_strlit("q3_k_m");
    reveal_strlit("q3_k_s");
    reveal_strlit("q4_k_m");
    reveal_strlit("q4_k_s");
    reveal_strlit("q4_0");
    reveal_strlit("q5_k_m");
    reveal_strlit("q5_k_s");
    lemma_no_sub_at("model-q5_k_s.gguf"@, "q2_k"@, 6);
    lemma_no_sub_at("model-q5_k_s.gguf"@, "q3_k_l"@, 6);
    lemma_no_sub_at("model-q5_k_s.gguf"@, "q3_k_m"@, 6);
    lemma_no_sub_at("model-q5_k_s.gguf"@, "q3_k_s"@, 6);
    lemma_no_sub_at("model-q5_k_s.gguf"@, "q4_k_m"@, 6);
    lemma_no_sub_at("model-q5_k_s.gguf"@, "q4_k_s"@, 6);
    lemma_no_sub_at("model-q5_k_s.gguf"@, "q4_0"@, 6);
    lemma_no_sub_at("model-q5_k_s.gguf"@, "q5_k_m"@, 6);
    assert(matches_at("model-q5_k_s.gguf"@, "q5_k_s"@, 6));
}

proof fn lemma_reads_placeholder_q5_k_m()
    ensures
        quant_in_lower("model-q5_k_m.gguf"@) == QuantType::Q5_K_M,
{
    reveal_with_fuel(absent_between, 19);
    reveal_with_fuel(prefix_at, 7);
    reveal_strlit("model-q5_k_m.gguf");
    reveal_strlit("q2_k");
    reveal_strlit("q3_k_l");
    reveal_strlit("q3_k_m");
    reveal_strlit("q3_k_s");
    reveal_strlit("q4_k_m");
    reveal_strlit("q4_k_s");
    reveal_strlit("q4_0");
    reveal_strlit("q5_k_m");
    lemma_no_sub_at("model-q5_k_m.gguf"@, "q2_k"@, 6);
    lemma_no_sub_at("model-q5_k_m.gguf"@, "q3_k_l"@, 6);
    lemma_no_sub_at("model-q5_k_m.gguf"@, "q3_k_m"@, 6);
    lemma_no_sub_at("model-q5_k_m.gguf"@, "q3_k_s"@, 6);
    lemma_no_sub_at("model-q5_k_m.gguf"@, "q4_k_m"@, 6);
    lemma_no_sub_at("model-q5_k_m.gguf"@, "q4_k_s"@, 6);
    lemma_no_sub_at("model-q5_k_m.gguf"@, "q4_0"@, 6);
    assert(matches_at("model-q5_k_m.gguf"@, "q5_k_m"@, 6));
}

proof fn lemma_reads_placeholder_q6_k()
    ensures
        quant_in_lower("model-q6_k.gguf"@) == QuantType::Q6_K,
{
    reveal_with_fuel(absent_between, 19);
    reveal_with_fuel(prefix_at, 7);
    reveal_strlit("model-q6_k.gguf");
    reveal_strlit("q2_k");
    reveal_strlit("q3_k_l");
    reveal_strlit("q3_k_m");
    reveal_strlit("q3_k_s");
    reveal_strlit("q4_k_m");
    reveal_strlit("q4_k_s");
    reveal_strlit("q4_0");
    reveal_strlit("q5_k_m");
    reveal_strlit("q5_k_s");
    reveal_strlit("q5_0");
    reveal_strlit("q6_k");
    lemma_no_sub_at("model-q6_k.gguf"@, "q2_k"@, 6);
    lemma_no_sub_at("model-q6_k.gguf"@, "q3_k_l"@, 6);
    lemma_no_sub_at("model-q6_k.gguf"@, "q3_k_m"@, 6);
    lemma_no_sub_at("model-q6_k.gguf"@, "q3_k_s"@, 6);
    lemma_no_sub_at("model-q6_k.gguf"@, "q4_k_m"@, 6);
    lemma_no_sub_at("model-q6_k.gguf"@, "q4_k_s"@, 6);
    lemma_no_sub_at("model-q6_k.gguf"@, "q4_0"@, 6);
    lemma_no_sub_at("model-q6_k.gguf"@, "q5_k_m"@, 6);
    lemma_no_sub_at("model-q6_k.gguf"@, "q5_k_s"@, 6);
    lemma_no_sub_at("model-q6_k.gguf"@, "q5_0"@, 6);
    assert(matches_at("model-q6_k.gguf"@, "q6_k"@, 6));
}

proof fn lemma_reads_placeholder_q8_0()
    ensures
        quant_in_lower("model-q8_0.gguf"@) == QuantType::Q8_0,
{
    reveal_with_fuel(absent_between, 19);
    reveal_with_fuel(prefix_at, 7);
    reveal_strlit("model-q8_0.gguf");
    reveal_strlit("q2_k");
    reveal_strlit("q3_k_l");
    reveal_strlit("q3_k_m");
    reveal_strlit("q3_k_s");
    reveal_strlit("q4_k_m");
    reveal_strlit("q4_k_s");
    reveal_strlit("q4_0");
    reveal_strlit("q5_k_m");
    reveal_strlit("q5_k_s");
    reveal_strlit("q5_0");
    reveal_strlit("q6_k");
    reveal_strlit("q8_0");
    lemma_no_sub_at("model-q8_0.gguf"@, "q2_k"@, 6);
    lemma_no_sub_at("model-q8_0.gguf"@, "q3_k_l"@, 6);
    lemma_no_sub_at("model-q8_0.gguf"@, "q3_k_m"@, 6);
    lemma_no_sub_at("model-q8_0.gguf"@, "q3_k_s"@, 6);
    lemma_no_sub_at("model-q8_0.gguf"@, "q4_k_m"@, 6);
    lemma_no_sub_at("model-q8_0.gguf"@, "q4_k_s"@, 6);
    lemma_no_sub_at("model-q8_0.gguf"@, "q4_0"@, 6);
    lemma_no_sub_at("model-q8_0.gguf"@, "q5_k_m"@, 6);
    lemma_no_sub_at("model-q8_0.gguf"@, "q5_k_s"@, 6);
    lemma_no_sub_at("model-q8_0.gguf"@, "q5_0"@, 6);
    lemma_no_sub_at("model-q8_0.gguf"@, "q6_k"@, 6);
    assert(matches_at("model-q8_0.gguf"@, "q8_0"@, 6));
}

proof fn lemma_reads_placeholder_fp16()
    ensures
        quant_in_lower("model-fp16.gguf"@) == QuantType::Fp16,
{
    reveal_with_fuel(absent_between, 19);
    reveal_with_fuel(prefix_at, 7);
    reveal_strlit("model-fp16.gguf");
    reveal_strlit("q2_k");
    reveal_strlit("q3_k_l");
    reveal_strlit("q3_k_m");
    reveal_strlit("q3_k_s");
    reveal_strlit("q4_k_m");
    reveal_strlit("q4_k_s");
    reveal_strlit("q4_0");
    reveal_strlit("q5_k_m");
    reveal_strlit("q5_k_s");
    reveal_strlit("q5_0");
    reveal_strlit("q6_k");
    reveal_strlit("q8_0");
    reveal_strlit("fp16");
    lemma_no_sub_at("model-fp16.gguf"@, "q2_k"@, 6);
    lemma_no_sub_at("model-fp16.gguf"@, "q3_k_l"@, 6);
    lemma_no_sub_at("model-fp16.gguf"@, "q3_k_m"@, 6);
    lemma_no_sub_at("model-fp16.gguf"@, "q3_k_s"@, 6);
    lemma_no_sub_at("model-fp16.gguf"@, "q4_k_m"@, 6);
    lemma_no_sub_at("model-fp16.gguf"@, "q4_k_s"@, 6);
    lemma_no_sub_at("model-fp16.gguf"@, "q4_0"@, 6);
    lemma_no_sub_at("model-fp16.gguf"@, "q5_k_m"@, 6);
    lemma_no_sub_at("model-fp16.gguf"@, "q5_k_s"@, 6);
    lemma_no_sub_at("model-fp16.gguf"@, "q5_0"@, 6);
    lemma_no_sub_at("model-fp16.gguf"@, "q6_k"@, 6);
    lemma_no_sub_at("model-fp16.gguf"@, "q8_0"@, 6);
    assert(matches_at("model-fp16.gguf"@, "fp16"@, 6));
}

proof fn lemma_reads_placeholder_fp32()
    ensures
        quant_in_lower("model-fp32.gguf"@) == QuantType::Fp32,
{
    reveal_with_fuel(absent_between, 19);
    reveal_with_fuel(prefix_at, 7);
    reveal_strlit("model-fp32.gguf");
    reveal_strlit("q2_k");
    reveal_strlit("q3_k_l");
    reveal_strlit("q3_k_m");
    reveal_strlit("q3_k_s");
    reveal_strlit("q4_k_m");
    reveal_strlit("q4_k_s");
    reveal_strlit("q4_0");
    reveal_strlit("q5_k_m");
    reveal_strlit("q5_k_s");
    reveal_strlit("q5_0");
    reveal_strlit("q6_k");
    reveal_strlit("q8_0");
    reveal_strlit("fp16");
    reveal_strlit("f16");
    reveal_strlit("fp32");
    lemma_no_sub_at("model-fp32.gguf"@, "q2_k"@, 6);
    lemma_no_sub_at("model-fp32.gguf"@, "q3_k_l"@, 6);
    lemma_no_sub_at("model-fp32.gguf"@, "q3_k_m"@, 6);
    lemma_no_sub_at("model-fp32.gguf"@, "q3_k_s"@, 6);
    lemma_no_sub_at("model-fp32.gguf"@, "q4_k_m"@, 6);
    lemma_no_sub_at("model-fp32.gguf"@, "q4_k_s"@, 6);
    lemma_no_sub_at("model-fp32.gguf"@, "q4_0"@, 6);
    lemma_no_sub_at("model-fp32.gguf"@, "q5_k_m"@, 6);
    lemma_no_sub_at("model-fp32.gguf"@, "q5_k_s"@, 6);
    lemma_no_sub_at("model-fp32.gguf"@, "q5_0"@, 6);
    lemma_no_sub_at("model-fp32.gguf"@, "q6_k"@, 6);
    lemma_no_sub_at("model-fp32.gguf"@, "q8_0"@, 6);
    lemma_no_sub_at("model-fp32.gguf"@, "fp16"@, 6);
    lemma_no_sub_at("model-fp32.gguf"@, "f16"@, 6);
    assert(matches_at("model-fp32.gguf"@, "fp32"@, 6));
}

proof fn lemma_reads_placeholder_unknown()
    ensures
        quant_in_lower("model-???.gguf"@) == QuantType::Unknown,
{
    reveal_with_fuel(absent_between, 19);
    reveal_with_fuel(prefix_at, 7);
    reveal_strlit("model-???.gguf");
    reveal_strlit("q2_k");
    reveal_strlit("q3_k_l");
    reveal_strlit("q3_k_m");
    reveal_strlit("q3_k_s");
    reveal_strlit("q4_k_m");
    reveal_strlit("q4_k_s");
    reveal_strlit("q4_0");
    reveal_strlit("q5_k_m");
    reveal_strlit("q5_k_s");
    reveal_strlit("q5_0");
    reveal_strlit("q6_k");
    reveal_strlit("q8_0");
    reveal_strlit("fp16");
    reveal_strlit("f16");
    reveal_strlit("fp32");
    reveal_strlit("f32");
    lemma_no_sub_at("model-???.gguf"@, "q2_k"@, 6);
    lemma_no_sub_at("model-???.gguf"@, "q3_k_l"@, 6);
    lemma_no_sub_at("model-???.gguf"@, "q3_k_m"@, 6);
    lemma_no_sub_at("model-???.gguf"@, "q3_k_s"@, 6);
    lemma_no_sub_at("model-???.gguf"@, "q4_k_m"@, 6);
    lemma_no_sub_at("model-???.gguf"@, "q4_k_s"@, 6);
    lemma_no_sub_at("model-???.gguf"@, "q4_0"@, 6);
    lemma_no_sub_at("model-???.gguf"@, "q5_k_m"@, 6);
    lemma_no_sub_at("model-???.gguf"@, "q5_k_s"@, 6);
    lemma_no_sub_at("model-???.gguf"@, "q5_0"@, 6);
    lemma_no_sub_at("model-???.gguf"@, "q6_k"@, 6);
    lemma_no_sub_at("model-???.gguf"@, "q8_0"@, 6);
    lemma_no_sub_at("model-???.gguf"@, "fp16"@, 6);
    lemma_no_sub_at("model-???.gguf"@, "f16"@, 6);
    lemma_no_sub_at("model-???.gguf"@, "fp32"@, 6);
    lemma_no_sub_at("model-???.gguf"@, "f32"@, 6);
}

/// A placeholder file name reads back as its format: it is ASCII, already
/// in lower case, and names the format it was made for (see
/// `QuantType::from_filename`).
pub proof fn lemma_placeholder_round_trip(q: QuantType)
    ensures
        is_ascii_chars(placeholder_name(q)),
        placeholder_name(q).map_values(|c: char| ascii_lower(c)) == placeholder_name(q),
        quant_in_lower(placeholder_name(q)) == q,
{
    lemma_lower_label(q);
    reveal_strlit("model-");
    reveal_strlit(".gguf");
    match q {
        QuantType::Q2_K => {
            reveal_strlit("model-q2_k.gguf");
            reveal_strlit("q2_k");
            assert(placeholder_name(q) =~= "model-q2_k.gguf"@);
            lemma_reads_placeholder_q2_k();
        },
        QuantType::Q3_K_S => {
            reveal_strlit("model-q3_k_s.gguf");
            reveal_strlit("q3_k_s");
            assert(placeholder_name(q) =~= "model-q3_k_s.gguf"@);
            lemma_reads_placeholder_q3_k_s();
        },
        QuantType::Q3_K_M => {
            reveal_strlit("model-q3_k_m.gguf");
            reveal_strlit("q3_k_m");
            assert(placeholder_name(q) =~= "model-q3_k_m.gguf"@);
            lemma_reads_placeholder_q3_k_m();
        },
        QuantType::Q3_K_L => {
            reveal_strlit("model-q3_k_l.gguf");
            reveal_strlit("q3_k_l");
            assert(placeholder_name(q) =~= "model-q3_k_l.gguf"@);
            lemma_reads_placeholder_q3_k_l();
        },
        QuantType::Q4_0 => {
            reveal_strlit("model-q4_0.gguf");
            reveal_strlit("q4_0");
            assert(placeholder_name(q) =~= "model-q4_0.gguf"@);
            lemma_reads_placeholder_q4_0();
        },
        QuantType::Q4_K_S => {
            reveal_strlit("model-q4_k_s.gguf");
            reveal_strlit("q4_k_s");
            assert(placeholder_name(q) =~= "model-q4_k_s.gguf"@);
            lemma_reads_placeholder_q4_k_s();
        },
        QuantType::Q4_K_M => {
            reveal_strlit("model-q4_k_m.gguf");
            reveal_strlit("q4_k_m");
            assert(placeholder_name(q) =~= "model-q4_k_m.gguf"@);
            lemma_reads_placeholder_q4_k_m();
        },
        QuantType::Q5_0 => {
            reveal_strlit("model-q5_0.gguf");
            reveal_strlit("q5_0");
            assert(placeholder_name(q) =~= "model-q5_0.gguf"@);
            lemma_reads_placeholder_q5_0();
        },
        QuantType::Q5_K_S => {
            reveal_strlit("model-q5_k_s.gguf");
            reveal_strlit("q5_k_s");
            assert(placeholder_name(q) =~= "model-q5_k_s.gguf"@);
            lemma_reads_placeholder_q5_k_s();
        },
        QuantType::Q5_K_M => {
            reveal_strlit("model-q5_k_m.gguf");
            reveal_strlit("q5_k_m");
            assert(placeholder_name(q) =~= "model-q5_k_m.gguf"@);
            lemma_reads_placeholder_q5_k_m();
        },
        QuantType::Q6_K => {
            reveal_strlit("model-q6_k.gguf");
            reveal_strlit("q6_k");
            assert(placeholder_name(q) =~= "model-q6_k.gguf"@);
            lemma_reads_placeholder_q6_k();
        },
        QuantType::Q8_0 => {
            reveal_strlit("model-q8_0.gguf");
            reveal_strlit("q8_0");
            assert(placeholder_name(q) =~= "model-q8_0.gguf"@);
            lemma_reads_placeholder_q8_0();
        },
        QuantType::Fp16 => {
            reveal_strlit("model-fp16.gguf");
            reveal_strlit("fp16");
            assert(placeholder_name(q) =~= "model-fp16.gguf"@);
            lemma_reads_placeholder_fp16();
        },
        QuantType::Fp32 => {
            reveal_strlit("model-fp32.gguf");
            reveal_strlit("fp32");
            assert(placeholder_name(q) =~= "model-fp32.gguf"@);
            lemma_reads_placeholder_fp32();
        },
        QuantType::Unknown => {
            reveal_strlit("model-???.gguf");
            reveal_strlit("???");
            assert(placeholder_name(q) =~= "model-???.gguf"@);
            lemma_reads_placeholder_unknown();
        },
    }
    assert(placeholder_name(q).map_values(|c: char| ascii_lower(c)) =~= placeholder_name(q));
}

/// File names are read without regard to ASCII case: upper-casing an ASCII
/// name keeps it ASCII and lower-cases to the same text, so
/// `QuantType::from_filename` reads the same format from both.
pub proof fn lemma_case_ignored(f: Seq<char>)
    requires
        is_ascii_chars(f),
    ensures
        is_ascii_chars(f.map_values(|c: char| ascii_upper(c))),
        f.map_values(|c: char| ascii_upper(c)).map_values(|c: char| ascii_lower(c)) == f.map_values(
            |c: char| ascii_lower(c),
        ),
        quant_in_lower(f.map_values(|c: char| ascii_upper(c)).map_values(|c: char| ascii_lower(c)))
            == quant_in_lower(f.map_values(|c: char| ascii_lower(c))),
{
    let u = f.map_values(|c: char| ascii_upper(c));
    assert forall|i: int| 0 <= i < u.len() implies '\0' <= #[trigger] u[i] <= '\u{7f}' by {
        assert('\0' <= f[i] <= '\u{7f}');
    }
    assert(u.map_values(|c: char| ascii_lower(c)) =~= f.map_values(|c: char| ascii_lower(c)));
}

/// Reading a format back from its own shown name gives that format: the name
/// is ASCII, and a file name that is exactly the name, in any case, is read as
/// the format (see `QuantType::from_filename`).
pub proof fn lemma_label_round_trip(q: QuantType)
    ensures
        is_ascii_chars(quant_label(q)),
        quant_in_lower(quant_label(q).map_values(|c: char| ascii_lower(c))) == q,
{
    lemma_lower_label(q);
    match q {
        QuantType::Q2_K => lemma_reads_q2_k(),
        QuantType::Q3_K_S => lemma_reads_q3_k_s(),
        QuantType::Q3_K_M => lemma_reads_q3_k_m(),
        QuantType::Q3_K_L => lemma_reads_q3_k_l(),
        QuantType::Q4_0 => lemma_reads_q4_0(),
        QuantType::Q4_K_S => lemma_reads_q4_k_s(),
        QuantType::Q4_K_M => lemma_reads_q4_k_m(),
        QuantType::Q5_0 => lemma_reads_q5_0(),
        QuantType::Q5_K_S => lemma_reads_q5_k_s(),
        QuantType::Q5_K_M => lemma_reads_q5_k_m(),
        QuantType::Q6_K => lemma_reads_q6_k(),
        QuantType::Q8_0 => lemma_reads_q8_0(),
        QuantType::Fp16 => lemma_reads_fp16(),
        QuantType::Fp32 => lemma_reads_fp32(),
        QuantType::Unknown => lemma_reads_unknown(),
    }
}

} // verus!
