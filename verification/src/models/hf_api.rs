//! Rows of the Hugging Face model index, and what the library reads from them.
use vstd::prelude::*;
use crate::text::{
    chars_of, concat_chars, contains_str, copy_string, ends_with_str, finishes_with, first_some,
    has_sub, id_words, lemma_first_some_prefix, lower_chars, lowercase, opt_string,
    parse_millis, parse_millis_chars, split_id_words, split_words, strip_trailing,
    strip_trailing_char, string_of, to_lowercase, views, words,
};
use super::types::{GGUFVariant, QuantType, lemma_label_round_trip, placeholder_name, quant_in_lower, quant_label, score_views, variant_views};

verus! {

/// The `base_model` entry of a model card, as far as it matters: a string, a
/// list (each element's string, when it is one), or anything else.
#[derive(Debug, Clone)]
pub enum BaseModelField {
    Text(String),
    List(Vec<Option<String>>),
    Other,
}

/// One entry of a card's `evalResults` list: its `task` string and its
/// `value` number in hundredths, each when present.
#[derive(Debug, Clone)]
pub struct EvalEntry {
    pub task: Option<String>,
    pub value: Option<i64>,
}

/// The `evalResults` entry of a model card: a list of entries, or anything else.
#[derive(Debug, Clone)]
pub enum EvalField {
    List(Vec<EvalEntry>),
    Other,
}

/// One model as the index lists it.
#[derive(Debug, Clone)]
pub struct HfModel {
    pub id: String,
    pub author: Option<String>,
    pub downloads: u64,
    pub likes: u64,
    /// File names in the repository.
    pub siblings: Vec<String>,
    pub tags: Vec<String>,
    pub pipeline_tag: Option<String>,
    pub base_model: Option<BaseModelField>,
    pub eval_results: Option<EvalField>,
}

/// A model row as the library keeps it.
#[derive(Debug, Clone)]
pub struct HfModelRow {
    pub id: String,
    pub author: String,
    pub downloads: u64,
    pub likes: u64,
    pub gguf_variants: Vec<GGUFVariant>,
    /// Parameter count in millions.
    pub params_m: Option<u64>,
    pub base_model: Option<String>,
    pub pipeline_tag: Option<String>,
    /// Task name and score in hundredths.
    pub eval_scores: Vec<(String, i64)>,
    pub is_gguf_repo: bool,
}

/// The value of an `HfModelRow`.
pub struct RowView {
    pub id: Seq<char>,
    pub author: Seq<char>,
    pub downloads: u64,
    pub likes: u64,
    pub gguf_variants: Seq<(Seq<char>, u64, QuantType)>,
    pub params_m: Option<u64>,
    pub base_model: Option<Seq<char>>,
    pub pipeline_tag: Option<Seq<char>>,
    pub eval_scores: Seq<(Seq<char>, i64)>,
    pub is_gguf_repo: bool,
}

impl View for HfModelRow {
    type V = RowView;

    open spec fn view(&self) -> RowView {
        RowView {
            id: self.id@,
            author: self.author@,
            downloads: self.downloads,
            likes: self.likes,
            gguf_variants: variant_views(self.gguf_variants@),
            params_m: self.params_m,
            base_model: opt_string(self.base_model),
            pipeline_tag: opt_string(self.pipeline_tag),
            eval_scores: score_views(self.eval_scores@),
            is_gguf_repo: self.is_gguf_repo,
        }
    }
}

/// The values of a list of rows.
pub open spec fn row_views(r: Seq<HfModelRow>) -> Seq<RowView> {
    r.map_values(|x: HfModelRow| x@)
}

/// The parameter count (millions) a tag states: a tag mentioning `billion` or
/// `b parameters` (in lower case) whose first word is a plain decimal.
pub open spec fn tag_params(tag: Seq<char>) -> Option<u64> {
    let l = lowercase(tag);
    if (has_sub(l, "billion"@) || has_sub(l, "b parameters"@)) && words(l).len() > 0 {
        parse_millis(words(l)[0])
    } else {
        None
    }
}

/// The parameter count (millions) a word of the lower-cased model id states:
/// a word ending in `b` whose remainder, all trailing `b`s removed, is a plain decimal.
pub open spec fn id_word_params(w: Seq<char>) -> Option<u64> {
    if finishes_with(w, "b"@) {
        parse_millis(strip_trailing(w, 'b'))
    } else {
        None
    }
}

/// The parameter count of a model in millions: from the first tag that states
/// one, else from the first word of its lower-cased id that does (split at
/// `-`, `_`, spaces and points, but not at the point of a number such as
/// `1.5b`).
pub open spec fn params_from(id: Seq<char>, tags: Seq<Seq<char>>) -> Option<u64> {
    match first_some(tags, |t: Seq<char>| tag_params(t)) {
        Some(v) => Some(v),
        None => first_some(
            id_words(lowercase(id)),
            |w: Seq<char>| id_word_params(w),
        ),
    }
}

/// The values of a list of strings.
pub open spec fn strings_view(v: Seq<String>) -> Seq<Seq<char>> {
    v.map_values(|s: String| s@)
}

fn tag_value(tag: &String) -> (r: Option<u64>)
    ensures
        r == tag_params(tag@),
{
    let c = chars_of(tag.as_str());
    let l = lower_chars(&c);
    if (contains_str(&l, "billion") || contains_str(&l, "b parameters")) {
        let ws = split_words(&l);
        if ws.len() > 0 {
            assert(views(ws@)[0] == ws@[0]@);
            return parse_millis_chars(&ws[0]);
        }
    }
    None
}

fn id_word_value(w: &Vec<char>) -> (r: Option<u64>)
    ensures
        r == id_word_params(w@),
{
    if ends_with_str(w, "b") {
        let t = strip_trailing_char(w, 'b');
        parse_millis_chars(&t)
    } else {
        None
    }
}

/// The parameter count of a model in millions, read from its tags or its id.
pub fn extract_params(id: &str, tags: &Vec<String>) -> (r: Option<u64>)
    ensures
        r == params_from(id@, strings_view(tags@)),
{
    let ghost tv = strings_view(tags@);
    let ghost tf = |t: Seq<char>| tag_params(t);
    let mut i: usize = 0;
    assert(tv.take(0) =~= Seq::<Seq<char>>::empty());
    while i < tags.len()
        invariant
            i <= tags.len(),
            tv == strings_view(tags@),
            tf == (|t: Seq<char>| tag_params(t)),
            first_some(tv.take(i as int), tf) is None,
        decreases tags.len() - i,
    {
        assert(tv.take(i + 1).drop_last() == tv.take(i as int));
        assert(tv[i as int] == tags@[i as int]@);
        match tag_value(&tags[i]) {
            Some(v) => {
                proof {
                    lemma_first_some_prefix(tv, tf, i + 1);
                }
                return Some(v);
            },
            None => {},
        }
        i = i + 1;
    }
    assert(tv.take(tags.len() as int) == tv);
    let ic = chars_of(id);
    let l = lower_chars(&ic);
    let parts = split_id_words(&l);
    let ghost pv = views(parts@);
    let ghost wf = |w: Seq<char>| id_word_params(w);
    let mut k: usize = 0;
    assert(pv.take(0) =~= Seq::<Seq<char>>::empty());
    while k < parts.len()
        invariant
            k <= parts.len(),
            pv == views(parts@),
            pv == id_words(lowercase(id@)),
            wf == (|w: Seq<char>| id_word_params(w)),
            tv == strings_view(tags@),
            tf == (|t: Seq<char>| tag_params(t)),
            first_some(tv, tf) is None,
            first_some(pv.take(k as int), wf) is None,
        decreases parts.len() - k,
    {
        assert(pv.take(k + 1).drop_last() == pv.take(k as int));
        assert(pv[k as int] == parts@[k as int]@);
        match id_word_value(&parts[k]) {
            Some(v) => {
                proof {
                    lemma_first_some_prefix(pv, wf, k + 1);
                    assert(pv.take(k + 1).last() == pv[k as int]);
                }
                return Some(v);
            },
            None => {},
        }
        k = k + 1;
    }
    assert(pv.take(parts.len() as int) == pv);
    None
}

/// The base model a card names: a string, or the first element of a list when
/// that is a string.
pub open spec fn base_model_of(f: Option<BaseModelField>) -> Option<Seq<char>> {
    match f {
        Some(BaseModelField::Text(s)) => Some(s@),
        Some(BaseModelField::List(l)) => if l@.len() > 0 {
            opt_string(l@[0])
        } else {
            None
        },
        _ => None,
    }
}

/// The base model a card names.
pub fn base_model_from(f: &Option<BaseModelField>) -> (r: Option<String>)
    ensures
        opt_string(r) == base_model_of(*f),
{
    match f {
        Some(BaseModelField::Text(s)) => Some(copy_string(s)),
        Some(BaseModelField::List(l)) => if l.len() > 0 {
            match &l[0] {
                Some(s) => Some(copy_string(s)),
                None => None,
            }
        } else {
            None
        },
        _ => None,
    }
}

/// One card score: the task, `unknown` when absent, and the value, zero when absent.
pub open spec fn eval_entry_view(e: EvalEntry) -> (Seq<char>, i64) {
    (
        match e.task {
            Some(t) => t@,
            None => "unknown"@,
        },
        match e.value {
            Some(v) => v,
            None => 0,
        },
    )
}

/// The scores a card reports: one per entry of an `evalResults` list, none otherwise.
pub open spec fn eval_scores_of(f: Option<EvalField>) -> Seq<(Seq<char>, i64)> {
    match f {
        Some(EvalField::List(es)) => es@.map_values(|e: EvalEntry| eval_entry_view(e)),
        _ => Seq::empty(),
    }
}

/// The scores a model card reports, in order.
pub fn parse_eval_results(f: &Option<EvalField>) -> (r: Vec<(String, i64)>)
    ensures
        score_views(r@) == eval_scores_of(*f),
{
    let mut out: Vec<(String, i64)> = Vec::new();
    match f {
        Some(EvalField::List(es)) => {
            let mut i: usize = 0;
            while i < es.len()
                invariant
                    i <= es.len(),
                    score_views(out@) == es@.take(i as int).map_values(
                        |e: EvalEntry| eval_entry_view(e),
                    ),
                decreases es.len() - i,
            {
                let e = &es[i];
                let task: String = match &e.task {
                    Some(t) => copy_string(t),
                    None => {
                        let c = chars_of("unknown");
                        string_of(c.as_slice())
                    },
                };
                let value: i64 = match e.value {
                    Some(v) => v,
                    None => 0,
                };
                let ghost before = score_views(out@);
                let ghost item = (task@, value);
                out.push((task, value));
                assert(score_views(out@) =~= before.push(item));
                assert(es@.take(i + 1) =~= es@.take(i as int).push(es@[i as int]));
                assert(es@.take(i + 1).map_values(|e: EvalEntry| eval_entry_view(e)) =~= es@.take(
                    i as int,
                ).map_values(|e: EvalEntry| eval_entry_view(e)).push(eval_entry_view(es@[i as int])));
                i = i + 1;
            }
            assert(es@.take(es.len() as int) == es@);
            out
        },
        _ => {
            assert(score_views(out@) =~= Seq::<(Seq<char>, i64)>::empty());
            out
        },
    }
}

/// The GGUF file a repository file name is, if it is one: names ending in
/// `.gguf`, their format read from the name, their size unknown (zero).
pub open spec fn gguf_file(name: Seq<char>) -> Option<(Seq<char>, u64, QuantType)> {
    if finishes_with(name, ".gguf"@) {
        Some((name, 0u64, quant_in_lower(lowercase(name))))
    } else {
        None
    }
}

/// The placeholder variant of a format: `model-<format in lower case>.gguf`.
pub open spec fn default_variant(q: QuantType) -> (Seq<char>, u64, QuantType) {
    (placeholder_name(q), 0u64, q)
}

/// The GGUF variants of a model: its `.gguf` files; without any, placeholders
/// for Q4_K_M, Q5_K_M and Q8_0 in a GGUF repository, for Q4_K_M and Q5_K_M
/// otherwise.
pub open spec fn variants_of(siblings: Seq<Seq<char>>, gguf_repo: bool) -> Seq<
    (Seq<char>, u64, QuantType),
> {
    let files = siblings.filter_map(|s: Seq<char>| gguf_file(s));
    if files.len() > 0 {
        files
    } else if gguf_repo {
        seq![
            default_variant(QuantType::Q4_K_M),
            default_variant(QuantType::Q5_K_M),
            default_variant(QuantType::Q8_0),
        ]
    } else {
        seq![default_variant(QuantType::Q4_K_M), default_variant(QuantType::Q5_K_M)]
    }
}

fn placeholder(q: QuantType) -> (v: GGUFVariant)
    ensures
        v@ == default_variant(q),
{
    proof {
        lemma_label_round_trip(q);
    }
    let label = to_lowercase(q.display_name());
    let lc = chars_of(label.as_str());
    let head = chars_of("model-");
    let tail = chars_of(".gguf");
    let a = concat_chars(&head, &lc);
    let all = concat_chars(&a, &tail);
    GGUFVariant { filename: string_of(all.as_slice()), size_bytes: 0, quant: q }
}

/// The GGUF variants of a model from its file names.
pub fn variants_from(siblings: &Vec<String>, gguf_repo: bool) -> (r: Vec<GGUFVariant>)
    ensures
        variant_views(r@) == variants_of(strings_view(siblings@), gguf_repo),
{
    let ghost sv = strings_view(siblings@);
    let ghost f = |s: Seq<char>| gguf_file(s);
    let mut out: Vec<GGUFVariant> = Vec::new();
    let mut i: usize = 0;
    assert(sv.take(0) =~= Seq::<Seq<char>>::empty());
    assert(variant_views(out@) =~= Seq::<(Seq<char>, u64, QuantType)>::empty());
    while i < siblings.len()
        invariant
            i <= siblings.len(),
            sv == strings_view(siblings@),
            f == (|s: Seq<char>| gguf_file(s)),
            variant_views(out@) == sv.take(i as int).filter_map(f),
        decreases siblings.len() - i,
    {
        proof {
            sv.lemma_filter_map_take_succ(f, i as int);
        }
        assert(sv[i as int] == siblings@[i as int]@);
        let c = chars_of(siblings[i].as_str());
        if ends_with_str(&c, ".gguf") {
            let q = QuantType::from_filename(siblings[i].as_str());
            let v = GGUFVariant { filename: copy_string(&siblings[i]), size_bytes: 0, quant: q };
            let ghost before = variant_views(out@);
            let ghost vv = v@;
            out.push(v);
            assert(variant_views(out@) =~= before + seq![vv]);
        }
        i = i + 1;
    }
    assert(sv.take(siblings.len() as int) == sv);
    if out.len() > 0 {
        return out;
    }
    let mut d: Vec<GGUFVariant> = Vec::new();
    d.push(placeholder(QuantType::Q4_K_M));
    d.push(placeholder(QuantType::Q5_K_M));
    if gguf_repo {
        d.push(placeholder(QuantType::Q8_0));
    }
    assert(variant_views(d@) =~= variants_of(sv, gguf_repo));
    d
}

/// How many times a listing is requested before giving up.
pub const MAX_ATTEMPTS: u32 = 3;

/// What to do after an answer of the index, by its HTTP status.
#[derive(Debug, Clone, Copy, PartialEq, Eq, Structural)]
pub enum FetchStep {
    /// Rate limited: wait this many seconds, then ask again.
    Wait { secs: u64 },
    /// Not a success: give up with the status.
    Fail,
    /// A success: read the listing.
    Accept,
}

/// The step after an answer with `status` to attempt number `attempt` (from
/// zero): 429 waits 2^attempt seconds; any status outside 200..=299 fails;
/// the rest is read.
pub open spec fn step_for(attempt: u32, status: u16) -> FetchStep {
    if status == 429 {
        FetchStep::Wait { secs: vstd::arithmetic::power2::pow2(attempt as nat) as u64 }
    } else if status < 200 || status > 299 {
        FetchStep::Fail
    } else {
        FetchStep::Accept
    }
}

/// What to do after an answer with the given HTTP status.
pub fn fetch_step(attempt: u32, status: u16) -> (s: FetchStep)
    requires
        attempt < 64,
    ensures
        s == step_for(attempt, status),
{
    if status == 429 {
        let mut w: u64 = 1;
        let mut k: u32 = 0;
        proof {
            vstd::arithmetic::power2::lemma2_to64();
        }
        while k < attempt
            invariant
                k <= attempt < 64,
                w as nat == vstd::arithmetic::power2::pow2(k as nat),
            decreases attempt - k,
        {
            proof {
                vstd::arithmetic::power2::lemma_pow2_unfold((k + 1) as nat);
                vstd::arithmetic::power2::lemma_pow2_strictly_increases((k + 1) as nat, 64);
                vstd::arithmetic::power2::lemma2_to64();
            }
            w = w * 2;
            k = k + 1;
        }
        FetchStep::Wait { secs: w }
    } else if status < 200 || status > 299 {
        FetchStep::Fail
    } else {
        FetchStep::Accept
    }
}

/// Where a listing is read from.
#[derive(Debug, Clone, Copy, PartialEq, Eq, Structural)]
pub enum ListingSource {
    /// The cached copy, still fresh.
    Cache,
    /// The index itself.
    Network,
}

/// Where to read a listing: the cache when a fresh entry is there and
/// `--refresh` was not given, else the network.
pub fn listing_source(refresh: bool, fresh_entry: bool) -> (s: ListingSource)
    ensures
        s == (if !refresh && fresh_entry {
            ListingSource::Cache
        } else {
            ListingSource::Network
        }),
{
    if !refresh && fresh_entry {
        ListingSource::Cache
    } else {
        ListingSource::Network
    }
}

/// The rows of a listing after asking the network: the fetched rows when the
/// request succeeded, else the cached rows of any age, else none.
pub fn listing_after_fetch(fetched: Option<Vec<HfModelRow>>, stale: Option<Vec<HfModelRow>>) -> (rows:
    Vec<HfModelRow>)
    ensures
        rows@ == match fetched {
            Some(f) => f@,
            None => match stale {
                Some(s) => s@,
                None => Seq::empty(),
            },
        },
{
    match fetched {
        Some(f) => f,
        None => match stale {
            Some(s) => s,
            None => Vec::new(),
        },
    }
}

impl HfModelRow {
    /// The row the library keeps for a model of the index.
    pub fn from_hf(m: HfModel) -> (r: HfModelRow)
        ensures
            r.id@ == m.id@,
            r.author@ == (match m.author {
                Some(a) => a@,
                None => Seq::<char>::empty(),
            }),
            r.downloads == m.downloads,
            r.likes == m.likes,
            r.is_gguf_repo == has_sub(lowercase(m.id@), "gguf"@),
            variant_views(r.gguf_variants@) == variants_of(
                strings_view(m.siblings@),
                has_sub(lowercase(m.id@), "gguf"@),
            ),
            r.params_m == params_from(m.id@, strings_view(m.tags@)),
            opt_string(r.base_model) == base_model_of(m.base_model),
            opt_string(r.pipeline_tag) == opt_string(m.pipeline_tag),
            score_views(r.eval_scores@) == eval_scores_of(m.eval_results),
    {
        let idc = chars_of(m.id.as_str());
        let idl = lower_chars(&idc);
        let is_gguf_repo = contains_str(&idl, "gguf");
        let gguf_variants = variants_from(&m.siblings, is_gguf_repo);
        let params_m = extract_params(m.id.as_str(), &m.tags);
        let base_model = base_model_from(&m.base_model);
        let eval_scores = parse_eval_results(&m.eval_results);
        let author = match m.author {
            Some(a) => a,
            None => String::new(),
        };
        HfModelRow {
            id: m.id,
            author,
            downloads: m.downloads,
            likes: m.likes,
            gguf_variants,
            params_m,
            base_model,
            pipeline_tag: m.pipeline_tag,
            eval_scores,
            is_gguf_repo,
        }
    }
}

} // verus!
