//! Benchmark scores and how they are attached to models.
pub mod types;

use vstd::prelude::*;
use crate::text::{chars_of, finishes_with, same_chars, slice_chars, string_of, ends_with_str, opt_string, copy_string};
use crate::models::types::{ModelInfo, ModelView, copy_model, model_views, score_views};
use types::{BenchmarkEntry, Evidence, evidence_weight};

verus! {

/// `s` without `suf` at its end, when it ends with a non-empty `suf`.
pub open spec fn strip_one(s: Seq<char>, suf: Seq<char>) -> Seq<char> {
    if suf.len() > 0 && finishes_with(s, suf) {
        s.take(s.len() - suf.len())
    } else {
        s
    }
}

/// One pass over the variant suffixes, in order: `-Instruct`, `-GGUF`,
/// `-gguf`, `-chat`, `-Chat`.
pub open spec fn strip_pass(s: Seq<char>) -> Seq<char> {
    strip_one(
        strip_one(strip_one(strip_one(strip_one(s, "-Instruct"@), "-GGUF"@), "-gguf"@), "-chat"@),
        "-Chat"@,
    )
}

/// Stripping one suffix keeps a prefix of the id, and changes it only by
/// shortening it.
pub proof fn lemma_strip_one_len(s: Seq<char>, suf: Seq<char>)
    ensures
        strip_one(s, suf).len() <= s.len(),
        strip_one(s, suf).len() == s.len() ==> strip_one(s, suf) == s,
        strip_one(s, suf) == s.take(strip_one(s, suf).len() as int),
{
    assert(s.take(s.len() as int) =~= s);
}

/// One pass over the suffixes keeps a prefix of the id, and changes it only
/// by shortening it.
pub proof fn lemma_strip_pass_len(s: Seq<char>)
    ensures
        strip_pass(s).len() <= s.len(),
        strip_pass(s) != s ==> strip_pass(s).len() < s.len(),
        strip_pass(s) == s.take(strip_pass(s).len() as int),
{
    let s1 = strip_one(s, "-Instruct"@);
    let s2 = strip_one(s1, "-GGUF"@);
    let s3 = strip_one(s2, "-gguf"@);
    let s4 = strip_one(s3, "-chat"@);
    lemma_strip_one_len(s, "-Instruct"@);
    lemma_strip_one_len(s1, "-GGUF"@);
    lemma_strip_one_len(s2, "-gguf"@);
    lemma_strip_one_len(s3, "-chat"@);
    lemma_strip_one_len(s4, "-Chat"@);
}

/// A model id with the variant suffixes stripped, pass after pass, until a
/// pass changes nothing.
pub open spec fn strip_all(s: Seq<char>) -> Seq<char>
    decreases s.len(),
{
    let t = strip_pass(s);
    if t == s {
        s
    } else {
        proof {
            lemma_strip_pass_len(s);
        }
        strip_all(t)
    }
}

fn strip_suffix_once(s: Vec<char>, suf: &str) -> (r: Vec<char>)
    ensures
        r@ == strip_one(s@, suf@),
{
    let p = chars_of(suf);
    if p.len() > 0 && ends_with_str(&s, suf) {
        slice_chars(&s, 0, s.len() - p.len())
    } else {
        s
    }
}

/// The model id with `-Instruct`, `-GGUF`, `-gguf`, `-chat` and `-Chat`
/// suffixes removed for as long as any is left.
pub fn strip_suffixes(id: &str) -> (r: String)
    ensures
        r@ == strip_all(id@),
{
    let mut s = chars_of(id);
    loop
        invariant
            strip_all(s@) == strip_all(id@),
        decreases s@.len(),
    {
        let before = slice_chars(&s, 0, s.len());
        assert(s@.subrange(0, s@.len() as int) == s@);
        s = strip_suffix_once(s, "-Instruct");
        s = strip_suffix_once(s, "-GGUF");
        s = strip_suffix_once(s, "-gguf");
        s = strip_suffix_once(s, "-chat");
        s = strip_suffix_once(s, "-Chat");
        assert(s@ == strip_pass(before@));
        proof {
            lemma_strip_pass_len(before@);
        }
        if same_chars(&s, &before) {
            return string_of(s.as_slice());
        }
    }
}

/// Stripping leaves a prefix of the id that no suffix ends any more, so
/// stripping twice strips no more than stripping once.
pub proof fn lemma_strip_all_fixpoint(s: Seq<char>)
    ensures
        strip_pass(strip_all(s)) == strip_all(s),
        strip_all(strip_all(s)) == strip_all(s),
        strip_all(s).len() <= s.len(),
        strip_all(s) == s.take(strip_all(s).len() as int),
    decreases s.len(),
{
    let t = strip_pass(s);
    lemma_strip_pass_len(s);
    if t != s {
        lemma_strip_all_fixpoint(t);
        assert(strip_all(s) == strip_all(t));
        assert(s.take(strip_all(s).len() as int) =~= t.take(strip_all(s).len() as int));
    } else {
        assert(s.take(s.len() as int) =~= s);
    }
}

/// `w` ends with the non-empty suffix `suf`.
pub open spec fn cuts(w: Seq<char>, suf: Seq<char>) -> bool {
    suf.len() > 0 && finishes_with(w, suf)
}

/// `w` is a run of the variant suffixes `-Instruct`, `-GGUF`, `-gguf`,
/// `-chat` and `-Chat`, one after another (the empty run included).
pub open spec fn made_of_suffixes(w: Seq<char>) -> bool
    decreases w.len(),
{
    if w.len() == 0 {
        true
    } else {
        ||| (cuts(w, "-Instruct"@) && made_of_suffixes(w.take(w.len() - "-Instruct"@.len())))
        ||| (cuts(w, "-GGUF"@) && made_of_suffixes(w.take(w.len() - "-GGUF"@.len())))
        ||| (cuts(w, "-gguf"@) && made_of_suffixes(w.take(w.len() - "-gguf"@.len())))
        ||| (cuts(w, "-chat"@) && made_of_suffixes(w.take(w.len() - "-chat"@.len())))
        ||| (cuts(w, "-Chat"@) && made_of_suffixes(w.take(w.len() - "-Chat"@.len())))
    }
}

proof fn lemma_made_of_concat(a: Seq<char>, b: Seq<char>)
    requires
        made_of_suffixes(a),
        made_of_suffixes(b),
    ensures
        made_of_suffixes(a + b),
    decreases b.len(),
{
    if b.len() == 0 {
        assert(a + b =~= a);
    } else {
        let ab = a + b;
        let sufs = seq!["-Instruct"@, "-GGUF"@, "-gguf"@, "-chat"@, "-Chat"@];
        assert forall|k: int| 0 <= k < 5 && cuts(b, #[trigger] sufs[k]) && made_of_suffixes(
            b.take(b.len() - sufs[k].len()),
        ) implies cuts(ab, sufs[k]) && made_of_suffixes(ab.take(ab.len() - sufs[k].len())) by {
            let suf = sufs[k];
            let b1 = b.take(b.len() - suf.len());
            lemma_made_of_concat(a, b1);
            assert(ab.take(ab.len() - suf.len()) =~= a + b1);
            assert forall|j: int| 0 <= j < suf.len() implies ab[ab.len() - suf.len() + j] == suf[j] by {
                assert(ab[ab.len() - suf.len() + j] == b[b.len() - suf.len() + j]);
            }
        }
        assert(sufs[0] == "-Instruct"@ && sufs[1] == "-GGUF"@ && sufs[2] == "-gguf"@ && sufs[3]
            == "-chat"@ && sufs[4] == "-Chat"@);
    }
}

/// What one suffix cut takes off is a run of suffixes.
proof fn lemma_strip_one_tail(s: Seq<char>, suf: Seq<char>)
    requires
        suf == "-Instruct"@ || suf == "-GGUF"@ || suf == "-gguf"@ || suf == "-chat"@ || suf
            == "-Chat"@,
    ensures
        made_of_suffixes(s.skip(strip_one(s, suf).len() as int)),
{
    let r = strip_one(s, suf);
    if r == s {
        assert(s.skip(s.len() as int) =~= Seq::<char>::empty());
    } else {
        let t = s.skip(r.len() as int);
        reveal_with_fuel(made_of_suffixes, 2);
        assert(t =~= suf);
        assert(t.take(t.len() - suf.len()) =~= Seq::<char>::empty());
    }
}

/// What one pass over the suffixes takes off is a run of suffixes.
proof fn lemma_strip_pass_tail(s: Seq<char>)
    ensures
        made_of_suffixes(s.skip(strip_pass(s).len() as int)),
{
    let s1 = strip_one(s, "-Instruct"@);
    let s2 = strip_one(s1, "-GGUF"@);
    let s3 = strip_one(s2, "-gguf"@);
    let s4 = strip_one(s3, "-chat"@);
    let s5 = strip_one(s4, "-Chat"@);
    lemma_strip_one_len(s, "-Instruct"@);
    lemma_strip_one_len(s1, "-GGUF"@);
    lemma_strip_one_len(s2, "-gguf"@);
    lemma_strip_one_len(s3, "-chat"@);
    lemma_strip_one_len(s4, "-Chat"@);
    lemma_strip_one_tail(s, "-Instruct"@);
    lemma_strip_one_tail(s1, "-GGUF"@);
    lemma_strip_one_tail(s2, "-gguf"@);
    lemma_strip_one_tail(s3, "-chat"@);
    lemma_strip_one_tail(s4, "-Chat"@);
    let t1 = s.skip(s1.len() as int);
    let t2 = s1.skip(s2.len() as int);
    let t3 = s2.skip(s3.len() as int);
    let t4 = s3.skip(s4.len() as int);
    let t5 = s4.skip(s5.len() as int);
    lemma_made_of_concat(t5, t4);
    lemma_made_of_concat(t5 + t4, t3);
    lemma_made_of_concat(t5 + t4 + t3, t2);
    lemma_made_of_concat(t5 + t4 + t3 + t2, t1);
    assert(s.skip(s5.len() as int) =~= t5 + t4 + t3 + t2 + t1);
}

/// What stripping removes from an id is a run of the variant suffixes, and
/// what it leaves ends with none of them: the id is the stripped id followed
/// by suffixes only.
pub proof fn lemma_strip_all_tail(s: Seq<char>)
    ensures
        s == strip_all(s) + s.skip(strip_all(s).len() as int),
        made_of_suffixes(s.skip(strip_all(s).len() as int)),
        !cuts(strip_all(s), "-Instruct"@),
        !cuts(strip_all(s), "-GGUF"@),
        !cuts(strip_all(s), "-gguf"@),
        !cuts(strip_all(s), "-chat"@),
        !cuts(strip_all(s), "-Chat"@),
    decreases s.len(),
{
    lemma_strip_all_fixpoint(s);
    let r = strip_all(s);
    let t = strip_pass(s);
    lemma_strip_pass_len(s);
    assert(s =~= r + s.skip(r.len() as int));
    if t != s {
        lemma_strip_all_tail(t);
        lemma_strip_all_fixpoint(t);
        assert(r == strip_all(t));
        lemma_strip_pass_tail(s);
        lemma_made_of_concat(t.skip(r.len() as int), s.skip(t.len() as int));
        assert(s.skip(r.len() as int) =~= t.skip(r.len() as int) + s.skip(t.len() as int));
    } else {
        assert(s.skip(s.len() as int) =~= Seq::<char>::empty());
    }
    lemma_no_suffix_left(r);
}

/// An id that one pass leaves unchanged ends with none of the suffixes.
proof fn lemma_no_suffix_left(r: Seq<char>)
    requires
        strip_pass(r) == r,
    ensures
        !cuts(r, "-Instruct"@),
        !cuts(r, "-GGUF"@),
        !cuts(r, "-gguf"@),
        !cuts(r, "-chat"@),
        !cuts(r, "-Chat"@),
{
    let s1 = strip_one(r, "-Instruct"@);
    let s2 = strip_one(s1, "-GGUF"@);
    let s3 = strip_one(s2, "-gguf"@);
    let s4 = strip_one(s3, "-chat"@);
    lemma_strip_one_len(r, "-Instruct"@);
    lemma_strip_one_len(s1, "-GGUF"@);
    lemma_strip_one_len(s2, "-gguf"@);
    lemma_strip_one_len(s3, "-chat"@);
    lemma_strip_one_len(s4, "-Chat"@);
}

/// `i` is the last entry for the given model id (later entries win).
pub open spec fn last_entry(entries: Seq<(Seq<char>, i64, Seq<char>, Evidence)>, id: Seq<char>, i: int) -> bool {
    &&& 0 <= i < entries.len()
    &&& entries[i].0 == id
    &&& forall|j: int| i < j < entries.len() ==> entries[j].0 != id
}

/// The entry for a model id, the last one listed when there are several.
pub open spec fn entry_for(entries: Seq<(Seq<char>, i64, Seq<char>, Evidence)>, id: Seq<char>) -> Option<(Seq<char>, i64, Seq<char>, Evidence)> {
    if exists|i: int| last_entry(entries, id, i) {
        Some(entries[choose|i: int| last_entry(entries, id, i)])
    } else {
        None
    }
}

/// The sum of some card scores.
pub open spec fn score_sum(s: Seq<(Seq<char>, i64)>) -> int
    decreases s.len(),
{
    if s.len() == 0 {
        0
    } else {
        score_sum(s.drop_last()) + s.last().1
    }
}

/// A model with a benchmark attached: the curated entry for its id (with that
/// entry's confidence); else the entry for its base model (confidence of a
/// base-model match); else the entry for its id with variant suffixes stripped,
/// when that differs (confidence of a variant match); else the mean of its card
/// scores, rounded down, when it has any (self-reported); else it is unchanged.
pub open spec fn with_benchmark(m: ModelView, entries: Seq<(Seq<char>, i64, Seq<char>, Evidence)>) -> ModelView {
    match entry_for(entries, m.model_id) {
        Some(e) => ModelView {
            benchmark_score: Some(e.1),
            benchmark_confidence: Some(evidence_weight(e.3)),
            benchmark_source: Some(e.2),
            ..m
        },
        None => {
            let by_base = match m.base_model {
                Some(b) => entry_for(entries, b),
                None => None,
            };
            match by_base {
                Some(e) => ModelView {
                    benchmark_score: Some(e.1),
                    benchmark_confidence: Some(evidence_weight(Evidence::BaseModel)),
                    benchmark_source: Some(e.2),
                    ..m
                },
                None => {
                    let stripped = strip_all(m.model_id);
                    let by_variant = if stripped != m.model_id {
                        entry_for(entries, stripped)
                    } else {
                        None
                    };
                    match by_variant {
                        Some(e) => ModelView {
                            benchmark_score: Some(e.1),
                            benchmark_confidence: Some(evidence_weight(Evidence::Variant)),
                            benchmark_source: Some(e.2),
                            ..m
                        },
                        None => match m.eval_results {
                            Some(ev) => if ev.0.len() > 0 {
                                ModelView {
                                    benchmark_score: Some((score_sum(ev.0) / (ev.0.len() as int)) as i64),
                                    benchmark_confidence: Some(evidence_weight(Evidence::SelfReported)),
                                    benchmark_source: Some("huggingface_card"@),
                                    ..m
                                }
                            } else {
                                m
                            },
                            None => m,
                        },
                    }
                },
            }
        },
    }
}

/// The values of the benchmark entries.
pub open spec fn entry_views(e: Seq<BenchmarkEntry>) -> Seq<(Seq<char>, i64, Seq<char>, Evidence)> {
    e.map_values(|x: BenchmarkEntry| x@)
}

/// The last entry for a model id.
fn find_entry(entries: &Vec<BenchmarkEntry>, id: &Vec<char>) -> (r: Option<usize>)
    ensures
        match r {
            Some(i) => last_entry(entry_views(entries@), id@, i as int) && entry_for(entry_views(entries@), id@) == Some(entry_views(entries@)[i as int]),
            None => entry_for(entry_views(entries@), id@) is None,
        },
{
    let ghost ev = entry_views(entries@);
    let mut j: usize = entries.len();
    while j > 0
        invariant
            j <= entries.len(),
            ev == entry_views(entries@),
            forall|k: int| j <= k < entries.len() ==> ev[k].0 != id@,
        decreases j,
    {
        let c = chars_of(entries[j - 1].model_id.as_str());
        assert(ev[j - 1].0 == c@);
        if same_chars(&c, id) {
            let ghost i = j - 1;
            assert(last_entry(ev, id@, i));
            let ghost k = choose|k: int| last_entry(ev, id@, k);
            assert(k == i) by {
                if k < i {
                    assert(ev[i].0 != id@);
                } else if k > i {
                    assert(ev[k].0 != id@);
                }
            }
            return Some(j - 1);
        }
        j = j - 1;
    }
    assert(!exists|k: int| last_entry(ev, id@, k));
    None
}

/// The mean of some card scores, rounded down.
fn mean_score(s: &Vec<(String, i64)>) -> (r: i64)
    requires
        s.len() > 0,
    ensures
        r == score_sum(score_views(s@)) / (s.len() as int),
{
    let ghost sv = score_views(s@);
    let mut sum: i128 = 0;
    let mut i: usize = 0;
    assert(sv.take(0) =~= Seq::<(Seq<char>, i64)>::empty());
    while i < s.len()
        invariant
            i <= s.len(),
            sv == score_views(s@),
            sum == score_sum(sv.take(i as int)),
            -0x8000_0000_0000_0000 * (i as int) <= sum <= 0x7fff_ffff_ffff_ffff * (i as int),
        decreases s.len() - i,
    {
        assert(sv.take(i + 1).drop_last() == sv.take(i as int));
        assert(sv[i as int].1 == s@[i as int].1);
        assert(-0x8000_0000_0000_0000 * (i as int) - 0x8000_0000_0000_0000 >= -0x8000_0000_0000_0000i128 * 0x1_0000_0000_0000_0000) by (nonlinear_arith)
            requires i < 0x1_0000_0000_0000_0000int;
        sum = sum + s[i].1 as i128;
        i = i + 1;
    }
    assert(sv.take(s.len() as int) == sv);
    assert(s.len() <= 0xffff_ffff_ffff_ffff);
    let n: i128 = s.len() as i128;
    let fl: i128 = if sum >= 0 {
        let q: u128 = (sum as u128) / (n as u128);
        assert(q as int == (sum as int) / (n as int));
        q as i128
    } else {
        assert(0 - sum <= 0x8000_0000_0000_0000 * 0xffff_ffff_ffff_ffff) by (nonlinear_arith)
            requires
                -0x8000_0000_0000_0000 * (n as int) <= sum,
                n <= 0xffff_ffff_ffff_ffff,
        ;
        let a: u128 = (0 - sum) as u128;
        let q: u128 = (a + (n as u128) - 1) / (n as u128);
        assert(q <= a) by (nonlinear_arith)
            requires
                n >= 1,
                a >= 1,
                q == (a + n - 1) / (n as int),
        ;
        assert(0 - (q as int) == (sum as int) / (n as int)) by (nonlinear_arith)
            requires
                n > 0,
                a == -sum,
                sum < 0,
                q == (a + n - 1) / (n as int),
        ;
        0 - (q as i128)
    };
    assert(-0x8000_0000_0000_0000 <= fl <= 0x7fff_ffff_ffff_ffff) by (nonlinear_arith)
        requires
            n > 0,
            fl == (sum as int) / (n as int),
            -0x8000_0000_0000_0000 * (n as int) <= sum <= 0x7fff_ffff_ffff_ffff * (n as int),
    ;
    fl as i64
}

fn entry_source(entries: &Vec<BenchmarkEntry>, k: usize) -> (r: String)
    requires
        k < entries.len(),
    ensures
        r@ == entries@[k as int].source@,
{
    copy_string(&entries[k].source)
}

/// Attaches a benchmark score to each model (see `with_benchmark`).
pub fn merge_benchmarks(models: &mut Vec<ModelInfo>, entries: &Vec<BenchmarkEntry>)
    ensures
        model_views(final(models)@) == model_views(old(models)@).map_values(
            |m: ModelView| with_benchmark(m, entry_views(entries@)),
        ),
{
    let ghost ev = entry_views(entries@);
    let ghost start = model_views(models@);
    let mut i: usize = 0;
    while i < models.len()
        invariant
            i <= models.len(),
            models.len() == start.len(),
            ev == entry_views(entries@),
            forall|k: int| 0 <= k < i ==> model_views(models@)[k] == with_benchmark(start[k], ev),
            forall|k: int| i <= k < models.len() ==> model_views(models@)[k] == start[k],
        decreases models.len() - i,
    {
        let mut m = copy_model(&models[i]);
        let ghost mv = m@;
        assert(mv == start[i as int]);
        let id = chars_of(m.model_id.as_str());
        match find_entry(entries, &id) {
            Some(k) => {
                m.benchmark_score = Some(entries[k].score);
                m.benchmark_confidence = Some(entries[k].confidence.weight());
                m.benchmark_source = Some(entry_source(entries, k));
            },
            None => {
                let by_base = match &m.base_model {
                    Some(b) => {
                        let bc = chars_of(b.as_str());
                        find_entry(entries, &bc)
                    },
                    None => None,
                };
                match by_base {
                    Some(k) => {
                        m.benchmark_score = Some(entries[k].score);
                        m.benchmark_confidence = Some(Evidence::BaseModel.weight());
                        m.benchmark_source = Some(entry_source(entries, k));
                    },
                    None => {
                        let stripped = strip_suffixes(m.model_id.as_str());
                        let sc = chars_of(stripped.as_str());
                        let by_variant = if !same_chars(&sc, &id) {
                            find_entry(entries, &sc)
                        } else {
                            None
                        };
                        match by_variant {
                            Some(k) => {
                                m.benchmark_score = Some(entries[k].score);
                                m.benchmark_confidence = Some(Evidence::Variant.weight());
                                m.benchmark_source = Some(entry_source(entries, k));
                            },
                            None => {
                                let avg: Option<i64> = match &m.eval_results {
                                    Some(e) => if e.scores.len() > 0 {
                                        Some(mean_score(&e.scores))
                                    } else {
                                        None
                                    },
                                    None => None,
                                };
                                match avg {
                                    Some(a) => {
                                        m.benchmark_score = Some(a);
                                        m.benchmark_confidence = Some(Evidence::SelfReported.weight());
                                        let c = chars_of("huggingface_card");
                                        m.benchmark_source = Some(string_of(c.as_slice()));
                                    },
                                    None => {},
                                }
                            },
                        }
                    },
                }
            },
        }
        assert(m@ == with_benchmark(mv, ev));
        let ghost before = model_views(models@);
        let ghost nv = m@;
        models.set(i, m);
        assert(model_views(models@) =~= before.update(i as int, nv));
        i = i + 1;
    }
    assert(model_views(models@) =~= start.map_values(|m: ModelView| with_benchmark(m, ev)));
}

/// No curated entry is listed for `id`.
pub open spec fn unlisted(entries: Seq<(Seq<char>, i64, Seq<char>, Evidence)>, id: Seq<char>) -> bool {
    forall|i: int| 0 <= i < entries.len() ==> entries[i].0 != id
}

proof fn lemma_entry_for_last(entries: Seq<(Seq<char>, i64, Seq<char>, Evidence)>, id: Seq<char>, i: int)
    requires
        last_entry(entries, id, i),
    ensures
        entry_for(entries, id) == Some(entries[i]),
{
    let k = choose|k: int| last_entry(entries, id, k);
    assert(k == i) by {
        if k < i {
            assert(entries[i].0 == id);
        } else if k > i {
            assert(entries[k].0 == id);
        }
    }
}

proof fn lemma_entry_for_unlisted(entries: Seq<(Seq<char>, i64, Seq<char>, Evidence)>, id: Seq<char>)
    requires
        unlisted(entries, id),
    ensures
        entry_for(entries, id) is None,
{
    if exists|k: int| last_entry(entries, id, k) {
        let k = choose|k: int| last_entry(entries, id, k);
        assert(entries[k].0 != id);
    }
}

/// Attaching benchmarks changes nothing of a model but its benchmark score,
/// confidence and source.
pub proof fn lemma_benchmark_keeps_model(m: ModelView, entries: Seq<(Seq<char>, i64, Seq<char>, Evidence)>)
    ensures
        (ModelView {
            benchmark_score: m.benchmark_score,
            benchmark_confidence: m.benchmark_confidence,
            benchmark_source: m.benchmark_source,
            ..with_benchmark(m, entries)
        }) == m,
{
}

/// A model with a curated entry for its own id takes the score and source of
/// the last such entry, with the confidence of that entry's evidence.
pub proof fn lemma_benchmark_by_id(m: ModelView, entries: Seq<(Seq<char>, i64, Seq<char>, Evidence)>, i: int)
    requires
        0 <= i < entries.len(),
        entries[i].0 == m.model_id,
        forall|j: int| i < j < entries.len() ==> entries[j].0 != m.model_id,
    ensures
        with_benchmark(m, entries).benchmark_score == Some(entries[i].1),
        with_benchmark(m, entries).benchmark_confidence == Some(evidence_weight(entries[i].3)),
        with_benchmark(m, entries).benchmark_source == Some(entries[i].2),
{
    lemma_entry_for_last(entries, m.model_id, i);
}

/// A model without an entry of its own, whose base model has one, takes the
/// score and source of the base model's last entry with confidence 0.78.
pub proof fn lemma_benchmark_by_base(
    m: ModelView,
    entries: Seq<(Seq<char>, i64, Seq<char>, Evidence)>,
    b: Seq<char>,
    i: int,
)
    requires
        unlisted(entries, m.model_id),
        m.base_model == Some(b),
        0 <= i < entries.len(),
        entries[i].0 == b,
        forall|j: int| i < j < entries.len() ==> entries[j].0 != b,
    ensures
        with_benchmark(m, entries).benchmark_score == Some(entries[i].1),
        with_benchmark(m, entries).benchmark_confidence == Some(78u64),
        with_benchmark(m, entries).benchmark_source == Some(entries[i].2),
{
    lemma_entry_for_unlisted(entries, m.model_id);
    lemma_entry_for_last(entries, b, i);
}

/// A model with no entry for its id or its base model, whose id loses a
/// variant suffix when stripped and whose stripped id has an entry, takes
/// that entry's score and source with confidence 0.88.
pub proof fn lemma_benchmark_by_variant(m: ModelView, entries: Seq<(Seq<char>, i64, Seq<char>, Evidence)>, i: int)
    requires
        unlisted(entries, m.model_id),
        m.base_model matches Some(b) ==> unlisted(entries, b),
        strip_all(m.model_id) != m.model_id,
        0 <= i < entries.len(),
        entries[i].0 == strip_all(m.model_id),
        forall|j: int| i < j < entries.len() ==> entries[j].0 != strip_all(m.model_id),
    ensures
        with_benchmark(m, entries).benchmark_score == Some(entries[i].1),
        with_benchmark(m, entries).benchmark_confidence == Some(88u64),
        with_benchmark(m, entries).benchmark_source == Some(entries[i].2),
{
    lemma_entry_for_unlisted(entries, m.model_id);
    if let Some(b) = m.base_model {
        lemma_entry_for_unlisted(entries, b);
    }
    lemma_entry_for_last(entries, strip_all(m.model_id), i);
}

/// A model with no curated entry for its id, its base model (whether or not
/// it names one) or its stripped id, and with card scores, takes the mean of
/// its card scores rounded down, self-reported (confidence 0.55), from
/// `huggingface_card`.
pub proof fn lemma_benchmark_from_card(m: ModelView, entries: Seq<(Seq<char>, i64, Seq<char>, Evidence)>)
    requires
        unlisted(entries, m.model_id),
        m.base_model matches Some(b) ==> unlisted(entries, b),
        unlisted(entries, strip_all(m.model_id)),
        m.eval_results matches Some(ev) && ev.0.len() > 0,
    ensures
        m.eval_results matches Some(ev) && with_benchmark(m, entries).benchmark_score == Some(
            (score_sum(ev.0) / (ev.0.len() as int)) as i64,
        ),
        with_benchmark(m, entries).benchmark_confidence == Some(55u64),
        with_benchmark(m, entries).benchmark_source == Some("huggingface_card"@),
{
    lemma_entry_for_unlisted(entries, m.model_id);
    if let Some(b) = m.base_model {
        lemma_entry_for_unlisted(entries, b);
    }
    lemma_entry_for_unlisted(entries, strip_all(m.model_id));
}

/// A model with no curated entry for its id, its base model or its stripped
/// id, and without card scores, is left as it was.
pub proof fn lemma_benchmark_none(m: ModelView, entries: Seq<(Seq<char>, i64, Seq<char>, Evidence)>)
    requires
        unlisted(entries, m.model_id),
        m.base_model matches Some(b) ==> unlisted(entries, b),
        unlisted(entries, strip_all(m.model_id)),
        !(m.eval_results matches Some(ev) && ev.0.len() > 0),
    ensures
        with_benchmark(m, entries) == m,
{
    lemma_entry_for_unlisted(entries, m.model_id);
    if let Some(b) = m.base_model {
        lemma_entry_for_unlisted(entries, b);
    }
    lemma_entry_for_unlisted(entries, strip_all(m.model_id));
}

} // verus!
