//! Merging the two model lists of the index into one list of models.
use vstd::prelude::*;
use crate::text::{chars_of, copy_opt_string, copy_string, same_chars, string_of};
use super::hf_api::{HfModelRow, RowView, row_views};
use super::types::{
    QuantType,
    EvalResults, ModelInfo, ModelView, copy_model, copy_scores, copy_variants, model_views,
};

verus! {

/// The model first made from a row: its id, author, counts, size, base model
/// and pipeline tag; its card scores (marked as from the model card) when it
/// has any; no variants yet and no benchmark.
pub open spec fn model_from_row(r: RowView) -> ModelView {
    ModelView {
        model_id: r.id,
        author: r.author,
        downloads: r.downloads,
        likes: r.likes,
        params_m: r.params_m,
        architecture: None,
        base_model: r.base_model,
        family: None,
        gguf_variants: Seq::empty(),
        pipeline_tag: r.pipeline_tag,
        eval_results: if r.eval_scores.len() == 0 {
            None
        } else {
            Some((r.eval_scores, "huggingface_card"@))
        },
        benchmark_score: None,
        benchmark_confidence: None,
        benchmark_source: None,
    }
}

/// A model updated with a further row of its id: the row's variants replace
/// the model's when there are more of them, or when the row is a GGUF
/// repository and the model has variants already; the downloads become the larger.
pub open spec fn absorb_row(e: ModelView, r: RowView) -> ModelView {
    ModelView {
        gguf_variants: if r.gguf_variants.len() > e.gguf_variants.len() || (r.is_gguf_repo
            && e.gguf_variants.len() > 0) {
            r.gguf_variants
        } else {
            e.gguf_variants
        },
        downloads: if e.downloads >= r.downloads {
            e.downloads
        } else {
            r.downloads
        },
        ..e
    }
}

/// `i` is where a model with the given id stands.
pub open spec fn id_at(entries: Seq<ModelView>, id: Seq<char>, i: int) -> bool {
    0 <= i < entries.len() && entries[i].model_id == id
}

/// The models after one more row: the model of its id absorbs it, or a new
/// model made from it (and absorbing it) is appended.
pub open spec fn merge_step(entries: Seq<ModelView>, r: RowView) -> Seq<ModelView> {
    if exists|i: int| id_at(entries, r.id, i) {
        let i = choose|i: int| id_at(entries, r.id, i);
        entries.update(i, absorb_row(entries[i], r))
    } else {
        entries.push(absorb_row(model_from_row(r), r))
    }
}

/// The models after a sequence of rows, in the order their ids first appear.
pub open spec fn merge_fold(rows: Seq<RowView>) -> Seq<ModelView>
    decreases rows.len(),
{
    if rows.len() == 0 {
        Seq::empty()
    } else {
        merge_step(merge_fold(rows.drop_last()), rows.last())
    }
}

/// No two models share an id.
pub open spec fn ids_distinct(entries: Seq<ModelView>) -> bool {
    forall|i: int, j: int|
        0 <= i < entries.len() && 0 <= j < entries.len() && i != j ==> entries[i].model_id
            != entries[j].model_id
}

/// Models ordered by downloads, most first.
pub open spec fn by_downloads_desc(s: Seq<ModelView>) -> bool {
    forall|i: int, j: int| 0 <= i < j < s.len() ==> s[i].downloads >= s[j].downloads
}

fn model_of_row(r: &HfModelRow) -> (m: ModelInfo)
    ensures
        m@ == model_from_row(r@),
{
    let eval_results = if r.eval_scores.len() == 0 {
        None
    } else {
        let c = chars_of("huggingface_card");
        Some(EvalResults { scores: copy_scores(&r.eval_scores), source: string_of(c.as_slice()) })
    };
    let m = ModelInfo {
        model_id: copy_string(&r.id),
        author: copy_string(&r.author),
        downloads: r.downloads,
        likes: r.likes,
        params_m: r.params_m,
        architecture: None,
        base_model: copy_opt_string(&r.base_model),
        family: None,
        gguf_variants: Vec::new(),
        pipeline_tag: copy_opt_string(&r.pipeline_tag),
        eval_results,
        benchmark_score: None,
        benchmark_confidence: None,
        benchmark_source: None,
    };
    assert(m@.gguf_variants =~= Seq::<(Seq<char>, u64, super::types::QuantType)>::empty());
    assert(m@ == model_from_row(r@));
    m
}

fn absorb(m: &mut ModelInfo, r: &HfModelRow)
    ensures
        final(m)@ == absorb_row(old(m)@, r@),
{
    if r.gguf_variants.len() > m.gguf_variants.len() || (r.is_gguf_repo && m.gguf_variants.len()
        > 0) {
        m.gguf_variants = copy_variants(&r.gguf_variants);
    }
    if m.downloads < r.downloads {
        m.downloads = r.downloads;
    }
}

/// Where a model with the given id stands in the list, if anywhere.
fn find_model(entries: &Vec<ModelInfo>, id: &String) -> (r: Option<usize>)
    requires
        ids_distinct(model_views(entries@)),
    ensures
        match r {
            Some(i) => id_at(model_views(entries@), id@, i as int),
            None => !exists|i: int| id_at(model_views(entries@), id@, i),
        },
{
    let idc = chars_of(id.as_str());
    let mut i: usize = 0;
    while i < entries.len()
        invariant
            i <= entries.len(),
            idc@ == id@,
            forall|k: int| 0 <= k < i ==> !id_at(model_views(entries@), id@, k),
        decreases entries.len() - i,
    {
        let c = chars_of(entries[i].model_id.as_str());
        assert(model_views(entries@)[i as int].model_id == c@);
        if same_chars(&c, &idc) {
            return Some(i);
        }
        i = i + 1;
    }
    None
}

/// Folds rows into the list of models.
fn merge_rows(entries: &mut Vec<ModelInfo>, rows: &Vec<HfModelRow>, Ghost(pre): Ghost<Seq<RowView>>)
    requires
        ids_distinct(model_views(old(entries)@)),
        merge_fold(pre) == model_views(old(entries)@),
    ensures
        ids_distinct(model_views(final(entries)@)),
        merge_fold(pre + row_views(rows@)) == model_views(final(entries)@),
{
    let ghost start = model_views(entries@);
    let ghost rv = row_views(rows@);
    let mut i: usize = 0;
    assert(rv.take(0) =~= Seq::<RowView>::empty());
    assert(pre + rv.take(0) =~= pre);
    while i < rows.len()
        invariant
            i <= rows.len(),
            rv == row_views(rows@),
            ids_distinct(model_views(entries@)),
            merge_fold(pre + rv.take(i as int)) == model_views(entries@),
        decreases rows.len() - i,
    {
        let row = &rows[i];
        assert(rv[i as int] == row@);
        let ghost before = model_views(entries@);
        match find_model(entries, &row.id) {
            Some(k) => {
                let mut m = copy_model(&entries[k]);
                absorb(&mut m, row);
                let ghost mv = m@;
                entries.set(k, m);
                assert(model_views(entries@) =~= before.update(k as int, mv));
                assert(id_at(before, row@.id, k as int));
                let ghost kk = choose|j: int| id_at(before, row@.id, j);
                assert(kk == k as int);
                assert(mv.model_id == before[k as int].model_id);
                assert forall|a: int, b: int|
                    0 <= a < model_views(entries@).len() && 0 <= b < model_views(entries@).len()
                        && a != b implies model_views(entries@)[a].model_id != model_views(
                    entries@,
                )[b].model_id by {
                    assert(model_views(entries@)[a].model_id == before[a].model_id);
                    assert(model_views(entries@)[b].model_id == before[b].model_id);
                }
                assert(model_views(entries@) == merge_step(before, row@));
            },
            None => {
                let mut m = model_of_row(row);
                absorb(&mut m, row);
                let ghost mv = m@;
                entries.push(m);
                assert(model_views(entries@) =~= before.push(mv));
                assert(model_views(entries@) == merge_step(before, row@));
                assert(mv.model_id == row@.id);
                assert forall|a: int, b: int|
                    0 <= a < model_views(entries@).len() && 0 <= b < model_views(entries@).len()
                        && a != b implies model_views(entries@)[a].model_id != model_views(
                    entries@,
                )[b].model_id by {
                    if a == before.len() {
                        assert(!id_at(before, row@.id, b));
                    } else if b == before.len() {
                        assert(!id_at(before, row@.id, a));
                    }
                }
            },
        }
        assert((pre + rv.take(i + 1)).drop_last() =~= pre + rv.take(i as int));
        assert((pre + rv.take(i + 1)).last() == rv[i as int]);
        i = i + 1;
    }
    assert(rv.take(rows.len() as int) =~= rv);
}

/// Some model of `entries` has the id `id`.
pub open spec fn holds_id(entries: Seq<ModelView>, id: Seq<char>) -> bool {
    exists|a: int| id_at(entries, id, a)
}

/// Some row of `rows` has the id `id`.
pub open spec fn row_with_id(rows: Seq<RowView>, id: Seq<char>) -> bool {
    exists|i: int| 0 <= i < rows.len() && (#[trigger] rows[i]).id == id
}

/// Merging keeps one model for each id of the rows and no other: no two
/// models share an id, every row's id has its model, every model's id comes
/// from a row, and a model has at least the downloads of every row of its id.
pub proof fn lemma_merge_fold_ids(rows: Seq<RowView>)
    ensures
        ids_distinct(merge_fold(rows)),
        forall|i: int| 0 <= i < rows.len() ==> #[trigger] holds_id(merge_fold(rows), rows[i].id),
        forall|a: int|
            0 <= a < merge_fold(rows).len() ==> #[trigger] row_with_id(rows, merge_fold(rows)[a].model_id),
        forall|i: int, a: int|
            0 <= i < rows.len() && #[trigger] id_at(merge_fold(rows), rows[i].id, a)
                ==> merge_fold(rows)[a].downloads >= rows[i].downloads,
    decreases rows.len(),
{
    if rows.len() > 0 {
        let p = rows.drop_last();
        let r = rows.last();
        lemma_merge_fold_ids(p);
        let e = merge_fold(p);
        let m = merge_fold(rows);
        assert(m == merge_step(e, r));
        assert forall|i: int| 0 <= i < p.len() implies rows[i] == #[trigger] p[i] by {}
        if exists|k: int| id_at(e, r.id, k) {
            let k = choose|k: int| id_at(e, r.id, k);
            assert(m == e.update(k, absorb_row(e[k], r)));
            assert forall|a: int| 0 <= a < m.len() implies (#[trigger] m[a]).model_id == e[a].model_id by {}
            assert forall|i: int| 0 <= i < rows.len() implies #[trigger] holds_id(m, rows[i].id) by {
                if i < p.len() {
                    assert(rows[i] == p[i]);
                    assert(holds_id(e, p[i].id));
                    let a = choose|a: int| id_at(e, p[i].id, a);
                    assert(id_at(m, rows[i].id, a));
                } else {
                    assert(id_at(m, rows[i].id, k));
                }
            }
            assert forall|a: int| 0 <= a < m.len() implies #[trigger] row_with_id(rows, m[a].model_id) by {
                assert(m[a].model_id == e[a].model_id);
                assert(row_with_id(p, e[a].model_id));
                let j = choose|j: int| 0 <= j < p.len() && (#[trigger] p[j]).id == e[a].model_id;
                assert(rows[j] == p[j]);
            }
            assert forall|i: int, a: int|
                0 <= i < rows.len() && #[trigger] id_at(m, rows[i].id, a) implies m[a].downloads
                >= rows[i].downloads by {
                if i < p.len() {
                    assert(rows[i] == p[i]);
                    assert(id_at(e, p[i].id, a));
                } else {
                    if a != k {
                        assert(e[a].model_id == e[k].model_id);
                    }
                }
            }
        } else {
            assert(m == e.push(absorb_row(model_from_row(r), r)));
            assert forall|a: int, b: int|
                0 <= a < m.len() && 0 <= b < m.len() && a != b implies m[a].model_id
                != m[b].model_id by {
                if a == e.len() {
                    assert(!id_at(e, r.id, b));
                } else if b == e.len() {
                    assert(!id_at(e, r.id, a));
                }
            }
            assert forall|i: int| 0 <= i < rows.len() implies #[trigger] holds_id(m, rows[i].id) by {
                if i < p.len() {
                    assert(rows[i] == p[i]);
                    assert(holds_id(e, p[i].id));
                    let a = choose|a: int| id_at(e, p[i].id, a);
                    assert(id_at(m, rows[i].id, a));
                } else {
                    assert(id_at(m, rows[i].id, e.len() as int));
                }
            }
            assert forall|a: int| 0 <= a < m.len() implies #[trigger] row_with_id(rows, m[a].model_id) by {
                if a < e.len() {
                    assert(row_with_id(p, e[a].model_id));
                    let j = choose|j: int| 0 <= j < p.len() && (#[trigger] p[j]).id == e[a].model_id;
                    assert(rows[j] == p[j]);
                } else {
                    assert(rows[rows.len() - 1].id == m[a].model_id);
                }
            }
            assert forall|i: int, a: int|
                0 <= i < rows.len() && #[trigger] id_at(m, rows[i].id, a) implies m[a].downloads
                >= rows[i].downloads by {
                if i < p.len() {
                    assert(rows[i] == p[i]);
                    if a == e.len() {
                        assert(holds_id(e, p[i].id));
                        let b = choose|b: int| id_at(e, p[i].id, b);
                        assert(id_at(e, r.id, b));
                    } else {
                        assert(id_at(e, p[i].id, a));
                    }
                } else {
                    if a < e.len() {
                        assert(id_at(e, r.id, a));
                    }
                }
            }
        }
    }
}

/// Row `i` is the first row of its id.
pub open spec fn first_of_id(rows: Seq<RowView>, i: int) -> bool {
    forall|j: int| 0 <= j < i ==> rows[j].id != rows[i].id
}

/// Some row of id `id` has `d` downloads.
pub open spec fn row_with_downloads(rows: Seq<RowView>, id: Seq<char>, d: u64) -> bool {
    exists|j: int| 0 <= j < rows.len() && (#[trigger] rows[j]).id == id && rows[j].downloads == d
}

/// Some row of id `id` lists the variants `vs`.
pub open spec fn row_with_variants(
    rows: Seq<RowView>,
    id: Seq<char>,
    vs: Seq<(Seq<char>, u64, QuantType)>,
) -> bool {
    exists|j: int| 0 <= j < rows.len() && (#[trigger] rows[j]).id == id && rows[j].gguf_variants == vs
}

/// What a merged model takes from its rows: its author, likes, parameter
/// count, base model, pipeline tag and card scores come from the first row of
/// its id; it has no benchmark yet; its downloads are those of one of its rows
/// (the most, by `lemma_merge_fold_ids`); its variants are those of one of its
/// rows, or none.
pub proof fn lemma_merge_fold_fields(rows: Seq<RowView>)
    ensures
        forall|i: int, a: int|
            0 <= i < rows.len() && first_of_id(rows, i) && #[trigger] id_at(merge_fold(rows), rows[i].id, a)
                ==> {
                let mv = merge_fold(rows)[a];
                &&& mv.params_m == rows[i].params_m
                &&& mv.author == rows[i].author
                &&& mv.likes == rows[i].likes
                &&& mv.base_model == rows[i].base_model
                &&& mv.pipeline_tag == rows[i].pipeline_tag
                &&& mv.eval_results == (if rows[i].eval_scores.len() == 0 {
                    None
                } else {
                    Some((rows[i].eval_scores, "huggingface_card"@))
                })
                &&& mv.benchmark_score is None
                &&& mv.benchmark_confidence is None
                &&& mv.benchmark_source is None
            },
        forall|a: int|
            #![trigger merge_fold(rows)[a]]
            0 <= a < merge_fold(rows).len() ==> row_with_downloads(
                rows,
                merge_fold(rows)[a].model_id,
                merge_fold(rows)[a].downloads,
            ) && (merge_fold(rows)[a].gguf_variants.len() == 0 || row_with_variants(
                rows,
                merge_fold(rows)[a].model_id,
                merge_fold(rows)[a].gguf_variants,
            )),
    decreases rows.len(),
{
    if rows.len() > 0 {
        let p = rows.drop_last();
        let r = rows.last();
        let last = rows.len() - 1;
        lemma_merge_fold_fields(p);
        lemma_merge_fold_ids(p);
        let e = merge_fold(p);
        let m = merge_fold(rows);
        assert(m == merge_step(e, r));
        assert forall|i: int| 0 <= i < p.len() implies rows[i] == #[trigger] p[i] by {}
        assert forall|i: int| 0 <= i < p.len() && first_of_id(rows, i) implies first_of_id(p, i) by {
            assert forall|j: int| 0 <= j < i implies p[j].id != p[i].id by {
                assert(rows[j].id != rows[i].id);
            }
        }
        if exists|k: int| id_at(e, r.id, k) {
            let k = choose|k: int| id_at(e, r.id, k);
            assert(m == e.update(k, absorb_row(e[k], r)));
            assert(row_with_id(p, e[k].model_id));
            assert forall|i: int, a: int|
                0 <= i < rows.len() && first_of_id(rows, i) && #[trigger] id_at(m, rows[i].id, a) implies {
                let mv = m[a];
                &&& mv.params_m == rows[i].params_m
                &&& mv.author == rows[i].author
                &&& mv.likes == rows[i].likes
                &&& mv.base_model == rows[i].base_model
                &&& mv.pipeline_tag == rows[i].pipeline_tag
                &&& mv.eval_results == (if rows[i].eval_scores.len() == 0 {
                    None
                } else {
                    Some((rows[i].eval_scores, "huggingface_card"@))
                })
                &&& mv.benchmark_score is None
                &&& mv.benchmark_confidence is None
                &&& mv.benchmark_source is None
            } by {
                if i < p.len() {
                    assert(rows[i] == p[i]);
                    assert(first_of_id(p, i));
                    assert(id_at(e, p[i].id, a));
                } else {
                    let j = choose|j: int| 0 <= j < p.len() && (#[trigger] p[j]).id == e[k].model_id;
                    assert(rows[j].id == rows[i].id);
                }
            }
            assert forall|a: int|
                #![trigger m[a]]
                0 <= a < m.len() implies row_with_downloads(rows, m[a].model_id, m[a].downloads) && (
                m[a].gguf_variants.len() == 0 || row_with_variants(
                    rows,
                    m[a].model_id,
                    m[a].gguf_variants,
                )) by {
                assert(row_with_downloads(p, e[a].model_id, e[a].downloads));
                let j = choose|j: int|
                    0 <= j < p.len() && (#[trigger] p[j]).id == e[a].model_id && p[j].downloads
                        == e[a].downloads;
                assert(rows[j] == p[j]);
                if e[a].gguf_variants.len() > 0 {
                    assert(row_with_variants(p, e[a].model_id, e[a].gguf_variants));
                    let v = choose|v: int|
                        0 <= v < p.len() && (#[trigger] p[v]).id == e[a].model_id && p[v].gguf_variants
                            == e[a].gguf_variants;
                    assert(rows[v] == p[v]);
                }
                if a == k {
                    assert(rows[last] == r);
                }
            }
        } else {
            let n = absorb_row(model_from_row(r), r);
            assert(m == e.push(n));
            assert forall|i: int, a: int|
                0 <= i < rows.len() && first_of_id(rows, i) && #[trigger] id_at(m, rows[i].id, a) implies {
                let mv = m[a];
                &&& mv.params_m == rows[i].params_m
                &&& mv.author == rows[i].author
                &&& mv.likes == rows[i].likes
                &&& mv.base_model == rows[i].base_model
                &&& mv.pipeline_tag == rows[i].pipeline_tag
                &&& mv.eval_results == (if rows[i].eval_scores.len() == 0 {
                    None
                } else {
                    Some((rows[i].eval_scores, "huggingface_card"@))
                })
                &&& mv.benchmark_score is None
                &&& mv.benchmark_confidence is None
                &&& mv.benchmark_source is None
            } by {
                if i < p.len() {
                    assert(rows[i] == p[i]);
                    assert(first_of_id(p, i));
                    if a == e.len() {
                        assert(holds_id(e, p[i].id));
                        let b = choose|b: int| id_at(e, p[i].id, b);
                        assert(id_at(e, r.id, b));
                    } else {
                        assert(id_at(e, p[i].id, a));
                    }
                } else {
                    if a < e.len() {
                        assert(id_at(e, r.id, a));
                    }
                }
            }
            assert forall|a: int|
                #![trigger m[a]]
                0 <= a < m.len() implies row_with_downloads(rows, m[a].model_id, m[a].downloads) && (
                m[a].gguf_variants.len() == 0 || row_with_variants(
                    rows,
                    m[a].model_id,
                    m[a].gguf_variants,
                )) by {
                if a < e.len() {
                    assert(m[a] == e[a]);
                    assert(row_with_downloads(p, e[a].model_id, e[a].downloads));
                    let j = choose|j: int|
                        0 <= j < p.len() && (#[trigger] p[j]).id == e[a].model_id && p[j].downloads
                            == e[a].downloads;
                    assert(rows[j] == p[j]);
                    if e[a].gguf_variants.len() > 0 {
                        assert(row_with_variants(p, e[a].model_id, e[a].gguf_variants));
                        let v = choose|v: int|
                            0 <= v < p.len() && (#[trigger] p[v]).id == e[a].model_id
                                && p[v].gguf_variants == e[a].gguf_variants;
                        assert(rows[v] == p[v]);
                    }
                } else {
                    assert(rows[last] == r);
                }
            }
        }
    }
}

/// The models `merge_models` returns (any list holding the same models as
/// `merge_fold` of its rows) take their author, likes, parameter count, base
/// model, pipeline tag and card scores from the first row of their id, and
/// every row's id has its model.
pub proof fn lemma_merged_models_fields(r: Seq<ModelView>, rows: Seq<RowView>)
    requires
        r.to_multiset() == merge_fold(rows).to_multiset(),
    ensures
        forall|i: int, a: int|
            0 <= i < rows.len() && first_of_id(rows, i) && 0 <= a < r.len() && #[trigger] r[a].model_id
                == #[trigger] rows[i].id ==> {
                &&& r[a].params_m == rows[i].params_m
                &&& r[a].author == rows[i].author
                &&& r[a].likes == rows[i].likes
                &&& r[a].base_model == rows[i].base_model
                &&& r[a].pipeline_tag == rows[i].pipeline_tag
            },
        forall|i: int| 0 <= i < rows.len() ==> #[trigger] holds_id(r, rows[i].id),
{
    broadcast use vstd::seq_lib::group_to_multiset_ensures;
    lemma_merge_fold_fields(rows);
    lemma_merge_fold_ids(rows);
    let m = merge_fold(rows);
    assert forall|i: int, a: int|
        0 <= i < rows.len() && first_of_id(rows, i) && 0 <= a < r.len() && #[trigger] r[a].model_id
            == #[trigger] rows[i].id implies {
        &&& r[a].params_m == rows[i].params_m
        &&& r[a].author == rows[i].author
        &&& r[a].likes == rows[i].likes
        &&& r[a].base_model == rows[i].base_model
        &&& r[a].pipeline_tag == rows[i].pipeline_tag
    } by {
        assert(r.contains(r[a]));
        assert(m.to_multiset().contains(r[a]));
        assert(m.contains(r[a]));
        let b = choose|b: int| 0 <= b < m.len() && m[b] == r[a];
        assert(id_at(m, rows[i].id, b));
    }
    assert forall|i: int| 0 <= i < rows.len() implies #[trigger] holds_id(r, rows[i].id) by {
        assert(holds_id(m, rows[i].id));
        let b = choose|b: int| id_at(m, rows[i].id, b);
        assert(m.contains(m[b]));
        assert(r.to_multiset().contains(m[b]));
        assert(r.contains(m[b]));
        let a = choose|a: int| 0 <= a < r.len() && r[a] == m[b];
        assert(id_at(r, rows[i].id, a));
    }
}

/// Sorts models by downloads, most first, keeping the order of equal ones.
fn sort_by_downloads(v: Vec<ModelInfo>) -> (r: Vec<ModelInfo>)
    ensures
        model_views(r@).to_multiset() == model_views(v@).to_multiset(),
        by_downloads_desc(model_views(r@)),
        ids_distinct(model_views(v@)) ==> ids_distinct(model_views(r@)),
{
    broadcast use vstd::seq_lib::group_to_multiset_ensures;
    let ghost vv = model_views(v@);
    let mut out: Vec<ModelInfo> = Vec::new();
    let mut i: usize = 0;
    assert(vv.take(0) =~= Seq::<ModelView>::empty());
    assert(model_views(out@) =~= Seq::<ModelView>::empty());
    while i < v.len()
        invariant
            i <= v.len(),
            vv == model_views(v@),
            model_views(out@).to_multiset() == vv.take(i as int).to_multiset(),
            by_downloads_desc(model_views(out@)),
            ids_distinct(vv) ==> ids_distinct(model_views(out@)),
        decreases v.len() - i,
    {
        let x = copy_model(&v[i]);
        assert(vv[i as int] == x@);
        let d = x.downloads;
        let mut p: usize = 0;
        while p < out.len() && out[p].downloads >= d
            invariant
                p <= out.len(),
                forall|j: int| 0 <= j < p ==> out@[j].downloads >= d,
            decreases out.len() - p,
        {
            p = p + 1;
        }
        let ghost ov = model_views(out@);
        let ghost xv = x@;
        out.insert(p, x);
        assert(model_views(out@) =~= ov.insert(p as int, xv));
        proof {
            let nv = ov.insert(p as int, xv);
            assert(nv.remove(p as int) =~= ov);
            assert(nv[p as int] == xv);
            nv.to_multiset_ensures();
            assert(nv.contains(xv));
            assert(nv.to_multiset().count(xv) > 0);
            assert(nv.remove(p as int).to_multiset() =~= nv.to_multiset().remove(xv));
            assert(nv.to_multiset() =~= ov.to_multiset().insert(xv));
            assert(vv.take(i + 1) =~= vv.take(i as int).push(vv[i as int]));
            vv.take(i as int).to_multiset_ensures();
            assert(vv.take(i + 1).to_multiset() =~= vv.take(i as int).to_multiset().insert(xv));
            if ids_distinct(vv) {
                assert forall|a: int| 0 <= a < ov.len() implies ov[a].model_id != xv.model_id by {
                    assert(ov.contains(ov[a]));
                    ov.to_multiset_ensures();
                    assert(ov.to_multiset().contains(ov[a]));
                    assert(vv.take(i as int).contains(ov[a]));
                    let k = choose|k: int| 0 <= k < i && vv.take(i as int)[k] == ov[a];
                    assert(vv[k] == ov[a]);
                }
                assert forall|a: int, b: int|
                    0 <= a < nv.len() && 0 <= b < nv.len() && a != b implies nv[a].model_id
                    != nv[b].model_id by {
                    if a == p {
                        if b < p {
                            assert(nv[b] == ov[b]);
                        } else {
                            assert(nv[b] == ov[b - 1]);
                        }
                    } else if b == p {
                        if a < p {
                            assert(nv[a] == ov[a]);
                        } else {
                            assert(nv[a] == ov[a - 1]);
                        }
                    } else {
                    }
                }
            }
            assert forall|a: int, b: int| 0 <= a < b < nv.len() implies nv[a].downloads
                >= nv[b].downloads by {
                if b == p {
                } else if a == p {
                    if p < ov.len() {
                        assert(ov[p as int].downloads < d);
                        assert(ov[p as int].downloads >= ov[b - 1].downloads);
                    }
                } else {
                }
            }
        }
        i = i + 1;
    }
    assert(vv.take(v.len() as int) == vv);
    out
}

/// One list of models from the text-generation and the GGUF listings: rows of
/// one id merge into one model (see `merge_fold`), and the models come most
/// downloaded first; models with equal downloads come in no promised order.
pub fn merge_models(text_gen: Vec<HfModelRow>, gguf: Vec<HfModelRow>) -> (r: Vec<ModelInfo>)
    ensures
        model_views(r@).to_multiset() == merge_fold(row_views(text_gen@) + row_views(gguf@)).to_multiset(),
        by_downloads_desc(model_views(r@)),
        ids_distinct(model_views(r@)),
{
    let mut entries: Vec<ModelInfo> = Vec::new();
    assert(model_views(entries@) =~= Seq::<ModelView>::empty());
    assert(merge_fold(Seq::<RowView>::empty()) == model_views(entries@));
    merge_rows(&mut entries, &text_gen, Ghost(Seq::<RowView>::empty()));
    assert(Seq::<RowView>::empty() + row_views(text_gen@) =~= row_views(text_gen@));
    merge_rows(&mut entries, &gguf, Ghost(row_views(text_gen@)));
    sort_by_downloads(entries)
}

} // verus!
