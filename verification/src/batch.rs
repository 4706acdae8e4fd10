//! Batch scoring and coverage reporting.
//!
//! Scores many independent rows and derives, purely from the per-row
//! results: the percentage of rows each score was computed for, the most
//! frequently missing canonical fields, and per-alias hit counts.

use crate::contracts::{spec_sorted_score_of, ScoreId, SCORE_COUNT};
use crate::eval::{evaluate_allow_partial, result_matches, IndexError, ScoreInfo};
use crate::fields::{all_fields, field_index, spec_field_of, FieldId, FIELD_COUNT};
use crate::normalize::{distinct_keys, entries_view};
use crate::nutrition_vector::{
    merged_matches_all, InputTrace, NutritionVector, MAX_ROW_ENTRIES,
};
use crate::quantity::{lemma_div_nonneg_le, Quantity};
use crate::unmapped_monitor::UnmappedFieldMonitor;
use vstd::prelude::*;

verus! {

/// Most rows one batch may hold.
pub const MAX_BATCH_ROWS: usize = 1_000_000;

/// One scored row: per-score values and validity, both sorted by score
/// name, with the row's trace and missing-field reports.
#[derive(Debug)]
pub struct RowOutput {
    /// Per-score computed values, sorted by score name.
    pub scores: Vec<(ScoreId, Option<Quantity>)>,
    /// Per-score validity and explanation, sorted by score name.
    pub validity: Vec<(ScoreId, bool, Option<String>)>,
    /// The row's normalization trace.
    pub trace: InputTrace,
    /// One entry per skipped score, in registry order.
    pub errors: Vec<IndexError>,
}

/// Batch coverage, derived purely from the per-row outputs.
#[derive(Debug)]
pub struct Coverage {
    /// Percent of rows each score was computed for, sorted by score name,
    /// in micro-percent.
    pub percent_scored: Vec<(ScoreId, Quantity)>,
    /// Fields missing in at least one row, with their row counts, most
    /// frequent first (ties in canonical field order).
    pub most_missing: Vec<(FieldId, usize)>,
}

/// A whole scored batch.
#[derive(Debug)]
pub struct BatchOutput {
    /// One output per input row, in input order.
    pub rows: Vec<RowOutput>,
    /// Coverage derived from the rows.
    pub coverage: Coverage,
}

/// A row output is correctly scored for a raw row: some well-formed vector
/// matches the row's merged model and the output reports that vector.
pub open spec fn row_is_scored(ro: RowOutput, s: Seq<(Seq<char>, int)>) -> bool {
    exists|nv: NutritionVector|
        #[trigger] nv.wf() && merged_matches_all(s, nv) && row_output_matches(ro, nv)
}

/// A row output carries, for each score in name-sorted order, the value
/// and validity the engine owes over the row's vector.
pub open spec fn row_output_matches(ro: RowOutput, nv: NutritionVector) -> bool {
    &&& ro.scores@.len() == SCORE_COUNT
    &&& ro.validity@.len() == SCORE_COUNT
    &&& forall|k: int|
        0 <= k < SCORE_COUNT ==> (#[trigger] ro.scores@[k]).0 == spec_sorted_score_of(k)
    &&& forall|k: int|
        0 <= k < SCORE_COUNT ==> (#[trigger] ro.validity@[k]).0 == spec_sorted_score_of(k)
    &&& forall|k: int|
        0 <= k < SCORE_COUNT ==> {
            let sc = spec_sorted_score_of(k);
            if crate::eval::spec_missing_for(sc, nv).len() == 0 {
                (#[trigger] ro.scores@[k]).1.is_some() && ro.scores@[k].1.unwrap()@
                    == crate::scores::registry::spec_evaluate(sc, nv) && ro.validity@[k].1
                    == crate::eval::spec_in_range(
                    sc,
                    crate::scores::registry::spec_evaluate(sc, nv),
                )
            } else {
                (#[trigger] ro.scores@[k]).1.is_none() && !ro.validity@[k].1
            }
        }
    &&& ro.trace.missing_fields@ == nv.spec_missing()
    &&& ro.trace.used_fields@ == nv.spec_used()
}

/// How many of the first `n` row outputs computed the score at sorted
/// position `k`.
pub open spec fn computed_count(ros: Seq<RowOutput>, k: int, n: int) -> int
    decreases n,
{
    if n <= 0 {
        0
    } else {
        computed_count(ros, k, n - 1) + if ros[n - 1].scores@.len() == SCORE_COUNT && ros[n
            - 1].scores@[k].1.is_some() {
            1int
        } else {
            0int
        }
    }
}

/// How many of the first `n` row outputs were missing field `f`.
pub open spec fn missing_count(ros: Seq<RowOutput>, f: FieldId, n: int) -> int
    decreases n,
{
    if n <= 0 {
        0
    } else {
        missing_count(ros, f, n - 1) + if ros[n - 1].trace.missing_fields@.contains(f) {
            1int
        } else {
            0int
        }
    }
}

/// The percent (in micro-percent) of `total` rows that `count` rows make,
/// with an empty batch reading as zero.
pub open spec fn spec_percent(count: int, total: int) -> int {
    if total <= 0 {
        0
    } else {
        (count * 100_000_000) / total
    }
}

/// Score one batch of independent rows and derive its coverage.
pub fn score_rows(rows: &Vec<Vec<(String, Quantity)>>, monitor: &mut UnmappedFieldMonitor) -> (r:
    BatchOutput)
    requires
        rows@.len() <= MAX_BATCH_ROWS,
        forall|i: int|
            0 <= i < rows@.len() ==> (#[trigger] rows@[i])@.len() <= MAX_ROW_ENTRIES,
        forall|i: int, j: int|
            0 <= i < rows@.len() && 0 <= j < (#[trigger] rows@[i])@.len() ==> (#[trigger] rows@[
            i]@[j]).1.is_input(),
        forall|i: int|
            0 <= i < rows@.len() ==> distinct_keys(entries_view((#[trigger] rows@[i])@)),
    ensures
        r.rows@.len() == rows@.len(),
        forall|i: int|
            0 <= i < rows@.len() ==> row_is_scored(#[trigger] r.rows@[i], entries_view(rows@[i]@)),
        r.coverage.percent_scored@.len() == SCORE_COUNT,
        forall|k: int|
            0 <= k < SCORE_COUNT ==> (#[trigger] r.coverage.percent_scored@[k]).0
                == spec_sorted_score_of(k) && r.coverage.percent_scored@[k].1@ == spec_percent(
                computed_count(r.rows@, k, rows@.len() as int),
                rows@.len() as int,
            ),
        forall|p: int|
            0 <= p < r.coverage.most_missing@.len() ==> (#[trigger] r.coverage.most_missing@[
            p]).1 as int == missing_count(r.rows@, r.coverage.most_missing@[p].0, rows@.len() as int)
                && r.coverage.most_missing@[p].1 > 0,
        forall|f: FieldId|
            missing_count(r.rows@, f, rows@.len() as int) > 0 ==> exists|p: int|
                0 <= p < r.coverage.most_missing@.len() && (#[trigger] r.coverage.most_missing@[
                p]).0 == f,
        forall|p: int, q: int|
            0 <= p < q < r.coverage.most_missing@.len() ==> ((#[trigger] r.coverage.most_missing@[
            p]).1 > (#[trigger] r.coverage.most_missing@[q]).1 || (r.coverage.most_missing@[p].1
                == r.coverage.most_missing@[q].1 && field_index(r.coverage.most_missing@[p].0)
                < field_index(r.coverage.most_missing@[q].0))),
{
    let n = rows.len();
    let mut out_rows: Vec<RowOutput> = Vec::new();
    let ghost mut nvs: Seq<NutritionVector> = Seq::empty();
    let mut i: usize = 0;
    while i < n
        invariant
            0 <= i <= n,
            n == rows@.len(),
            n <= MAX_BATCH_ROWS,
            forall|w: int|
                0 <= w < rows@.len() ==> (#[trigger] rows@[w])@.len() <= MAX_ROW_ENTRIES,
            forall|w: int, j: int|
                0 <= w < rows@.len() && 0 <= j < (#[trigger] rows@[w])@.len() ==> (
                #[trigger] rows@[w]@[j]).1.is_input(),
            forall|w: int|
                0 <= w < rows@.len() ==> distinct_keys(entries_view((#[trigger] rows@[w])@)),
            out_rows@.len() == i,
            nvs.len() == i,
            forall|w: int|
                0 <= w < i ==> (#[trigger] nvs[w]).wf() && merged_matches_all(
                    entries_view(rows@[w]@),
                    nvs[w],
                ) && row_output_matches(out_rows@[w], nvs[w]),
        decreases n - i,
    {
        let row = &rows[i];
        let (nv, trace) = NutritionVector::from_partial_map(row, monitor);
        let result = evaluate_allow_partial(&nv);
        let sorted = crate::contracts::scores_sorted_by_name();
        let mut scores: Vec<(ScoreId, Option<Quantity>)> = Vec::new();
        let mut validity: Vec<(ScoreId, bool, Option<String>)> = Vec::new();
        let mut k: usize = 0;
        while k < SCORE_COUNT
            invariant
                0 <= k <= SCORE_COUNT,
                nv.wf(),
                sorted@.len() == SCORE_COUNT,
                forall|w: int| 0 <= w < SCORE_COUNT ==> sorted@[w] == spec_sorted_score_of(w),
                result_matches(result, nv),
                scores@.len() == k,
                validity@.len() == k,
                forall|w: int|
                    0 <= w < k ==> (#[trigger] scores@[w]).0 == spec_sorted_score_of(w),
                forall|w: int|
                    0 <= w < k ==> (#[trigger] validity@[w]).0 == spec_sorted_score_of(w),
                forall|w: int|
                    0 <= w < k ==> {
                        let sc = spec_sorted_score_of(w);
                        if crate::eval::spec_missing_for(sc, nv).len() == 0 {
                            (#[trigger] scores@[w]).1.is_some() && scores@[w].1.unwrap()@
                                == crate::scores::registry::spec_evaluate(sc, nv)
                                && validity@[w].1 == crate::eval::spec_in_range(
                                sc,
                                crate::scores::registry::spec_evaluate(sc, nv),
                            )
                        } else {
                            (#[trigger] scores@[w]).1.is_none() && !validity@[w].1
                        }
                    },
            decreases SCORE_COUNT - k,
        {
            let sc = sorted[k];
            let idx = crate::contracts::registry_position(sc);
            let info: &ScoreInfo = &result.scores[idx].1;
            proof {
                assert(result.scores@[idx as int].0 == sc);
                assert(crate::eval::info_matches(sc, nv, result.scores@[idx as int].1));
            }
            let value: Option<Quantity> = match info.value {
                Some(q) => Some(q),
                None => None,
            };
            let explanation: Option<String> = match &info.explanation {
                Some(e) => Some(e.clone()),
                None => None,
            };
            scores.push((sc, value));
            validity.push((sc, info.valid, explanation));
            k = k + 1;
        }
        let ghost out_old = out_rows@;
        out_rows.push(RowOutput { scores, validity, trace, errors: result.errors });
        proof {
            let w = i as int;
            let s = entries_view(rows@[w]@);
            assert(merged_matches_all(s, nv)) by {
                assert(forall|f: FieldId| crate::nutrition_vector::merged_matches(s, nv, f));
            }
            assert(row_output_matches(out_rows@[w], nv));
            nvs = nvs.push(nv);
            assert forall|w2: int| 0 <= w2 < i as int + 1 implies (#[trigger] nvs[w2]).wf()
                && merged_matches_all(entries_view(rows@[w2]@), nvs[w2]) && row_output_matches(
                out_rows@[w2],
                nvs[w2],
            ) by {
                if w2 < i as int {
                    assert(out_rows@[w2] == out_old[w2]);
                }
            }
        }
        i = i + 1;
    }
    let sorted = crate::contracts::scores_sorted_by_name();
    let mut percent: Vec<(ScoreId, Quantity)> = Vec::new();
    let mut k: usize = 0;
    while k < SCORE_COUNT
        invariant
            0 <= k <= SCORE_COUNT,
            n == rows@.len(),
            n <= MAX_BATCH_ROWS,
            out_rows@.len() == n,
            sorted@.len() == SCORE_COUNT,
            forall|w: int| 0 <= w < SCORE_COUNT ==> sorted@[w] == spec_sorted_score_of(w),
            percent@.len() == k,
            forall|w: int|
                0 <= w < k ==> (#[trigger] percent@[w]).0 == spec_sorted_score_of(w)
                    && percent@[w].1@ == spec_percent(
                    computed_count(out_rows@, w, n as int),
                    n as int,
                ),
        decreases SCORE_COUNT - k,
    {
        let mut count: usize = 0;
        let mut i2: usize = 0;
        while i2 < n
            invariant
                0 <= i2 <= n,
                n == out_rows@.len(),
                k < SCORE_COUNT,
                count <= i2,
                count as int == computed_count(out_rows@, k as int, i2 as int),
            decreases n - i2,
        {
            if out_rows[i2].scores.len() == SCORE_COUNT && out_rows[i2].scores[k].1.is_some() {
                count = count + 1;
            }
            i2 = i2 + 1;
        }
        let p: i64 = if n == 0 {
            0
        } else {
            proof {
                lemma_div_nonneg_le((count as int) * 100_000_000, n as int);
            }
            (((count as i64) * 100_000_000) / (n as i64))
        };
        percent.push((sorted[k], Quantity { micros: p }));
        k = k + 1;
    }
    let flds = all_fields();
    let mut counts: Vec<usize> = Vec::new();
    let mut fi: usize = 0;
    while fi < FIELD_COUNT
        invariant
            0 <= fi <= FIELD_COUNT,
            n == out_rows@.len(),
            n <= MAX_BATCH_ROWS,
            flds@.len() == FIELD_COUNT,
            forall|w: int| 0 <= w < FIELD_COUNT ==> flds@[w] == spec_field_of(w),
            counts@.len() == fi,
            forall|w: int|
                0 <= w < fi ==> (#[trigger] counts@[w]) as int == missing_count(
                    out_rows@,
                    spec_field_of(w),
                    n as int,
                ),
            forall|w: int| 0 <= w < fi ==> (#[trigger] counts@[w]) <= n,
        decreases FIELD_COUNT - fi,
    {
        let f = flds[fi];
        let mut c: usize = 0;
        let mut i2: usize = 0;
        while i2 < n
            invariant
                0 <= i2 <= n,
                n == out_rows@.len(),
                c <= i2,
                c as int == missing_count(out_rows@, f, i2 as int),
            decreases n - i2,
        {
            if field_list_contains(&out_rows[i2].trace.missing_fields, f) {
                c = c + 1;
            }
            i2 = i2 + 1;
        }
        counts.push(c);
        fi = fi + 1;
    }
    let most_missing = sort_by_count_desc(&counts, &flds);
    let ghost out_final = out_rows@;
    let result = BatchOutput {
        rows: out_rows,
        coverage: Coverage { percent_scored: percent, most_missing },
    };
    proof {
        assert(result.rows@ == out_final);
        assert forall|w: int| 0 <= w < rows@.len() implies row_is_scored(
            #[trigger] result.rows@[w],
            entries_view(rows@[w]@),
        ) by {
            assert(nvs[w].wf());
            assert(merged_matches_all(entries_view(rows@[w]@), nvs[w]));
            assert(row_output_matches(result.rows@[w], nvs[w]));
        }
        assert forall|k2: int| 0 <= k2 < SCORE_COUNT implies (
        #[trigger] result.coverage.percent_scored@[k2]).0 == spec_sorted_score_of(k2)
            && result.coverage.percent_scored@[k2].1@ == spec_percent(
            computed_count(result.rows@, k2, rows@.len() as int),
            rows@.len() as int,
        ) by {
            assert(percent@[k2].1@ == spec_percent(
                computed_count(out_final, k2, n as int),
                n as int,
            ));
        }
        assert forall|p2: int|
            0 <= p2 < result.coverage.most_missing@.len() implies (
        #[trigger] result.coverage.most_missing@[p2]).1 as int == missing_count(
            result.rows@,
            result.coverage.most_missing@[p2].0,
            rows@.len() as int,
        ) && result.coverage.most_missing@[p2].1 > 0 by {
            let f = most_missing@[p2].0;
            crate::fields::lemma_field_index_injective(f);
            assert(most_missing@[p2].1 as int == counts@[field_index(f)]);
            assert(counts@[field_index(f)] as int == missing_count(out_final, f, n as int));
        }
        assert forall|f: FieldId|
            missing_count(result.rows@, f, rows@.len() as int) > 0 implies exists|p2: int|
                0 <= p2 < result.coverage.most_missing@.len() && (
                #[trigger] result.coverage.most_missing@[p2]).0 == f by {
            crate::fields::lemma_field_index_injective(f);
            assert(counts@[field_index(f)] as int == missing_count(out_final, f, n as int));
            assert(counts@[field_index(f)] > 0);
            let p2 = choose|p2: int|
                0 <= p2 < most_missing@.len() && (#[trigger] most_missing@[p2]).0
                    == spec_field_of(field_index(f));
            assert(result.coverage.most_missing@[p2].0 == f);
        }
    }
    result
}

/// The alias keys applied across the first `n` row outputs, row by row in
/// input order.
pub open spec fn alias_stream_upto(ros: Seq<RowOutput>, n: int) -> Seq<Seq<char>>
    decreases n,
{
    if n <= 0 {
        Seq::empty()
    } else {
        alias_stream_upto(ros, n - 1) + Seq::new(
            ros[n - 1].trace.aliases_applied@.len(),
            |w: int| ros[n - 1].trace.aliases_applied@[w].0@,
        )
    }
}

/// How many of the first `n` stream elements spell `key` exactly.
pub open spec fn occurrences_upto(stream: Seq<Seq<char>>, key: Seq<char>, n: int) -> int
    decreases n,
{
    if n <= 0 {
        0
    } else {
        occurrences_upto(stream, key, n - 1) + if stream[n - 1] == key {
            1int
        } else {
            0int
        }
    }
}

/// The distinct keys of the first `n` stream elements, in first-seen order.
pub open spec fn distinct_keys_upto(stream: Seq<Seq<char>>, n: int) -> Seq<Seq<char>>
    decreases n,
{
    if n <= 0 {
        Seq::empty()
    } else {
        let pre = distinct_keys_upto(stream, n - 1);
        if pre.contains(stream[n - 1]) {
            pre
        } else {
            pre.push(stream[n - 1])
        }
    }
}

/// Per-alias hit counts across a batch, derived purely from the per-row
/// traces: each distinct applied alias key, in order of first appearance,
/// with the number of times it was applied.
pub fn alias_hit_counts(rows: &Vec<RowOutput>) -> (r: Vec<(String, usize)>)
    ensures
        ({
            let stream = alias_stream_upto(rows@, rows@.len() as int);
            let keys = distinct_keys_upto(stream, stream.len() as int);
            &&& r@.len() == keys.len()
            &&& forall|i: int|
                0 <= i < r@.len() ==> (#[trigger] r@[i]).0@ == keys[i] && r@[i].1 as int
                    == occurrences_upto(stream, keys[i], stream.len() as int)
        }),
{
    let n = rows.len();
    let mut stream: Vec<String> = Vec::new();
    let mut i: usize = 0;
    while i < n
        invariant
            0 <= i <= n,
            n == rows@.len(),
            stream@.len() == alias_stream_upto(rows@, i as int).len(),
            forall|k: int|
                0 <= k < stream@.len() ==> (#[trigger] stream@[k])@ == alias_stream_upto(
                    rows@,
                    i as int,
                )[k],
        decreases n - i,
    {
        let ghost pre = alias_stream_upto(rows@, i as int);
        let aliases = &rows[i].trace.aliases_applied;
        let m = aliases.len();
        let mut k: usize = 0;
        while k < m
            invariant
                0 <= k <= m,
                i < n,
                n == rows@.len(),
                m == rows@[i as int].trace.aliases_applied@.len(),
                aliases@ == rows@[i as int].trace.aliases_applied@,
                pre == alias_stream_upto(rows@, i as int),
                stream@.len() == pre.len() + k,
                forall|w: int|
                    0 <= w < pre.len() ==> (#[trigger] stream@[w])@ == pre[w],
                forall|w: int|
                    0 <= w < k ==> (#[trigger] stream@[pre.len() + w])@ == rows@[
                    i as int].trace.aliases_applied@[w].0@,
            decreases m - k,
        {
            stream.push(aliases[k].0.clone());
            k = k + 1;
        }
        proof {
            let cur = alias_stream_upto(rows@, i as int + 1);
            assert(cur =~= pre + Seq::new(
                rows@[i as int].trace.aliases_applied@.len(),
                |w: int| rows@[i as int].trace.aliases_applied@[w].0@,
            ));
            assert(Seq::new(
                rows@[i as int].trace.aliases_applied@.len(),
                |w: int| rows@[i as int].trace.aliases_applied@[w].0@,
            ).len() == rows@[i as int].trace.aliases_applied@.len());
            assert(cur.len() == pre.len() + rows@[i as int].trace.aliases_applied@.len());
            assert forall|w: int| 0 <= w < stream@.len() implies (#[trigger] stream@[w])@
                == cur[w] by {
                if w >= pre.len() {
                    assert(stream@[pre.len() + (w - pre.len())]@ == rows@[
                    i as int].trace.aliases_applied@[w - pre.len()].0@);
                    assert(Seq::new(
                        rows@[i as int].trace.aliases_applied@.len(),
                        |w2: int| rows@[i as int].trace.aliases_applied@[w2].0@,
                    )[w - pre.len()] == rows@[i as int].trace.aliases_applied@[w - pre.len()].0@);
                    assert(cur[w] == rows@[i as int].trace.aliases_applied@[w - pre.len()].0@);
                } else {
                    assert(cur[w] == pre[w]);
                }
            }
        }
        i = i + 1;
    }
    let ghost sv = alias_stream_upto(rows@, rows@.len() as int);
    proof {
        assert(stream@.len() == sv.len());
    }
    let sn = stream.len();
    let mut keys: Vec<String> = Vec::new();
    let mut counts: Vec<usize> = Vec::new();
    let mut j: usize = 0;
    while j < sn
        invariant
            0 <= j <= sn,
            sn == stream@.len(),
            sn == sv.len(),
            forall|w: int| 0 <= w < sv.len() ==> (#[trigger] stream@[w])@ == sv[w],
            keys@.len() == counts@.len(),
            keys@.len() == distinct_keys_upto(sv, j as int).len(),
            forall|w: int|
                0 <= w < keys@.len() ==> (#[trigger] keys@[w])@ == distinct_keys_upto(
                    sv,
                    j as int,
                )[w],
            forall|w: int|
                0 <= w < counts@.len() ==> (#[trigger] counts@[w]) as int == occurrences_upto(
                    sv,
                    distinct_keys_upto(sv, j as int)[w],
                    j as int,
                ),
            forall|w: int| 0 <= w < counts@.len() ==> (#[trigger] counts@[w]) <= j,
            forall|w1: int, w2: int|
                0 <= w1 < w2 < keys@.len() ==> (#[trigger] keys@[w1])@ != (#[trigger] keys@[w2])@,
        decreases sn - j,
    {
        let ghost pre_k = distinct_keys_upto(sv, j as int);
        let key = &stream[j];
        let m = keys.len();
        let mut k: usize = 0;
        let mut found: Option<usize> = None;
        while k < m
            invariant
                0 <= k <= m,
                m == keys@.len(),
                match found {
                    Some(w) => w < m && keys@[w as int]@ == key@,
                    None => forall|w: int| 0 <= w < k ==> (#[trigger] keys@[w])@ != key@,
                },
            decreases m - k,
        {
            if found.is_none() && crate::text::str_eq(keys[k].as_str(), key.as_str()) {
                found = Some(k);
            }
            k = k + 1;
        }
        proof {
            assert(key@ == sv[j as int]);
            assert forall|w: int| 0 <= w < pre_k.len() implies occurrences_upto(
                sv,
                pre_k[w],
                j as int + 1,
            ) == occurrences_upto(sv, pre_k[w], j as int) + (if pre_k[w] == sv[j as int] {
                1int
            } else {
                0int
            }) by {}
        }
        match found {
            Some(w) => {
                proof {
                    assert(pre_k[w as int] == sv[j as int]);
                    assert(pre_k.contains(sv[j as int]));
                    assert(distinct_keys_upto(sv, j as int + 1) == pre_k);
                }
                let c = counts[w];
                counts[w] = c + 1;
                proof {
                    assert forall|w2: int| 0 <= w2 < keys@.len() implies (
                    #[trigger] counts@[w2]) as int == occurrences_upto(
                        sv,
                        pre_k[w2],
                        j as int + 1,
                    ) by {
                        if w2 != w as int {
                            assert(keys@[w2]@ != keys@[w as int]@);
                            assert(pre_k[w2] != sv[j as int]);
                        }
                    }
                }
            },
            None => {
                proof {
                    if pre_k.contains(sv[j as int]) {
                        let w = choose|w: int|
                            0 <= w < pre_k.len() && pre_k[w] == sv[j as int];
                        assert(keys@[w]@ == key@);
                        assert(false);
                    }
                    assert(distinct_keys_upto(sv, j as int + 1) == pre_k.push(sv[j as int]));
                    lemma_unseen_key_has_no_occurrences(sv, sv[j as int], j as int);
                }
                keys.push(key.clone());
                counts.push(1);
                proof {
                    let cur_k = distinct_keys_upto(sv, j as int + 1);
                    assert forall|w2: int| 0 <= w2 < keys@.len() implies (
                    #[trigger] counts@[w2]) as int == occurrences_upto(
                        sv,
                        cur_k[w2],
                        j as int + 1,
                    ) && (#[trigger] keys@[w2])@ == cur_k[w2] by {
                        if w2 < pre_k.len() {
                            assert(cur_k[w2] == pre_k[w2]);
                            assert(keys@[w2]@ != key@);
                            assert(pre_k[w2] != sv[j as int]);
                        } else {
                            assert(cur_k[w2] == sv[j as int]);
                        }
                    }
                    assert forall|w1: int, w2: int|
                        0 <= w1 < w2 < keys@.len() implies (#[trigger] keys@[w1])@ != (
                        #[trigger] keys@[w2])@ by {
                        if w2 == keys@.len() - 1 {
                            assert(keys@[w1]@ != key@);
                        }
                    }
                }
            },
        }
        j = j + 1;
    }
    let mut r: Vec<(String, usize)> = Vec::new();
    let mut k: usize = 0;
    let m = keys.len();
    while k < m
        invariant
            0 <= k <= m,
            m == keys@.len(),
            m == counts@.len(),
            sn == sv.len(),
            keys@.len() == distinct_keys_upto(sv, sn as int).len(),
            forall|w: int|
                0 <= w < keys@.len() ==> (#[trigger] keys@[w])@ == distinct_keys_upto(
                    sv,
                    sn as int,
                )[w],
            forall|w: int|
                0 <= w < counts@.len() ==> (#[trigger] counts@[w]) as int == occurrences_upto(
                    sv,
                    distinct_keys_upto(sv, sn as int)[w],
                    sn as int,
                ),
            r@.len() == k,
            forall|w: int|
                0 <= w < k ==> (#[trigger] r@[w]).0@ == distinct_keys_upto(sv, sn as int)[w]
                    && r@[w].1 as int == occurrences_upto(
                    sv,
                    distinct_keys_upto(sv, sn as int)[w],
                    sn as int,
                ),
        decreases m - k,
    {
        r.push((keys[k].clone(), counts[k]));
        k = k + 1;
    }
    r
}

/// A key not yet among the distinct keys has not occurred yet.
proof fn lemma_unseen_key_has_no_occurrences(stream: Seq<Seq<char>>, key: Seq<char>, n: int)
    requires
        0 <= n <= stream.len(),
        !distinct_keys_upto(stream, n).contains(key),
    ensures
        occurrences_upto(stream, key, n) == 0,
    decreases n,
{
    if n > 0 {
        assert(!distinct_keys_upto(stream, n - 1).contains(key)) by {
            let pre = distinct_keys_upto(stream, n - 1);
            if pre.contains(key) {
                let w = choose|w: int| 0 <= w < pre.len() && pre[w] == key;
                assert(distinct_keys_upto(stream, n)[w] == key);
                assert(distinct_keys_upto(stream, n).contains(key));
            }
        }
        lemma_unseen_key_has_no_occurrences(stream, key, n - 1);
        if stream[n - 1] == key {
            let pre = distinct_keys_upto(stream, n - 1);
            if !pre.contains(key) {
                assert(distinct_keys_upto(stream, n).last() == key);
                assert(distinct_keys_upto(stream, n).contains(key));
            } else {
                assert(distinct_keys_upto(stream, n).contains(key));
            }
            assert(false);
        }
    }
}

/// Does a field list contain this field?
fn field_list_contains(v: &Vec<FieldId>, f: FieldId) -> (r: bool)
    ensures
        r == v@.contains(f),
{
    let n = v.len();
    let mut i: usize = 0;
    while i < n
        invariant
            0 <= i <= n,
            n == v@.len(),
            forall|k: int| 0 <= k < i ==> v@[k] != f,
        decreases n - i,
    {
        if v[i] == f {
            proof {
                assert(v@[i as int] == f);
            }
            return true;
        }
        i = i + 1;
    }
    proof {
        if v@.contains(f) {
            let k = choose|k: int| 0 <= k < v@.len() && v@[k] == f;
            assert(v@[k] != f);
        }
    }
    false
}

/// How many entries of a flag list are set.
pub open spec fn count_trues(s: Seq<bool>) -> int
    decreases s.len(),
{
    if s.len() == 0 {
        0
    } else {
        count_trues(s.drop_last()) + if s.last() {
            1int
        } else {
            0int
        }
    }
}

/// Setting an unset flag raises the count by one.
proof fn lemma_count_trues_set(s: Seq<bool>, i: int)
    requires
        0 <= i < s.len(),
        s[i] == false,
    ensures
        count_trues(s.update(i, true)) == count_trues(s) + 1,
    decreases s.len(),
{
    if i == s.len() - 1 {
        assert(s.update(i, true).drop_last() =~= s.drop_last());
    } else {
        assert(s.update(i, true).drop_last() =~= s.drop_last().update(i, true));
        lemma_count_trues_set(s.drop_last(), i);
    }
}

/// The count never exceeds the length.
proof fn lemma_count_trues_le(s: Seq<bool>)
    ensures
        count_trues(s) <= s.len(),
    decreases s.len(),
{
    if s.len() > 0 {
        lemma_count_trues_le(s.drop_last());
    }
}

/// A full count means every flag is set.
proof fn lemma_count_trues_full(s: Seq<bool>, i: int)
    requires
        count_trues(s) == s.len(),
        0 <= i < s.len(),
    ensures
        s[i] == true,
    decreases s.len(),
{
    lemma_count_trues_le(s.drop_last());
    if i == s.len() - 1 {
    } else {
        lemma_count_trues_full(s.drop_last(), i);
    }
}

/// Order the fields with nonzero counts by count, most frequent first,
/// breaking ties by canonical field order, by repeated selection over all
/// fields followed by dropping the zero-count tail.
fn sort_by_count_desc(counts: &Vec<usize>, flds: &Vec<FieldId>) -> (r: Vec<(FieldId, usize)>)
    requires
        counts@.len() == FIELD_COUNT,
        flds@.len() == FIELD_COUNT,
        forall|w: int| 0 <= w < FIELD_COUNT ==> flds@[w] == spec_field_of(w),
    ensures
        forall|p: int|
            0 <= p < r@.len() ==> {
                let e = #[trigger] r@[p];
                &&& e.1 as int == counts@[field_index(e.0)]
                &&& e.1 > 0
            },
        forall|w: int|
            0 <= w < FIELD_COUNT && counts@[w] > 0 ==> exists|p: int|
                0 <= p < r@.len() && (#[trigger] r@[p]).0 == spec_field_of(w),
        forall|p: int, q: int|
            0 <= p < q < r@.len() ==> ((#[trigger] r@[p]).1 > (#[trigger] r@[q]).1 || (r@[p].1
                == r@[q].1 && field_index(r@[p].0) < field_index(r@[q].0))),
{
    let mut taken: Vec<bool> = Vec::new();
    let mut t: usize = 0;
    while t < FIELD_COUNT
        invariant
            0 <= t <= FIELD_COUNT,
            taken@.len() == t,
            forall|w: int| 0 <= w < t ==> (#[trigger] taken@[w]) == false,
        decreases FIELD_COUNT - t,
    {
        taken.push(false);
        t = t + 1;
    }
    proof {
        lemma_count_trues_zero(taken@);
    }
    let mut full: Vec<(FieldId, usize)> = Vec::new();
    let mut round: usize = 0;
    while round < FIELD_COUNT
        invariant
            0 <= round <= FIELD_COUNT,
            counts@.len() == FIELD_COUNT,
            flds@.len() == FIELD_COUNT,
            taken@.len() == FIELD_COUNT,
            forall|w: int| 0 <= w < FIELD_COUNT ==> flds@[w] == spec_field_of(w),
            full@.len() == round,
            count_trues(taken@) == round,
            forall|p: int|
                0 <= p < full@.len() ==> {
                    let e = #[trigger] full@[p];
                    &&& 0 <= field_index(e.0) < FIELD_COUNT
                    &&& e.1 as int == counts@[field_index(e.0)]
                    &&& taken@[field_index(e.0)] == true
                },
            forall|p: int, q: int|
                0 <= p < q < full@.len() ==> ((#[trigger] full@[p]).1 > (#[trigger] full@[q]).1
                    || (full@[p].1 == full@[q].1 && field_index(full@[p].0) < field_index(
                    full@[q].0))),
            forall|p: int, q: int|
                0 <= p < q < full@.len() ==> (#[trigger] full@[p]).0 != (#[trigger] full@[q]).0,
            forall|w: int|
                0 <= w < FIELD_COUNT && (#[trigger] taken@[w]) == true ==> exists|p: int|
                    0 <= p < full@.len() && field_index((#[trigger] full@[p]).0) == w,
            forall|w: int|
                0 <= w < FIELD_COUNT && (#[trigger] taken@[w]) == false ==> (forall|p: int|
                    0 <= p < full@.len() ==> ((#[trigger] full@[p]).1 as int > counts@[w] || (
                    full@[p].1 as int == counts@[w] && field_index(full@[p].0) < w))),
        decreases FIELD_COUNT - round,
    {
        let mut best: Option<usize> = None;
        let mut w: usize = 0;
        while w < FIELD_COUNT
            invariant
                0 <= w <= FIELD_COUNT,
                counts@.len() == FIELD_COUNT,
                taken@.len() == FIELD_COUNT,
                match best {
                    Some(b) => b < w && b < FIELD_COUNT && taken@[b as int] == false && (forall|
                        v: int|
                        0 <= v < w && v != b && (#[trigger] taken@[v]) == false ==> (counts@[
                        v] < counts@[b as int] || (counts@[v] == counts@[b as int] && b < v))),
                    None => forall|v: int| 0 <= v < w ==> (#[trigger] taken@[v]) == true,
                },
            decreases FIELD_COUNT - w,
        {
            if !taken[w] {
                match best {
                    Some(b) => {
                        if counts[w] > counts[b] {
                            best = Some(w);
                        }
                    },
                    None => {
                        best = Some(w);
                    },
                }
            }
            w = w + 1;
        }
        match best {
            Some(b) => {
                let ghost full_old = full@;
                proof {
                    lemma_count_trues_set(taken@, b as int);
                }
                taken[b] = true;
                full.push((flds[b], counts[b]));
                proof {
                    crate::fields::lemma_field_index_injective(spec_field_of(b as int));
                    assert(field_index(full@[full@.len() - 1].0) == b as int);
                    assert forall|w2: int|
                        0 <= w2 < FIELD_COUNT && (#[trigger] taken@[w2]) == true implies exists|
                        p: int|
                        0 <= p < full@.len() && field_index((#[trigger] full@[p]).0) == w2 by {
                        if w2 == b as int {
                            assert(0 <= full@.len() - 1 < full@.len() && field_index(
                                full@[full@.len() - 1].0,
                            ) == w2);
                        } else {
                            let p = choose|p: int|
                                0 <= p < full_old.len() && field_index(
                                    (#[trigger] full_old[p]).0,
                                ) == w2;
                            assert(full@[p] == full_old[p]);
                        }
                    }
                }
            },
            None => {
                proof {
                    lemma_count_trues_le(taken@);
                    assert forall|w2: int| 0 <= w2 < FIELD_COUNT implies (
                    #[trigger] taken@[w2]) == true by {}
                    lemma_count_trues_all(taken@);
                    assert(count_trues(taken@) == FIELD_COUNT);
                    assert(false);
                }
            },
        }
        round = round + 1;
    }
    proof {
        assert forall|w2: int| 0 <= w2 < FIELD_COUNT implies (#[trigger] taken@[w2])
            == true by {
            lemma_count_trues_full(taken@, w2);
        }
    }
    let mut cut: usize = FIELD_COUNT;
    let mut q0: usize = 0;
    while q0 < FIELD_COUNT
        invariant
            0 <= q0 <= FIELD_COUNT,
            full@.len() == FIELD_COUNT,
            cut <= FIELD_COUNT,
            cut == FIELD_COUNT ==> forall|p: int| 0 <= p < q0 ==> (#[trigger] full@[p]).1 > 0,
            cut < FIELD_COUNT ==> cut < q0 && full@[cut as int].1 == 0 && forall|p: int|
                0 <= p < cut ==> (#[trigger] full@[p]).1 > 0,
        decreases FIELD_COUNT - q0,
    {
        if cut == FIELD_COUNT && full[q0].1 == 0 {
            cut = q0;
        }
        q0 = q0 + 1;
        proof {
            assert(cut <= FIELD_COUNT);
        }
    }
    let mut r: Vec<(FieldId, usize)> = Vec::new();
    let mut p: usize = 0;
    while p < cut
        invariant
            0 <= p <= cut,
            cut <= FIELD_COUNT,
            full@.len() == FIELD_COUNT,
            forall|q: int| 0 <= q < cut ==> (#[trigger] full@[q]).1 > 0,
            r@.len() == p,
            forall|q: int| 0 <= q < p ==> (#[trigger] r@[q]) == full@[q],
        decreases cut - p,
    {
        r.push(full[p]);
        p = p + 1;
    }
    proof {
        assert forall|w: int|
            0 <= w < FIELD_COUNT && counts@[w] > 0 implies exists|q: int|
                0 <= q < r@.len() && (#[trigger] r@[q]).0 == spec_field_of(w) by {
            assert(taken@[w] == true);
            assert(exists|q: int|
                0 <= q < full@.len() && field_index((#[trigger] full@[q]).0) == w);
            let q = choose|q: int|
                0 <= q < full@.len() && field_index((#[trigger] full@[q]).0) == w;
            crate::fields::lemma_field_index_injective(full@[q].0);
            assert(full@[q].0 == spec_field_of(w));
            assert(full@[q].1 as int == counts@[w]);
            assert(full@[q].1 > 0);
            if q >= cut as int {
                assert(cut < FIELD_COUNT);
                assert(full@[cut as int].1 == 0);
                if q > cut as int {
                    assert(full@[cut as int].1 > full@[q].1 || (full@[cut as int].1 == full@[
                    q].1 && field_index(full@[cut as int].0) < field_index(full@[q].0)));
                    assert(full@[q].1 == 0);
                }
                assert(false);
            }
            assert(r@[q] == full@[q]);
        }
    }
    r
}

/// A freshly cleared flag list has a zero count.
proof fn lemma_count_trues_zero(s: Seq<bool>)
    requires
        forall|w: int| 0 <= w < s.len() ==> (#[trigger] s[w]) == false,
    ensures
        count_trues(s) == 0,
    decreases s.len(),
{
    if s.len() > 0 {
        assert(forall|w: int| 0 <= w < s.drop_last().len() ==> (#[trigger] s.drop_last()[w])
            == false);
        lemma_count_trues_zero(s.drop_last());
    }
}

/// All flags set means a full count.
proof fn lemma_count_trues_all(s: Seq<bool>)
    requires
        forall|w: int| 0 <= w < s.len() ==> (#[trigger] s[w]) == true,
    ensures
        count_trues(s) == s.len(),
    decreases s.len(),
{
    if s.len() > 0 {
        assert(forall|w: int| 0 <= w < s.drop_last().len() ==> (#[trigger] s.drop_last()[w])
            == true);
        lemma_count_trues_all(s.drop_last());
    }
}

} // verus!
