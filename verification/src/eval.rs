//! The evaluation engine.
//!
//! Runs every registered score, in registry order, against one canonical
//! vector: a score whose required fields are all present is computed and
//! its value validated against the contract range; a score with missing
//! required fields is skipped, never failed, with an explanation listing
//! exactly the missing subset in canonical (alphabetical) field order.
//! Integer arithmetic makes the not-a-number failure mode of the contract
//! check structurally impossible, so a computed score is invalid only when
//! it falls outside its declared range.

use crate::contracts::{
    registry_index, score_name_spec, spec_range, spec_required, spec_score_of,
    spec_sorted_score_of, ScoreId, SCORE_COUNT,
};
use crate::fields::{field_name_spec, FieldId};
use crate::nutrition_vector::{InputTrace, NutritionVector, SchemaError};
use crate::quantity::Quantity;
use crate::scores::registry::{evaluate_score, spec_evaluate};
use crate::text::str_eq;
use vstd::prelude::*;

verus! {

/// One score's outcome: a computed value with its validity, or no value
/// and an explanation of the skip.
#[derive(Debug)]
pub struct ScoreInfo {
    /// The computed value, absent when the score was skipped.
    pub value: Option<Quantity>,
    /// Whether the computed value satisfied its contract range.
    pub valid: bool,
    /// Why the score was skipped or marked invalid, when it was.
    pub explanation: Option<String>,
}

/// One skipped score's missing-field report.
#[derive(Debug)]
pub struct IndexError {
    /// The score's display name.
    pub index: String,
    /// The required fields that were absent, in canonical field order.
    pub missing_fields: Vec<FieldId>,
}

/// The result of evaluating every score against one vector.
#[derive(Debug)]
pub struct ScoreResult {
    /// Per-score outcomes, in registry order.
    pub scores: Vec<(ScoreId, ScoreInfo)>,
    /// The score names, in registry order.
    pub ordered_names: Vec<String>,
    /// The trace of the vector the scores were evaluated against.
    pub trace: InputTrace,
    /// One entry per skipped score, in registry order.
    pub errors: Vec<IndexError>,
}

/// The required fields of a score, restricted to those absent from the
/// vector, over the first `n` required fields. The required list is kept
/// in canonical field order, so this list is sorted the same way.
pub open spec fn missing_req_upto(sc: ScoreId, nv: NutritionVector, n: int) -> Seq<FieldId>
    decreases n,
{
    if n <= 0 {
        Seq::empty()
    } else {
        missing_req_upto(sc, nv, n - 1) + if nv.spec_get(spec_required(sc)[n - 1]).is_none() {
            seq![spec_required(sc)[n - 1]]
        } else {
            Seq::empty()
        }
    }
}

/// The required fields of a score absent from the vector, in canonical
/// field order.
pub open spec fn spec_missing_for(sc: ScoreId, nv: NutritionVector) -> Seq<FieldId> {
    missing_req_upto(sc, nv, spec_required(sc).len() as int)
}

/// The field names of a missing list joined with `", "`.
pub open spec fn join_names(fs: Seq<FieldId>) -> Seq<char>
    decreases fs.len(),
{
    if fs.len() == 0 {
        Seq::empty()
    } else if fs.len() == 1 {
        field_name_spec(fs[0])
    } else {
        join_names(fs.drop_last()) + ", "@ + field_name_spec(fs.last())
    }
}

/// The explanation text of a skipped score.
pub open spec fn skip_explanation_text(fs: Seq<FieldId>) -> Seq<char> {
    "missing fields: "@ + join_names(fs)
}

/// The explanation text of an out-of-range score value.
pub open spec fn out_of_range_text(sc: ScoreId) -> Seq<char> {
    match sc {
        ScoreId::Ahei => "out of range [0, 20]"@,
        ScoreId::Hei => "out of range [0, 30]"@,
        ScoreId::Dash => "out of range [0, 50]"@,
        ScoreId::Dashi => "out of range [0, 10]"@,
        ScoreId::AMed => "out of range [0, 70]"@,
        ScoreId::Dii => "out of range"@,
        ScoreId::Phdi => "out of range [0, 80]"@,
        ScoreId::Acs2020 => "out of range [0, 70]"@,
        ScoreId::Mind => "out of range [0, 12]"@,
    }
}

/// A value satisfies a score's contract range.
pub open spec fn spec_in_range(sc: ScoreId, v: int) -> bool {
    match spec_range(sc) {
        Some((lo, hi)) => lo <= v <= hi,
        None => true,
    }
}

/// The outcome the engine owes for one score over one vector.
pub open spec fn info_matches(sc: ScoreId, nv: NutritionVector, info: ScoreInfo) -> bool {
    if spec_missing_for(sc, nv).len() == 0 {
        &&& info.value.is_some()
        &&& info.value.unwrap()@ == spec_evaluate(sc, nv)
        &&& info.valid == spec_in_range(sc, spec_evaluate(sc, nv))
        &&& (info.valid ==> info.explanation.is_none())
        &&& (!info.valid ==> info.explanation.is_some() && info.explanation.unwrap()@
            == out_of_range_text(sc))
    } else {
        &&& info.value.is_none()
        &&& !info.valid
        &&& info.explanation.is_some()
        &&& info.explanation.unwrap()@ == skip_explanation_text(spec_missing_for(sc, nv))
    }
}

/// The skipped-score reports owed over the first `n` scores of the
/// registry order.
pub open spec fn errors_upto(nv: NutritionVector, n: int) -> Seq<(Seq<char>, Seq<FieldId>)>
    decreases n,
{
    if n <= 0 {
        Seq::empty()
    } else {
        errors_upto(nv, n - 1) + if spec_missing_for(spec_score_of(n - 1), nv).len() > 0 {
            seq![
                (
                    score_name_spec(spec_score_of(n - 1)),
                    spec_missing_for(spec_score_of(n - 1), nv),
                ),
            ]
        } else {
            Seq::empty()
        }
    }
}

/// Everything the engine owes of a full result over one vector.
pub open spec fn result_matches(r: ScoreResult, nv: NutritionVector) -> bool {
    &&& r.scores@.len() == SCORE_COUNT
    &&& forall|i: int| 0 <= i < SCORE_COUNT ==> (#[trigger] r.scores@[i]).0 == spec_score_of(i)
    &&& forall|i: int|
        0 <= i < SCORE_COUNT ==> info_matches(spec_score_of(i), nv, (#[trigger] r.scores@[i]).1)
    &&& r.ordered_names@.len() == SCORE_COUNT
    &&& forall|i: int|
        0 <= i < SCORE_COUNT ==> (#[trigger] r.ordered_names@[i])@ == score_name_spec(
            spec_score_of(i),
        )
    &&& r.trace.used_fields@ == nv.spec_used()
    &&& r.trace.missing_fields@ == nv.spec_missing()
    &&& r.errors@.len() == errors_upto(nv, SCORE_COUNT as int).len()
    &&& forall|i: int|
        0 <= i < r.errors@.len() ==> (#[trigger] r.errors@[i]).index@ == errors_upto(
            nv,
            SCORE_COUNT as int,
        )[i].0 && r.errors@[i].missing_fields@ == errors_upto(nv, SCORE_COUNT as int)[i].1
}

/// The required fields of a score that are absent from the vector, in
/// canonical field order.
pub fn missing_fields_for(sc: ScoreId, nv: &NutritionVector) -> (r: Vec<FieldId>)
    ensures
        r@ == spec_missing_for(sc, *nv),
{
    let req = crate::contracts::required_fields_of(sc);
    let n = req.len();
    let mut r: Vec<FieldId> = Vec::new();
    let mut i: usize = 0;
    while i < n
        invariant
            0 <= i <= n,
            n == req@.len(),
            req@ == spec_required(sc),
            r@ == missing_req_upto(sc, *nv, i as int),
        decreases n - i,
    {
        if nv.get(req[i]).is_none() {
            r.push(req[i]);
        }
        i = i + 1;
    }
    r
}

/// The skip explanation for a missing-field list: `"missing fields: "`
/// followed by the names joined with `", "`.
pub fn skip_explanation(fs: &Vec<FieldId>) -> (r: String)
    ensures
        r@ == skip_explanation_text(fs@),
{
    let mut out = String::new();
    out.append("missing fields: ");
    let n = fs.len();
    let mut i: usize = 0;
    while i < n
        invariant
            0 <= i <= n,
            n == fs@.len(),
            out@ == "missing fields: "@ + join_names(fs@.subrange(0, i as int)),
        decreases n - i,
    {
        proof {
            assert(fs@.subrange(0, i as int + 1).drop_last() =~= fs@.subrange(0, i as int));
            assert(fs@.subrange(0, i as int + 1).last() == fs@[i as int]);
        }
        if i > 0 {
            out.append(", ");
        }
        out.append(fs[i].name());
        proof {
            if i == 0 {
                assert(join_names(fs@.subrange(0, 1)) == field_name_spec(fs@[0]));
                assert(out@ =~= "missing fields: "@ + join_names(fs@.subrange(0, 1)));
            } else {
                assert(out@ =~= "missing fields: "@ + join_names(fs@.subrange(0, i as int + 1)));
            }
        }
        i = i + 1;
    }
    proof {
        assert(fs@.subrange(0, n as int) =~= fs@);
    }
    out
}

/// The out-of-range explanation of a score.
fn out_of_range_explanation(sc: ScoreId) -> (r: &'static str)
    ensures
        r@ == out_of_range_text(sc),
{
    match sc {
        ScoreId::Ahei => "out of range [0, 20]",
        ScoreId::Hei => "out of range [0, 30]",
        ScoreId::Dash => "out of range [0, 50]",
        ScoreId::Dashi => "out of range [0, 10]",
        ScoreId::AMed => "out of range [0, 70]",
        ScoreId::Dii => "out of range",
        ScoreId::Phdi => "out of range [0, 80]",
        ScoreId::Acs2020 => "out of range [0, 70]",
        ScoreId::Mind => "out of range [0, 12]",
    }
}

/// Evaluate every score against a vector, skipping — never failing — each
/// score whose required fields are incomplete.
pub fn evaluate_allow_partial(nv: &NutritionVector) -> (r: ScoreResult)
    requires
        nv.wf(),
    ensures
        result_matches(r, *nv),
{
    let ids = crate::contracts::all_score_ids();
    let mut scores: Vec<(ScoreId, ScoreInfo)> = Vec::new();
    let mut ordered: Vec<String> = Vec::new();
    let mut errors: Vec<IndexError> = Vec::new();
    let mut i: usize = 0;
    while i < SCORE_COUNT
        invariant
            0 <= i <= SCORE_COUNT,
            nv.wf(),
            ids@.len() == SCORE_COUNT,
            forall|k: int| 0 <= k < SCORE_COUNT ==> ids@[k] == spec_score_of(k),
            scores@.len() == i,
            forall|k: int| 0 <= k < i ==> (#[trigger] scores@[k]).0 == spec_score_of(k),
            forall|k: int|
                0 <= k < i ==> info_matches(spec_score_of(k), *nv, (#[trigger] scores@[k]).1),
            ordered@.len() == i,
            forall|k: int|
                0 <= k < i ==> (#[trigger] ordered@[k])@ == score_name_spec(spec_score_of(k)),
            errors@.len() == errors_upto(*nv, i as int).len(),
            forall|k: int|
                0 <= k < errors@.len() ==> (#[trigger] errors@[k]).index@ == errors_upto(
                    *nv,
                    i as int,
                )[k].0 && errors@[k].missing_fields@ == errors_upto(*nv, i as int)[k].1,
        decreases SCORE_COUNT - i,
    {
        let sc = ids[i];
        let missing = missing_fields_for(sc, nv);
        let info: ScoreInfo = if missing.len() == 0 {
            let value = evaluate_score(sc, nv);
            let contract = crate::contracts::get_contract(sc);
            let (valid, explanation): (bool, Option<String>) = match contract.range {
                Some((lo, hi)) => {
                    if lo.micros <= value.micros && value.micros <= hi.micros {
                        (true, None)
                    } else {
                        (false, Some(out_of_range_explanation(sc).to_owned()))
                    }
                },
                None => (true, None),
            };
            ScoreInfo { value: Some(value), valid, explanation }
        } else {
            let text = skip_explanation(&missing);
            errors.push(IndexError { index: sc.name().to_owned(), missing_fields: missing });
            ScoreInfo { value: None, valid: false, explanation: Some(text) }
        };
        proof {
            assert(errors_upto(*nv, i as int + 1).len() == errors_upto(*nv, i as int).len() + (
            if spec_missing_for(spec_score_of(i as int), *nv).len() > 0 {
                1int
            } else {
                0int
            }));
        }
        scores.push((sc, info));
        ordered.push(sc.name().to_owned());
        i = i + 1;
    }
    let trace = InputTrace::from_nv(nv);
    ScoreResult { scores, ordered_names: ordered, trace, errors }
}

/// Evaluate every score strictly: short-circuit with a schema error before
/// any formula runs when the vector has any missing canonical field.
pub fn evaluate_all_scores(nv: &NutritionVector) -> (r: Result<ScoreResult, SchemaError>)
    requires
        nv.wf(),
    ensures
        match r {
            Ok(res) => nv.spec_missing().len() == 0 && result_matches(res, *nv),
            Err(e) => {
                &&& nv.spec_missing().len() > 0
                &&& e.missing_canonical_fields@ == nv.spec_missing()
                &&& e.unmapped_aliases@.len() == 0
                &&& e.conflicting_aliases@.len() == 0
                &&& e.index_dependencies@.len() == e.missing_canonical_fields@.len()
                &&& forall|i: int|
                    0 <= i < e.missing_canonical_fields@.len() ==> (
                    #[trigger] e.index_dependencies@[i]).0 == e.missing_canonical_fields@[i]
                        && e.index_dependencies@[i].1@
                        == crate::nutrition_vector::spec_scores_requiring(
                        e.missing_canonical_fields@[i],
                    )
            },
        },
{
    let missing = nv.missing_fields();
    if missing.len() > 0 {
        Err(SchemaError::new(missing, Vec::new(), Vec::new()))
    } else {
        Ok(evaluate_allow_partial(nv))
    }
}

/// The skipped scores of a result: the scores, sorted by name, whose
/// outcome has no value, each with its explanation.
pub open spec fn skipped_upto(r: ScoreResult, n: int) -> Seq<(Seq<char>, Seq<char>)>
    decreases n,
{
    if n <= 0 {
        Seq::empty()
    } else {
        skipped_upto(r, n - 1) + {
            let sc = spec_sorted_score_of(n - 1);
            let info = r.scores@[registry_index(sc)].1;
            if info.value.is_none() {
                seq![
                    (
                        score_name_spec(sc),
                        match info.explanation {
                            Some(e) => e@,
                            None => Seq::<char>::empty(),
                        },
                    ),
                ]
            } else {
                Seq::empty()
            }
        }
    }
}

/// Collect skipped scores and their explanations, sorted by score name,
/// deriving everything from the result alone.
pub fn skipped_scores(result: &ScoreResult) -> (r: Vec<(String, String)>)
    requires
        result.scores@.len() == SCORE_COUNT,
    ensures
        r@.len() == skipped_upto(*result, SCORE_COUNT as int).len(),
        forall|i: int|
            0 <= i < r@.len() ==> (#[trigger] r@[i]).0@ == skipped_upto(
                *result,
                SCORE_COUNT as int,
            )[i].0 && r@[i].1@ == skipped_upto(*result, SCORE_COUNT as int)[i].1,
{
    let sorted = crate::contracts::scores_sorted_by_name();
    let mut r: Vec<(String, String)> = Vec::new();
    let mut i: usize = 0;
    while i < SCORE_COUNT
        invariant
            0 <= i <= SCORE_COUNT,
            result.scores@.len() == SCORE_COUNT,
            sorted@.len() == SCORE_COUNT,
            forall|k: int| 0 <= k < SCORE_COUNT ==> sorted@[k] == spec_sorted_score_of(k),
            r@.len() == skipped_upto(*result, i as int).len(),
            forall|k: int|
                0 <= k < r@.len() ==> (#[trigger] r@[k]).0@ == skipped_upto(*result, i as int)[k].0
                    && r@[k].1@ == skipped_upto(*result, i as int)[k].1,
        decreases SCORE_COUNT - i,
    {
        let sc = sorted[i];
        let idx = crate::contracts::registry_position(sc);
        let info = &result.scores[idx].1;
        if info.value.is_none() {
            let reason: String = match &info.explanation {
                Some(e) => e.clone(),
                None => String::new(),
            };
            r.push((sc.name().to_owned(), reason));
        }
        i = i + 1;
    }
    r
}

/// The text of a skipped-score report: a header line, then one indented
/// `name: reason` line per skipped score.
pub open spec fn skipped_lines(sk: Seq<(Seq<char>, Seq<char>)>, n: int) -> Seq<char>
    decreases n,
{
    if n <= 0 {
        "Skipped scores:\n"@
    } else {
        skipped_lines(sk, n - 1) + "  "@ + sk[n - 1].0 + ": "@ + sk[n - 1].1 + "\n"@
    }
}

/// Format the skipped scores for human-readable output, or nothing when no
/// score was skipped.
pub fn format_skipped_scores(result: &ScoreResult) -> (r: Option<String>)
    requires
        result.scores@.len() == SCORE_COUNT,
    ensures
        ({
            let sk = skipped_upto(*result, SCORE_COUNT as int);
            &&& r.is_some() == (sk.len() > 0)
            &&& r.is_some() ==> r.unwrap()@ == skipped_lines(sk, sk.len() as int)
        }),
{
    let ghost sk = skipped_upto(*result, SCORE_COUNT as int);
    let skipped = skipped_scores(result);
    if skipped.len() == 0 {
        return None;
    }
    let mut out = String::new();
    out.append("Skipped scores:\n");
    let n = skipped.len();
    let mut i: usize = 0;
    while i < n
        invariant
            0 <= i <= n,
            n == skipped@.len(),
            n == sk.len(),
            forall|k: int|
                0 <= k < n ==> (#[trigger] skipped@[k]).0@ == sk[k].0 && skipped@[k].1@ == sk[k].1,
            out@ == skipped_lines(sk, i as int),
        decreases n - i,
    {
        out.append("  ");
        out.append(skipped[i].0.as_str());
        out.append(": ");
        out.append(skipped[i].1.as_str());
        out.append("\n");
        i = i + 1;
    }
    Some(out)
}

impl ScoreResult {
    /// The outcome recorded for the score with the given name, if any.
    pub fn get(&self, name: &str) -> (r: Option<&ScoreInfo>)
        requires
            self.scores@.len() == SCORE_COUNT,
            forall|i: int| 0 <= i < SCORE_COUNT ==> (#[trigger] self.scores@[i]).0 == spec_score_of(i),
        ensures
            match r {
                Some(info) => exists|sc: ScoreId|
                    score_name_spec(sc) == name@ && *info == self.scores@[
                        #[trigger] registry_index(sc)].1,
                None => forall|sc: ScoreId| score_name_spec(sc) != name@,
            },
    {
        let n = self.scores.len();
        let mut i: usize = 0;
        while i < n
            invariant
                0 <= i <= n,
                n == SCORE_COUNT,
                self.scores@.len() == SCORE_COUNT,
                forall|k: int|
                    0 <= k < SCORE_COUNT ==> (#[trigger] self.scores@[k]).0 == spec_score_of(k),
                forall|k: int| 0 <= k < i ==> score_name_spec(spec_score_of(k)) != name@,
            decreases n - i,
        {
            let sc = self.scores[i].0;
            if str_eq(sc.name(), name) {
                proof {
                    assert(registry_index(spec_score_of(i as int)) == i as int);
                }
                return Some(&self.scores[i].1);
            }
            i = i + 1;
        }
        proof {
            assert forall|sc: ScoreId| score_name_spec(sc) != name@ by {
                assert(spec_score_of(registry_index(sc)) == sc);
                assert(score_name_spec(spec_score_of(registry_index(sc))) != name@);
            }
        }
        None
    }
}

} // verus!
