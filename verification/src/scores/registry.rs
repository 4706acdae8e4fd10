//! The scoring registry: the fixed, ordered catalog of scores and their
//! metadata, and the dispatcher that evaluates a score by identity.

use crate::contracts::{
    all_score_ids, required_fields_of, scores_sorted_by_name, spec_required, spec_score_of,
    spec_sorted_score_of, score_name_spec, ScoreId, SCORE_COUNT,
};
use crate::fields::FieldId;
use crate::nutrition_vector::NutritionVector;
use crate::quantity::Quantity;
use vstd::prelude::*;

verus! {

/// What one score evaluates to over a vector, in micro-points.
pub open spec fn spec_evaluate(s: ScoreId, nv: NutritionVector) -> int {
    match s {
        ScoreId::Ahei => crate::scores::ahei::ahei_spec(nv),
        ScoreId::Hei => crate::scores::hei::hei_spec(nv),
        ScoreId::Dash => crate::scores::dash::dash_spec(nv),
        ScoreId::Dashi => crate::scores::dashi::dashi_spec(nv),
        ScoreId::AMed => crate::scores::amed::amed_spec(nv),
        ScoreId::Dii => crate::scores::dii::dii_spec(nv),
        ScoreId::Phdi => crate::scores::phdi::phdi_spec(nv),
        ScoreId::Acs2020 => crate::scores::acs2020::acs2020_spec(nv),
        ScoreId::Mind => crate::scores::mind::mind_spec(nv),
    }
}

/// Evaluate one score against a vector, reading absent fields as zero.
pub fn evaluate_score(s: ScoreId, nv: &NutritionVector) -> (r: Quantity)
    requires
        nv.wf(),
    ensures
        r@ == spec_evaluate(s, *nv),
{
    match s {
        ScoreId::Ahei => crate::scores::ahei::Ahei.evaluate(nv),
        ScoreId::Hei => crate::scores::hei::HeiScorer.evaluate(nv),
        ScoreId::Dash => crate::scores::dash::DashScorer.evaluate(nv),
        ScoreId::Dashi => crate::scores::dashi::DashiScorer.evaluate(nv),
        ScoreId::AMed => crate::scores::amed::AMedScorer.evaluate(nv),
        ScoreId::Dii => crate::scores::dii::DiiScorer.evaluate(nv),
        ScoreId::Phdi => crate::scores::phdi::PhdiScorer.evaluate(nv),
        ScoreId::Acs2020 => crate::scores::acs2020::Acs2020Scorer.evaluate(nv),
        ScoreId::Mind => crate::scores::mind::MindScorer.evaluate(nv),
    }
}

/// Every score whose contract declares a range evaluates within that range
/// whenever every field of the vector reads as a nonnegative amount; the
/// unbounded score is exempt by having no range.
pub proof fn lemma_score_within_range(s: ScoreId, nv: NutritionVector)
    requires
        forall|f: FieldId| nv.val_or0(f) >= 0,
    ensures
        match crate::contracts::spec_range(s) {
            Some((lo, hi)) => lo <= spec_evaluate(s, nv) <= hi,
            None => true,
        },
{
    match s {
        ScoreId::Ahei => {
            crate::scores::ahei::lemma_ahei_range(nv);
            assert(nv.val_or0(FieldId::Fiber) >= 0);
        },
        ScoreId::Hei => crate::scores::hei::lemma_hei_range(nv),
        ScoreId::Dash => crate::scores::dash::lemma_dash_range(nv),
        ScoreId::Dashi => crate::scores::dashi::lemma_dashi_range(nv),
        ScoreId::AMed => crate::scores::amed::lemma_amed_range(nv),
        ScoreId::Dii => {},
        ScoreId::Phdi => crate::scores::phdi::lemma_phdi_range(nv),
        ScoreId::Acs2020 => crate::scores::acs2020::lemma_acs2020_range(nv),
        ScoreId::Mind => crate::scores::mind::lemma_mind_range(nv),
    }
}

/// Every score, in registry (evaluation) order.
pub fn all_scorers() -> (v: Vec<ScoreId>)
    ensures
        v@.len() == SCORE_COUNT,
        forall|i: int| 0 <= i < SCORE_COUNT ==> v@[i] == spec_score_of(i),
{
    all_score_ids()
}

/// One score's registry metadata: its name and required fields.
#[derive(Debug)]
pub struct ScoreMeta {
    /// The score's display name.
    pub name: &'static str,
    /// The canonical fields the score requires, in canonical field order.
    pub required_fields: Vec<FieldId>,
}

/// The metadata of every score, sorted by score name.
pub fn all_score_metadata() -> (v: Vec<ScoreMeta>)
    ensures
        v@.len() == SCORE_COUNT,
        forall|i: int|
            0 <= i < SCORE_COUNT ==> (#[trigger] v@[i]).name@ == score_name_spec(
                spec_sorted_score_of(i),
            ) && v@[i].required_fields@ == spec_required(spec_sorted_score_of(i)),
{
    let sorted = scores_sorted_by_name();
    let mut v: Vec<ScoreMeta> = Vec::new();
    let mut i: usize = 0;
    while i < SCORE_COUNT
        invariant
            0 <= i <= SCORE_COUNT,
            sorted@.len() == SCORE_COUNT,
            forall|k: int| 0 <= k < SCORE_COUNT ==> sorted@[k] == spec_sorted_score_of(k),
            v@.len() == i,
            forall|k: int|
                0 <= k < i ==> (#[trigger] v@[k]).name@ == score_name_spec(spec_sorted_score_of(k))
                    && v@[k].required_fields@ == spec_required(spec_sorted_score_of(k)),
        decreases SCORE_COUNT - i,
    {
        let s = sorted[i];
        v.push(ScoreMeta { name: s.name(), required_fields: required_fields_of(s) });
        i = i + 1;
    }
    v
}

} // verus!
