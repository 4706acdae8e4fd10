//! The MIND score: twelve one-point components, seven for brain-healthy
//! foods and five inverted ones for foods to limit.

use crate::contracts::{required_fields_of, ScoreId};
use crate::fields::FieldId;
use crate::nutrition_vector::NutritionVector;
use crate::quantity::{lemma_div_nonneg_le, lemma_div_trunc_upper_le, Quantity};
use crate::scores::{capped_score, lemma_capped_range, read_or0, spec_capped, POINT};
use vstd::prelude::*;

verus! {

/// One MIND component: a tenth of the ten-point capped transform, giving
/// zero to one point.
pub open spec fn spec_mind_part(v: int, max: int) -> int
    recommends
        max > 0,
{
    spec_capped(v, max) / 10
}

/// A MIND component stays within `[0, 1]` point.
pub proof fn lemma_mind_part_range(v: int, max: int)
    requires
        max > 0,
    ensures
        0 <= spec_mind_part(v, max) <= POINT as int,
{
    lemma_capped_range(v, max);
    lemma_div_nonneg_le(spec_capped(v, max), 10);
    lemma_div_trunc_upper_le(spec_capped(v, max), 10, POINT as int);
}

/// MIND in micro-points: one point each for leafy vegetables (full at
/// 100 g), berries (50 g), nuts (30 g), whole grains (60 g), fish (100 g),
/// poultry (100 g) and olive-oil monounsaturated fat (20 g), plus one
/// point minus the component for red meat (100 g), fast food (100 g),
/// sweets (50 g of sugar), cheese (50 g) and butter (20 g).
pub open spec fn mind_spec(nv: NutritionVector) -> int {
    spec_mind_part(nv.val_or0(FieldId::Vegetables), 100_000_000) + spec_mind_part(
        nv.val_or0(FieldId::Berries),
        50_000_000,
    ) + spec_mind_part(nv.val_or0(FieldId::Nuts), 30_000_000) + spec_mind_part(
        nv.val_or0(FieldId::WholeGrains),
        60_000_000,
    ) + spec_mind_part(nv.val_or0(FieldId::Fish), 100_000_000) + spec_mind_part(
        nv.val_or0(FieldId::Poultry),
        100_000_000,
    ) + spec_mind_part(nv.val_or0(FieldId::MonoFat), 20_000_000) + (POINT as int - spec_mind_part(
        nv.val_or0(FieldId::RedMeat),
        100_000_000,
    )) + (POINT as int - spec_mind_part(nv.val_or0(FieldId::FastFood), 100_000_000)) + (
    POINT as int - spec_mind_part(nv.val_or0(FieldId::Sugar), 50_000_000)) + (POINT as int
        - spec_mind_part(nv.val_or0(FieldId::Cheese), 50_000_000)) + (POINT as int
        - spec_mind_part(nv.val_or0(FieldId::Butter), 20_000_000))
}

/// MIND stays within `[0, 12]` points for every input.
pub proof fn lemma_mind_range(nv: NutritionVector)
    ensures
        0 <= mind_spec(nv) <= 12_000_000,
{
    lemma_mind_part_range(nv.val_or0(FieldId::Vegetables), 100_000_000);
    lemma_mind_part_range(nv.val_or0(FieldId::Berries), 50_000_000);
    lemma_mind_part_range(nv.val_or0(FieldId::Nuts), 30_000_000);
    lemma_mind_part_range(nv.val_or0(FieldId::WholeGrains), 60_000_000);
    lemma_mind_part_range(nv.val_or0(FieldId::Fish), 100_000_000);
    lemma_mind_part_range(nv.val_or0(FieldId::Poultry), 100_000_000);
    lemma_mind_part_range(nv.val_or0(FieldId::MonoFat), 20_000_000);
    lemma_mind_part_range(nv.val_or0(FieldId::RedMeat), 100_000_000);
    lemma_mind_part_range(nv.val_or0(FieldId::FastFood), 100_000_000);
    lemma_mind_part_range(nv.val_or0(FieldId::Sugar), 50_000_000);
    lemma_mind_part_range(nv.val_or0(FieldId::Cheese), 50_000_000);
    lemma_mind_part_range(nv.val_or0(FieldId::Butter), 20_000_000);
}

/// One executable MIND component.
fn mind_part(nv: &NutritionVector, f: FieldId, max: i64) -> (r: i64)
    requires
        nv.wf(),
        max > 0,
    ensures
        r as int == spec_mind_part(nv.val_or0(f), max as int),
        0 <= r <= POINT,
{
    proof {
        lemma_mind_part_range(nv.val_or0(f), max as int);
    }
    let c = capped_score(Quantity { micros: read_or0(nv, f) }, Quantity { micros: max });
    c.micros / 10
}

/// The MIND scorer.
pub struct MindScorer;

impl MindScorer {
    /// Evaluate MIND over a vector, reading absent fields as zero.
    pub fn evaluate(&self, nv: &NutritionVector) -> (r: Quantity)
        requires
            nv.wf(),
        ensures
            r@ == mind_spec(*nv),
            0 <= r@ <= 12_000_000,
    {
        proof {
            lemma_mind_range(*nv);
        }
        let leafy = mind_part(nv, FieldId::Vegetables, 100_000_000);
        let berries = mind_part(nv, FieldId::Berries, 50_000_000);
        let nuts = mind_part(nv, FieldId::Nuts, 30_000_000);
        let grains = mind_part(nv, FieldId::WholeGrains, 60_000_000);
        let fish = mind_part(nv, FieldId::Fish, 100_000_000);
        let poultry = mind_part(nv, FieldId::Poultry, 100_000_000);
        let olive_oil = mind_part(nv, FieldId::MonoFat, 20_000_000);
        let red_meat = mind_part(nv, FieldId::RedMeat, 100_000_000);
        let fast_food = mind_part(nv, FieldId::FastFood, 100_000_000);
        let sweets = mind_part(nv, FieldId::Sugar, 50_000_000);
        let cheese = mind_part(nv, FieldId::Cheese, 50_000_000);
        let butter = mind_part(nv, FieldId::Butter, 20_000_000);
        Quantity {
            micros: leafy + berries + nuts + grains + fish + poultry + olive_oil + (POINT
                - red_meat) + (POINT - fast_food) + (POINT - sweets) + (POINT - cheese) + (POINT
                - butter),
        }
    }
}

impl crate::scores::FieldDeps for MindScorer {
    fn name() -> &'static str {
        ScoreId::Mind.name()
    }

    fn required_fields() -> Vec<FieldId> {
        required_fields_of(ScoreId::Mind)
    }
}

impl crate::scores::DietScore for MindScorer {
    fn name(&self) -> &'static str {
        ScoreId::Mind.name()
    }

    fn evaluate(&self, nv: &NutritionVector) -> Quantity {
        MindScorer::evaluate(self, nv)
    }

    fn required_fields(&self) -> Vec<FieldId> {
        required_fields_of(ScoreId::Mind)
    }
}

} // verus!
