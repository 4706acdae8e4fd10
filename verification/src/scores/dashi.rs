//! The DASHI score: a two-point version of the DASH components with a dairy
//! (calcium) component.

use crate::contracts::{required_fields_of, ScoreId};
use crate::fields::FieldId;
use crate::nutrition_vector::NutritionVector;
use crate::quantity::{lemma_div_nonneg_le, lemma_div_upper, Quantity};
use crate::scores::{capped_score, lemma_capped_range, read_or0, spec_capped};
use vstd::prelude::*;

verus! {

/// The two-point sodium moderation component: full at or below 1500 mg,
/// none at or above 2300 mg, linear in between.
pub open spec fn spec_dashi_sodium(s: int) -> int {
    if s <= 1_500_000_000 {
        2_000_000int
    } else if s >= 2_300_000_000 {
        0int
    } else {
        (2_300_000_000 - s) / 400
    }
}

/// The two-point sodium component stays within `[0, 2]` points.
pub proof fn lemma_dashi_sodium_range(s: int)
    ensures
        0 <= spec_dashi_sodium(s) <= 2_000_000,
{
    if 1_500_000_000 < s < 2_300_000_000 {
        lemma_div_nonneg_le(2_300_000_000 - s, 400);
        lemma_div_upper(2_300_000_000 - s, 400, 2_000_000);
    }
}

/// DASHI in micro-points: two points each for vegetables, fruit, dairy
/// (via calcium), whole grains and sodium moderation.
pub open spec fn dashi_spec(nv: NutritionVector) -> int {
    spec_capped(nv.val_or0(FieldId::Vegetables), 400_000_000) / 5 + spec_capped(
        nv.val_or0(FieldId::TotalFruits),
        400_000_000,
    ) / 5 + spec_capped(nv.val_or0(FieldId::Calcium), 1_000_000_000) / 5 + spec_capped(
        nv.val_or0(FieldId::WholeGrains),
        75_000_000,
    ) / 5 + spec_dashi_sodium(nv.val_or0(FieldId::SodiumMg))
}

/// DASHI stays within `[0, 10]` points for every input.
pub proof fn lemma_dashi_range(nv: NutritionVector)
    ensures
        0 <= dashi_spec(nv) <= 10_000_000,
{
    lemma_capped_range(nv.val_or0(FieldId::Vegetables), 400_000_000);
    lemma_capped_range(nv.val_or0(FieldId::TotalFruits), 400_000_000);
    lemma_capped_range(nv.val_or0(FieldId::Calcium), 1_000_000_000);
    lemma_capped_range(nv.val_or0(FieldId::WholeGrains), 75_000_000);
    lemma_dashi_sodium_range(nv.val_or0(FieldId::SodiumMg));
    lemma_fifth_range(spec_capped(nv.val_or0(FieldId::Vegetables), 400_000_000));
    lemma_fifth_range(spec_capped(nv.val_or0(FieldId::TotalFruits), 400_000_000));
    lemma_fifth_range(spec_capped(nv.val_or0(FieldId::Calcium), 1_000_000_000));
    lemma_fifth_range(spec_capped(nv.val_or0(FieldId::WholeGrains), 75_000_000));
}

/// A fifth of a ten-point component stays within `[0, 2]` points.
proof fn lemma_fifth_range(x: int)
    requires
        0 <= x <= 10_000_000,
    ensures
        0 <= x / 5 <= 2_000_000,
{
    lemma_div_nonneg_le(x, 5);
    lemma_div_upper(x, 5, 2_000_001);
    if x / 5 > 2_000_000 {
        crate::quantity::lemma_div_lower(x, 5, x / 5);
    }
}

/// The DASHI scorer.
pub struct DashiScorer;

impl DashiScorer {
    /// Evaluate DASHI over a vector, reading absent fields as zero.
    pub fn evaluate(&self, nv: &NutritionVector) -> (r: Quantity)
        requires
            nv.wf(),
        ensures
            r@ == dashi_spec(*nv),
            0 <= r@ <= 10_000_000,
    {
        proof {
            lemma_dashi_range(*nv);
        }
        let veg = capped_score(
            Quantity { micros: read_or0(nv, FieldId::Vegetables) },
            Quantity { micros: 400_000_000 },
        );
        let fruit = capped_score(
            Quantity { micros: read_or0(nv, FieldId::TotalFruits) },
            Quantity { micros: 400_000_000 },
        );
        let dairy = capped_score(
            Quantity { micros: read_or0(nv, FieldId::Calcium) },
            Quantity { micros: 1_000_000_000 },
        );
        let grains = capped_score(
            Quantity { micros: read_or0(nv, FieldId::WholeGrains) },
            Quantity { micros: 75_000_000 },
        );
        let s = read_or0(nv, FieldId::SodiumMg);
        let sodium: i64 = if s <= 1_500_000_000 {
            2_000_000
        } else if s >= 2_300_000_000 {
            0
        } else {
            (2_300_000_000 - s) / 400
        };
        Quantity {
            micros: veg.micros / 5 + fruit.micros / 5 + dairy.micros / 5 + grains.micros / 5
                + sodium,
        }
    }
}

impl crate::scores::FieldDeps for DashiScorer {
    fn name() -> &'static str {
        ScoreId::Dashi.name()
    }

    fn required_fields() -> Vec<FieldId> {
        required_fields_of(ScoreId::Dashi)
    }
}

impl crate::scores::DietScore for DashiScorer {
    fn name(&self) -> &'static str {
        ScoreId::Dashi.name()
    }

    fn evaluate(&self, nv: &NutritionVector) -> Quantity {
        DashiScorer::evaluate(self, nv)
    }

    fn required_fields(&self) -> Vec<FieldId> {
        required_fields_of(ScoreId::Dashi)
    }
}

} // verus!
