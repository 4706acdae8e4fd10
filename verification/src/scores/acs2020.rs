//! The ACS2020 score: plant-food components with inverted moderation terms
//! for red meat, sugar and alcohol.

use crate::contracts::{required_fields_of, ScoreId};
use crate::fields::FieldId;
use crate::nutrition_vector::NutritionVector;
use crate::quantity::Quantity;
use crate::scores::{capped_score, lemma_capped_range, read_or0, spec_capped, TEN_POINTS};
use vstd::prelude::*;

verus! {

/// ACS2020 in micro-points: ten points each for vegetables (full at
/// 300 g), fruit (200 g), legumes (100 g) and whole grains (75 g), plus
/// inverted ten-point components for red meat (100 g), sugar (50 g) and
/// alcohol (20 g).
pub open spec fn acs2020_spec(nv: NutritionVector) -> int {
    spec_capped(nv.val_or0(FieldId::Vegetables), 300_000_000) + spec_capped(
        nv.val_or0(FieldId::TotalFruits),
        200_000_000,
    ) + spec_capped(nv.val_or0(FieldId::Legumes), 100_000_000) + spec_capped(
        nv.val_or0(FieldId::WholeGrains),
        75_000_000,
    ) + (TEN_POINTS as int - spec_capped(nv.val_or0(FieldId::RedMeat), 100_000_000)) + (
    TEN_POINTS as int - spec_capped(nv.val_or0(FieldId::Sugar), 50_000_000)) + (TEN_POINTS as int
        - spec_capped(nv.val_or0(FieldId::AlcoholG), 20_000_000))
}

/// ACS2020 stays within `[0, 70]` points for every input.
pub proof fn lemma_acs2020_range(nv: NutritionVector)
    ensures
        0 <= acs2020_spec(nv) <= 70_000_000,
{
    lemma_capped_range(nv.val_or0(FieldId::Vegetables), 300_000_000);
    lemma_capped_range(nv.val_or0(FieldId::TotalFruits), 200_000_000);
    lemma_capped_range(nv.val_or0(FieldId::Legumes), 100_000_000);
    lemma_capped_range(nv.val_or0(FieldId::WholeGrains), 75_000_000);
    lemma_capped_range(nv.val_or0(FieldId::RedMeat), 100_000_000);
    lemma_capped_range(nv.val_or0(FieldId::Sugar), 50_000_000);
    lemma_capped_range(nv.val_or0(FieldId::AlcoholG), 20_000_000);
}

/// The ACS2020 scorer.
pub struct Acs2020Scorer;

impl Acs2020Scorer {
    /// Evaluate ACS2020 over a vector, reading absent fields as zero.
    pub fn evaluate(&self, nv: &NutritionVector) -> (r: Quantity)
        requires
            nv.wf(),
        ensures
            r@ == acs2020_spec(*nv),
            0 <= r@ <= 70_000_000,
    {
        proof {
            lemma_acs2020_range(*nv);
        }
        let veg = capped_score(
            Quantity { micros: read_or0(nv, FieldId::Vegetables) },
            Quantity { micros: 300_000_000 },
        );
        let fruit = capped_score(
            Quantity { micros: read_or0(nv, FieldId::TotalFruits) },
            Quantity { micros: 200_000_000 },
        );
        let legumes = capped_score(
            Quantity { micros: read_or0(nv, FieldId::Legumes) },
            Quantity { micros: 100_000_000 },
        );
        let grains = capped_score(
            Quantity { micros: read_or0(nv, FieldId::WholeGrains) },
            Quantity { micros: 75_000_000 },
        );
        let red_meat = capped_score(
            Quantity { micros: read_or0(nv, FieldId::RedMeat) },
            Quantity { micros: 100_000_000 },
        );
        let sugar = capped_score(
            Quantity { micros: read_or0(nv, FieldId::Sugar) },
            Quantity { micros: 50_000_000 },
        );
        let alcohol = capped_score(
            Quantity { micros: read_or0(nv, FieldId::AlcoholG) },
            Quantity { micros: 20_000_000 },
        );
        Quantity {
            micros: veg.micros + fruit.micros + legumes.micros + grains.micros + (TEN_POINTS
                - red_meat.micros) + (TEN_POINTS - sugar.micros) + (TEN_POINTS - alcohol.micros),
        }
    }
}

impl crate::scores::FieldDeps for Acs2020Scorer {
    fn name() -> &'static str {
        ScoreId::Acs2020.name()
    }

    fn required_fields() -> Vec<FieldId> {
        required_fields_of(ScoreId::Acs2020)
    }
}

impl crate::scores::DietScore for Acs2020Scorer {
    fn name(&self) -> &'static str {
        ScoreId::Acs2020.name()
    }

    fn evaluate(&self, nv: &NutritionVector) -> Quantity {
        Acs2020Scorer::evaluate(self, nv)
    }

    fn required_fields(&self) -> Vec<FieldId> {
        required_fields_of(ScoreId::Acs2020)
    }
}

} // verus!
