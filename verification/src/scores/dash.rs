//! The DASH score: fruit, vegetables, whole grains, sodium moderation and
//! saturated-fat moderation.

use crate::contracts::{required_fields_of, ScoreId};
use crate::fields::FieldId;
use crate::nutrition_vector::NutritionVector;
use crate::quantity::Quantity;
use crate::scores::{
    capped_score, lemma_capped_range, lemma_sat_fat_component_range,
    lemma_sodium_component_range, read_or0, sat_fat_component, sodium_component, spec_capped,
    spec_sat_fat_component, spec_sodium_component,
};
use vstd::prelude::*;

verus! {

/// DASH in micro-points: ten points each for fruit (full at 400 g),
/// vegetables (full at 400 g), whole grains (full at 75 g), sodium
/// moderation and saturated-fat moderation.
pub open spec fn dash_spec(nv: NutritionVector) -> int {
    spec_capped(nv.val_or0(FieldId::TotalFruits), 400_000_000) + spec_capped(
        nv.val_or0(FieldId::Vegetables),
        400_000_000,
    ) + spec_capped(nv.val_or0(FieldId::WholeGrains), 75_000_000) + spec_sodium_component(
        nv.val_or0(FieldId::SodiumMg),
    ) + spec_sat_fat_component(
        nv.val_or0(FieldId::SaturatedFatG),
        nv.val_or0(FieldId::EnergyKcal),
    )
}

/// DASH stays within `[0, 50]` points for every input.
pub proof fn lemma_dash_range(nv: NutritionVector)
    ensures
        0 <= dash_spec(nv) <= 50_000_000,
{
    lemma_capped_range(nv.val_or0(FieldId::TotalFruits), 400_000_000);
    lemma_capped_range(nv.val_or0(FieldId::Vegetables), 400_000_000);
    lemma_capped_range(nv.val_or0(FieldId::WholeGrains), 75_000_000);
    lemma_sodium_component_range(nv.val_or0(FieldId::SodiumMg));
    lemma_sat_fat_component_range(
        nv.val_or0(FieldId::SaturatedFatG),
        nv.val_or0(FieldId::EnergyKcal),
    );
}

/// The DASH scorer.
pub struct DashScorer;

impl DashScorer {
    /// Evaluate DASH over a vector, reading absent fields as zero.
    pub fn evaluate(&self, nv: &NutritionVector) -> (r: Quantity)
        requires
            nv.wf(),
        ensures
            r@ == dash_spec(*nv),
            0 <= r@ <= 50_000_000,
    {
        proof {
            lemma_dash_range(*nv);
        }
        let fruit = capped_score(
            Quantity { micros: read_or0(nv, FieldId::TotalFruits) },
            Quantity { micros: 400_000_000 },
        );
        let veg = capped_score(
            Quantity { micros: read_or0(nv, FieldId::Vegetables) },
            Quantity { micros: 400_000_000 },
        );
        let grains = capped_score(
            Quantity { micros: read_or0(nv, FieldId::WholeGrains) },
            Quantity { micros: 75_000_000 },
        );
        let sodium = sodium_component(read_or0(nv, FieldId::SodiumMg));
        let sat_fat = sat_fat_component(
            read_or0(nv, FieldId::SaturatedFatG),
            read_or0(nv, FieldId::EnergyKcal),
        );
        Quantity {
            micros: fruit.micros + veg.micros + grains.micros + sodium.micros + sat_fat.micros,
        }
    }
}

impl crate::scores::FieldDeps for DashScorer {
    fn name() -> &'static str {
        ScoreId::Dash.name()
    }

    fn required_fields() -> Vec<FieldId> {
        required_fields_of(ScoreId::Dash)
    }
}

impl crate::scores::DietScore for DashScorer {
    fn name(&self) -> &'static str {
        ScoreId::Dash.name()
    }

    fn evaluate(&self, nv: &NutritionVector) -> Quantity {
        DashScorer::evaluate(self, nv)
    }

    fn required_fields(&self) -> Vec<FieldId> {
        required_fields_of(ScoreId::Dash)
    }
}

} // verus!
