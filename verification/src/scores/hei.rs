//! The HEI score: fruit, whole grains and sodium moderation.

use crate::contracts::{required_fields_of, ScoreId};
use crate::fields::FieldId;
use crate::nutrition_vector::NutritionVector;
use crate::quantity::Quantity;
use crate::scores::{
    capped_score, lemma_capped_range, lemma_sodium_component_range, read_or0, sodium_component,
    spec_capped, spec_sodium_component,
};
use vstd::prelude::*;

verus! {

/// HEI in micro-points: ten points each for fruit (full at 200 g), whole
/// grains (full at 75 g) and sodium moderation.
pub open spec fn hei_spec(nv: NutritionVector) -> int {
    spec_capped(nv.val_or0(FieldId::TotalFruits), 200_000_000) + spec_capped(
        nv.val_or0(FieldId::WholeGrains),
        75_000_000,
    ) + spec_sodium_component(nv.val_or0(FieldId::SodiumMg))
}

/// HEI stays within `[0, 30]` points for every input.
pub proof fn lemma_hei_range(nv: NutritionVector)
    ensures
        0 <= hei_spec(nv) <= 30_000_000,
{
    lemma_capped_range(nv.val_or0(FieldId::TotalFruits), 200_000_000);
    lemma_capped_range(nv.val_or0(FieldId::WholeGrains), 75_000_000);
    lemma_sodium_component_range(nv.val_or0(FieldId::SodiumMg));
}

/// The HEI scorer.
pub struct HeiScorer;

impl HeiScorer {
    /// Evaluate HEI over a vector, reading absent fields as zero.
    pub fn evaluate(&self, nv: &NutritionVector) -> (r: Quantity)
        requires
            nv.wf(),
        ensures
            r@ == hei_spec(*nv),
            0 <= r@ <= 30_000_000,
    {
        proof {
            lemma_hei_range(*nv);
        }
        let fruit = capped_score(
            Quantity { micros: read_or0(nv, FieldId::TotalFruits) },
            Quantity { micros: 200_000_000 },
        );
        let grains = capped_score(
            Quantity { micros: read_or0(nv, FieldId::WholeGrains) },
            Quantity { micros: 75_000_000 },
        );
        let sodium = sodium_component(read_or0(nv, FieldId::SodiumMg));
        Quantity { micros: fruit.micros + grains.micros + sodium.micros }
    }
}

impl crate::scores::FieldDeps for HeiScorer {
    fn name() -> &'static str {
        ScoreId::Hei.name()
    }

    fn required_fields() -> Vec<FieldId> {
        required_fields_of(ScoreId::Hei)
    }
}

impl crate::scores::DietScore for HeiScorer {
    fn name(&self) -> &'static str {
        ScoreId::Hei.name()
    }

    fn evaluate(&self, nv: &NutritionVector) -> Quantity {
        HeiScorer::evaluate(self, nv)
    }

    fn required_fields(&self) -> Vec<FieldId> {
        required_fields_of(ScoreId::Hei)
    }
}

} // verus!
