//! The aMED score: Mediterranean-diet components with an inverted red-meat
//! component.

use crate::contracts::{required_fields_of, ScoreId};
use crate::fields::FieldId;
use crate::nutrition_vector::NutritionVector;
use crate::quantity::Quantity;
use crate::scores::{capped_score, lemma_capped_range, read_or0, spec_capped, TEN_POINTS};
use vstd::prelude::*;

verus! {

/// aMED in micro-points: ten points each for vegetables (full at 300 g),
/// legumes (100 g), fruit (200 g), whole grains (75 g), fish (100 g) and
/// monounsaturated fat (25 g), plus ten points minus the capped red-meat
/// component.
pub open spec fn amed_spec(nv: NutritionVector) -> int {
    spec_capped(nv.val_or0(FieldId::Vegetables), 300_000_000) + spec_capped(
        nv.val_or0(FieldId::Legumes),
        100_000_000,
    ) + spec_capped(nv.val_or0(FieldId::TotalFruits), 200_000_000) + spec_capped(
        nv.val_or0(FieldId::WholeGrains),
        75_000_000,
    ) + spec_capped(nv.val_or0(FieldId::Fish), 100_000_000) + spec_capped(
        nv.val_or0(FieldId::MonoFat),
        25_000_000,
    ) + (TEN_POINTS as int - spec_capped(nv.val_or0(FieldId::RedMeat), 100_000_000))
}

/// aMED stays within `[0, 70]` points for every input.
pub proof fn lemma_amed_range(nv: NutritionVector)
    ensures
        0 <= amed_spec(nv) <= 70_000_000,
{
    lemma_capped_range(nv.val_or0(FieldId::Vegetables), 300_000_000);
    lemma_capped_range(nv.val_or0(FieldId::Legumes), 100_000_000);
    lemma_capped_range(nv.val_or0(FieldId::TotalFruits), 200_000_000);
    lemma_capped_range(nv.val_or0(FieldId::WholeGrains), 75_000_000);
    lemma_capped_range(nv.val_or0(FieldId::Fish), 100_000_000);
    lemma_capped_range(nv.val_or0(FieldId::MonoFat), 25_000_000);
    lemma_capped_range(nv.val_or0(FieldId::RedMeat), 100_000_000);
}

/// The aMED scorer.
pub struct AMedScorer;

impl AMedScorer {
    /// Evaluate aMED over a vector, reading absent fields as zero.
    pub fn evaluate(&self, nv: &NutritionVector) -> (r: Quantity)
        requires
            nv.wf(),
        ensures
            r@ == amed_spec(*nv),
            0 <= r@ <= 70_000_000,
    {
        proof {
            lemma_amed_range(*nv);
        }
        let veg = capped_score(
            Quantity { micros: read_or0(nv, FieldId::Vegetables) },
            Quantity { micros: 300_000_000 },
        );
        let legumes = capped_score(
            Quantity { micros: read_or0(nv, FieldId::Legumes) },
            Quantity { micros: 100_000_000 },
        );
        let fruit = capped_score(
            Quantity { micros: read_or0(nv, FieldId::TotalFruits) },
            Quantity { micros: 200_000_000 },
        );
        let grains = capped_score(
            Quantity { micros: read_or0(nv, FieldId::WholeGrains) },
            Quantity { micros: 75_000_000 },
        );
        let fish = capped_score(
            Quantity { micros: read_or0(nv, FieldId::Fish) },
            Quantity { micros: 100_000_000 },
        );
        let mono_fat = capped_score(
            Quantity { micros: read_or0(nv, FieldId::MonoFat) },
            Quantity { micros: 25_000_000 },
        );
        let red_meat = capped_score(
            Quantity { micros: read_or0(nv, FieldId::RedMeat) },
            Quantity { micros: 100_000_000 },
        );
        Quantity {
            micros: veg.micros + legumes.micros + fruit.micros + grains.micros + fish.micros
                + mono_fat.micros + (TEN_POINTS - red_meat.micros),
        }
    }
}

impl crate::scores::FieldDeps for AMedScorer {
    fn name() -> &'static str {
        ScoreId::AMed.name()
    }

    fn required_fields() -> Vec<FieldId> {
        required_fields_of(ScoreId::AMed)
    }
}

impl crate::scores::DietScore for AMedScorer {
    fn name(&self) -> &'static str {
        ScoreId::AMed.name()
    }

    fn evaluate(&self, nv: &NutritionVector) -> Quantity {
        AMedScorer::evaluate(self, nv)
    }

    fn required_fields(&self) -> Vec<FieldId> {
        required_fields_of(ScoreId::AMed)
    }
}

} // verus!
