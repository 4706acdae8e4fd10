//! The PHDI score: planetary-health components with inverted moderation
//! terms and an energy window.

use crate::contracts::{required_fields_of, ScoreId};
use crate::fields::FieldId;
use crate::nutrition_vector::NutritionVector;
use crate::quantity::Quantity;
use crate::scores::{capped_score, lemma_capped_range, read_or0, spec_capped, TEN_POINTS};
use vstd::prelude::*;

verus! {

/// The unsaturated-fat amount PHDI reads: total fat minus saturated and
/// trans fat, floored at zero.
pub open spec fn spec_unsat_fat(nv: NutritionVector) -> int {
    let u = nv.val_or0(FieldId::FatG) - nv.val_or0(FieldId::SaturatedFatG) - nv.val_or0(
        FieldId::TransFat,
    );
    if u < 0 {
        0int
    } else {
        u
    }
}

/// PHDI in micro-points: ten points each for vegetables (full at 300 g),
/// legumes (100 g), whole grains (90 g) and unsaturated fat (20 g);
/// inverted ten-point components for red meat (100 g), sugar (50 g) and
/// refined grains (150 g); and ten points when energy lies within the
/// 1500-2500 kcal window.
pub open spec fn phdi_spec(nv: NutritionVector) -> int {
    spec_capped(nv.val_or0(FieldId::Vegetables), 300_000_000) + spec_capped(
        nv.val_or0(FieldId::Legumes),
        100_000_000,
    ) + spec_capped(nv.val_or0(FieldId::WholeGrains), 90_000_000) + spec_capped(
        spec_unsat_fat(nv),
        20_000_000,
    ) + (TEN_POINTS as int - spec_capped(nv.val_or0(FieldId::RedMeat), 100_000_000)) + (
    TEN_POINTS as int - spec_capped(nv.val_or0(FieldId::Sugar), 50_000_000)) + (TEN_POINTS as int
        - spec_capped(nv.val_or0(FieldId::RefinedGrains), 150_000_000)) + (if 1_500_000_000
        <= nv.val_or0(FieldId::EnergyKcal) <= 2_500_000_000 {
        TEN_POINTS as int
    } else {
        0int
    })
}

/// PHDI stays within `[0, 80]` points for every input.
pub proof fn lemma_phdi_range(nv: NutritionVector)
    ensures
        0 <= phdi_spec(nv) <= 80_000_000,
{
    lemma_capped_range(nv.val_or0(FieldId::Vegetables), 300_000_000);
    lemma_capped_range(nv.val_or0(FieldId::Legumes), 100_000_000);
    lemma_capped_range(nv.val_or0(FieldId::WholeGrains), 90_000_000);
    lemma_capped_range(spec_unsat_fat(nv), 20_000_000);
    lemma_capped_range(nv.val_or0(FieldId::RedMeat), 100_000_000);
    lemma_capped_range(nv.val_or0(FieldId::Sugar), 50_000_000);
    lemma_capped_range(nv.val_or0(FieldId::RefinedGrains), 150_000_000);
}

/// The PHDI scorer.
pub struct PhdiScorer;

impl PhdiScorer {
    /// Evaluate PHDI over a vector, reading absent fields as zero.
    pub fn evaluate(&self, nv: &NutritionVector) -> (r: Quantity)
        requires
            nv.wf(),
        ensures
            r@ == phdi_spec(*nv),
            0 <= r@ <= 80_000_000,
    {
        proof {
            lemma_phdi_range(*nv);
        }
        let veg = capped_score(
            Quantity { micros: read_or0(nv, FieldId::Vegetables) },
            Quantity { micros: 300_000_000 },
        );
        let legumes = capped_score(
            Quantity { micros: read_or0(nv, FieldId::Legumes) },
            Quantity { micros: 100_000_000 },
        );
        let grains = capped_score(
            Quantity { micros: read_or0(nv, FieldId::WholeGrains) },
            Quantity { micros: 90_000_000 },
        );
        let u = read_or0(nv, FieldId::FatG) - read_or0(nv, FieldId::SaturatedFatG) - read_or0(
            nv,
            FieldId::TransFat,
        );
        let unsat_g: i64 = if u < 0 {
            0
        } else {
            u
        };
        let unsat = capped_score(
            Quantity { micros: unsat_g },
            Quantity { micros: 20_000_000 },
        );
        let red_meat = capped_score(
            Quantity { micros: read_or0(nv, FieldId::RedMeat) },
            Quantity { micros: 100_000_000 },
        );
        let sugar = capped_score(
            Quantity { micros: read_or0(nv, FieldId::Sugar) },
            Quantity { micros: 50_000_000 },
        );
        let refined = capped_score(
            Quantity { micros: read_or0(nv, FieldId::RefinedGrains) },
            Quantity { micros: 150_000_000 },
        );
        let e = read_or0(nv, FieldId::EnergyKcal);
        let energy: i64 = if 1_500_000_000 <= e && e <= 2_500_000_000 {
            TEN_POINTS
        } else {
            0
        };
        Quantity {
            micros: veg.micros + legumes.micros + grains.micros + unsat.micros + (TEN_POINTS
                - red_meat.micros) + (TEN_POINTS - sugar.micros) + (TEN_POINTS - refined.micros)
                + energy,
        }
    }
}

impl crate::scores::FieldDeps for PhdiScorer {
    fn name() -> &'static str {
        ScoreId::Phdi.name()
    }

    fn required_fields() -> Vec<FieldId> {
        required_fields_of(ScoreId::Phdi)
    }
}

impl crate::scores::DietScore for PhdiScorer {
    fn name(&self) -> &'static str {
        ScoreId::Phdi.name()
    }

    fn evaluate(&self, nv: &NutritionVector) -> Quantity {
        PhdiScorer::evaluate(self, nv)
    }

    fn required_fields(&self) -> Vec<FieldId> {
        required_fields_of(ScoreId::Phdi)
    }
}

} // verus!
