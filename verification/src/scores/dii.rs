//! The DII score: a weighted sum of pro- and anti-inflammatory components.
//! Its output is intentionally unbounded and carries no range contract.

use crate::contracts::{required_fields_of, ScoreId};
use crate::fields::FieldId;
use crate::nutrition_vector::NutritionVector;
use crate::quantity::{div_trunc, Quantity, MAX_FIELD_MICROS};
use crate::scores::read_or0;
use vstd::prelude::*;

verus! {

/// DII in micro-points: pro-inflammatory terms (saturated fat at 0.1,
/// trans fat at 0.3, sugar at 0.05 points per unit) minus anti-inflammatory
/// terms (fiber 0.1, vitamin C 0.005, vitamin A 0.0001, vitamin E 0.02,
/// omega-3 0.3, zinc 0.05, selenium 0.003, magnesium 0.01), each weight an
/// exact decimal applied with truncating division.
pub open spec fn dii_spec(nv: NutritionVector) -> int {
    div_trunc(nv.val_or0(FieldId::SaturatedFatG), 10) + div_trunc(
        3 * nv.val_or0(FieldId::TransFat),
        10,
    ) + div_trunc(nv.val_or0(FieldId::Sugar), 20) - div_trunc(nv.val_or0(FieldId::Fiber), 10)
        - div_trunc(nv.val_or0(FieldId::VitaminC), 200) - div_trunc(
        nv.val_or0(FieldId::VitaminA),
        10_000,
    ) - div_trunc(nv.val_or0(FieldId::VitaminE), 50) - div_trunc(
        3 * nv.val_or0(FieldId::Omega3),
        10,
    ) - div_trunc(nv.val_or0(FieldId::Zinc), 20) - div_trunc(
        3 * nv.val_or0(FieldId::Selenium),
        1_000,
    ) - div_trunc(nv.val_or0(FieldId::Magnesium), 100)
}

/// The DII scorer.
pub struct DiiScorer;

impl DiiScorer {
    /// Evaluate DII over a vector, reading absent fields as zero.
    #[verifier::rlimit(60)]
    pub fn evaluate(&self, nv: &NutritionVector) -> (r: Quantity)
        requires
            nv.wf(),
        ensures
            r@ == dii_spec(*nv),
    {
        let sat = read_or0(nv, FieldId::SaturatedFatG);
        let trans = read_or0(nv, FieldId::TransFat);
        let sugar = read_or0(nv, FieldId::Sugar);
        let fiber = read_or0(nv, FieldId::Fiber);
        let vc = read_or0(nv, FieldId::VitaminC);
        let va = read_or0(nv, FieldId::VitaminA);
        let ve = read_or0(nv, FieldId::VitaminE);
        let om = read_or0(nv, FieldId::Omega3);
        let zn = read_or0(nv, FieldId::Zinc);
        let se = read_or0(nv, FieldId::Selenium);
        let mg = read_or0(nv, FieldId::Magnesium);
        proof {
            crate::quantity::lemma_div_trunc_scaled_bound(
                sat as int,
                10,
                MAX_FIELD_MICROS as int / 10,
            );
            crate::quantity::lemma_div_trunc_scaled_bound(
                3 * (trans as int),
                10,
                3 * (MAX_FIELD_MICROS as int) / 10,
            );
            crate::quantity::lemma_div_trunc_scaled_bound(
                sugar as int,
                20,
                MAX_FIELD_MICROS as int / 20,
            );
            crate::quantity::lemma_div_trunc_scaled_bound(
                fiber as int,
                10,
                MAX_FIELD_MICROS as int / 10,
            );
            crate::quantity::lemma_div_trunc_scaled_bound(
                vc as int,
                200,
                MAX_FIELD_MICROS as int / 200,
            );
            crate::quantity::lemma_div_trunc_scaled_bound(
                va as int,
                10_000,
                MAX_FIELD_MICROS as int / 10_000,
            );
            crate::quantity::lemma_div_trunc_scaled_bound(
                ve as int,
                50,
                MAX_FIELD_MICROS as int / 50,
            );
            crate::quantity::lemma_div_trunc_scaled_bound(
                3 * (om as int),
                10,
                3 * (MAX_FIELD_MICROS as int) / 10,
            );
            crate::quantity::lemma_div_trunc_scaled_bound(
                zn as int,
                20,
                MAX_FIELD_MICROS as int / 20,
            );
            crate::quantity::lemma_div_trunc_scaled_bound(
                3 * (se as int),
                1_000,
                3 * (MAX_FIELD_MICROS as int) / 1_000,
            );
            crate::quantity::lemma_div_trunc_scaled_bound(
                mg as int,
                100,
                MAX_FIELD_MICROS as int / 100,
            );
        }
        let t_sat: i64 = sat / 10;
        let t_trans: i64 = (3 * trans) / 10;
        let t_sugar: i64 = sugar / 20;
        let t_fiber: i64 = fiber / 10;
        let t_vc: i64 = vc / 200;
        let t_va: i64 = va / 10_000;
        let t_ve: i64 = ve / 50;
        let t_om: i64 = (3 * om) / 10;
        let t_zn: i64 = zn / 20;
        let t_se: i64 = (3 * se) / 1_000;
        let t_mg: i64 = mg / 100;
        Quantity {
            micros: t_sat + t_trans + t_sugar - t_fiber - t_vc - t_va - t_ve - t_om - t_zn - t_se
                - t_mg,
        }
    }
}

impl crate::scores::FieldDeps for DiiScorer {
    fn name() -> &'static str {
        ScoreId::Dii.name()
    }

    fn required_fields() -> Vec<FieldId> {
        required_fields_of(ScoreId::Dii)
    }
}

impl crate::scores::DietScore for DiiScorer {
    fn name(&self) -> &'static str {
        ScoreId::Dii.name()
    }

    fn evaluate(&self, nv: &NutritionVector) -> Quantity {
        DiiScorer::evaluate(self, nv)
    }

    fn required_fields(&self) -> Vec<FieldId> {
        required_fields_of(ScoreId::Dii)
    }
}

} // verus!
