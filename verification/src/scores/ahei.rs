//! The AHEI score: fiber adequacy plus the unsaturated share of total fat.

use crate::contracts::{required_fields_of, ScoreId};
use crate::fields::FieldId;
use crate::nutrition_vector::NutritionVector;
use crate::quantity::{div_trunc, lemma_div_nonneg_le, lemma_div_upper, mul_i64, Quantity};
use crate::scores::{read_or0, TEN_POINTS};
use vstd::prelude::*;

verus! {

/// AHEI in micro-points: up to ten points for fiber (full at 25 g,
/// proportional below), plus up to ten points for the unsaturated fraction
/// of total fat.
pub open spec fn ahei_spec(nv: NutritionVector) -> int {
    let fib = nv.val_or0(FieldId::Fiber);
    let fat = nv.val_or0(FieldId::FatG);
    let sat = nv.val_or0(FieldId::SaturatedFatG);
    (if fib >= 25_000_000 {
        TEN_POINTS as int
    } else {
        div_trunc(2 * fib, 5)
    }) + (if fat <= 0 {
        0int
    } else if sat <= 0 {
        TEN_POINTS as int
    } else if fat <= sat {
        0int
    } else {
        ((fat - sat) * (TEN_POINTS as int)) / fat
    })
}

/// With nonnegative fiber the score stays within `[0, 20]` points; its
/// upper bound holds for every input.
pub proof fn lemma_ahei_range(nv: NutritionVector)
    ensures
        ahei_spec(nv) <= 20_000_000,
        nv.val_or0(FieldId::Fiber) >= 0 ==> 0 <= ahei_spec(nv),
{
    let fib = nv.val_or0(FieldId::Fiber);
    let fat = nv.val_or0(FieldId::FatG);
    let sat = nv.val_or0(FieldId::SaturatedFatG);
    if fib < 25_000_000 {
        if fib >= 0 {
            lemma_div_nonneg_le(2 * fib, 5);
            lemma_div_upper(2 * fib, 5, TEN_POINTS as int);
        } else {
            lemma_div_nonneg_le(-(2 * fib), 5);
        }
    }
    if fat > 0 && sat > 0 && fat > sat {
        let p = (fat - sat) * (TEN_POINTS as int);
        assert(p == (fat - sat) * (TEN_POINTS as int) && p >= 0 && p < (TEN_POINTS as int)
            * fat) by (nonlinear_arith)
            requires
                p == (fat - sat) * (TEN_POINTS as int),
                0 < sat,
                sat < fat,
        ;
        lemma_div_nonneg_le(p, fat);
        lemma_div_upper(p, fat, TEN_POINTS as int);
    }
}

/// The AHEI scorer.
pub struct Ahei;

impl Ahei {
    /// Evaluate AHEI over a vector, reading absent fields as zero.
    pub fn evaluate(&self, nv: &NutritionVector) -> (r: Quantity)
        requires
            nv.wf(),
        ensures
            r@ == ahei_spec(*nv),
            r@ <= 20_000_000,
            nv.val_or0(FieldId::Fiber) >= 0 ==> 0 <= r@,
    {
        proof {
            lemma_ahei_range(*nv);
        }
        let fib = read_or0(nv, FieldId::Fiber);
        let fat = read_or0(nv, FieldId::FatG);
        let sat = read_or0(nv, FieldId::SaturatedFatG);
        let fiber_part: i64 = if fib >= 25_000_000 {
            TEN_POINTS
        } else {
            (2 * fib) / 5
        };
        let ratio_part: i64 = if fat <= 0 {
            0
        } else if sat <= 0 {
            TEN_POINTS
        } else if fat <= sat {
            0
        } else {
            let p: i128 = mul_i64(fat - sat, TEN_POINTS);
            let q: i128 = p / (fat as i128);
            proof {
                lemma_div_nonneg_le(p as int, fat as int);
                assert(p < (TEN_POINTS as int) * (fat as int)) by (nonlinear_arith)
                    requires
                        0 < sat as int,
                        (sat as int) < fat as int,
                        p == (fat as int - sat as int) * (TEN_POINTS as int),
                ;
                lemma_div_upper(p as int, fat as int, TEN_POINTS as int);
            }
            q as i64
        };
        proof {
            if fib < 25_000_000 && fib < 0 {
                lemma_div_nonneg_le(-(2 * (fib as int)), 5);
            }
            if fib < 25_000_000 && fib >= 0 {
                lemma_div_nonneg_le(2 * (fib as int), 5);
                lemma_div_upper(2 * (fib as int), 5, TEN_POINTS as int);
            }
        }
        Quantity { micros: fiber_part + ratio_part }
    }
}

impl crate::scores::FieldDeps for Ahei {
    fn name() -> &'static str {
        ScoreId::Ahei.name()
    }

    fn required_fields() -> Vec<FieldId> {
        required_fields_of(ScoreId::Ahei)
    }
}

impl crate::scores::DietScore for Ahei {
    fn name(&self) -> &'static str {
        ScoreId::Ahei.name()
    }

    fn evaluate(&self, nv: &NutritionVector) -> Quantity {
        Ahei::evaluate(self, nv)
    }

    fn required_fields(&self) -> Vec<FieldId> {
        required_fields_of(ScoreId::Ahei)
    }
}

} // verus!
