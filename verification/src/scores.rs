//! The scoring formulas and their registry.
//!
//! Each score is a pure, closed-form function of the canonical nutrient
//! vector: capped or clamped linear terms, summed or inverted per component.
//! A formula reads absent fields as zero; the evaluation engine only runs a
//! formula once all of its declared required fields are present, so the
//! zero-substitution only applies to fields outside the formula's own
//! requirement set.

use crate::nutrition_vector::NutritionVector;
use crate::quantity::{
    div_trunc, lemma_div_nonneg_le, lemma_div_upper, mul_i64, Quantity, MAX_FIELD_MICROS,
};
use vstd::arithmetic::div_mod::lemma_div_pos_is_pos;
use vstd::prelude::*;

pub mod acs2020;
pub mod ahei;
pub mod amed;
pub mod dash;
pub mod dashi;
pub mod dii;
pub mod hei;
pub mod mind;
pub mod phdi;
pub mod registry;

pub use registry::all_scorers;

verus! {

/// A score's static identity: its name and the canonical fields it needs.
pub trait FieldDeps {
    /// The score's display name.
    fn name() -> &'static str;

    /// The canonical fields the score requires, in canonical field order.
    fn required_fields() -> Vec<crate::fields::FieldId>;
}

/// One scoring formula, evaluated against a canonical vector.
pub trait DietScore {
    /// The score's display name.
    fn name(&self) -> &'static str;

    /// Evaluate the formula, reading absent fields as zero.
    fn evaluate(&self, nv: &NutritionVector) -> Quantity
        requires
            nv.wf(),
    ;

    /// The canonical fields the score requires, in canonical field order.
    fn required_fields(&self) -> Vec<crate::fields::FieldId>;
}

/// One point, in micro-points.
pub const POINT: i64 = 1_000_000;

/// Ten points, in micro-points.
pub const TEN_POINTS: i64 = 10_000_000;

/// The cap-to-ten-points transform: `value / max * 10`, clamped to
/// `[0, 10]` points, in exact micro-point arithmetic.
pub open spec fn spec_capped(v: int, max: int) -> int
    recommends
        max > 0,
{
    if v <= 0 {
        0
    } else if v >= max {
        TEN_POINTS as int
    } else {
        (v * (TEN_POINTS as int)) / max
    }
}

/// The capped transform stays within `[0, 10]` points.
pub proof fn lemma_capped_range(v: int, max: int)
    requires
        max > 0,
    ensures
        0 <= spec_capped(v, max) <= TEN_POINTS as int,
{
    if 0 < v < max {
        assert(v * (TEN_POINTS as int) >= 0) by (nonlinear_arith)
            requires
                v > 0,
        ;
        lemma_div_pos_is_pos(v * (TEN_POINTS as int), max);
        assert(v * (TEN_POINTS as int) < (TEN_POINTS as int) * max) by (nonlinear_arith)
            requires
                0 < v < max,
        ;
        lemma_div_upper(v * (TEN_POINTS as int), max, TEN_POINTS as int);
    }
}

/// `clamp(value / max * 10, 0, 10)` in micro-points.
pub fn capped_score(value: Quantity, max: Quantity) -> (r: Quantity)
    requires
        max@ > 0,
    ensures
        r@ == spec_capped(value@, max@),
        0 <= r@ <= TEN_POINTS as int,
{
    proof {
        lemma_capped_range(value@, max@);
    }
    if value.micros <= 0 {
        Quantity { micros: 0 }
    } else if value.micros >= max.micros {
        Quantity { micros: TEN_POINTS }
    } else {
        let p: i128 = mul_i64(value.micros, TEN_POINTS);
        let q: i128 = p / (max.micros as i128);
        proof {
            lemma_div_nonneg_le(p as int, max@);
        }
        Quantity { micros: q as i64 }
    }
}

/// The ten-point sodium moderation component: full points at or below
/// 1500 mg, none at or above 2300 mg, linear in between. An absent value
/// reads as zero and so earns full points.
pub open spec fn spec_sodium_component(s: int) -> int {
    if s <= 1_500_000_000 {
        TEN_POINTS as int
    } else if s >= 2_300_000_000 {
        0
    } else {
        (2_300_000_000 - s) / 80
    }
}

/// The sodium component stays within `[0, 10]` points.
pub proof fn lemma_sodium_component_range(s: int)
    ensures
        0 <= spec_sodium_component(s) <= TEN_POINTS as int,
{
    if 1_500_000_000 < s < 2_300_000_000 {
        lemma_div_nonneg_le(2_300_000_000 - s, 80);
        lemma_div_upper(2_300_000_000 - s, 80, TEN_POINTS as int);
    }
}

/// The ten-point sodium moderation component.
pub fn sodium_component(s: i64) -> (r: Quantity)
    ensures
        r@ == spec_sodium_component(s as int),
        0 <= r@ <= TEN_POINTS as int,
{
    proof {
        lemma_sodium_component_range(s as int);
    }
    if s <= 1_500_000_000 {
        Quantity { micros: TEN_POINTS }
    } else if s >= 2_300_000_000 {
        Quantity { micros: 0 }
    } else {
        Quantity { micros: (2_300_000_000 - s) / 80 }
    }
}

/// The saturated-fat moderation component: full points while saturated fat
/// supplies at most five percent of energy, none at fifteen percent or
/// more, linear in between. The percentage is `saturated_fat * 9 / energy *
/// 100`; with no positive energy the component earns full points.
pub open spec fn spec_sat_fat_component(sat: int, energy: int) -> int {
    if energy <= 0 {
        TEN_POINTS as int
    } else if 180 * sat <= energy {
        TEN_POINTS as int
    } else if 60 * sat >= energy {
        0
    } else {
        ((15 * energy - 900 * sat) * (POINT as int)) / energy
    }
}

/// The saturated-fat component stays within `[0, 10]` points.
pub proof fn lemma_sat_fat_component_range(sat: int, energy: int)
    ensures
        0 <= spec_sat_fat_component(sat, energy) <= TEN_POINTS as int,
{
    if energy > 0 && 180 * sat > energy && 60 * sat < energy {
        let num = (15 * energy - 900 * sat) * (POINT as int);
        assert(num == (15 * energy - 900 * sat) * (POINT as int) && num >= 0 && num < (
        TEN_POINTS as int) * energy) by (nonlinear_arith)
            requires
                num == (15 * energy - 900 * sat) * (POINT as int),
                60 * sat < energy,
                180 * sat > energy,
                energy > 0,
        ;
        lemma_div_pos_is_pos(num, energy);
        lemma_div_upper(num, energy, TEN_POINTS as int);
    }
}

/// The saturated-fat moderation component.
pub fn sat_fat_component(sat: i64, energy: i64) -> (r: Quantity)
    requires
        -MAX_FIELD_MICROS <= sat <= MAX_FIELD_MICROS,
        -MAX_FIELD_MICROS <= energy <= MAX_FIELD_MICROS,
    ensures
        r@ == spec_sat_fat_component(sat as int, energy as int),
        0 <= r@ <= TEN_POINTS as int,
{
    proof {
        lemma_sat_fat_component_range(sat as int, energy as int);
    }
    if energy <= 0 {
        return Quantity { micros: TEN_POINTS };
    }
    let sat_w: i128 = sat as i128;
    let en_w: i128 = energy as i128;
    if 180 * sat_w <= en_w {
        Quantity { micros: TEN_POINTS }
    } else if 60 * sat_w >= en_w {
        Quantity { micros: 0 }
    } else {
        let num: i128 = (15 * en_w - 900 * sat_w) * (POINT as i128);
        let q: i128 = num / en_w;
        proof {
            lemma_div_nonneg_le(num as int, energy as int);
        }
        Quantity { micros: q as i64 }
    }
}

/// The amount a formula reads for a field: the stored value, or zero when
/// the field is absent.
pub fn read_or0(nv: &NutritionVector, f: crate::fields::FieldId) -> (r: i64)
    requires
        nv.wf(),
    ensures
        r as int == nv.val_or0(f),
        -MAX_FIELD_MICROS <= r <= MAX_FIELD_MICROS,
{
    match nv.get(f) {
        Some(q) => q.micros,
        None => 0,
    }
}

} // verus!
