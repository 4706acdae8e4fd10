//! The food-item resolver.
//!
//! Maps "ingredient quantity" keys — a food name suffixed with a unit — to
//! canonical-field contributions scaled by the supplied amount. A
//! `_g`-suffixed key is scaled proportionally from the per-100-gram
//! composition basis; a `_servings`-suffixed key is scaled directly from the
//! per-serving basis. The composition table is fixed at build time.

use crate::fields::FieldId;
use crate::quantity::{
    div_trunc, lemma_div_trunc_scaled_bound, mul_div, Quantity, MAX_INPUT_MICROS,
};
use crate::text::{ci_ends_with, ends_with_ci, lower, str_eq_ci};
use vstd::prelude::*;

verus! {

/// Largest composition-table value, in micro-units (100 units).
pub const MAX_COMP_MICROS: i64 = 100_000_000;

/// Largest magnitude one scaled food contribution can reach, in micro-units.
pub const MAX_CONTRIB_MICROS: i64 = 100_000_000_000_000;

/// Denominator scaling a per-100-gram composition value by a mass in
/// micro-grams: `value * amount / (100 * SCALE)`.
pub const MASS_DENOM: i64 = 100_000_000;

/// Denominator scaling a per-serving composition value by a serving count in
/// micro-servings: `value * amount / SCALE`.
pub const SERVING_DENOM: i64 = 1_000_000;

/// The composition table: for a lower-cased food-item name, the canonical
/// fields one hundred grams (equally, one serving) of the item contributes
/// to, with the contributed amounts in micro-units.
pub open spec fn spec_food_item(base: Seq<char>) -> Option<Seq<(FieldId, int)>> {
    if base == "beef"@ {
        Some(
            seq![
                (FieldId::FatG, 15_000_000int),
                (FieldId::Protein, 26_000_000int),
                (FieldId::RedMeat, 100_000_000int),
            ],
        )
    } else if base == "chicken"@ {
        Some(
            seq![
                (FieldId::FatG, 14_000_000int),
                (FieldId::Poultry, 100_000_000int),
                (FieldId::Protein, 27_000_000int),
            ],
        )
    } else if base == "salmon"@ {
        Some(
            seq![
                (FieldId::FatG, 13_000_000int),
                (FieldId::Fish, 100_000_000int),
                (FieldId::Omega3, 2_200_000int),
                (FieldId::Protein, 20_000_000int),
            ],
        )
    } else if base == "lentils"@ {
        Some(
            seq![
                (FieldId::Carbs, 20_000_000int),
                (FieldId::Fiber, 8_000_000int),
                (FieldId::Legumes, 100_000_000int),
                (FieldId::Protein, 9_000_000int),
            ],
        )
    } else if base == "oats"@ {
        Some(
            seq![
                (FieldId::Carbs, 66_000_000int),
                (FieldId::Fiber, 10_000_000int),
                (FieldId::Protein, 17_000_000int),
                (FieldId::WholeGrains, 100_000_000int),
            ],
        )
    } else if base == "spinach"@ {
        Some(
            seq![
                (FieldId::Fiber, 2_200_000int),
                (FieldId::Iron, 2_700_000int),
                (FieldId::Vegetables, 100_000_000int),
            ],
        )
    } else if base == "almonds"@ {
        Some(
            seq![
                (FieldId::FatG, 50_000_000int),
                (FieldId::MonoFat, 31_000_000int),
                (FieldId::Nuts, 100_000_000int),
                (FieldId::Protein, 21_000_000int),
            ],
        )
    } else if base == "blueberries"@ {
        Some(
            seq![
                (FieldId::Berries, 100_000_000int),
                (FieldId::Fiber, 2_400_000int),
                (FieldId::Sugar, 10_000_000int),
            ],
        )
    } else {
        None
    }
}

/// Composition lists are short, their values nonnegative and bounded by
/// [`MAX_COMP_MICROS`], and no field appears twice in one list.
pub proof fn lemma_food_item_bounds(base: Seq<char>)
    ensures
        match spec_food_item(base) {
            Some(items) => {
                &&& items.len() <= 4
                &&& forall|i: int|
                    0 <= i < items.len() ==> 0 <= (#[trigger] items[i]).1 <= MAX_COMP_MICROS
                &&& forall|i: int, j: int|
                    0 <= i < j < items.len() ==> (#[trigger] items[i]).0 != (
                    #[trigger] items[j]).0
            },
            None => true,
        },
{
}

/// One scaled contribution list: each composition value multiplied by the
/// amount and divided (truncating) by `denom`.
pub open spec fn scale_contribs(items: Seq<(FieldId, int)>, amount: int, denom: int) -> Seq<
    (FieldId, int),
> {
    items.map_values(|p: (FieldId, int)| (p.0, div_trunc(p.1 * amount, denom)))
}

/// What a raw ingredient key resolves to: the suffix picks the scaling rule,
/// the remaining (lower-cased) base name is looked up in the composition
/// table. Keys with neither suffix, or with an unknown base, resolve to
/// nothing.
pub open spec fn spec_resolve(key: Seq<char>, amount: int) -> Option<Seq<(FieldId, int)>> {
    let k = lower(key);
    if ci_ends_with(key, "_g"@) {
        match spec_food_item(k.subrange(0, k.len() - 2)) {
            Some(items) => Some(scale_contribs(items, amount, MASS_DENOM as int)),
            None => None,
        }
    } else if ci_ends_with(key, "_servings"@) {
        match spec_food_item(k.subrange(0, k.len() - 9)) {
            Some(items) => Some(scale_contribs(items, amount, SERVING_DENOM as int)),
            None => None,
        }
    } else {
        None
    }
}

/// One field's food-derived total: the summed contribution and the raw keys
/// that contributed it, in input order.
#[derive(Debug, Clone)]
pub struct TranslationEntry {
    /// The summed contribution.
    pub value: Quantity,
    /// The contributing raw keys, in input order.
    pub source: Vec<String>,
}

/// Resolves ingredient-quantity keys against the built-in composition table.
pub struct FoodItemResolver {}

impl FoodItemResolver {
    /// A resolver over the built-in composition table.
    pub fn new() -> (r: FoodItemResolver) {
        FoodItemResolver {  }
    }

    /// Resolve one raw key and amount to its canonical-field contributions,
    /// or nothing if the key is not an ingredient-quantity key.
    pub fn resolve(&self, field: &str, amount: Quantity) -> (r: Option<Vec<(FieldId, Quantity)>>)
        requires
            amount.is_input(),
        ensures
            r.is_some() == spec_resolve(field@, amount@).is_some(),
            r.is_some() ==> {
                let sr = spec_resolve(field@, amount@).unwrap();
                let v = r.unwrap()@;
                v.len() == sr.len() && forall|i: int|
                    0 <= i < v.len() ==> (#[trigger] v[i]).0 == sr[i].0 && v[i].1@ == sr[i].1
                        && -MAX_CONTRIB_MICROS <= v[i].1@ <= MAX_CONTRIB_MICROS
            },
    {
        let n = field.unicode_len();
        proof {
            reveal_strlit("_g");
            reveal_strlit("_servings");
            assert(lower("_g"@) =~= "_g"@);
            assert(lower("_servings"@) =~= "_servings"@);
        }
        if ends_with_ci(field, "_g") {
            proof {
                assert(n >= 2);
            }
            let base = field.substring_char(0, n - 2);
            proof {
                lemma_lower_subrange(field@, 0, n as int - 2);
            }
            match food_item(base) {
                Some(items) => Some(scale_items(items, amount, MASS_DENOM)),
                None => None,
            }
        } else if ends_with_ci(field, "_servings") {
            proof {
                assert(n >= 9);
            }
            let base = field.substring_char(0, n - 9);
            proof {
                lemma_lower_subrange(field@, 0, n as int - 9);
            }
            match food_item(base) {
                Some(items) => Some(scale_items(items, amount, SERVING_DENOM)),
                None => None,
            }
        } else {
            None
        }
    }
}

/// Lower-casing commutes with taking a subrange.
proof fn lemma_lower_subrange(s: Seq<char>, a: int, b: int)
    requires
        0 <= a <= b <= s.len(),
    ensures
        lower(s.subrange(a, b)) == lower(s).subrange(a, b),
{
    assert(lower(s.subrange(a, b)) =~= lower(s).subrange(a, b));
}

/// Look a lower-cased base name up in the composition table, comparing
/// case-insensitively.
fn food_item(base: &str) -> (r: Option<Vec<(FieldId, i64)>>)
    ensures
        r.is_some() == spec_food_item(lower(base@)).is_some(),
        r.is_some() ==> {
            let sr = spec_food_item(lower(base@)).unwrap();
            let v = r.unwrap()@;
            v.len() == sr.len() && forall|i: int|
                0 <= i < v.len() ==> (#[trigger] v[i]).0 == sr[i].0 && v[i].1 as int == sr[i].1
                    && 0 <= v[i].1 <= MAX_COMP_MICROS
        },
{
    proof {
        reveal_strlit("beef");
        reveal_strlit("chicken");
        reveal_strlit("salmon");
        reveal_strlit("lentils");
        reveal_strlit("oats");
        reveal_strlit("spinach");
        reveal_strlit("almonds");
        reveal_strlit("blueberries");
        assert(lower("beef"@) =~= "beef"@);
        assert(lower("chicken"@) =~= "chicken"@);
        assert(lower("salmon"@) =~= "salmon"@);
        assert(lower("lentils"@) =~= "lentils"@);
        assert(lower("oats"@) =~= "oats"@);
        assert(lower("spinach"@) =~= "spinach"@);
        assert(lower("almonds"@) =~= "almonds"@);
        assert(lower("blueberries"@) =~= "blueberries"@);
    }
    if str_eq_ci(base, "beef") {
        let mut v: Vec<(FieldId, i64)> = Vec::new();
        v.push((FieldId::FatG, 15_000_000));
        v.push((FieldId::Protein, 26_000_000));
        v.push((FieldId::RedMeat, 100_000_000));
        Some(v)
    } else if str_eq_ci(base, "chicken") {
        let mut v: Vec<(FieldId, i64)> = Vec::new();
        v.push((FieldId::FatG, 14_000_000));
        v.push((FieldId::Poultry, 100_000_000));
        v.push((FieldId::Protein, 27_000_000));
        Some(v)
    } else if str_eq_ci(base, "salmon") {
        let mut v: Vec<(FieldId, i64)> = Vec::new();
        v.push((FieldId::FatG, 13_000_000));
        v.push((FieldId::Fish, 100_000_000));
        v.push((FieldId::Omega3, 2_200_000));
        v.push((FieldId::Protein, 20_000_000));
        Some(v)
    } else if str_eq_ci(base, "lentils") {
        let mut v: Vec<(FieldId, i64)> = Vec::new();
        v.push((FieldId::Carbs, 20_000_000));
        v.push((FieldId::Fiber, 8_000_000));
        v.push((FieldId::Legumes, 100_000_000));
        v.push((FieldId::Protein, 9_000_000));
        Some(v)
    } else if str_eq_ci(base, "oats") {
        let mut v: Vec<(FieldId, i64)> = Vec::new();
        v.push((FieldId::Carbs, 66_000_000));
        v.push((FieldId::Fiber, 10_000_000));
        v.push((FieldId::Protein, 17_000_000));
        v.push((FieldId::WholeGrains, 100_000_000));
        Some(v)
    } else if str_eq_ci(base, "spinach") {
        let mut v: Vec<(FieldId, i64)> = Vec::new();
        v.push((FieldId::Fiber, 2_200_000));
        v.push((FieldId::Iron, 2_700_000));
        v.push((FieldId::Vegetables, 100_000_000));
        Some(v)
    } else if str_eq_ci(base, "almonds") {
        let mut v: Vec<(FieldId, i64)> = Vec::new();
        v.push((FieldId::FatG, 50_000_000));
        v.push((FieldId::MonoFat, 31_000_000));
        v.push((FieldId::Nuts, 100_000_000));
        v.push((FieldId::Protein, 21_000_000));
        Some(v)
    } else if str_eq_ci(base, "blueberries") {
        let mut v: Vec<(FieldId, i64)> = Vec::new();
        v.push((FieldId::Berries, 100_000_000));
        v.push((FieldId::Fiber, 2_400_000));
        v.push((FieldId::Sugar, 10_000_000));
        Some(v)
    } else {
        None
    }
}

/// Scale every composition value by `amount / denom`, truncating.
fn scale_items(items: Vec<(FieldId, i64)>, amount: Quantity, denom: i64) -> (r: Vec<
    (FieldId, Quantity),
>)
    requires
        denom == MASS_DENOM || denom == SERVING_DENOM,
        amount.is_input(),
        forall|i: int|
            0 <= i < items@.len() ==> 0 <= (#[trigger] items@[i]).1 <= MAX_COMP_MICROS,
    ensures
        r@.len() == items@.len(),
        forall|i: int|
            0 <= i < r@.len() ==> {
                let s = scale_contribs(
                    items@.map_values(|p: (FieldId, i64)| (p.0, p.1 as int)),
                    amount@,
                    denom as int,
                );
                (#[trigger] r@[i]).0 == s[i].0 && r@[i].1@ == s[i].1 && -MAX_CONTRIB_MICROS
                    <= r@[i].1@ <= MAX_CONTRIB_MICROS
            },
{
    let mut r: Vec<(FieldId, Quantity)> = Vec::new();
    let mut i: usize = 0;
    let ghost s = scale_contribs(
        items@.map_values(|p: (FieldId, i64)| (p.0, p.1 as int)),
        amount@,
        denom as int,
    );
    while i < items.len()
        invariant
            0 <= i <= items@.len(),
            r@.len() == i,
            denom == MASS_DENOM || denom == SERVING_DENOM,
            amount.is_input(),
            forall|j: int|
                0 <= j < items@.len() ==> 0 <= (#[trigger] items@[j]).1 <= MAX_COMP_MICROS,
            s == scale_contribs(
                items@.map_values(|p: (FieldId, i64)| (p.0, p.1 as int)),
                amount@,
                denom as int,
            ),
            forall|j: int|
                0 <= j < i ==> (#[trigger] r@[j]).0 == s[j].0 && r@[j].1@ == s[j].1
                    && -MAX_CONTRIB_MICROS <= r@[j].1@ <= MAX_CONTRIB_MICROS,
        decreases items@.len() - i,
    {
        let (f, comp) = items[i];
        proof {
            assert(-(MAX_CONTRIB_MICROS as int) * (denom as int) <= comp as int * amount@
                <= (MAX_CONTRIB_MICROS as int) * (denom as int)) by (nonlinear_arith)
                requires
                    0 <= comp <= MAX_COMP_MICROS,
                    -MAX_INPUT_MICROS <= amount@ <= MAX_INPUT_MICROS,
                    denom == MASS_DENOM || denom == SERVING_DENOM,
            ;
            lemma_div_trunc_scaled_bound(
                comp as int * amount@,
                denom as int,
                MAX_CONTRIB_MICROS as int,
            );
        }
        let scaled = mul_div(comp, amount.micros, denom);
        r.push((f, Quantity { micros: scaled }));
        i = i + 1;
    }
    r
}

} // verus!
