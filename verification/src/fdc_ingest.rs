//! The food-data-central ingest adapter: maps nutrient records — name,
//! unit and amount — onto the canonical vector. Names are matched exactly
//! as the source spells them; milligram-denominated amounts are converted
//! to grams, and the fields conventionally carried in milligrams are scaled
//! back up. When one nutrient name appears more than once, the last record
//! wins.

use crate::fields::FieldId;
use crate::nutrition_vector::NutritionVector;
use crate::quantity::{div_trunc, lemma_div_trunc_bound, Quantity, MAX_INPUT_MICROS};
use crate::text::{lower, str_eq, str_eq_ci};
use vstd::prelude::*;

verus! {

/// The canonical field a source nutrient name maps to, and whether the
/// field's amount is conventionally carried in milligrams (so the
/// gram-denominated source value is scaled up by one thousand).
pub open spec fn fdc_field(name: Seq<char>) -> Option<(FieldId, bool)> {
    if name == "Energy"@ {
        Some((FieldId::EnergyKcal, false))
    } else if name == "Total lipid (fat)"@ {
        Some((FieldId::FatG, false))
    } else if name == "Fatty acids, total saturated"@ {
        Some((FieldId::SaturatedFatG, false))
    } else if name == "Carbohydrate, by difference"@ {
        Some((FieldId::Carbs, false))
    } else if name == "Fiber, total dietary"@ {
        Some((FieldId::Fiber, false))
    } else if name == "Sugars, total including NLEA"@ {
        Some((FieldId::Sugar, false))
    } else if name == "Protein"@ {
        Some((FieldId::Protein, false))
    } else if name == "Sodium, Na"@ {
        Some((FieldId::SodiumMg, true))
    } else if name == "Calcium, Ca"@ {
        Some((FieldId::Calcium, true))
    } else if name == "Iron, Fe"@ {
        Some((FieldId::Iron, true))
    } else if name == "Vitamin C, total ascorbic acid"@ {
        Some((FieldId::VitaminC, true))
    } else if name == "Fatty acids, total polyunsaturated"@ {
        Some((FieldId::Omega3, false))
    } else if name == "Vitamin A, RAE"@ {
        Some((FieldId::VitaminA, false))
    } else if name == "Vitamin E (alpha-tocopherol)"@ {
        Some((FieldId::VitaminE, true))
    } else if name == "Zinc, Zn"@ {
        Some((FieldId::Zinc, true))
    } else if name == "Selenium, Se"@ {
        Some((FieldId::Selenium, false))
    } else if name == "Magnesium, Mg"@ {
        Some((FieldId::Magnesium, true))
    } else if name == "Fatty acids, total trans"@ {
        Some((FieldId::TransFat, false))
    } else if name == "Alcohol, ethyl"@ {
        Some((FieldId::AlcoholG, false))
    } else {
        None
    }
}

/// A source amount normalized by its unit: milligram-denominated values
/// convert to grams, every other unit is taken as it stands.
pub open spec fn fdc_convert(unit: Seq<char>, amount: int) -> int {
    if lower(unit) == "mg"@ {
        div_trunc(amount, 1000)
    } else {
        amount
    }
}

/// The value a canonical field receives from one record, unit-converted
/// and scaled per the field's convention.
pub open spec fn fdc_value(e: (Seq<char>, Seq<char>, int), f: FieldId) -> int {
    match fdc_field(e.0) {
        Some((_, mg)) => if mg {
            fdc_convert(e.1, e.2) * 1000
        } else {
            fdc_convert(e.1, e.2)
        },
        None => 0,
    }
}

/// The last record naming a field, if any, read back to front.
pub open spec fn fdc_last(s: Seq<(Seq<char>, Seq<char>, int)>, f: FieldId) -> Option<int>
    decreases s.len(),
{
    if s.len() == 0 {
        None
    } else if match fdc_field(s.last().0) {
        Some((g, _)) => g == f,
        None => false,
    } {
        Some(fdc_value(s.last(), f))
    } else {
        fdc_last(s.drop_last(), f)
    }
}

/// Look one source nutrient name up in the mapping table.
fn fdc_field_of(name: &str) -> (r: Option<(FieldId, bool)>)
    ensures
        r == fdc_field(name@),
{
    if str_eq(name, "Energy") {
        Some((FieldId::EnergyKcal, false))
    } else if str_eq(name, "Total lipid (fat)") {
        Some((FieldId::FatG, false))
    } else if str_eq(name, "Fatty acids, total saturated") {
        Some((FieldId::SaturatedFatG, false))
    } else if str_eq(name, "Carbohydrate, by difference") {
        Some((FieldId::Carbs, false))
    } else if str_eq(name, "Fiber, total dietary") {
        Some((FieldId::Fiber, false))
    } else if str_eq(name, "Sugars, total including NLEA") {
        Some((FieldId::Sugar, false))
    } else if str_eq(name, "Protein") {
        Some((FieldId::Protein, false))
    } else if str_eq(name, "Sodium, Na") {
        Some((FieldId::SodiumMg, true))
    } else if str_eq(name, "Calcium, Ca") {
        Some((FieldId::Calcium, true))
    } else if str_eq(name, "Iron, Fe") {
        Some((FieldId::Iron, true))
    } else if str_eq(name, "Vitamin C, total ascorbic acid") {
        Some((FieldId::VitaminC, true))
    } else if str_eq(name, "Fatty acids, total polyunsaturated") {
        Some((FieldId::Omega3, false))
    } else if str_eq(name, "Vitamin A, RAE") {
        Some((FieldId::VitaminA, false))
    } else if str_eq(name, "Vitamin E (alpha-tocopherol)") {
        Some((FieldId::VitaminE, true))
    } else if str_eq(name, "Zinc, Zn") {
        Some((FieldId::Zinc, true))
    } else if str_eq(name, "Selenium, Se") {
        Some((FieldId::Selenium, false))
    } else if str_eq(name, "Magnesium, Mg") {
        Some((FieldId::Magnesium, true))
    } else if str_eq(name, "Fatty acids, total trans") {
        Some((FieldId::TransFat, false))
    } else if str_eq(name, "Alcohol, ethyl") {
        Some((FieldId::AlcoholG, false))
    } else {
        None
    }
}

impl NutritionVector {
    /// Build a vector from food-data-central nutrient records: for every
    /// canonical field, the last record naming it, unit-converted; fields
    /// no record names stay absent.
    pub fn from_fdc_entries(entries: &Vec<(String, String, Quantity)>) -> (r: NutritionVector)
        requires
            forall|i: int| 0 <= i < entries@.len() ==> (#[trigger] entries@[i]).2.is_input(),
        ensures
            r.wf(),
            forall|f: FieldId| {
                let m = fdc_last(
                    entries@.map_values(|e: (String, String, Quantity)| (e.0@, e.1@, e.2@)),
                    f,
                );
                ((#[trigger] r.spec_get(f)).is_some() == m.is_some()) && (m.is_some()
                    ==> r.spec_get(f).unwrap()@ == m.unwrap())
            },
    {
        let ghost s = entries@.map_values(|e: (String, String, Quantity)| (e.0@, e.1@, e.2@));
        let n = entries.len();
        let mut nv = NutritionVector::default();
        let mut i: usize = 0;
        proof {
            reveal_strlit("mg");
            assert(lower("mg"@) =~= "mg"@);
        }
        while i < n
            invariant
                0 <= i <= n,
                n == entries@.len(),
                s == entries@.map_values(|e: (String, String, Quantity)| (e.0@, e.1@, e.2@)),
                forall|w: int| 0 <= w < entries@.len() ==> (#[trigger] entries@[w]).2.is_input(),
                lower("mg"@) == "mg"@,
                forall|f: FieldId| {
                    let m = fdc_last(s.subrange(0, i as int), f);
                    ((#[trigger] nv.spec_get(f)).is_some() == m.is_some()) && (m.is_some()
                        ==> nv.spec_get(f).unwrap()@ == m.unwrap())
                },
                forall|f: FieldId|
                    match #[trigger] nv.spec_get(f) {
                        Some(q) => q.is_bounded(),
                        None => true,
                    },
            decreases n - i,
        {
            let ghost pre = s.subrange(0, i as int);
            let ghost cur = s.subrange(0, i as int + 1);
            proof {
                assert(cur.drop_last() =~= pre);
                assert(cur.last() == s[i as int]);
                assert(s[i as int] == (entries@[i as int].0@, entries@[i as int].1@, entries@[
                i as int].2@));
            }
            match fdc_field_of(entries[i].0.as_str()) {
                Some((f, mg)) => {
                    proof {
                        crate::fields::lemma_field_index_injective(f);
                        lemma_div_trunc_bound(
                            entries@[i as int].2@,
                            1000,
                            MAX_INPUT_MICROS as int,
                        );
                    }
                    let amount = entries[i].2.micros;
                    let converted: i64 = if str_eq_ci(entries[i].1.as_str(), "mg") {
                        amount / 1000
                    } else {
                        amount
                    };
                    let scaled: i64 = if mg {
                        converted * 1000
                    } else {
                        converted
                    };
                    let ghost nv_before = nv;
                    nv.set(f, Quantity { micros: scaled });
                    proof {
                        assert(scaled as int == fdc_value(s[i as int], f));
                        assert forall|g: FieldId| {
                            let m = fdc_last(cur, g);
                            ((#[trigger] nv.spec_get(g)).is_some() == m.is_some()) && (
                            m.is_some() ==> nv.spec_get(g).unwrap()@ == m.unwrap())
                        } by {
                            if g != f {
                                assert(nv.spec_get(g) == nv_before.spec_get(g));
                                assert(fdc_last(cur, g) == fdc_last(pre, g));
                            } else {
                                assert(fdc_last(cur, f) == Some(fdc_value(s[i as int], f)));
                            }
                        }
                    }
                },
                None => {
                    proof {
                        assert forall|g: FieldId| fdc_last(cur, g) == fdc_last(pre, g) by {}
                    }
                },
            }
            i = i + 1;
        }
        proof {
            assert(s.subrange(0, n as int) =~= s);
        }
        nv
    }
}

} // verus!
