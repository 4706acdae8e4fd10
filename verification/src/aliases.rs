//! The alias registry.
//!
//! Maps arbitrary input key spellings, case-insensitively, to canonical
//! fields. Every canonical field name maps to itself, so alias lookup and
//! canonicalization are the same operation. The table is fixed at build
//! time; rebuilding it means replacing this module's table, never mutating
//! state.

use crate::fields::{field_name_spec, FieldId};
use crate::text::{lemma_lower_idempotent, lower, str_eq_ci};
use vstd::prelude::*;

verus! {

/// `key` spells `alias`, ignoring ASCII case.
pub open spec fn alias_matches(key: Seq<char>, alias: Seq<char>) -> bool {
    lower(key) == lower(alias)
}

/// The canonical field a raw key resolves to, if any: first the identity
/// aliases (one per canonical field), then the known alternative spellings.
pub open spec fn spec_canonical(key: Seq<char>) -> Option<FieldId> {
    if alias_matches(key, "alcohol_g"@) {
        Some(FieldId::AlcoholG)
    } else if alias_matches(key, "berries"@) {
        Some(FieldId::Berries)
    } else if alias_matches(key, "butter"@) {
        Some(FieldId::Butter)
    } else if alias_matches(key, "calcium"@) {
        Some(FieldId::Calcium)
    } else if alias_matches(key, "carbs"@) {
        Some(FieldId::Carbs)
    } else if alias_matches(key, "cheese"@) {
        Some(FieldId::Cheese)
    } else if alias_matches(key, "energy_kcal"@) {
        Some(FieldId::EnergyKcal)
    } else if alias_matches(key, "fast_food"@) {
        Some(FieldId::FastFood)
    } else if alias_matches(key, "fat_g"@) {
        Some(FieldId::FatG)
    } else if alias_matches(key, "fiber"@) {
        Some(FieldId::Fiber)
    } else if alias_matches(key, "fish"@) {
        Some(FieldId::Fish)
    } else if alias_matches(key, "iron"@) {
        Some(FieldId::Iron)
    } else if alias_matches(key, "legumes"@) {
        Some(FieldId::Legumes)
    } else if alias_matches(key, "magnesium"@) {
        Some(FieldId::Magnesium)
    } else if alias_matches(key, "mono_fat"@) {
        Some(FieldId::MonoFat)
    } else if alias_matches(key, "nuts"@) {
        Some(FieldId::Nuts)
    } else if alias_matches(key, "omega3"@) {
        Some(FieldId::Omega3)
    } else if alias_matches(key, "poultry"@) {
        Some(FieldId::Poultry)
    } else if alias_matches(key, "protein"@) {
        Some(FieldId::Protein)
    } else if alias_matches(key, "red_meat"@) {
        Some(FieldId::RedMeat)
    } else if alias_matches(key, "refined_grains"@) {
        Some(FieldId::RefinedGrains)
    } else if alias_matches(key, "saturated_fat_g"@) {
        Some(FieldId::SaturatedFatG)
    } else if alias_matches(key, "selenium"@) {
        Some(FieldId::Selenium)
    } else if alias_matches(key, "sodium_mg"@) {
        Some(FieldId::SodiumMg)
    } else if alias_matches(key, "sugar"@) {
        Some(FieldId::Sugar)
    } else if alias_matches(key, "total_fruits"@) {
        Some(FieldId::TotalFruits)
    } else if alias_matches(key, "trans_fat"@) {
        Some(FieldId::TransFat)
    } else if alias_matches(key, "vegetables"@) {
        Some(FieldId::Vegetables)
    } else if alias_matches(key, "vitamin_a"@) {
        Some(FieldId::VitaminA)
    } else if alias_matches(key, "vitamin_c"@) {
        Some(FieldId::VitaminC)
    } else if alias_matches(key, "vitamin_e"@) {
        Some(FieldId::VitaminE)
    } else if alias_matches(key, "whole_grains"@) {
        Some(FieldId::WholeGrains)
    } else if alias_matches(key, "zinc"@) {
        Some(FieldId::Zinc)
    } else if alias_matches(key, "kcal"@) {
        Some(FieldId::EnergyKcal)
    } else if alias_matches(key, "energy"@) {
        Some(FieldId::EnergyKcal)
    } else if alias_matches(key, "calories"@) {
        Some(FieldId::EnergyKcal)
    } else if alias_matches(key, "fat"@) {
        Some(FieldId::FatG)
    } else if alias_matches(key, "saturated_fat"@) {
        Some(FieldId::SaturatedFatG)
    } else if alias_matches(key, "sat_fat"@) {
        Some(FieldId::SaturatedFatG)
    } else if alias_matches(key, "carbohydrate"@) {
        Some(FieldId::Carbs)
    } else if alias_matches(key, "carbohydrates"@) {
        Some(FieldId::Carbs)
    } else if alias_matches(key, "sugars"@) {
        Some(FieldId::Sugar)
    } else if alias_matches(key, "fibre"@) {
        Some(FieldId::Fiber)
    } else if alias_matches(key, "sodium"@) {
        Some(FieldId::SodiumMg)
    } else if alias_matches(key, "salt"@) {
        Some(FieldId::SodiumMg)
    } else if alias_matches(key, "alc"@) {
        Some(FieldId::AlcoholG)
    } else if alias_matches(key, "alcohol"@) {
        Some(FieldId::AlcoholG)
    } else if alias_matches(key, "alcohol_intake"@) {
        Some(FieldId::AlcoholG)
    } else {
        None
    }
}

/// Case-insensitive canonicalization of a raw input key.
pub fn canonical_field(key: &str) -> (r: Option<FieldId>)
    ensures
        r == spec_canonical(key@),
{
    if str_eq_ci(key, "alcohol_g") {
        Some(FieldId::AlcoholG)
    } else if str_eq_ci(key, "berries") {
        Some(FieldId::Berries)
    } else if str_eq_ci(key, "butter") {
        Some(FieldId::Butter)
    } else if str_eq_ci(key, "calcium") {
        Some(FieldId::Calcium)
    } else if str_eq_ci(key, "carbs") {
        Some(FieldId::Carbs)
    } else if str_eq_ci(key, "cheese") {
        Some(FieldId::Cheese)
    } else if str_eq_ci(key, "energy_kcal") {
        Some(FieldId::EnergyKcal)
    } else if str_eq_ci(key, "fast_food") {
        Some(FieldId::FastFood)
    } else if str_eq_ci(key, "fat_g") {
        Some(FieldId::FatG)
    } else if str_eq_ci(key, "fiber") {
        Some(FieldId::Fiber)
    } else if str_eq_ci(key, "fish") {
        Some(FieldId::Fish)
    } else if str_eq_ci(key, "iron") {
        Some(FieldId::Iron)
    } else if str_eq_ci(key, "legumes") {
        Some(FieldId::Legumes)
    } else if str_eq_ci(key, "magnesium") {
        Some(FieldId::Magnesium)
    } else if str_eq_ci(key, "mono_fat") {
        Some(FieldId::MonoFat)
    } else if str_eq_ci(key, "nuts") {
        Some(FieldId::Nuts)
    } else if str_eq_ci(key, "omega3") {
        Some(FieldId::Omega3)
    } else if str_eq_ci(key, "poultry") {
        Some(FieldId::Poultry)
    } else if str_eq_ci(key, "protein") {
        Some(FieldId::Protein)
    } else if str_eq_ci(key, "red_meat") {
        Some(FieldId::RedMeat)
    } else if str_eq_ci(key, "refined_grains") {
        Some(FieldId::RefinedGrains)
    } else if str_eq_ci(key, "saturated_fat_g") {
        Some(FieldId::SaturatedFatG)
    } else if str_eq_ci(key, "selenium") {
        Some(FieldId::Selenium)
    } else if str_eq_ci(key, "sodium_mg") {
        Some(FieldId::SodiumMg)
    } else if str_eq_ci(key, "sugar") {
        Some(FieldId::Sugar)
    } else if str_eq_ci(key, "total_fruits") {
        Some(FieldId::TotalFruits)
    } else if str_eq_ci(key, "trans_fat") {
        Some(FieldId::TransFat)
    } else if str_eq_ci(key, "vegetables") {
        Some(FieldId::Vegetables)
    } else if str_eq_ci(key, "vitamin_a") {
        Some(FieldId::VitaminA)
    } else if str_eq_ci(key, "vitamin_c") {
        Some(FieldId::VitaminC)
    } else if str_eq_ci(key, "vitamin_e") {
        Some(FieldId::VitaminE)
    } else if str_eq_ci(key, "whole_grains") {
        Some(FieldId::WholeGrains)
    } else if str_eq_ci(key, "zinc") {
        Some(FieldId::Zinc)
    } else if str_eq_ci(key, "kcal") {
        Some(FieldId::EnergyKcal)
    } else if str_eq_ci(key, "energy") {
        Some(FieldId::EnergyKcal)
    } else if str_eq_ci(key, "calories") {
        Some(FieldId::EnergyKcal)
    } else if str_eq_ci(key, "fat") {
        Some(FieldId::FatG)
    } else if str_eq_ci(key, "saturated_fat") {
        Some(FieldId::SaturatedFatG)
    } else if str_eq_ci(key, "sat_fat") {
        Some(FieldId::SaturatedFatG)
    } else if str_eq_ci(key, "carbohydrate") {
        Some(FieldId::Carbs)
    } else if str_eq_ci(key, "carbohydrates") {
        Some(FieldId::Carbs)
    } else if str_eq_ci(key, "sugars") {
        Some(FieldId::Sugar)
    } else if str_eq_ci(key, "fibre") {
        Some(FieldId::Fiber)
    } else if str_eq_ci(key, "sodium") {
        Some(FieldId::SodiumMg)
    } else if str_eq_ci(key, "salt") {
        Some(FieldId::SodiumMg)
    } else if str_eq_ci(key, "alc") {
        Some(FieldId::AlcoholG)
    } else if str_eq_ci(key, "alcohol") {
        Some(FieldId::AlcoholG)
    } else if str_eq_ci(key, "alcohol_intake") {
        Some(FieldId::AlcoholG)
    } else {
        None
    }
}

/// Alias resolution is case-insensitive: a key and its lower-casing resolve
/// to the same canonical field.
pub proof fn lemma_canonical_case_insensitive(key: Seq<char>)
    ensures
        spec_canonical(lower(key)) == spec_canonical(key),
{
    lemma_lower_idempotent(key);
}

/// Two character sequences differing at one index are distinct.
proof fn lemma_ne_seq(a: Seq<char>, b: Seq<char>, i: int)
    requires
        0 <= i < a.len(),
        0 <= i < b.len(),
        a[i] != b[i],
    ensures
        a != b,
{
    if a == b {
        assert(a[i] == b[i]);
    }
}

/// Canonicalizing a canonical field name returns that field itself: the
/// identity aliases make `spec_canonical` total over the canonical set.
pub proof fn lemma_canonical_name_resolves_to_itself(f: FieldId)
    ensures
        spec_canonical(field_name_spec(f)) == Some(f),
{
    reveal_strlit("alcohol_g");
    reveal_strlit("berries");
    reveal_strlit("butter");
    reveal_strlit("calcium");
    reveal_strlit("carbs");
    reveal_strlit("cheese");
    reveal_strlit("energy_kcal");
    reveal_strlit("fast_food");
    reveal_strlit("fat_g");
    reveal_strlit("fiber");
    reveal_strlit("fish");
    reveal_strlit("iron");
    reveal_strlit("legumes");
    reveal_strlit("magnesium");
    reveal_strlit("mono_fat");
    reveal_strlit("nuts");
    reveal_strlit("omega3");
    reveal_strlit("poultry");
    reveal_strlit("protein");
    reveal_strlit("red_meat");
    reveal_strlit("refined_grains");
    reveal_strlit("saturated_fat_g");
    reveal_strlit("selenium");
    reveal_strlit("sodium_mg");
    reveal_strlit("sugar");
    reveal_strlit("total_fruits");
    reveal_strlit("trans_fat");
    reveal_strlit("vegetables");
    reveal_strlit("vitamin_a");
    reveal_strlit("vitamin_c");
    reveal_strlit("vitamin_e");
    reveal_strlit("whole_grains");
    reveal_strlit("zinc");
    assert(lower("alcohol_g"@) =~= "alcohol_g"@);
    assert(lower("berries"@) =~= "berries"@);
    assert(lower("butter"@) =~= "butter"@);
    assert(lower("calcium"@) =~= "calcium"@);
    assert(lower("carbs"@) =~= "carbs"@);
    assert(lower("cheese"@) =~= "cheese"@);
    assert(lower("energy_kcal"@) =~= "energy_kcal"@);
    assert(lower("fast_food"@) =~= "fast_food"@);
    assert(lower("fat_g"@) =~= "fat_g"@);
    assert(lower("fiber"@) =~= "fiber"@);
    assert(lower("fish"@) =~= "fish"@);
    assert(lower("iron"@) =~= "iron"@);
    assert(lower("legumes"@) =~= "legumes"@);
    assert(lower("magnesium"@) =~= "magnesium"@);
    assert(lower("mono_fat"@) =~= "mono_fat"@);
    assert(lower("nuts"@) =~= "nuts"@);
    assert(lower("omega3"@) =~= "omega3"@);
    assert(lower("poultry"@) =~= "poultry"@);
    assert(lower("protein"@) =~= "protein"@);
    assert(lower("red_meat"@) =~= "red_meat"@);
    assert(lower("refined_grains"@) =~= "refined_grains"@);
    assert(lower("saturated_fat_g"@) =~= "saturated_fat_g"@);
    assert(lower("selenium"@) =~= "selenium"@);
    assert(lower("sodium_mg"@) =~= "sodium_mg"@);
    assert(lower("sugar"@) =~= "sugar"@);
    assert(lower("total_fruits"@) =~= "total_fruits"@);
    assert(lower("trans_fat"@) =~= "trans_fat"@);
    assert(lower("vegetables"@) =~= "vegetables"@);
    assert(lower("vitamin_a"@) =~= "vitamin_a"@);
    assert(lower("vitamin_c"@) =~= "vitamin_c"@);
    assert(lower("vitamin_e"@) =~= "vitamin_e"@);
    assert(lower("whole_grains"@) =~= "whole_grains"@);
    assert(lower("zinc"@) =~= "zinc"@);
    lemma_ne_seq("fish"@, "iron"@, 0);
    lemma_ne_seq("fish"@, "nuts"@, 0);
    lemma_ne_seq("iron"@, "nuts"@, 0);
    lemma_ne_seq("fish"@, "zinc"@, 0);
    lemma_ne_seq("iron"@, "zinc"@, 0);
    lemma_ne_seq("nuts"@, "zinc"@, 0);
    lemma_ne_seq("carbs"@, "fat_g"@, 0);
    lemma_ne_seq("carbs"@, "fiber"@, 0);
    lemma_ne_seq("fat_g"@, "fiber"@, 1);
    lemma_ne_seq("carbs"@, "sugar"@, 0);
    lemma_ne_seq("fat_g"@, "sugar"@, 0);
    lemma_ne_seq("fiber"@, "sugar"@, 0);
    lemma_ne_seq("butter"@, "cheese"@, 0);
    lemma_ne_seq("butter"@, "omega3"@, 0);
    lemma_ne_seq("cheese"@, "omega3"@, 0);
    lemma_ne_seq("berries"@, "calcium"@, 0);
    lemma_ne_seq("berries"@, "legumes"@, 0);
    lemma_ne_seq("calcium"@, "legumes"@, 0);
    lemma_ne_seq("berries"@, "poultry"@, 0);
    lemma_ne_seq("calcium"@, "poultry"@, 0);
    lemma_ne_seq("legumes"@, "poultry"@, 0);
    lemma_ne_seq("berries"@, "protein"@, 0);
    lemma_ne_seq("calcium"@, "protein"@, 0);
    lemma_ne_seq("legumes"@, "protein"@, 0);
    lemma_ne_seq("poultry"@, "protein"@, 1);
    lemma_ne_seq("mono_fat"@, "red_meat"@, 0);
    lemma_ne_seq("mono_fat"@, "selenium"@, 0);
    lemma_ne_seq("red_meat"@, "selenium"@, 0);
    lemma_ne_seq("alcohol_g"@, "fast_food"@, 0);
    lemma_ne_seq("alcohol_g"@, "magnesium"@, 0);
    lemma_ne_seq("fast_food"@, "magnesium"@, 0);
    lemma_ne_seq("alcohol_g"@, "sodium_mg"@, 0);
    lemma_ne_seq("fast_food"@, "sodium_mg"@, 0);
    lemma_ne_seq("magnesium"@, "sodium_mg"@, 0);
    lemma_ne_seq("alcohol_g"@, "trans_fat"@, 0);
    lemma_ne_seq("fast_food"@, "trans_fat"@, 0);
    lemma_ne_seq("magnesium"@, "trans_fat"@, 0);
    lemma_ne_seq("sodium_mg"@, "trans_fat"@, 0);
    lemma_ne_seq("alcohol_g"@, "vitamin_a"@, 0);
    lemma_ne_seq("fast_food"@, "vitamin_a"@, 0);
    lemma_ne_seq("magnesium"@, "vitamin_a"@, 0);
    lemma_ne_seq("sodium_mg"@, "vitamin_a"@, 0);
    lemma_ne_seq("trans_fat"@, "vitamin_a"@, 0);
    lemma_ne_seq("alcohol_g"@, "vitamin_c"@, 0);
    lemma_ne_seq("fast_food"@, "vitamin_c"@, 0);
    lemma_ne_seq("magnesium"@, "vitamin_c"@, 0);
    lemma_ne_seq("sodium_mg"@, "vitamin_c"@, 0);
    lemma_ne_seq("trans_fat"@, "vitamin_c"@, 0);
    lemma_ne_seq("vitamin_a"@, "vitamin_c"@, 8);
    lemma_ne_seq("alcohol_g"@, "vitamin_e"@, 0);
    lemma_ne_seq("fast_food"@, "vitamin_e"@, 0);
    lemma_ne_seq("magnesium"@, "vitamin_e"@, 0);
    lemma_ne_seq("sodium_mg"@, "vitamin_e"@, 0);
    lemma_ne_seq("trans_fat"@, "vitamin_e"@, 0);
    lemma_ne_seq("vitamin_a"@, "vitamin_e"@, 8);
    lemma_ne_seq("vitamin_c"@, "vitamin_e"@, 8);
    lemma_ne_seq("total_fruits"@, "whole_grains"@, 0);
}

} // verus!
