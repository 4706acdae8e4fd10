//! The canonical nutrient field schema.
//!
//! [`FieldId`] enumerates the fixed, closed set of canonical nutrient and
//! food-group fields the engine reasons about. The variants are declared in
//! alphabetical order of their canonical names, and [`field_index`] follows
//! that declaration order, so the canonical field order used throughout the
//! engine (trace lists, missing-field lists, processing order) is the
//! alphabetical order of the canonical names.

use vstd::prelude::*;

verus! {

/// How many canonical fields there are.
pub const FIELD_COUNT: usize = 33;

/// One canonical nutrient or food-group field.
#[derive(Clone, Copy, Debug, PartialEq, Eq, Structural, Hash)]
pub enum FieldId {
    AlcoholG,
    Berries,
    Butter,
    Calcium,
    Carbs,
    Cheese,
    EnergyKcal,
    FastFood,
    FatG,
    Fiber,
    Fish,
    Iron,
    Legumes,
    Magnesium,
    MonoFat,
    Nuts,
    Omega3,
    Poultry,
    Protein,
    RedMeat,
    RefinedGrains,
    SaturatedFatG,
    Selenium,
    SodiumMg,
    Sugar,
    TotalFruits,
    TransFat,
    Vegetables,
    VitaminA,
    VitaminC,
    VitaminE,
    WholeGrains,
    Zinc,
}

/// The position of a field in the canonical (alphabetical) field order.
pub open spec fn field_index(f: FieldId) -> int {
    match f {
        FieldId::AlcoholG => 0,
        FieldId::Berries => 1,
        FieldId::Butter => 2,
        FieldId::Calcium => 3,
        FieldId::Carbs => 4,
        FieldId::Cheese => 5,
        FieldId::EnergyKcal => 6,
        FieldId::FastFood => 7,
        FieldId::FatG => 8,
        FieldId::Fiber => 9,
        FieldId::Fish => 10,
        FieldId::Iron => 11,
        FieldId::Legumes => 12,
        FieldId::Magnesium => 13,
        FieldId::MonoFat => 14,
        FieldId::Nuts => 15,
        FieldId::Omega3 => 16,
        FieldId::Poultry => 17,
        FieldId::Protein => 18,
        FieldId::RedMeat => 19,
        FieldId::RefinedGrains => 20,
        FieldId::SaturatedFatG => 21,
        FieldId::Selenium => 22,
        FieldId::SodiumMg => 23,
        FieldId::Sugar => 24,
        FieldId::TotalFruits => 25,
        FieldId::TransFat => 26,
        FieldId::Vegetables => 27,
        FieldId::VitaminA => 28,
        FieldId::VitaminC => 29,
        FieldId::VitaminE => 30,
        FieldId::WholeGrains => 31,
        FieldId::Zinc => 32,
    }
}

/// The field at a given position of the canonical order.
pub open spec fn spec_field_of(i: int) -> FieldId {
    if i == 0 {
        FieldId::AlcoholG
    } else if i == 1 {
        FieldId::Berries
    } else if i == 2 {
        FieldId::Butter
    } else if i == 3 {
        FieldId::Calcium
    } else if i == 4 {
        FieldId::Carbs
    } else if i == 5 {
        FieldId::Cheese
    } else if i == 6 {
        FieldId::EnergyKcal
    } else if i == 7 {
        FieldId::FastFood
    } else if i == 8 {
        FieldId::FatG
    } else if i == 9 {
        FieldId::Fiber
    } else if i == 10 {
        FieldId::Fish
    } else if i == 11 {
        FieldId::Iron
    } else if i == 12 {
        FieldId::Legumes
    } else if i == 13 {
        FieldId::Magnesium
    } else if i == 14 {
        FieldId::MonoFat
    } else if i == 15 {
        FieldId::Nuts
    } else if i == 16 {
        FieldId::Omega3
    } else if i == 17 {
        FieldId::Poultry
    } else if i == 18 {
        FieldId::Protein
    } else if i == 19 {
        FieldId::RedMeat
    } else if i == 20 {
        FieldId::RefinedGrains
    } else if i == 21 {
        FieldId::SaturatedFatG
    } else if i == 22 {
        FieldId::Selenium
    } else if i == 23 {
        FieldId::SodiumMg
    } else if i == 24 {
        FieldId::Sugar
    } else if i == 25 {
        FieldId::TotalFruits
    } else if i == 26 {
        FieldId::TransFat
    } else if i == 27 {
        FieldId::Vegetables
    } else if i == 28 {
        FieldId::VitaminA
    } else if i == 29 {
        FieldId::VitaminC
    } else if i == 30 {
        FieldId::VitaminE
    } else if i == 31 {
        FieldId::WholeGrains
    } else {
        FieldId::Zinc
    }
}

/// Field order positions determine the field.
pub proof fn lemma_field_index_injective(f: FieldId)
    ensures
        spec_field_of(field_index(f)) == f,
        0 <= field_index(f) < FIELD_COUNT,
{
}

/// The canonical name of a field.
pub open spec fn field_name_spec(f: FieldId) -> Seq<char> {
    match f {
        FieldId::AlcoholG => "alcohol_g"@,
        FieldId::Berries => "berries"@,
        FieldId::Butter => "butter"@,
        FieldId::Calcium => "calcium"@,
        FieldId::Carbs => "carbs"@,
        FieldId::Cheese => "cheese"@,
        FieldId::EnergyKcal => "energy_kcal"@,
        FieldId::FastFood => "fast_food"@,
        FieldId::FatG => "fat_g"@,
        FieldId::Fiber => "fiber"@,
        FieldId::Fish => "fish"@,
        FieldId::Iron => "iron"@,
        FieldId::Legumes => "legumes"@,
        FieldId::Magnesium => "magnesium"@,
        FieldId::MonoFat => "mono_fat"@,
        FieldId::Nuts => "nuts"@,
        FieldId::Omega3 => "omega3"@,
        FieldId::Poultry => "poultry"@,
        FieldId::Protein => "protein"@,
        FieldId::RedMeat => "red_meat"@,
        FieldId::RefinedGrains => "refined_grains"@,
        FieldId::SaturatedFatG => "saturated_fat_g"@,
        FieldId::Selenium => "selenium"@,
        FieldId::SodiumMg => "sodium_mg"@,
        FieldId::Sugar => "sugar"@,
        FieldId::TotalFruits => "total_fruits"@,
        FieldId::TransFat => "trans_fat"@,
        FieldId::Vegetables => "vegetables"@,
        FieldId::VitaminA => "vitamin_a"@,
        FieldId::VitaminC => "vitamin_c"@,
        FieldId::VitaminE => "vitamin_e"@,
        FieldId::WholeGrains => "whole_grains"@,
        FieldId::Zinc => "zinc"@,
    }
}

impl FieldId {
    /// The position of this field in the canonical field order.
    pub fn index(self) -> (i: usize)
        ensures
            i as int == field_index(self),
            i < FIELD_COUNT,
    {
        match self {
            FieldId::AlcoholG => 0,
            FieldId::Berries => 1,
            FieldId::Butter => 2,
            FieldId::Calcium => 3,
            FieldId::Carbs => 4,
            FieldId::Cheese => 5,
            FieldId::EnergyKcal => 6,
            FieldId::FastFood => 7,
            FieldId::FatG => 8,
            FieldId::Fiber => 9,
            FieldId::Fish => 10,
            FieldId::Iron => 11,
            FieldId::Legumes => 12,
            FieldId::Magnesium => 13,
            FieldId::MonoFat => 14,
            FieldId::Nuts => 15,
            FieldId::Omega3 => 16,
            FieldId::Poultry => 17,
            FieldId::Protein => 18,
            FieldId::RedMeat => 19,
            FieldId::RefinedGrains => 20,
            FieldId::SaturatedFatG => 21,
            FieldId::Selenium => 22,
            FieldId::SodiumMg => 23,
            FieldId::Sugar => 24,
            FieldId::TotalFruits => 25,
            FieldId::TransFat => 26,
            FieldId::Vegetables => 27,
            FieldId::VitaminA => 28,
            FieldId::VitaminC => 29,
            FieldId::VitaminE => 30,
            FieldId::WholeGrains => 31,
            FieldId::Zinc => 32,
        }
    }

    /// The canonical name of this field.
    pub fn name(self) -> (r: &'static str)
        ensures
            r@ == field_name_spec(self),
    {
        match self {
            FieldId::AlcoholG => "alcohol_g",
            FieldId::Berries => "berries",
            FieldId::Butter => "butter",
            FieldId::Calcium => "calcium",
            FieldId::Cheese => "cheese",
            FieldId::Carbs => "carbs",
            FieldId::EnergyKcal => "energy_kcal",
            FieldId::FastFood => "fast_food",
            FieldId::FatG => "fat_g",
            FieldId::Fiber => "fiber",
            FieldId::Fish => "fish",
            FieldId::Iron => "iron",
            FieldId::Legumes => "legumes",
            FieldId::Magnesium => "magnesium",
            FieldId::MonoFat => "mono_fat",
            FieldId::Nuts => "nuts",
            FieldId::Omega3 => "omega3",
            FieldId::Poultry => "poultry",
            FieldId::Protein => "protein",
            FieldId::RedMeat => "red_meat",
            FieldId::RefinedGrains => "refined_grains",
            FieldId::SaturatedFatG => "saturated_fat_g",
            FieldId::Selenium => "selenium",
            FieldId::SodiumMg => "sodium_mg",
            FieldId::Sugar => "sugar",
            FieldId::TotalFruits => "total_fruits",
            FieldId::TransFat => "trans_fat",
            FieldId::Vegetables => "vegetables",
            FieldId::VitaminA => "vitamin_a",
            FieldId::VitaminC => "vitamin_c",
            FieldId::VitaminE => "vitamin_e",
            FieldId::WholeGrains => "whole_grains",
            FieldId::Zinc => "zinc",
        }
    }
}

/// Every canonical field, in canonical order.
pub fn all_fields() -> (v: Vec<FieldId>)
    ensures
        v@.len() == FIELD_COUNT,
        forall|i: int| 0 <= i < FIELD_COUNT ==> v@[i] == spec_field_of(i),
        forall|i: int| 0 <= i < FIELD_COUNT ==> field_index(#[trigger] v@[i]) == i,
{
    let mut v: Vec<FieldId> = Vec::new();
    v.push(FieldId::AlcoholG);
    v.push(FieldId::Berries);
    v.push(FieldId::Butter);
    v.push(FieldId::Calcium);
    v.push(FieldId::Carbs);
    v.push(FieldId::Cheese);
    v.push(FieldId::EnergyKcal);
    v.push(FieldId::FastFood);
    v.push(FieldId::FatG);
    v.push(FieldId::Fiber);
    v.push(FieldId::Fish);
    v.push(FieldId::Iron);
    v.push(FieldId::Legumes);
    v.push(FieldId::Magnesium);
    v.push(FieldId::MonoFat);
    v.push(FieldId::Nuts);
    v.push(FieldId::Omega3);
    v.push(FieldId::Poultry);
    v.push(FieldId::Protein);
    v.push(FieldId::RedMeat);
    v.push(FieldId::RefinedGrains);
    v.push(FieldId::SaturatedFatG);
    v.push(FieldId::Selenium);
    v.push(FieldId::SodiumMg);
    v.push(FieldId::Sugar);
    v.push(FieldId::TotalFruits);
    v.push(FieldId::TransFat);
    v.push(FieldId::Vegetables);
    v.push(FieldId::VitaminA);
    v.push(FieldId::VitaminC);
    v.push(FieldId::VitaminE);
    v.push(FieldId::WholeGrains);
    v.push(FieldId::Zinc);
    v
}

} // verus!
