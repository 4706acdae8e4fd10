//! The canonical nutrient vector and its audit records.
//!
//! A [`NutritionVector`] holds one optional fixed-point amount per canonical
//! field — absent meaning "not yet known", distinct from zero. It is built
//! once per input row by the schema normalizer and read-only afterwards.
//! [`InputTrace`] records how a row was normalized; [`SchemaError`] is the
//! structured error of the strict normalization variant.

use crate::aliases::canonical_field;
use crate::contracts::{
    requires_field, spec_sorted_score_of, scores_sorted_by_name, ScoreId, SCORE_COUNT,
};
use crate::fields::{all_fields, field_index, spec_field_of, FieldId, FIELD_COUNT};
use crate::food_item_resolver::{FoodItemResolver, TranslationEntry};
use crate::normalize::{
    aliases_upto, alias_entry, bounded_entries, conflicts_for, conflicts_upto, contrib_of,
    direct_value, distinct_keys, entries_view, entry_contributes, entry_exact, entry_resolves,
    entry_food_items, entry_unmapped, exact_direct, first_direct, food_sources, food_sum,
    has_food, items_sum, keyed_match, lemma_direct_value_bounded, lemma_exact_direct_none, strings_match, translation_matches,
    lemma_exact_direct_witness, lemma_first_direct_none, lemma_first_direct_witness,
    lemma_food_sum_zero, logged_fold, merged_value, translation_upto, unmapped_keys,
};
use crate::quantity::{Quantity, MAX_INPUT_MICROS};
use crate::text::str_eq;
use crate::unmapped_monitor::{mview, UnmappedFieldMonitor};
use vstd::prelude::*;

verus! {

/// One canonical nutrient vector: each field either a known amount or
/// absent.
#[derive(Debug, Clone, PartialEq)]
pub struct NutritionVector {
    pub energy: Option<Quantity>,
    pub fat: Option<Quantity>,
    pub saturated_fat: Option<Quantity>,
    pub carbs: Option<Quantity>,
    pub fiber: Option<Quantity>,
    pub sugar: Option<Quantity>,
    pub protein: Option<Quantity>,
    pub sodium: Option<Quantity>,
    pub calcium: Option<Quantity>,
    pub iron: Option<Quantity>,
    pub vitamin_c: Option<Quantity>,
    pub total_fruits: Option<Quantity>,
    pub vegetables: Option<Quantity>,
    pub whole_grains: Option<Quantity>,
    pub refined_grains: Option<Quantity>,
    pub legumes: Option<Quantity>,
    pub fish: Option<Quantity>,
    pub red_meat: Option<Quantity>,
    pub mono_fat: Option<Quantity>,
    pub berries: Option<Quantity>,
    pub cheese: Option<Quantity>,
    pub butter: Option<Quantity>,
    pub poultry: Option<Quantity>,
    pub fast_food: Option<Quantity>,
    pub nuts: Option<Quantity>,
    pub omega3: Option<Quantity>,
    pub vitamin_a: Option<Quantity>,
    pub vitamin_e: Option<Quantity>,
    pub zinc: Option<Quantity>,
    pub selenium: Option<Quantity>,
    pub magnesium: Option<Quantity>,
    pub trans_fat: Option<Quantity>,
    pub alcohol: Option<Quantity>,
}

impl NutritionVector {
    /// The amount stored for a canonical field.
    pub open spec fn spec_get(self, f: FieldId) -> Option<Quantity> {
        match f {
            FieldId::AlcoholG => self.alcohol,
            FieldId::Berries => self.berries,
            FieldId::Butter => self.butter,
            FieldId::Calcium => self.calcium,
            FieldId::Carbs => self.carbs,
            FieldId::Cheese => self.cheese,
            FieldId::EnergyKcal => self.energy,
            FieldId::FastFood => self.fast_food,
            FieldId::FatG => self.fat,
            FieldId::Fiber => self.fiber,
            FieldId::Fish => self.fish,
            FieldId::Iron => self.iron,
            FieldId::Legumes => self.legumes,
            FieldId::Magnesium => self.magnesium,
            FieldId::MonoFat => self.mono_fat,
            FieldId::Nuts => self.nuts,
            FieldId::Omega3 => self.omega3,
            FieldId::Poultry => self.poultry,
            FieldId::Protein => self.protein,
            FieldId::RedMeat => self.red_meat,
            FieldId::RefinedGrains => self.refined_grains,
            FieldId::SaturatedFatG => self.saturated_fat,
            FieldId::Selenium => self.selenium,
            FieldId::SodiumMg => self.sodium,
            FieldId::Sugar => self.sugar,
            FieldId::TotalFruits => self.total_fruits,
            FieldId::TransFat => self.trans_fat,
            FieldId::Vegetables => self.vegetables,
            FieldId::VitaminA => self.vitamin_a,
            FieldId::VitaminC => self.vitamin_c,
            FieldId::VitaminE => self.vitamin_e,
            FieldId::WholeGrains => self.whole_grains,
            FieldId::Zinc => self.zinc,
        }
    }

    /// The amount read for a field when a formula treats absence as zero.
    pub open spec fn val_or0(self, f: FieldId) -> int {
        match self.spec_get(f) {
            Some(q) => q@,
            None => 0,
        }
    }

    /// Every stored amount is within the vector's fixed-point capacity.
    pub open spec fn wf(self) -> bool {
        forall|f: FieldId|
            match #[trigger] self.spec_get(f) {
                Some(q) => q.is_bounded(),
                None => true,
            }
    }

    /// The amount stored for a canonical field.
    pub fn get(&self, f: FieldId) -> (r: Option<Quantity>)
        ensures
            r == self.spec_get(f),
    {
        match f {
            FieldId::AlcoholG => self.alcohol,
            FieldId::Berries => self.berries,
            FieldId::Butter => self.butter,
            FieldId::Calcium => self.calcium,
            FieldId::Carbs => self.carbs,
            FieldId::Cheese => self.cheese,
            FieldId::EnergyKcal => self.energy,
            FieldId::FastFood => self.fast_food,
            FieldId::FatG => self.fat,
            FieldId::Fiber => self.fiber,
            FieldId::Fish => self.fish,
            FieldId::Iron => self.iron,
            FieldId::Legumes => self.legumes,
            FieldId::Magnesium => self.magnesium,
            FieldId::MonoFat => self.mono_fat,
            FieldId::Nuts => self.nuts,
            FieldId::Omega3 => self.omega3,
            FieldId::Poultry => self.poultry,
            FieldId::Protein => self.protein,
            FieldId::RedMeat => self.red_meat,
            FieldId::RefinedGrains => self.refined_grains,
            FieldId::SaturatedFatG => self.saturated_fat,
            FieldId::Selenium => self.selenium,
            FieldId::SodiumMg => self.sodium,
            FieldId::Sugar => self.sugar,
            FieldId::TotalFruits => self.total_fruits,
            FieldId::TransFat => self.trans_fat,
            FieldId::Vegetables => self.vegetables,
            FieldId::VitaminA => self.vitamin_a,
            FieldId::VitaminC => self.vitamin_c,
            FieldId::VitaminE => self.vitamin_e,
            FieldId::WholeGrains => self.whole_grains,
            FieldId::Zinc => self.zinc,
        }
    }

    /// Store an amount for a canonical field, leaving the others unchanged.
    pub fn set(&mut self, f: FieldId, v: Quantity)
        ensures
            final(self).spec_get(f) == Some(v),
            forall|g: FieldId| g != f ==> final(self).spec_get(g) == old(self).spec_get(g),
    {
        match f {
            FieldId::AlcoholG => self.alcohol = Some(v),
            FieldId::Berries => self.berries = Some(v),
            FieldId::Butter => self.butter = Some(v),
            FieldId::Calcium => self.calcium = Some(v),
            FieldId::Carbs => self.carbs = Some(v),
            FieldId::Cheese => self.cheese = Some(v),
            FieldId::EnergyKcal => self.energy = Some(v),
            FieldId::FastFood => self.fast_food = Some(v),
            FieldId::FatG => self.fat = Some(v),
            FieldId::Fiber => self.fiber = Some(v),
            FieldId::Fish => self.fish = Some(v),
            FieldId::Iron => self.iron = Some(v),
            FieldId::Legumes => self.legumes = Some(v),
            FieldId::Magnesium => self.magnesium = Some(v),
            FieldId::MonoFat => self.mono_fat = Some(v),
            FieldId::Nuts => self.nuts = Some(v),
            FieldId::Omega3 => self.omega3 = Some(v),
            FieldId::Poultry => self.poultry = Some(v),
            FieldId::Protein => self.protein = Some(v),
            FieldId::RedMeat => self.red_meat = Some(v),
            FieldId::RefinedGrains => self.refined_grains = Some(v),
            FieldId::SaturatedFatG => self.saturated_fat = Some(v),
            FieldId::Selenium => self.selenium = Some(v),
            FieldId::SodiumMg => self.sodium = Some(v),
            FieldId::Sugar => self.sugar = Some(v),
            FieldId::TotalFruits => self.total_fruits = Some(v),
            FieldId::TransFat => self.trans_fat = Some(v),
            FieldId::Vegetables => self.vegetables = Some(v),
            FieldId::VitaminA => self.vitamin_a = Some(v),
            FieldId::VitaminC => self.vitamin_c = Some(v),
            FieldId::VitaminE => self.vitamin_e = Some(v),
            FieldId::WholeGrains => self.whole_grains = Some(v),
            FieldId::Zinc => self.zinc = Some(v),
        }
    }

    /// The canonical fields still absent, in canonical order.
    pub open spec fn spec_missing(self) -> Seq<FieldId> {
        missing_upto(self, FIELD_COUNT as int)
    }

    /// The canonical fields present, in canonical order.
    pub open spec fn spec_used(self) -> Seq<FieldId> {
        used_upto(self, FIELD_COUNT as int)
    }

    /// Every canonical field still absent from this vector, in canonical
    /// order.
    pub fn missing_fields(&self) -> (r: Vec<FieldId>)
        ensures
            r@ == self.spec_missing(),
    {
        let flds = all_fields();
        let mut r: Vec<FieldId> = Vec::new();
        let mut i: usize = 0;
        while i < FIELD_COUNT
            invariant
                0 <= i <= FIELD_COUNT,
                flds@.len() == FIELD_COUNT,
                forall|k: int| 0 <= k < FIELD_COUNT ==> flds@[k] == spec_field_of(k),
                r@ == missing_upto(*self, i as int),
            decreases FIELD_COUNT - i,
        {
            let f = flds[i];
            if self.get(f).is_none() {
                r.push(f);
            }
            i = i + 1;
        }
        r
    }

    /// Every canonical field name, in canonical order.
    pub fn all_field_names() -> (r: Vec<&'static str>)
        ensures
            r@.len() == FIELD_COUNT,
            forall|i: int|
                0 <= i < FIELD_COUNT ==> (#[trigger] r@[i])@ == crate::fields::field_name_spec(
                    spec_field_of(i),
                ),
    {
        let flds = all_fields();
        let mut r: Vec<&'static str> = Vec::new();
        let mut i: usize = 0;
        while i < FIELD_COUNT
            invariant
                0 <= i <= FIELD_COUNT,
                flds@.len() == FIELD_COUNT,
                forall|k: int| 0 <= k < FIELD_COUNT ==> flds@[k] == spec_field_of(k),
                r@.len() == i,
                forall|k: int|
                    0 <= k < i ==> (#[trigger] r@[k])@ == crate::fields::field_name_spec(
                        spec_field_of(k),
                    ),
            decreases FIELD_COUNT - i,
        {
            r.push(flds[i].name());
            i = i + 1;
        }
        r
    }
}

impl Default for NutritionVector {
    /// The empty vector: every canonical field absent.
    fn default() -> (r: NutritionVector)
        ensures
            forall|f: FieldId| r.spec_get(f).is_none(),
    {
        NutritionVector {
            energy: None,
            fat: None,
            saturated_fat: None,
            carbs: None,
            fiber: None,
            sugar: None,
            protein: None,
            sodium: None,
            calcium: None,
            iron: None,
            vitamin_c: None,
            total_fruits: None,
            vegetables: None,
            whole_grains: None,
            refined_grains: None,
            legumes: None,
            fish: None,
            red_meat: None,
            mono_fat: None,
            berries: None,
            cheese: None,
            butter: None,
            poultry: None,
            fast_food: None,
            nuts: None,
            omega3: None,
            vitamin_a: None,
            vitamin_e: None,
            zinc: None,
            selenium: None,
            magnesium: None,
            trans_fat: None,
            alcohol: None,
        }
    }
}

/// The absent fields among the first `n` of the canonical order.
pub open spec fn missing_upto(v: NutritionVector, n: int) -> Seq<FieldId>
    decreases n,
{
    if n <= 0 {
        Seq::empty()
    } else {
        missing_upto(v, n - 1) + if v.spec_get(spec_field_of(n - 1)).is_none() {
            seq![spec_field_of(n - 1)]
        } else {
            Seq::empty()
        }
    }
}

/// The present fields among the first `n` of the canonical order.
pub open spec fn used_upto(v: NutritionVector, n: int) -> Seq<FieldId>
    decreases n,
{
    if n <= 0 {
        Seq::empty()
    } else {
        used_upto(v, n - 1) + if v.spec_get(spec_field_of(n - 1)).is_some() {
            seq![spec_field_of(n - 1)]
        } else {
            Seq::empty()
        }
    }
}

/// A field is missing exactly when it stands in the missing list; used and
/// missing partition the canonical set.
pub proof fn lemma_missing_used_partition(v: NutritionVector, f: FieldId)
    ensures
        v.spec_missing().contains(f) <==> v.spec_get(f).is_none(),
        v.spec_used().contains(f) <==> v.spec_get(f).is_some(),
        !(v.spec_missing().contains(f) && v.spec_used().contains(f)),
        v.spec_missing().contains(f) || v.spec_used().contains(f),
{
    crate::fields::lemma_field_index_injective(f);
    lemma_missing_upto_contains(v, f, FIELD_COUNT as int);
    lemma_used_upto_contains(v, f, FIELD_COUNT as int);
}

proof fn lemma_missing_upto_contains(v: NutritionVector, f: FieldId, n: int)
    requires
        0 <= n <= FIELD_COUNT,
    ensures
        missing_upto(v, n).contains(f) <==> (field_index(f) < n && v.spec_get(f).is_none()),
    decreases n,
{
    crate::fields::lemma_field_index_injective(f);
    if n > 0 {
        lemma_missing_upto_contains(v, f, n - 1);
        let pre = missing_upto(v, n - 1);
        let w = missing_upto(v, n);
        if field_index(f) < n && v.spec_get(f).is_none() {
            if field_index(f) == n - 1 {
                assert(w[w.len() - 1] == f);
                assert(w.contains(f));
            } else {
                assert(pre.contains(f));
                let i = choose|i: int| 0 <= i < pre.len() && pre[i] == f;
                assert(w[i] == f);
                assert(w.contains(f));
            }
        }
        if w.contains(f) {
            let i = choose|i: int| 0 <= i < w.len() && w[i] == f;
            if i < pre.len() {
                assert(pre[i] == f);
                assert(pre.contains(f));
            } else {
                assert(f == spec_field_of(n - 1));
            }
        }
    }
}

proof fn lemma_used_upto_contains(v: NutritionVector, f: FieldId, n: int)
    requires
        0 <= n <= FIELD_COUNT,
    ensures
        used_upto(v, n).contains(f) <==> (field_index(f) < n && v.spec_get(f).is_some()),
    decreases n,
{
    crate::fields::lemma_field_index_injective(f);
    if n > 0 {
        lemma_used_upto_contains(v, f, n - 1);
        let pre = used_upto(v, n - 1);
        let w = used_upto(v, n);
        if field_index(f) < n && v.spec_get(f).is_some() {
            if field_index(f) == n - 1 {
                assert(w[w.len() - 1] == f);
                assert(w.contains(f));
            } else {
                assert(pre.contains(f));
                let i = choose|i: int| 0 <= i < pre.len() && pre[i] == f;
                assert(w[i] == f);
                assert(w.contains(f));
            }
        }
        if w.contains(f) {
            let i = choose|i: int| 0 <= i < w.len() && w[i] == f;
            if i < pre.len() {
                assert(pre[i] == f);
                assert(pre.contains(f));
            } else {
                assert(f == spec_field_of(n - 1));
            }
        }
    }
}

/// The audit record of how one input row was normalized. `used_fields` and
/// `missing_fields` partition the canonical field set exactly.
#[derive(Debug)]
pub struct InputTrace {
    /// Canonical fields populated in this row, in canonical order.
    pub used_fields: Vec<FieldId>,
    /// Canonical fields still absent, in canonical order.
    pub missing_fields: Vec<FieldId>,
    /// (raw key, canonical field) pairs where an alias substitution occurred.
    pub aliases_applied: Vec<(String, FieldId)>,
    /// (raw key, canonical field) pairs where a conflict was detected and the
    /// entry not adopted.
    pub conflicting_aliases: Vec<(String, FieldId)>,
    /// Per-field log of food-derived contributions.
    pub translation_log: Vec<(FieldId, TranslationEntry)>,
}

impl InputTrace {
    /// A trace holding only what can be read off a finished vector: its used
    /// and missing fields.
    pub fn from_nv(nv: &NutritionVector) -> (r: InputTrace)
        ensures
            r.used_fields@ == nv.spec_used(),
            r.missing_fields@ == nv.spec_missing(),
            r.aliases_applied@.len() == 0,
            r.conflicting_aliases@.len() == 0,
            r.translation_log@.len() == 0,
    {
        let flds = all_fields();
        let mut used: Vec<FieldId> = Vec::new();
        let mut missing: Vec<FieldId> = Vec::new();
        let mut i: usize = 0;
        while i < FIELD_COUNT
            invariant
                0 <= i <= FIELD_COUNT,
                flds@.len() == FIELD_COUNT,
                forall|k: int| 0 <= k < FIELD_COUNT ==> flds@[k] == spec_field_of(k),
                used@ == used_upto(*nv, i as int),
                missing@ == missing_upto(*nv, i as int),
            decreases FIELD_COUNT - i,
        {
            let f = flds[i];
            if nv.get(f).is_some() {
                used.push(f);
            } else {
                missing.push(f);
            }
            i = i + 1;
        }
        InputTrace {
            used_fields: used,
            missing_fields: missing,
            aliases_applied: Vec::new(),
            conflicting_aliases: Vec::new(),
            translation_log: Vec::new(),
        }
    }
}

/// The scores, in name-sorted order, that require a field.
pub open spec fn scores_requiring_upto(f: FieldId, n: int) -> Seq<ScoreId>
    decreases n,
{
    if n <= 0 {
        Seq::empty()
    } else {
        scores_requiring_upto(f, n - 1) + if requires_field(spec_sorted_score_of(n - 1), f) {
            seq![spec_sorted_score_of(n - 1)]
        } else {
            Seq::empty()
        }
    }
}

/// The scores, in name-sorted order, that require a field.
pub open spec fn spec_scores_requiring(f: FieldId) -> Seq<ScoreId> {
    scores_requiring_upto(f, SCORE_COUNT as int)
}

/// The structured error of strict normalization: what was missing, what
/// could not be mapped, what conflicted, and which scores each missing field
/// blocks.
#[derive(Debug)]
pub struct SchemaError {
    /// Canonical fields the row failed to populate, in canonical order.
    pub missing_canonical_fields: Vec<FieldId>,
    /// Raw keys that resolved to nothing, in input order.
    pub unmapped_aliases: Vec<String>,
    /// (raw key, canonical field) pairs recorded as conflicts.
    pub conflicting_aliases: Vec<(String, FieldId)>,
    /// For each missing field, the scores (sorted by name) that require it.
    pub index_dependencies: Vec<(FieldId, Vec<ScoreId>)>,
}

impl SchemaError {
    /// Assemble a schema error, deriving the index-dependency map from the
    /// contract registry: for every missing field, the scores that require
    /// it, sorted by score name.
    pub fn new(
        missing: Vec<FieldId>,
        unmapped: Vec<String>,
        conflicts: Vec<(String, FieldId)>,
    ) -> (r: SchemaError)
        ensures
            r.missing_canonical_fields@ == missing@,
            r.unmapped_aliases@ == unmapped@,
            r.conflicting_aliases@ == conflicts@,
            r.index_dependencies@.len() == missing@.len(),
            forall|i: int|
                0 <= i < missing@.len() ==> (#[trigger] r.index_dependencies@[i]).0 == missing@[i]
                    && r.index_dependencies@[i].1@ == spec_scores_requiring(missing@[i]),
    {
        let mut deps: Vec<(FieldId, Vec<ScoreId>)> = Vec::new();
        let n = missing.len();
        let mut i: usize = 0;
        while i < n
            invariant
                0 <= i <= n,
                n == missing@.len(),
                deps@.len() == i,
                forall|k: int|
                    0 <= k < i ==> (#[trigger] deps@[k]).0 == missing@[k] && deps@[k].1@
                        == spec_scores_requiring(missing@[k]),
            decreases n - i,
        {
            let f = missing[i];
            deps.push((f, scores_requiring(f)));
            i = i + 1;
        }
        SchemaError {
            missing_canonical_fields: missing,
            unmapped_aliases: unmapped,
            conflicting_aliases: conflicts,
            index_dependencies: deps,
        }
    }
}

/// How many entries one raw row may carry.
pub const MAX_ROW_ENTRIES: usize = 1000;

/// Largest magnitude the food-derived total of one field can reach over a
/// whole row.
pub const MAX_FOOD_TOTAL: i64 = 400_000_000_000_000_000;

/// The vector's stored value for `f` agrees with the model's
/// directly-adopted value.
pub open spec fn direct_matches(s: Seq<(Seq<char>, int)>, nv: NutritionVector, f: FieldId) -> bool {
    &&& nv.spec_get(f).is_some() == direct_value(s, f).is_some()
    &&& (direct_value(s, f).is_some() ==> nv.spec_get(f).unwrap()@ == direct_value(s, f).unwrap())
}

/// The vector's stored value for `f` agrees with the model's merged value.
pub open spec fn merged_matches(s: Seq<(Seq<char>, int)>, nv: NutritionVector, f: FieldId) -> bool {
    &&& nv.spec_get(f).is_some() == merged_value(s, f).is_some()
    &&& (merged_value(s, f).is_some() ==> nv.spec_get(f).unwrap()@ == merged_value(s, f).unwrap())
}

/// The vector agrees with the model's merged value on every field.
pub open spec fn merged_matches_all(s: Seq<(Seq<char>, int)>, nv: NutritionVector) -> bool {
    forall|f: FieldId| #[trigger] merged_matches(s, nv, f)
}

/// Does this key canonicalize to exactly this field?
fn resolves_to(key: &str, f: FieldId) -> (r: bool)
    ensures
        r == (crate::aliases::spec_canonical(key@) == Some(f)),
{
    match canonical_field(key) {
        Some(g) => g == f,
        None => false,
    }
}

/// Copy a key list element by element.
fn clone_strings(v: &Vec<String>) -> (r: Vec<String>)
    ensures
        r@.len() == v@.len(),
        forall|j: int| 0 <= j < v@.len() ==> (#[trigger] r@[j])@ == v@[j]@,
    decreases v@.len(),
{
    let mut r: Vec<String> = Vec::new();
    let mut i: usize = 0;
    let n = v.len();
    while i < n
        invariant
            0 <= i <= n,
            n == v@.len(),
            r@.len() == i,
            forall|j: int| 0 <= j < i ==> (#[trigger] r@[j])@ == v@[j]@,
        decreases n - i,
    {
        r.push(v[i].clone());
        i = i + 1;
    }
    r
}

/// Find the first entry resolving to `f`, and the first entry exactly named
/// after `f`, in one scan of the row.
fn find_direct_entries(data: &Vec<(String, Quantity)>, f: FieldId) -> (r: (
    Option<usize>,
    Option<usize>,
))
    ensures
        ({
            let s = entries_view(data@);
            &&& match r.0 {
                Some(i) => i < data@.len() && first_direct(s, f) == Some(s[i as int])
                    && entry_resolves(s[i as int], f) && (forall|k: int|
                    0 <= k < i ==> !entry_resolves(#[trigger] s[k], f)),
                None => first_direct(s, f).is_none(),
            }
            &&& match r.1 {
                Some(i) => i < data@.len() && exact_direct(s, f) == Some(s[i as int])
                    && entry_exact(s[i as int], f),
                None => exact_direct(s, f).is_none(),
            }
        }),
{
    let ghost s = entries_view(data@);
    let n = data.len();
    let mut first: Option<usize> = None;
    let mut exact: Option<usize> = None;
    let mut j: usize = 0;
    while j < n
        invariant
            0 <= j <= n,
            n == data@.len(),
            s == entries_view(data@),
            match first {
                Some(i) => i < j && entry_resolves(s[i as int], f) && (forall|k: int|
                    0 <= k < i ==> !entry_resolves(#[trigger] s[k], f)),
                None => forall|k: int| 0 <= k < j ==> !entry_resolves(#[trigger] s[k], f),
            },
            match exact {
                Some(i) => i < j && entry_exact(s[i as int], f) && (forall|k: int|
                    0 <= k < i ==> !entry_exact(#[trigger] s[k], f)),
                None => forall|k: int| 0 <= k < j ==> !entry_exact(#[trigger] s[k], f),
            },
        decreases n - j,
    {
        proof {
            assert(s[j as int] == (data@[j as int].0@, data@[j as int].1@));
        }
        if resolves_to(data[j].0.as_str(), f) {
            if first.is_none() {
                first = Some(j);
            }
            if exact.is_none() && str_eq(data[j].0.as_str(), f.name()) {
                exact = Some(j);
            }
        }
        j = j + 1;
    }
    proof {
        match first {
            Some(i) => lemma_first_direct_witness(s, f, i as int),
            None => lemma_first_direct_none(s, f),
        }
        match exact {
            Some(i) => lemma_exact_direct_witness(s, f, i as int),
            None => lemma_exact_direct_none(s, f),
        }
    }
    (first, exact)
}

/// Record every conflict for one field: each resolving entry beyond the
/// first, in input order.
fn push_conflicts_for(
    data: &Vec<(String, Quantity)>,
    f: FieldId,
    fidx: usize,
    conflicts: &mut Vec<(String, FieldId)>,
)
    requires
        fidx < data@.len(),
        entry_resolves(entries_view(data@)[fidx as int], f),
        forall|k: int| 0 <= k < fidx ==> !entry_resolves(#[trigger] entries_view(data@)[k], f),
    ensures
        final(conflicts)@.len() == old(conflicts)@.len() + conflicts_for(entries_view(data@), f).len(),
        forall|t: int| 0 <= t < old(conflicts)@.len() ==> final(conflicts)@[t] == old(conflicts)@[t],
        keyed_match(
            final(conflicts)@.subrange(old(conflicts)@.len() as int, final(conflicts)@.len() as int),
            conflicts_for(entries_view(data@), f),
        ),
{
    let ghost s = entries_view(data@);
    let ghost bl = old(conflicts)@.len() as int;
    let ghost base = old(conflicts)@;
    let n = data.len();
    let mut j: usize = 0;
    while j < n
        invariant
            0 <= j <= n,
            n == data@.len(),
            s == entries_view(data@),
            fidx < n,
            entry_resolves(s[fidx as int], f),
            forall|k: int| 0 <= k < fidx ==> !entry_resolves(#[trigger] s[k], f),
            bl == base.len(),
            conflicts@.len() == bl + conflicts_for(s.subrange(0, j as int), f).len(),
            forall|t: int| 0 <= t < bl ==> conflicts@[t] == base[t],
            keyed_match(
                conflicts@.subrange(bl, conflicts@.len() as int),
                conflicts_for(s.subrange(0, j as int), f),
            ),
        decreases n - j,
    {
        let ghost pre = s.subrange(0, j as int);
        let ghost cur = s.subrange(0, j as int + 1);
        proof {
            assert(cur.drop_last() =~= pre);
            assert(cur.last() == s[j as int]);
            assert(s[j as int] == (data@[j as int].0@, data@[j as int].1@));
        }
        if j != fidx && resolves_to(data[j].0.as_str(), f) {
            proof {
                assert(j > fidx);
                assert(pre[fidx as int] == s[fidx as int]);
                lemma_first_direct_witness(pre, f, fidx as int);
            }
            let ghost elem: (Seq<char>, FieldId) = (
                if s[j as int].0 == crate::fields::field_name_spec(f) {
                    s[fidx as int].0
                } else {
                    s[j as int].0
                },
                f,
            );
            proof {
                assert(conflicts_for(cur, f) =~= conflicts_for(pre, f) + seq![elem]);
            }
            let ghost before = conflicts@;
            if str_eq(data[j].0.as_str(), f.name()) {
                conflicts.push((data[fidx].0.clone(), f));
            } else {
                conflicts.push((data[j].0.clone(), f));
            }
            proof {
                assert(conflicts@.last().0@ == elem.0);
                assert(conflicts@.subrange(bl, conflicts@.len() as int) =~= before.subrange(
                    bl,
                    before.len() as int,
                ).push(conflicts@.last()));
            }
        } else {
            proof {
                if j == fidx {
                    assert(forall|k: int|
                        0 <= k < pre.len() ==> !entry_resolves(#[trigger] pre[k], f));
                    lemma_first_direct_none(pre, f);
                }
                assert(conflicts_for(cur, f) =~= conflicts_for(pre, f));
            }
        }
        j = j + 1;
    }
    proof {
        assert(s.subrange(0, n as int) =~= s);
    }
}

/// The food pass: resolve every non-canonicalizing entry through the
/// food-item resolver, accumulating per-field totals, contribution flags
/// and contributing keys, and logging unmapped keys to the monitor.
fn food_pass(data: &Vec<(String, Quantity)>, monitor: &mut UnmappedFieldMonitor) -> (r: (
    Vec<i64>,
    Vec<bool>,
    Vec<Vec<String>>,
    Vec<String>,
))
    requires
        data@.len() <= MAX_ROW_ENTRIES,
        forall|i: int| 0 <= i < data@.len() ==> (#[trigger] data@[i]).1.is_input(),
    ensures
        ({
            let s = entries_view(data@);
            &&& r.0@.len() == FIELD_COUNT
            &&& r.1@.len() == FIELD_COUNT
            &&& r.2@.len() == FIELD_COUNT
            &&& forall|k: int|
                0 <= k < FIELD_COUNT ==> (#[trigger] r.0@[k]) as int == food_sum(
                    s,
                    spec_field_of(k),
                )
            &&& forall|k: int|
                0 <= k < FIELD_COUNT ==> (#[trigger] r.1@[k]) == has_food(s, spec_field_of(k))
            &&& forall|k: int|
                0 <= k < FIELD_COUNT ==> strings_match(
                    (#[trigger] r.2@[k])@,
                    food_sources(s, spec_field_of(k)),
                )
            &&& forall|k: int|
                0 <= k < FIELD_COUNT ==> -MAX_FOOD_TOTAL <= #[trigger] r.0@[k] <= MAX_FOOD_TOTAL
            &&& strings_match(r.3@, unmapped_keys(s))
            &&& mview(*final(monitor)) == logged_fold(mview(*old(monitor)), s)
        }),
{
    let ghost s = entries_view(data@);
    let ghost m0 = mview(*old(monitor));
    let resolver = FoodItemResolver::new();
    let n = data.len();
    let mut acc: Vec<i64> = Vec::new();
    let mut any: Vec<bool> = Vec::new();
    let mut srcs: Vec<Vec<String>> = Vec::new();
    let mut ki: usize = 0;
    while ki < FIELD_COUNT
        invariant
            0 <= ki <= FIELD_COUNT,
            acc@.len() == ki,
            any@.len() == ki,
            srcs@.len() == ki,
            forall|k: int| 0 <= k < ki ==> (#[trigger] acc@[k]) == 0,
            forall|k: int| 0 <= k < ki ==> (#[trigger] any@[k]) == false,
            forall|k: int| 0 <= k < ki ==> (#[trigger] srcs@[k])@.len() == 0,
        decreases FIELD_COUNT - ki,
    {
        acc.push(0);
        any.push(false);
        srcs.push(Vec::new());
        ki = ki + 1;
    }
    let mut unmapped: Vec<String> = Vec::new();
    let mut j: usize = 0;
    while j < n
        invariant
            0 <= j <= n,
            n == data@.len(),
            n <= MAX_ROW_ENTRIES,
            s == entries_view(data@),
            forall|i: int| 0 <= i < data@.len() ==> (#[trigger] data@[i]).1.is_input(),
            acc@.len() == FIELD_COUNT,
            any@.len() == FIELD_COUNT,
            srcs@.len() == FIELD_COUNT,
            forall|k: int|
                0 <= k < FIELD_COUNT ==> (#[trigger] acc@[k]) as int == food_sum(
                    s.subrange(0, j as int),
                    spec_field_of(k),
                ),
            forall|k: int|
                0 <= k < FIELD_COUNT ==> (#[trigger] any@[k]) == has_food(
                    s.subrange(0, j as int),
                    spec_field_of(k),
                ),
            forall|k: int|
                0 <= k < FIELD_COUNT ==> strings_match(
                    (#[trigger] srcs@[k])@,
                    food_sources(s.subrange(0, j as int), spec_field_of(k)),
                ),
            forall|k: int|
                0 <= k < FIELD_COUNT ==> -400_000_000_000_000 * (j as int) <= (
                #[trigger] acc@[k]) as int <= 400_000_000_000_000 * (j as int),
            strings_match(unmapped@, unmapped_keys(s.subrange(0, j as int))),
            mview(*monitor) == logged_fold(m0, s.subrange(0, j as int)),
        decreases n - j,
    {
        let ghost pre = s.subrange(0, j as int);
        let ghost cur = s.subrange(0, j as int + 1);
        proof {
            assert(cur.drop_last() =~= pre);
            assert(cur.last() == s[j as int]);
            assert(s[j as int] == (data@[j as int].0@, data@[j as int].1@));
        }
        let key = &data[j].0;
        let amount = data[j].1;
        if canonical_field(key.as_str()).is_some() {
            proof {
                assert(entry_food_items(s[j as int]).is_none());
                assert(!entry_unmapped(s[j as int]));
                assert forall|k: int| 0 <= k < FIELD_COUNT implies {
                    &&& food_sum(cur, spec_field_of(k)) == food_sum(pre, spec_field_of(k))
                    &&& has_food(cur, spec_field_of(k)) == has_food(pre, spec_field_of(k))
                    &&& food_sources(cur, spec_field_of(k)) == food_sources(pre, spec_field_of(k))
                } by {
                    let fk = spec_field_of(k);
                    assert(!entry_contributes(s[j as int], fk));
                    assert(contrib_of(s[j as int], fk) == 0);
                    assert(food_sources(cur, fk) =~= food_sources(pre, fk));
                    assert(has_food(cur, fk) == has_food(pre, fk)) by {
                        if has_food(cur, fk) {
                            let w = choose|w: int|
                                0 <= w < cur.len() && entry_contributes(#[trigger] cur[w], fk);
                            assert(w < pre.len() && pre[w] == cur[w]);
                        }
                        if has_food(pre, fk) {
                            let w = choose|w: int|
                                0 <= w < pre.len() && entry_contributes(#[trigger] pre[w], fk);
                            assert(cur[w] == pre[w]);
                        }
                    }
                }
                assert(unmapped_keys(cur) =~= unmapped_keys(pre));
                assert(logged_fold(m0, cur) == logged_fold(m0, pre));
            }
        } else {
            match resolver.resolve(key.as_str(), amount) {
                Some(items) => {
                    let ghost sr = crate::food_item_resolver::spec_resolve(key@, amount@).unwrap();
                    proof {
                        lemma_resolve_items_facts(key@, amount@);
                        assert(entry_food_items(s[j as int]) == Some(sr));
                    }
                    let m = items.len();
                    let mut t: usize = 0;
                    while t < m
                        invariant
                            0 <= t <= m,
                            m == items@.len(),
                            m == sr.len(),
                            m <= 4,
                            forall|w: int|
                                0 <= w < m ==> (#[trigger] items@[w]).0 == sr[w].0
                                    && items@[w].1@ == sr[w].1,
                            forall|w: int|
                                0 <= w < m ==> -100_000_000_000_000
                                    <= (#[trigger] items@[w]).1.micros <= 100_000_000_000_000,
                            forall|w1: int, w2: int|
                                0 <= w1 < w2 < m ==> (#[trigger] sr[w1]).0 != (
                                #[trigger] sr[w2]).0,
                            acc@.len() == FIELD_COUNT,
                            any@.len() == FIELD_COUNT,
                            srcs@.len() == FIELD_COUNT,
                            s == entries_view(data@),
                            j < n,
                            n == data@.len(),
                            n <= MAX_ROW_ENTRIES,
                            pre == s.subrange(0, j as int),
                            key@ == s[j as int].0,
                            forall|k: int|
                                0 <= k < FIELD_COUNT ==> (#[trigger] acc@[k]) as int == food_sum(
                                    pre,
                                    spec_field_of(k),
                                ) + items_sum(sr.subrange(0, t as int), spec_field_of(k)),
                            forall|k: int|
                                0 <= k < FIELD_COUNT ==> (#[trigger] any@[k]) == (has_food(
                                    pre,
                                    spec_field_of(k),
                                ) || exists|w: int|
                                    0 <= w < t && (#[trigger] sr[w]).0 == spec_field_of(k)),
                            forall|k: int|
                                0 <= k < FIELD_COUNT ==> strings_match(
                                    (#[trigger] srcs@[k])@,
                                    food_sources(pre, spec_field_of(k)) + (if exists|w: int|
                                        0 <= w < t && (#[trigger] sr[w]).0 == spec_field_of(k) {
                                        seq![s[j as int].0]
                                    } else {
                                        Seq::<Seq<char>>::empty()
                                    }),
                                ),
                            forall|k: int|
                                0 <= k < FIELD_COUNT ==> -400_000_000_000_000 * (j as int) - (
                                t as int) * 100_000_000_000_000 <= (#[trigger] acc@[k]) as int
                                    <= 400_000_000_000_000 * (j as int) + (t as int)
                                    * 100_000_000_000_000,
                        decreases m - t,
                    {
                        let (f2, qty) = items[t];
                        let idx = f2.index();
                        proof {
                            crate::fields::lemma_field_index_injective(f2);
                            assert(spec_field_of(idx as int) == f2);
                            assert(sr.subrange(0, t as int + 1).drop_last() =~= sr.subrange(
                                0,
                                t as int,
                            ));
                            assert(sr.subrange(0, t as int + 1).last() == sr[t as int]);
                        }
                        let ghost old_acc = acc@;
                        let ghost old_any = any@;
                        let ghost old_srcs = srcs@;
                        let cur_acc = acc[idx];
                        acc[idx] = cur_acc + qty.micros;
                        any[idx] = true;
                        srcs[idx].push(key.clone());
                        proof {
                            assert forall|k: int| 0 <= k < FIELD_COUNT && k != idx implies {
                                &&& acc@[k] == old_acc[k]
                                &&& any@[k] == old_any[k]
                                &&& srcs@[k] == old_srcs[k]
                                &&& items_sum(sr.subrange(0, t as int + 1), spec_field_of(k))
                                    == items_sum(sr.subrange(0, t as int), spec_field_of(k))
                                &&& ((exists|w: int|
                                    0 <= w < t + 1 && (#[trigger] sr[w]).0 == spec_field_of(k))
                                    == (exists|w: int|
                                    0 <= w < t && (#[trigger] sr[w]).0 == spec_field_of(k)))
                            } by {
                                crate::fields::lemma_field_index_injective(spec_field_of(k));
                                assert(sr[t as int].0 != spec_field_of(k));
                                if exists|w: int|
                                    0 <= w < t + 1 && (#[trigger] sr[w]).0 == spec_field_of(k) {
                                    let w = choose|w: int|
                                        0 <= w < t + 1 && (#[trigger] sr[w]).0 == spec_field_of(
                                            k,
                                        );
                                    assert(w < t);
                                }
                            }
                            assert(items_sum(sr.subrange(0, t as int + 1), f2) == items_sum(
                                sr.subrange(0, t as int),
                                f2,
                            ) + sr[t as int].1);
                            assert(!(exists|w: int| 0 <= w < t && (#[trigger] sr[w]).0 == f2));
                            assert(exists|w: int|
                                0 <= w < t + 1 && (#[trigger] sr[w]).0 == f2) by {
                                assert(sr[t as int].0 == f2);
                            }
                            assert(strings_match(
                                (srcs@[idx as int])@,
                                food_sources(pre, f2) + seq![s[j as int].0],
                            ));
                        }
                        t = t + 1;
                    }
                    proof {
                        assert(sr.subrange(0, m as int) =~= sr);
                        assert(!entry_unmapped(s[j as int]));
                        assert forall|k: int| 0 <= k < FIELD_COUNT implies {
                            &&& food_sum(cur, spec_field_of(k)) == food_sum(pre, spec_field_of(k))
                                + items_sum(sr, spec_field_of(k))
                            &&& has_food(cur, spec_field_of(k)) == (has_food(
                                pre,
                                spec_field_of(k),
                            ) || entry_contributes(s[j as int], spec_field_of(k)))
                            &&& food_sources(cur, spec_field_of(k)) == food_sources(
                                pre,
                                spec_field_of(k),
                            ) + (if entry_contributes(s[j as int], spec_field_of(k)) {
                                seq![s[j as int].0]
                            } else {
                                Seq::<Seq<char>>::empty()
                            })
                        } by {
                            let fk = spec_field_of(k);
                            assert(contrib_of(s[j as int], fk) == items_sum(sr, fk));
                            assert(food_sources(cur, fk) =~= food_sources(pre, fk) + (
                            if entry_contributes(s[j as int], fk) {
                                seq![s[j as int].0]
                            } else {
                                Seq::<Seq<char>>::empty()
                            }));
                            assert(has_food(cur, fk) == (has_food(pre, fk) || entry_contributes(
                                s[j as int],
                                fk,
                            ))) by {
                                if has_food(cur, fk) {
                                    let w = choose|w: int|
                                        0 <= w < cur.len() && entry_contributes(
                                            #[trigger] cur[w],
                                            fk,
                                        );
                                    if w < pre.len() {
                                        assert(pre[w] == cur[w]);
                                    }
                                }
                                if has_food(pre, fk) {
                                    let w = choose|w: int|
                                        0 <= w < pre.len() && entry_contributes(
                                            #[trigger] pre[w],
                                            fk,
                                        );
                                    assert(cur[w] == pre[w]);
                                }
                                if entry_contributes(s[j as int], fk) {
                                    assert(cur[j as int] == s[j as int]);
                                }
                            }
                        }
                        assert(unmapped_keys(cur) =~= unmapped_keys(pre));
                        assert(logged_fold(m0, cur) == logged_fold(m0, pre));
                    }
                },
                None => {
                    proof {
                        assert(entry_unmapped(s[j as int]));
                    }
                    monitor.log(key.as_str(), Some(amount));
                    unmapped.push(key.clone());
                    proof {
                        assert(unmapped_keys(cur) =~= unmapped_keys(pre) + seq![s[j as int].0]);
                        assert(logged_fold(m0, cur) == crate::unmapped_monitor::spec_logged(
                            logged_fold(m0, pre),
                            s[j as int].0,
                            Some(s[j as int].1),
                        ));
                        assert forall|k: int| 0 <= k < FIELD_COUNT implies {
                            &&& food_sum(cur, spec_field_of(k)) == food_sum(pre, spec_field_of(k))
                            &&& has_food(cur, spec_field_of(k)) == has_food(pre, spec_field_of(k))
                            &&& food_sources(cur, spec_field_of(k)) == food_sources(
                                pre,
                                spec_field_of(k),
                            )
                        } by {
                            let fk = spec_field_of(k);
                            assert(!entry_contributes(s[j as int], fk));
                            assert(contrib_of(s[j as int], fk) == 0);
                            assert(food_sources(cur, fk) =~= food_sources(pre, fk));
                            assert(has_food(cur, fk) == has_food(pre, fk)) by {
                                if has_food(cur, fk) {
                                    let w = choose|w: int|
                                        0 <= w < cur.len() && entry_contributes(
                                            #[trigger] cur[w],
                                            fk,
                                        );
                                    assert(w < pre.len() && pre[w] == cur[w]);
                                }
                                if has_food(pre, fk) {
                                    let w = choose|w: int|
                                        0 <= w < pre.len() && entry_contributes(
                                            #[trigger] pre[w],
                                            fk,
                                        );
                                    assert(cur[w] == pre[w]);
                                }
                            }
                        }
                    }
                },
            }
        }
        j = j + 1;
    }
    proof {
        assert(s.subrange(0, n as int) =~= s);
        assert(forall|k: int|
            0 <= k < FIELD_COUNT ==> -MAX_FOOD_TOTAL <= (#[trigger] acc@[k])
                <= MAX_FOOD_TOTAL);
    }
    (acc, any, srcs, unmapped)
}

/// The scaled items a resolving key yields are few, bounded, and free of
/// repeated fields.
proof fn lemma_resolve_items_facts(key: Seq<char>, amount: int)
    requires
        crate::food_item_resolver::spec_resolve(key, amount).is_some(),
    ensures
        ({
            let sr = crate::food_item_resolver::spec_resolve(key, amount).unwrap();
            &&& sr.len() <= 4
            &&& forall|w1: int, w2: int|
                0 <= w1 < w2 < sr.len() ==> (#[trigger] sr[w1]).0 != (#[trigger] sr[w2]).0
        }),
{
    let k = crate::text::lower(key);
    if crate::text::ci_ends_with(key, "_g"@) {
        crate::food_item_resolver::lemma_food_item_bounds(k.subrange(0, k.len() - 2));
    } else if crate::text::ci_ends_with(key, "_servings"@) {
        crate::food_item_resolver::lemma_food_item_bounds(k.subrange(0, k.len() - 9));
    }
}

/// Normalize one raw row: adopt direct values field by field, resolve
/// food-item contributions, merge, and report aliases, conflicts, the
/// translation log and the unmapped keys.
fn normalize_row(data: &Vec<(String, Quantity)>, monitor: &mut UnmappedFieldMonitor) -> (r: (
    NutritionVector,
    Vec<(String, FieldId)>,
    Vec<(String, FieldId)>,
    Vec<(FieldId, TranslationEntry)>,
    Vec<String>,
))
    requires
        data@.len() <= MAX_ROW_ENTRIES,
        forall|i: int| 0 <= i < data@.len() ==> (#[trigger] data@[i]).1.is_input(),
        distinct_keys(entries_view(data@)),
    ensures
        ({
            let s = entries_view(data@);
            &&& r.0.wf()
            &&& forall|f: FieldId| merged_matches(s, r.0, f)
            &&& keyed_match(r.1@, aliases_upto(s, FIELD_COUNT as int))
            &&& keyed_match(r.2@, conflicts_upto(s, FIELD_COUNT as int))
            &&& translation_matches(r.3@, translation_upto(s, FIELD_COUNT as int))
            &&& strings_match(r.4@, unmapped_keys(s))
            &&& mview(*final(monitor)) == logged_fold(mview(*old(monitor)), s)
        }),
{
    let ghost s = entries_view(data@);
    proof {
        assert(bounded_entries(s));
    }
    let flds = all_fields();
    let n = data.len();
    let mut nv = NutritionVector::default();
    let mut aliases: Vec<(String, FieldId)> = Vec::new();
    let mut conflicts: Vec<(String, FieldId)> = Vec::new();
    let mut fi: usize = 0;
    while fi < FIELD_COUNT
        invariant
            0 <= fi <= FIELD_COUNT,
            n == data@.len(),
            n <= MAX_ROW_ENTRIES,
            s == entries_view(data@),
            forall|i: int| 0 <= i < data@.len() ==> (#[trigger] data@[i]).1.is_input(),
            flds@.len() == FIELD_COUNT,
            forall|k: int| 0 <= k < FIELD_COUNT ==> flds@[k] == spec_field_of(k),
            keyed_match(aliases@, aliases_upto(s, fi as int)),
            keyed_match(conflicts@, conflicts_upto(s, fi as int)),
            forall|f: FieldId| field_index(f) < fi ==> direct_matches(s, nv, f),
            forall|f: FieldId|
                field_index(f) >= fi ==> (#[trigger] nv.spec_get(f)).is_none(),
        decreases FIELD_COUNT - fi,
    {
        let f = flds[fi];
        proof {
            crate::fields::lemma_field_index_injective(f);
        }
        let (first, exact) = find_direct_entries(data, f);
        match first {
            None => {
                proof {
                    crate::normalize::lemma_first_direct_none_converse(s, f);
                    if exact_direct(s, f).is_some() {
                        crate::normalize::lemma_exact_direct_is_entry(s, f);
                        let w = choose|w: int|
                            0 <= w < s.len() && s[w] == exact_direct(s, f).unwrap()
                                && entry_exact(#[trigger] s[w], f);
                        assert(entry_resolves(s[w], f));
                        assert(false);
                    }
                    assert(direct_value(s, f).is_none());
                    assert(direct_matches(s, nv, f));
                    crate::normalize::lemma_conflicts_for_no_direct(s, f);
                    assert(aliases_upto(s, fi as int + 1) =~= aliases_upto(s, fi as int));
                    assert(conflicts_upto(s, fi as int + 1) =~= conflicts_upto(s, fi as int));
                    assert forall|g: FieldId| field_index(g) < fi as int + 1 implies
                        direct_matches(s, nv, g) by {
                        if g != f {
                            assert(direct_matches(s, nv, g));
                        }
                    }
                }
            },
            Some(fidx) => {
                let adopted: Quantity = match exact {
                    Some(e) => data[e].1,
                    None => data[fidx].1,
                };
                proof {
                    match exact {
                        Some(e) => {
                            assert(exact_direct(s, f) == Some(s[e as int]));
                            assert(direct_value(s, f) == Some(s[e as int].1));
                            assert(adopted@ == s[e as int].1);
                        },
                        None => {
                            assert(direct_value(s, f) == Some(s[fidx as int].1));
                        },
                    }
                }
                let ghost nv_before = nv;
                nv.set(f, adopted);
                proof {
                    assert(direct_matches(s, nv, f));
                    assert forall|g: FieldId| field_index(g) < fi as int + 1 implies
                        direct_matches(s, nv, g) by {
                        if g != f {
                            assert(nv.spec_get(g) == nv_before.spec_get(g));
                            assert(direct_matches(s, nv_before, g));
                        }
                    }
                    assert forall|g: FieldId| field_index(g) >= fi as int + 1 implies (
                    #[trigger] nv.spec_get(g)).is_none() by {
                        assert(g != f);
                        assert(nv.spec_get(g) == nv_before.spec_get(g));
                    }
                }
                let ghost old_aliases = aliases@;
                if !str_eq(data[fidx].0.as_str(), f.name()) {
                    aliases.push((data[fidx].0.clone(), f));
                    proof {
                        assert(alias_entry(s, f) == Some((s[fidx as int].0, f)));
                        assert(aliases_upto(s, fi as int + 1) =~= aliases_upto(s, fi as int)
                            + seq![(s[fidx as int].0, f)]);
                        assert(keyed_match(aliases@, aliases_upto(s, fi as int + 1)));
                    }
                } else {
                    proof {
                        assert(alias_entry(s, f).is_none());
                        assert(aliases_upto(s, fi as int + 1) =~= aliases_upto(s, fi as int));
                    }
                }
                let ghost conf_before = conflicts@;
                push_conflicts_for(data, f, fidx, &mut conflicts);
                proof {
                    assert(conflicts_upto(s, fi as int + 1) =~= conflicts_upto(s, fi as int)
                        + conflicts_for(s, f));
                    let m_new = conflicts_upto(s, fi as int + 1);
                    let bl = conf_before.len() as int;
                    assert forall|i: int| 0 <= i < conflicts@.len() implies (
                    #[trigger] conflicts@[i]).0@ == m_new[i].0 && conflicts@[i].1 == m_new[i].1 by {
                        if i < bl {
                            assert(conflicts@[i] == conf_before[i]);
                        } else {
                            assert(conflicts@.subrange(bl, conflicts@.len() as int)[i - bl]
                                == conflicts@[i]);
                            assert(conflicts_for(s, f)[i - bl] == m_new[i]);
                        }
                    }
                    assert(keyed_match(conflicts@, conflicts_upto(s, fi as int + 1)));
                }
            },
        }
        fi = fi + 1;
    }
    let (acc, any, srcs, unmapped) = food_pass(data, monitor);
    let mut translation: Vec<(FieldId, TranslationEntry)> = Vec::new();
    let mut fi: usize = 0;
    while fi < FIELD_COUNT
        invariant
            0 <= fi <= FIELD_COUNT,
            n == data@.len(),
            n <= MAX_ROW_ENTRIES,
            s == entries_view(data@),
            bounded_entries(s),
            flds@.len() == FIELD_COUNT,
            forall|k: int| 0 <= k < FIELD_COUNT ==> flds@[k] == spec_field_of(k),
            acc@.len() == FIELD_COUNT,
            any@.len() == FIELD_COUNT,
            srcs@.len() == FIELD_COUNT,
            forall|k: int|
                0 <= k < FIELD_COUNT ==> (#[trigger] acc@[k]) as int == food_sum(
                    s,
                    spec_field_of(k),
                ),
            forall|k: int|
                0 <= k < FIELD_COUNT ==> (#[trigger] any@[k]) == has_food(s, spec_field_of(k)),
            forall|k: int|
                0 <= k < FIELD_COUNT ==> strings_match(
                    (#[trigger] srcs@[k])@,
                    food_sources(s, spec_field_of(k)),
                ),
            forall|k: int|
                0 <= k < FIELD_COUNT ==> -MAX_FOOD_TOTAL <= #[trigger] acc@[k] <= MAX_FOOD_TOTAL,
            translation_matches(translation@, translation_upto(s, fi as int)),
            forall|f: FieldId| field_index(f) < fi ==> merged_matches(s, nv, f),
            forall|f: FieldId| field_index(f) >= fi ==> direct_matches(s, nv, f),
            forall|f: FieldId|
                field_index(f) < fi ==> match #[trigger] nv.spec_get(f) {
                    Some(q) => q.is_bounded(),
                    None => true,
                },
        decreases FIELD_COUNT - fi,
    {
        let f = flds[fi];
        proof {
            crate::fields::lemma_field_index_injective(f);
        }
        if any[fi] {
            proof {
                assert(direct_matches(s, nv, f));
                assert(has_food(s, f));
            }
            let total = acc[fi];
            let ghost nv_before = nv;
            match nv.get(f) {
                Some(d) => {
                    proof {
                        lemma_direct_value_bounded(s, f);
                    }
                    nv.set(f, Quantity { micros: d.micros + total });
                },
                None => {
                    nv.set(f, Quantity { micros: total });
                },
            }
            proof {
                assert(merged_matches(s, nv, f));
                assert forall|g: FieldId| field_index(g) < fi as int + 1 implies merged_matches(
                    s,
                    nv,
                    g,
                ) by {
                    if g != f {
                        assert(nv.spec_get(g) == nv_before.spec_get(g));
                        assert(merged_matches(s, nv_before, g));
                    }
                }
                assert forall|g: FieldId| field_index(g) >= fi as int + 1 implies direct_matches(
                    s,
                    nv,
                    g,
                ) by {
                    assert(g != f);
                    assert(nv.spec_get(g) == nv_before.spec_get(g));
                    assert(direct_matches(s, nv_before, g));
                }
                assert forall|g: FieldId| field_index(g) < fi as int + 1 implies match
                    #[trigger] nv.spec_get(g) {
                    Some(q) => q.is_bounded(),
                    None => true,
                } by {
                    if g != f {
                        assert(nv.spec_get(g) == nv_before.spec_get(g));
                    }
                }
            }
            let key_list = clone_strings(&srcs[fi]);
            translation.push((f, TranslationEntry { value: Quantity { micros: total }, source: key_list }));
            proof {
                assert(translation_upto(s, fi as int + 1) =~= translation_upto(s, fi as int)
                    + seq![(f, food_sum(s, f), food_sources(s, f))]);
                assert(translation_matches(translation@, translation_upto(s, fi as int + 1)));
                assert(merged_matches(s, nv, f));
            }
        } else {
            proof {
                assert(direct_matches(s, nv, f));
                assert(!has_food(s, f));
                lemma_food_sum_zero(s, f);
                if direct_value(s, f).is_some() {
                    lemma_direct_value_bounded(s, f);
                }
                assert(merged_matches(s, nv, f));
                assert(translation_upto(s, fi as int + 1) =~= translation_upto(s, fi as int));
                assert forall|g: FieldId| field_index(g) < fi as int + 1 implies merged_matches(
                    s,
                    nv,
                    g,
                ) by {}
                assert forall|g: FieldId| field_index(g) < fi as int + 1 implies match
                    #[trigger] nv.spec_get(g) {
                    Some(q) => q.is_bounded(),
                    None => true,
                } by {
                    if g == f {
                        if nv.spec_get(f).is_some() {
                            lemma_direct_value_bounded(s, f);
                        }
                    }
                }
            }
        }
        fi = fi + 1;
    }
    proof {
        assert(nv.wf()) by {
            assert(forall|f: FieldId|
                field_index(f) < FIELD_COUNT && field_index(f) >= 0 ==> match
                    #[trigger] nv.spec_get(f) {
                    Some(q) => q.is_bounded(),
                    None => true,
                });
            assert(forall|f: FieldId| 0 <= field_index(f) < FIELD_COUNT ==> match
                #[trigger] nv.spec_get(f) {
                Some(q) => q.is_bounded(),
                None => true,
            });
        }
    }
    (nv, aliases, conflicts, translation, unmapped)
}

impl NutritionVector {
    /// Normalize a raw row, tolerating missing data: the canonical vector
    /// plus the full audit trace. Keys that resolve to nothing are logged to
    /// the monitor.
    pub fn from_partial_map(
        data: &Vec<(String, Quantity)>,
        monitor: &mut UnmappedFieldMonitor,
    ) -> (r: (NutritionVector, InputTrace))
        requires
            data@.len() <= MAX_ROW_ENTRIES,
            forall|i: int| 0 <= i < data@.len() ==> (#[trigger] data@[i]).1.is_input(),
            distinct_keys(entries_view(data@)),
        ensures
            ({
                let s = entries_view(data@);
                &&& r.0.wf()
                &&& forall|f: FieldId| merged_matches(s, r.0, f)
                &&& r.1.used_fields@ == r.0.spec_used()
                &&& r.1.missing_fields@ == r.0.spec_missing()
                &&& keyed_match(r.1.aliases_applied@, aliases_upto(s, FIELD_COUNT as int))
                &&& keyed_match(r.1.conflicting_aliases@, conflicts_upto(s, FIELD_COUNT as int))
                &&& translation_matches(r.1.translation_log@, translation_upto(s, FIELD_COUNT as int))
                &&& mview(*final(monitor)) == logged_fold(mview(*old(monitor)), s)
            }),
    {
        let (nv, aliases, conflicts, translation, _unmapped) = normalize_row(data, monitor);
        let base = InputTrace::from_nv(&nv);
        let trace = InputTrace {
            used_fields: base.used_fields,
            missing_fields: base.missing_fields,
            aliases_applied: aliases,
            conflicting_aliases: conflicts,
            translation_log: translation,
        };
        (nv, trace)
    }

    /// Normalize a raw row strictly: fail with a structured error when the
    /// result has missing canonical fields, unmapped keys or conflicts.
    pub fn from_map(
        data: &Vec<(String, Quantity)>,
        monitor: &mut UnmappedFieldMonitor,
    ) -> (r: Result<NutritionVector, SchemaError>)
        requires
            data@.len() <= MAX_ROW_ENTRIES,
            forall|i: int| 0 <= i < data@.len() ==> (#[trigger] data@[i]).1.is_input(),
            distinct_keys(entries_view(data@)),
        ensures
            ({
                let s = entries_view(data@);
                &&& mview(*final(monitor)) == logged_fold(mview(*old(monitor)), s)
                &&& match r {
                    Ok(nv) => {
                        &&& nv.wf()
                        &&& forall|f: FieldId| merged_matches(s, nv, f)
                        &&& forall|f: FieldId| (#[trigger] merged_value(s, f)).is_some()
                        &&& unmapped_keys(s).len() == 0
                        &&& conflicts_upto(s, FIELD_COUNT as int).len() == 0
                    },
                    Err(e) => {
                        &&& ((exists|f: FieldId| (#[trigger] merged_value(s, f)).is_none())
                            || unmapped_keys(s).len() > 0 || conflicts_upto(
                            s,
                            FIELD_COUNT as int,
                        ).len() > 0)
                        &&& e.missing_canonical_fields@ == crate::normalize::model_missing_upto(
                            s,
                            FIELD_COUNT as int,
                        )
                        &&& strings_match(e.unmapped_aliases@, unmapped_keys(s))
                        &&& keyed_match(
                            e.conflicting_aliases@,
                            conflicts_upto(s, FIELD_COUNT as int),
                        )
                        &&& e.index_dependencies@.len() == e.missing_canonical_fields@.len()
                        &&& forall|i: int|
                            0 <= i < e.missing_canonical_fields@.len() ==> (
                            #[trigger] e.index_dependencies@[i]).0 == e.missing_canonical_fields@[i]
                                && e.index_dependencies@[i].1@ == spec_scores_requiring(
                                e.missing_canonical_fields@[i],
                            )
                    },
                }
            }),
    {
        let ghost s = entries_view(data@);
        let (nv, _aliases, conflicts, _translation, unmapped) = normalize_row(data, monitor);
        let missing = nv.missing_fields();
        proof {
            lemma_missing_is_model(s, nv, FIELD_COUNT as int);
        }
        if missing.len() > 0 || unmapped.len() > 0 || conflicts.len() > 0 {
            proof {
                if missing@.len() > 0 {
                    let f0 = missing@[0];
                    lemma_missing_used_partition(nv, f0);
                    assert(nv.spec_missing().contains(f0));
                    assert(nv.spec_get(f0).is_none());
                    assert(merged_matches(s, nv, f0));
                    assert(merged_value(s, f0).is_none());
                }
            }
            Err(SchemaError::new(missing, unmapped, conflicts))
        } else {
            proof {
                assert forall|f: FieldId| (#[trigger] merged_value(s, f)).is_some() by {
                    lemma_missing_used_partition(nv, f);
                    if nv.spec_get(f).is_none() {
                        assert(nv.spec_missing().contains(f));
                    }
                    assert(merged_matches(s, nv, f));
                }
            }
            Ok(nv)
        }
    }
}

/// The vector's missing-field list coincides with the model's: a vector
/// that matches the merged model misses exactly the fields the model
/// leaves absent.
proof fn lemma_missing_is_model(s: Seq<(Seq<char>, int)>, nv: NutritionVector, n: int)
    requires
        0 <= n <= FIELD_COUNT,
        forall|f: FieldId| merged_matches(s, nv, f),
    ensures
        missing_upto(nv, n) == crate::normalize::model_missing_upto(s, n),
    decreases n,
{
    if n > 0 {
        lemma_missing_is_model(s, nv, n - 1);
        assert(merged_matches(s, nv, spec_field_of(n - 1)));
    }
}

/// The scores that require a field, sorted by score name.
pub fn scores_requiring(f: FieldId) -> (r: Vec<ScoreId>)
    ensures
        r@ == spec_scores_requiring(f),
{
    let sorted = scores_sorted_by_name();
    let mut r: Vec<ScoreId> = Vec::new();
    let mut i: usize = 0;
    while i < SCORE_COUNT
        invariant
            0 <= i <= SCORE_COUNT,
            sorted@.len() == SCORE_COUNT,
            forall|k: int| 0 <= k < SCORE_COUNT ==> sorted@[k] == spec_sorted_score_of(k),
            r@ == scores_requiring_upto(f, i as int),
        decreases SCORE_COUNT - i,
    {
        let s = sorted[i];
        if score_requires(s, f) {
            r.push(s);
        }
        i = i + 1;
    }
    r
}

/// Does a score's contract list this field as required?
pub fn score_requires(s: ScoreId, f: FieldId) -> (r: bool)
    ensures
        r == requires_field(s, f),
{
    let req = crate::contracts::required_fields_of(s);
    let n = req.len();
    let mut i: usize = 0;
    while i < n
        invariant
            0 <= i <= n,
            n == req@.len(),
            req@ == crate::contracts::spec_required(s),
            forall|k: int| 0 <= k < i ==> req@[k] != f,
        decreases n - i,
    {
        if req[i] == f {
            proof {
                assert(crate::contracts::spec_required(s)[i as int] == f);
            }
            return true;
        }
        i = i + 1;
    }
    proof {
        if crate::contracts::spec_required(s).contains(f) {
            let k = choose|k: int|
                0 <= k < crate::contracts::spec_required(s).len() && crate::contracts::spec_required(
                    s,
                )[k] == f;
            assert(req@[k] != f);
        }
    }
    false
}

} // verus!
