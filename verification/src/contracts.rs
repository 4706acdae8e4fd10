//! The contract registry.
//!
//! For every score: its name, the canonical fields it requires, and the
//! numeric range its output must fall in (or no range, for scores whose
//! output is intentionally unbounded). Required-field lists are kept in
//! canonical field order — the alphabetical order of the field names — so
//! missing-field reports come out sorted.

use crate::fields::{field_index, FieldId};
use crate::quantity::Quantity;
use crate::text::str_eq;
use vstd::prelude::*;

verus! {

/// How many scores the registry holds.
pub const SCORE_COUNT: usize = 9;

/// One diet-quality score.
#[derive(Clone, Copy, Debug, PartialEq, Eq, Structural, Hash)]
pub enum ScoreId {
    Ahei,
    Hei,
    Dash,
    Dashi,
    AMed,
    Dii,
    Phdi,
    Acs2020,
    Mind,
}

/// The position of a score in the fixed registry (evaluation) order.
pub open spec fn registry_index(s: ScoreId) -> int {
    match s {
        ScoreId::Ahei => 0,
        ScoreId::Hei => 1,
        ScoreId::Dash => 2,
        ScoreId::Dashi => 3,
        ScoreId::AMed => 4,
        ScoreId::Dii => 5,
        ScoreId::Phdi => 6,
        ScoreId::Acs2020 => 7,
        ScoreId::Mind => 8,
    }
}

/// The score at a given position of the registry order.
pub open spec fn spec_score_of(i: int) -> ScoreId {
    if i == 0 {
        ScoreId::Ahei
    } else if i == 1 {
        ScoreId::Hei
    } else if i == 2 {
        ScoreId::Dash
    } else if i == 3 {
        ScoreId::Dashi
    } else if i == 4 {
        ScoreId::AMed
    } else if i == 5 {
        ScoreId::Dii
    } else if i == 6 {
        ScoreId::Phdi
    } else if i == 7 {
        ScoreId::Acs2020
    } else {
        ScoreId::Mind
    }
}

/// The score at a given position of the name-sorted order.
pub open spec fn spec_sorted_score_of(i: int) -> ScoreId {
    if i == 0 {
        ScoreId::Acs2020
    } else if i == 1 {
        ScoreId::Ahei
    } else if i == 2 {
        ScoreId::Dash
    } else if i == 3 {
        ScoreId::Dashi
    } else if i == 4 {
        ScoreId::Dii
    } else if i == 5 {
        ScoreId::Hei
    } else if i == 6 {
        ScoreId::Mind
    } else if i == 7 {
        ScoreId::Phdi
    } else {
        ScoreId::AMed
    }
}

/// The display name of a score.
pub open spec fn score_name_spec(s: ScoreId) -> Seq<char> {
    match s {
        ScoreId::Ahei => "AHEI"@,
        ScoreId::Hei => "HEI"@,
        ScoreId::Dash => "DASH"@,
        ScoreId::Dashi => "DASHI"@,
        ScoreId::AMed => "aMED"@,
        ScoreId::Dii => "DII"@,
        ScoreId::Phdi => "PHDI"@,
        ScoreId::Acs2020 => "ACS2020"@,
        ScoreId::Mind => "MIND"@,
    }
}

/// The canonical fields a score requires, in canonical field order.
pub open spec fn spec_required(s: ScoreId) -> Seq<FieldId> {
    match s {
        ScoreId::Ahei => seq![FieldId::FatG, FieldId::Fiber, FieldId::SaturatedFatG],
        ScoreId::Hei => seq![FieldId::SodiumMg, FieldId::TotalFruits, FieldId::WholeGrains],
        ScoreId::Dash => seq![
            FieldId::EnergyKcal,
            FieldId::SaturatedFatG,
            FieldId::SodiumMg,
            FieldId::TotalFruits,
            FieldId::Vegetables,
            FieldId::WholeGrains,
        ],
        ScoreId::Dashi => seq![
            FieldId::Calcium,
            FieldId::SodiumMg,
            FieldId::TotalFruits,
            FieldId::Vegetables,
            FieldId::WholeGrains,
        ],
        ScoreId::AMed => seq![
            FieldId::Fish,
            FieldId::Legumes,
            FieldId::MonoFat,
            FieldId::RedMeat,
            FieldId::TotalFruits,
            FieldId::Vegetables,
            FieldId::WholeGrains,
        ],
        ScoreId::Dii => seq![
            FieldId::Fiber,
            FieldId::Magnesium,
            FieldId::Omega3,
            FieldId::SaturatedFatG,
            FieldId::Selenium,
            FieldId::Sugar,
            FieldId::TransFat,
            FieldId::VitaminA,
            FieldId::VitaminC,
            FieldId::VitaminE,
            FieldId::Zinc,
        ],
        ScoreId::Phdi => seq![
            FieldId::EnergyKcal,
            FieldId::FatG,
            FieldId::Legumes,
            FieldId::RedMeat,
            FieldId::RefinedGrains,
            FieldId::SaturatedFatG,
            FieldId::Sugar,
            FieldId::TransFat,
            FieldId::Vegetables,
            FieldId::WholeGrains,
        ],
        ScoreId::Acs2020 => seq![
            FieldId::AlcoholG,
            FieldId::Legumes,
            FieldId::RedMeat,
            FieldId::Sugar,
            FieldId::TotalFruits,
            FieldId::Vegetables,
            FieldId::WholeGrains,
        ],
        ScoreId::Mind => seq![
            FieldId::Berries,
            FieldId::Butter,
            FieldId::Cheese,
            FieldId::FastFood,
            FieldId::Fish,
            FieldId::MonoFat,
            FieldId::Nuts,
            FieldId::Poultry,
            FieldId::RedMeat,
            FieldId::Sugar,
            FieldId::Vegetables,
            FieldId::WholeGrains,
        ],
    }
}

/// A score requires a field exactly when it stands in its required list.
pub open spec fn requires_field(s: ScoreId, f: FieldId) -> bool {
    spec_required(s).contains(f)
}

/// The valid output range of a score, in micro-points: `None` means the
/// score's output is unbounded and never range-checked.
pub open spec fn spec_range(s: ScoreId) -> Option<(int, int)> {
    match s {
        ScoreId::Ahei => Some((0int, 20_000_000int)),
        ScoreId::Hei => Some((0int, 30_000_000int)),
        ScoreId::Dash => Some((0int, 50_000_000int)),
        ScoreId::Dashi => Some((0int, 10_000_000int)),
        ScoreId::AMed => Some((0int, 70_000_000int)),
        ScoreId::Dii => None,
        ScoreId::Phdi => Some((0int, 80_000_000int)),
        ScoreId::Acs2020 => Some((0int, 70_000_000int)),
        ScoreId::Mind => Some((0int, 12_000_000int)),
    }
}

/// Every required list is sorted strictly by canonical field order.
pub proof fn lemma_required_sorted(s: ScoreId)
    ensures
        forall|i: int, j: int|
            0 <= i < j < spec_required(s).len() ==> field_index(spec_required(s)[i]) < field_index(
                spec_required(s)[j],
            ),
{
}

impl ScoreId {
    /// The display name of this score.
    pub fn name(self) -> (r: &'static str)
        ensures
            r@ == score_name_spec(self),
    {
        match self {
            ScoreId::Ahei => "AHEI",
            ScoreId::Hei => "HEI",
            ScoreId::Dash => "DASH",
            ScoreId::Dashi => "DASHI",
            ScoreId::AMed => "aMED",
            ScoreId::Dii => "DII",
            ScoreId::Phdi => "PHDI",
            ScoreId::Acs2020 => "ACS2020",
            ScoreId::Mind => "MIND",
        }
    }

    /// The score with the given (case-sensitive) display name, if any.
    pub fn from_name(name: &str) -> (r: Option<ScoreId>)
        ensures
            r == ScoreId::from_name_spec_helper(name@),
    {
        if str_eq(name, "AHEI") {
            Some(ScoreId::Ahei)
        } else if str_eq(name, "HEI") {
            Some(ScoreId::Hei)
        } else if str_eq(name, "DASH") {
            Some(ScoreId::Dash)
        } else if str_eq(name, "DASHI") {
            Some(ScoreId::Dashi)
        } else if str_eq(name, "aMED") {
            Some(ScoreId::AMed)
        } else if str_eq(name, "DII") {
            Some(ScoreId::Dii)
        } else if str_eq(name, "PHDI") {
            Some(ScoreId::Phdi)
        } else if str_eq(name, "ACS2020") {
            Some(ScoreId::Acs2020)
        } else if str_eq(name, "MIND") {
            Some(ScoreId::Mind)
        } else {
            None
        }
    }
}

/// The position of a score in the registry (evaluation) order.
pub fn registry_position(sc: ScoreId) -> (i: usize)
    ensures
        i as int == registry_index(sc),
        i < SCORE_COUNT,
{
    match sc {
        ScoreId::Ahei => 0,
        ScoreId::Hei => 1,
        ScoreId::Dash => 2,
        ScoreId::Dashi => 3,
        ScoreId::AMed => 4,
        ScoreId::Dii => 5,
        ScoreId::Phdi => 6,
        ScoreId::Acs2020 => 7,
        ScoreId::Mind => 8,
    }
}

/// Every score, in registry (evaluation) order.
pub fn all_score_ids() -> (v: Vec<ScoreId>)
    ensures
        v@.len() == SCORE_COUNT,
        forall|i: int| 0 <= i < SCORE_COUNT ==> v@[i] == spec_score_of(i),
        forall|i: int| 0 <= i < SCORE_COUNT ==> registry_index(#[trigger] v@[i]) == i,
{
    let mut v: Vec<ScoreId> = Vec::new();
    v.push(ScoreId::Ahei);
    v.push(ScoreId::Hei);
    v.push(ScoreId::Dash);
    v.push(ScoreId::Dashi);
    v.push(ScoreId::AMed);
    v.push(ScoreId::Dii);
    v.push(ScoreId::Phdi);
    v.push(ScoreId::Acs2020);
    v.push(ScoreId::Mind);
    v
}

/// Every score, sorted by display name.
pub fn scores_sorted_by_name() -> (v: Vec<ScoreId>)
    ensures
        v@.len() == SCORE_COUNT,
        forall|i: int| 0 <= i < SCORE_COUNT ==> v@[i] == spec_sorted_score_of(i),
{
    let mut v: Vec<ScoreId> = Vec::new();
    v.push(ScoreId::Acs2020);
    v.push(ScoreId::Ahei);
    v.push(ScoreId::Dash);
    v.push(ScoreId::Dashi);
    v.push(ScoreId::Dii);
    v.push(ScoreId::Hei);
    v.push(ScoreId::Mind);
    v.push(ScoreId::Phdi);
    v.push(ScoreId::AMed);
    v
}

/// The required canonical fields of a score, in canonical field order.
pub fn required_fields_of(s: ScoreId) -> (v: Vec<FieldId>)
    ensures
        v@ == spec_required(s),
{
    let mut v: Vec<FieldId> = Vec::new();
    match s {
        ScoreId::Ahei => {
            v.push(FieldId::FatG);
            v.push(FieldId::Fiber);
            v.push(FieldId::SaturatedFatG);
        },
        ScoreId::Hei => {
            v.push(FieldId::SodiumMg);
            v.push(FieldId::TotalFruits);
            v.push(FieldId::WholeGrains);
        },
        ScoreId::Dash => {
            v.push(FieldId::EnergyKcal);
            v.push(FieldId::SaturatedFatG);
            v.push(FieldId::SodiumMg);
            v.push(FieldId::TotalFruits);
            v.push(FieldId::Vegetables);
            v.push(FieldId::WholeGrains);
        },
        ScoreId::Dashi => {
            v.push(FieldId::Calcium);
            v.push(FieldId::SodiumMg);
            v.push(FieldId::TotalFruits);
            v.push(FieldId::Vegetables);
            v.push(FieldId::WholeGrains);
        },
        ScoreId::AMed => {
            v.push(FieldId::Fish);
            v.push(FieldId::Legumes);
            v.push(FieldId::MonoFat);
            v.push(FieldId::RedMeat);
            v.push(FieldId::TotalFruits);
            v.push(FieldId::Vegetables);
            v.push(FieldId::WholeGrains);
        },
        ScoreId::Dii => {
            v.push(FieldId::Fiber);
            v.push(FieldId::Magnesium);
            v.push(FieldId::Omega3);
            v.push(FieldId::SaturatedFatG);
            v.push(FieldId::Selenium);
            v.push(FieldId::Sugar);
            v.push(FieldId::TransFat);
            v.push(FieldId::VitaminA);
            v.push(FieldId::VitaminC);
            v.push(FieldId::VitaminE);
            v.push(FieldId::Zinc);
        },
        ScoreId::Phdi => {
            v.push(FieldId::EnergyKcal);
            v.push(FieldId::FatG);
            v.push(FieldId::Legumes);
            v.push(FieldId::RedMeat);
            v.push(FieldId::RefinedGrains);
            v.push(FieldId::SaturatedFatG);
            v.push(FieldId::Sugar);
            v.push(FieldId::TransFat);
            v.push(FieldId::Vegetables);
            v.push(FieldId::WholeGrains);
        },
        ScoreId::Acs2020 => {
            v.push(FieldId::AlcoholG);
            v.push(FieldId::Legumes);
            v.push(FieldId::RedMeat);
            v.push(FieldId::Sugar);
            v.push(FieldId::TotalFruits);
            v.push(FieldId::Vegetables);
            v.push(FieldId::WholeGrains);
        },
        ScoreId::Mind => {
            v.push(FieldId::Berries);
            v.push(FieldId::Butter);
            v.push(FieldId::Cheese);
            v.push(FieldId::FastFood);
            v.push(FieldId::Fish);
            v.push(FieldId::MonoFat);
            v.push(FieldId::Nuts);
            v.push(FieldId::Poultry);
            v.push(FieldId::RedMeat);
            v.push(FieldId::Sugar);
            v.push(FieldId::Vegetables);
            v.push(FieldId::WholeGrains);
        },
    }
    proof {
        assert(v@ =~= spec_required(s));
    }
    v
}

/// A score's contract: its required fields and its valid output range.
#[derive(Debug)]
pub struct Contract {
    /// The canonical fields the score needs, in canonical field order.
    pub required: Vec<FieldId>,
    /// The closed output range in micro-points, or `None` for unbounded.
    pub range: Option<(Quantity, Quantity)>,
}

/// The contract of a score.
pub fn get_contract(s: ScoreId) -> (r: Contract)
    ensures
        r.required@ == spec_required(s),
        match (r.range, spec_range(s)) {
            (Some((lo, hi)), Some((slo, shi))) => lo@ == slo && hi@ == shi,
            (None, None) => true,
            _ => false,
        },
{
    let required = required_fields_of(s);
    let range: Option<(Quantity, Quantity)> = match s {
        ScoreId::Ahei => Some((Quantity { micros: 0 }, Quantity { micros: 20_000_000 })),
        ScoreId::Hei => Some((Quantity { micros: 0 }, Quantity { micros: 30_000_000 })),
        ScoreId::Dash => Some((Quantity { micros: 0 }, Quantity { micros: 50_000_000 })),
        ScoreId::Dashi => Some((Quantity { micros: 0 }, Quantity { micros: 10_000_000 })),
        ScoreId::AMed => Some((Quantity { micros: 0 }, Quantity { micros: 70_000_000 })),
        ScoreId::Dii => None,
        ScoreId::Phdi => Some((Quantity { micros: 0 }, Quantity { micros: 80_000_000 })),
        ScoreId::Acs2020 => Some((Quantity { micros: 0 }, Quantity { micros: 70_000_000 })),
        ScoreId::Mind => Some((Quantity { micros: 0 }, Quantity { micros: 12_000_000 })),
    };
    Contract { required, range }
}

/// The required canonical fields of the score with the given name; an
/// unknown name has no required fields.
pub fn required_fields(name: &str) -> (v: Vec<FieldId>)
    ensures
        match ScoreId::from_name_spec_helper(name@) {
            Some(s) => v@ == spec_required(s),
            None => v@.len() == 0,
        },
{
    match ScoreId::from_name(name) {
        Some(s) => required_fields_of(s),
        None => Vec::new(),
    }
}

/// The valid output range of the score with the given name; an unknown
/// name, like an unbounded score, has none.
pub fn range(name: &str) -> (r: Option<(Quantity, Quantity)>)
    ensures
        match ScoreId::from_name_spec_helper(name@) {
            Some(s) => match (r, spec_range(s)) {
                (Some((lo, hi)), Some((slo, shi))) => lo@ == slo && hi@ == shi,
                (None, None) => true,
                _ => false,
            },
            None => r.is_none(),
        },
{
    match ScoreId::from_name(name) {
        Some(s) => get_contract(s).range,
        None => None,
    }
}

impl ScoreId {
    /// The score a name denotes, as a specification: names are compared
    /// exactly.
    pub open spec fn from_name_spec_helper(name: Seq<char>) -> Option<ScoreId> {
        if name == score_name_spec(ScoreId::Ahei) {
            Some(ScoreId::Ahei)
        } else if name == score_name_spec(ScoreId::Hei) {
            Some(ScoreId::Hei)
        } else if name == score_name_spec(ScoreId::Dash) {
            Some(ScoreId::Dash)
        } else if name == score_name_spec(ScoreId::Dashi) {
            Some(ScoreId::Dashi)
        } else if name == score_name_spec(ScoreId::AMed) {
            Some(ScoreId::AMed)
        } else if name == score_name_spec(ScoreId::Dii) {
            Some(ScoreId::Dii)
        } else if name == score_name_spec(ScoreId::Phdi) {
            Some(ScoreId::Phdi)
        } else if name == score_name_spec(ScoreId::Acs2020) {
            Some(ScoreId::Acs2020)
        } else if name == score_name_spec(ScoreId::Mind) {
            Some(ScoreId::Mind)
        } else {
            None
        }
    }
}

} // verus!
