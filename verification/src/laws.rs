//! Engine-wide laws.
//!
//! Properties that relate several functions of the engine, stated over the
//! normalization model and the contract registry and proved once and for
//! all. The per-function contracts elsewhere state what each function
//! returns; these lemmas state what the pieces guarantee together.

use crate::aliases::lemma_canonical_name_resolves_to_itself;
use crate::contracts::{
    lemma_required_sorted, score_name_spec, spec_required, spec_sorted_score_of, ScoreId,
    SCORE_COUNT,
};
use crate::eval::{missing_req_upto, spec_missing_for};
use crate::fields::{field_index, field_name_spec, spec_field_of, FieldId, FIELD_COUNT};
use crate::normalize::{
    aliases_upto, alias_entry, conflicts_for, conflicts_upto, direct_value, distinct_keys,
    entry_exact, entry_resolves, exact_direct, first_direct, food_sum, lemma_exact_direct_witness,
    lemma_first_direct_is_entry, lemma_first_direct_none_converse, merged_value,
};
use crate::nutrition_vector::NutritionVector;
use crate::text::{lemma_lex_lt_by_diff, lemma_lex_lt_by_prefix, lemma_lex_lt_trans, lex_lt};
use vstd::prelude::*;

verus! {

/// The row holds an entry spelled exactly as the field's canonical name.
pub open spec fn row_offers(s: Seq<(Seq<char>, int)>, f: FieldId) -> bool {
    exists|i: int| 0 <= i < s.len() && (#[trigger] s[i]).0 == field_name_spec(f)
}

/// A row offering every canonical field by its exact name leaves no field
/// absent: the normalized vector misses nothing.
pub proof fn lemma_full_row_has_no_missing(s: Seq<(Seq<char>, int)>)
    requires
        forall|f: FieldId| #[trigger] row_offers(s, f),
    ensures
        forall|f: FieldId| (#[trigger] merged_value(s, f)).is_some(),
{
    assert forall|f: FieldId| (#[trigger] merged_value(s, f)).is_some() by {
        assert(row_offers(s, f));
        let i = choose|i: int| 0 <= i < s.len() && (#[trigger] s[i]).0 == field_name_spec(f);
        lemma_canonical_name_resolves_to_itself(f);
        assert(entry_resolves(s[i], f));
        if first_direct(s, f).is_none() {
            lemma_first_direct_none_converse(s, f);
        }
        assert(direct_value(s, f).is_some());
    }
}

/// An entry resolving to a field, standing after some other resolving
/// entry and not spelled exactly as the field, is recorded as a conflict
/// under its own key.
proof fn lemma_conflicts_contains_nonfirst(s: Seq<(Seq<char>, int)>, f: FieldId, j: int)
    requires
        0 <= j < s.len(),
        entry_resolves(s[j], f),
        s[j].0 != field_name_spec(f),
        exists|k: int| 0 <= k < j && entry_resolves(#[trigger] s[k], f),
    ensures
        conflicts_for(s, f).contains((s[j].0, f)),
    decreases s.len(),
{
    let l = s.len() - 1;
    let pre = s.drop_last();
    assert(forall|w: int| 0 <= w < pre.len() ==> pre[w] == s[w]);
    if j == l {
        let k = choose|k: int| 0 <= k < j && entry_resolves(#[trigger] s[k], f);
        if first_direct(pre, f).is_none() {
            lemma_first_direct_none_converse(pre, f);
            assert(!entry_resolves(pre[k], f));
        }
        assert(conflicts_for(s, f).last() == (s[j].0, f));
    } else {
        lemma_conflicts_contains_nonfirst(pre, f, j);
        let p = choose|p: int|
            0 <= p < conflicts_for(pre, f).len() && conflicts_for(pre, f)[p] == (s[j].0, f);
        assert(conflicts_for(s, f)[p] == (s[j].0, f));
    }
}

/// Conflict preference: when a row holds both the exact canonical spelling
/// of a field and an aliased spelling resolving to the same field, the
/// exactly-named entry's value is adopted and the aliased key is recorded
/// as a conflict.
pub proof fn lemma_conflict_prefers_exact(s: Seq<(Seq<char>, int)>, f: FieldId, i: int, j: int)
    requires
        distinct_keys(s),
        0 <= i < s.len(),
        0 <= j < s.len(),
        i != j,
        s[i].0 == field_name_spec(f),
        entry_resolves(s[j], f),
        s[j].0 != field_name_spec(f),
    ensures
        direct_value(s, f) == Some(s[i].1),
        conflicts_for(s, f).contains((s[j].0, f)),
    decreases s.len(),
{
    lemma_canonical_name_resolves_to_itself(f);
    assert(entry_resolves(s[i], f));
    assert(entry_exact(s[i], f));
    assert forall|k: int| 0 <= k < i implies !entry_exact(#[trigger] s[k], f) by {
        if entry_exact(s[k], f) {
            assert(s[k].0 == s[i].0);
        }
    }
    lemma_exact_direct_witness(s, f, i);
    assert(direct_value(s, f) == Some(s[i].1));
    if i < j {
        lemma_conflicts_contains_nonfirst(s, f, j);
    } else {
        lemma_conflict_alias_first(s, f, i, j);
    }
}

/// When the aliased entry stands first and the exact entry later, the
/// exact entry's processing records the aliased key as the conflict.
proof fn lemma_conflict_alias_first(s: Seq<(Seq<char>, int)>, f: FieldId, i: int, j: int)
    requires
        distinct_keys(s),
        0 <= j < i < s.len(),
        entry_exact(s[i], f),
        entry_resolves(s[j], f),
        s[j].0 != field_name_spec(f),
    ensures
        conflicts_for(s, f).contains((s[j].0, f)),
    decreases s.len(),
{
    let l = s.len() - 1;
    let pre = s.drop_last();
    assert(forall|w: int| 0 <= w < pre.len() ==> pre[w] == s[w]);
    if i == l {
        if exists|k: int| 0 <= k < j && entry_resolves(#[trigger] s[k], f) {
            lemma_conflicts_contains_nonfirst(s, f, j);
        } else {
            assert forall|k: int| 0 <= k < j implies !entry_resolves(#[trigger] pre[k], f) by {
                assert(pre[k] == s[k]);
            }
            crate::normalize::lemma_first_direct_witness(pre, f, j);
            assert(entry_resolves(s[l], f));
            assert(conflicts_for(s, f).last() == (s[j].0, f));
        }
    } else {
        lemma_conflict_alias_first(pre, f, i, j);
        let p = choose|p: int|
            0 <= p < conflicts_for(pre, f).len() && conflicts_for(pre, f)[p] == (s[j].0, f);
        assert(conflicts_for(s, f)[p] == (s[j].0, f));
    }
}

/// Food-item resolution is purely additive: the food-derived total of a
/// concatenation of two rows is the sum of the two rows' totals — repeated
/// ingredient contributions sum, they never overwrite.
pub proof fn lemma_food_sum_additive(s1: Seq<(Seq<char>, int)>, s2: Seq<(Seq<char>, int)>, f: FieldId)
    ensures
        food_sum(s1 + s2, f) == food_sum(s1, f) + food_sum(s2, f),
    decreases s2.len(),
{
    if s2.len() == 0 {
        assert(s1 + s2 =~= s1);
    } else {
        lemma_food_sum_additive(s1, s2.drop_last(), f);
        assert((s1 + s2).drop_last() =~= s1 + s2.drop_last());
        assert((s1 + s2).last() == s2.last());
    }
}

/// A field every resolving entry of which is spelled exactly records no
/// conflict under any aliased key — and with at most one resolving entry,
/// none at all.
proof fn lemma_conflicts_empty_when_unique(s: Seq<(Seq<char>, int)>, f: FieldId)
    requires
        forall|i: int, j: int|
            0 <= i < j < s.len() ==> !(entry_resolves(#[trigger] s[i], f) && entry_resolves(
                #[trigger] s[j],
                f,
            )),
    ensures
        conflicts_for(s, f) == Seq::<(Seq<char>, FieldId)>::empty(),
    decreases s.len(),
{
    if s.len() > 0 {
        let l = s.len() - 1;
        let pre = s.drop_last();
        assert(forall|w: int| 0 <= w < pre.len() ==> pre[w] == s[w]);
        lemma_conflicts_empty_when_unique(pre, f);
        if entry_resolves(s[l], f) && first_direct(pre, f).is_some() {
            lemma_first_direct_is_entry(pre, f);
            let w = choose|w: int|
                0 <= w < pre.len() && pre[w] == first_direct(pre, f).unwrap() && entry_resolves(
                    #[trigger] pre[w],
                    f,
                );
            assert(entry_resolves(s[w], f) && entry_resolves(s[l], f));
            assert(false);
        }
        assert(conflicts_for(s, f) =~= Seq::<(Seq<char>, FieldId)>::empty());
    }
}

/// Round trip: a row built entirely from exact canonical field names, with
/// no key repeated, records no alias substitutions and no conflicts.
pub proof fn lemma_canonical_row_round_trips(s: Seq<(Seq<char>, int)>)
    requires
        distinct_keys(s),
        forall|i: int|
            0 <= i < s.len() ==> exists|f: FieldId| (#[trigger] s[i]).0 == field_name_spec(f),
    ensures
        aliases_upto(s, FIELD_COUNT as int) == Seq::<(Seq<char>, FieldId)>::empty(),
        conflicts_upto(s, FIELD_COUNT as int) == Seq::<(Seq<char>, FieldId)>::empty(),
{
    assert forall|f: FieldId| alias_entry(s, f).is_none() by {
        match first_direct(s, f) {
            Some(e) => {
                lemma_first_direct_is_entry(s, f);
                let i = choose|i: int|
                    0 <= i < s.len() && s[i] == first_direct(s, f).unwrap() && entry_resolves(
                        #[trigger] s[i],
                        f,
                    );
                let g = choose|g: FieldId| s[i].0 == field_name_spec(g);
                lemma_canonical_name_resolves_to_itself(g);
                assert(crate::aliases::spec_canonical(s[i].0) == Some(g));
                assert(g == f);
                assert(e.0 == field_name_spec(f));
            },
            None => {},
        }
    }
    assert forall|f: FieldId| conflicts_for(s, f)
        == Seq::<(Seq<char>, FieldId)>::empty() by {
        assert forall|i: int, j: int|
            0 <= i < j < s.len() implies !(entry_resolves(#[trigger] s[i], f) && entry_resolves(
            #[trigger] s[j],
            f,
        )) by {
            if entry_resolves(s[i], f) && entry_resolves(s[j], f) {
                let g1 = choose|g: FieldId| s[i].0 == field_name_spec(g);
                let g2 = choose|g: FieldId| s[j].0 == field_name_spec(g);
                lemma_canonical_name_resolves_to_itself(g1);
                lemma_canonical_name_resolves_to_itself(g2);
                assert(g1 == f && g2 == f);
                assert(s[i].0 == s[j].0);
            }
        }
        lemma_conflicts_empty_when_unique(s, f);
    }
    lemma_upto_all_empty(s, FIELD_COUNT as int);
}

/// With every per-field record empty, the accumulated lists are empty.
proof fn lemma_upto_all_empty(s: Seq<(Seq<char>, int)>, n: int)
    requires
        0 <= n <= FIELD_COUNT,
        forall|f: FieldId| (#[trigger] alias_entry(s, f)).is_none(),
        forall|f: FieldId| #[trigger] conflicts_for(s, f) == Seq::<(Seq<char>, FieldId)>::empty(),
    ensures
        aliases_upto(s, n) == Seq::<(Seq<char>, FieldId)>::empty(),
        conflicts_upto(s, n) == Seq::<(Seq<char>, FieldId)>::empty(),
    decreases n,
{
    if n > 0 {
        lemma_upto_all_empty(s, n - 1);
        assert(aliases_upto(s, n) =~= Seq::<(Seq<char>, FieldId)>::empty());
        assert(conflicts_upto(s, n) =~= Seq::<(Seq<char>, FieldId)>::empty());
    }
}

/// A score's missing-field report lists exactly the required fields absent
/// from the vector, each at most once, in strictly increasing canonical
/// field order — required lists are kept sorted, so the report is too.
pub proof fn lemma_missing_for_exact_and_sorted(sc: ScoreId, nv: NutritionVector)
    ensures
        forall|f: FieldId|
            spec_missing_for(sc, nv).contains(f) <==> (crate::contracts::requires_field(sc, f)
                && nv.spec_get(f).is_none()),
        forall|p: int, q: int|
            0 <= p < q < spec_missing_for(sc, nv).len() ==> field_index(
                spec_missing_for(sc, nv)[p],
            ) < field_index(spec_missing_for(sc, nv)[q]),
{
    lemma_required_sorted(sc);
    lemma_missing_req_props(sc, nv, spec_required(sc).len() as int);
    assert forall|f: FieldId|
        spec_missing_for(sc, nv).contains(f) <==> (crate::contracts::requires_field(sc, f)
            && nv.spec_get(f).is_none()) by {
        if crate::contracts::requires_field(sc, f) && nv.spec_get(f).is_none() {
            let k = choose|k: int|
                0 <= k < spec_required(sc).len() && spec_required(sc)[k] == f;
            lemma_missing_req_membership(sc, nv, spec_required(sc).len() as int, k);
        }
        if spec_missing_for(sc, nv).contains(f) {
            let p = choose|p: int|
                0 <= p < spec_missing_for(sc, nv).len() && spec_missing_for(sc, nv)[p] == f;
        }
    }
}

/// Elements of the partial missing list come from the first `n` required
/// fields, are absent from the vector, and stand in strictly increasing
/// canonical order; every absent required field among the first `n` is
/// listed.
proof fn lemma_missing_req_props(sc: ScoreId, nv: NutritionVector, n: int)
    requires
        0 <= n <= spec_required(sc).len(),
        forall|i: int, j: int|
            0 <= i < j < spec_required(sc).len() ==> field_index(spec_required(sc)[i])
                < field_index(spec_required(sc)[j]),
    ensures
        forall|p: int|
            0 <= p < missing_req_upto(sc, nv, n).len() ==> exists|k: int|
                0 <= k < n && #[trigger] missing_req_upto(sc, nv, n)[p] == spec_required(sc)[k]
                    && nv.spec_get(spec_required(sc)[k]).is_none(),
        forall|p: int|
            0 <= p < missing_req_upto(sc, nv, n).len() && n >= 1 ==> field_index(
                #[trigger] missing_req_upto(sc, nv, n)[p],
            ) <= field_index(spec_required(sc)[n - 1]),
        forall|p: int, q: int|
            0 <= p < q < missing_req_upto(sc, nv, n).len() ==> field_index(
                missing_req_upto(sc, nv, n)[p],
            ) < field_index(missing_req_upto(sc, nv, n)[q]),
    decreases n,
{
    if n > 0 {
        lemma_missing_req_props(sc, nv, n - 1);
        let pre = missing_req_upto(sc, nv, n - 1);
        let cur = missing_req_upto(sc, nv, n);
        assert forall|p: int|
            0 <= p < cur.len() && n >= 1 implies field_index(#[trigger] cur[p]) <= field_index(
            spec_required(sc)[n - 1],
        ) by {
            if p < pre.len() {
                assert(cur[p] == pre[p]);
                if n >= 2 {
                    assert(field_index(pre[p]) <= field_index(spec_required(sc)[n - 2]));
                    assert(field_index(spec_required(sc)[n - 2]) < field_index(
                        spec_required(sc)[n - 1],
                    ));
                }
            }
        }
    }
}

/// An absent required field is listed in the partial missing list.
proof fn lemma_missing_req_membership(sc: ScoreId, nv: NutritionVector, n: int, k: int)
    requires
        0 <= k < n <= spec_required(sc).len(),
        nv.spec_get(spec_required(sc)[k]).is_none(),
    ensures
        missing_req_upto(sc, nv, n).contains(spec_required(sc)[k]),
    decreases n,
{
    if k == n - 1 {
        assert(missing_req_upto(sc, nv, n).last() == spec_required(sc)[k]);
    } else {
        lemma_missing_req_membership(sc, nv, n - 1, k);
        let pre = missing_req_upto(sc, nv, n - 1);
        let p = choose|p: int| 0 <= p < pre.len() && pre[p] == spec_required(sc)[k];
        assert(missing_req_upto(sc, nv, n)[p] == spec_required(sc)[k]);
    }
}


/// Adjacent canonical fields are in strict lexicographic name order.
proof fn lemma_adjacent_field_names_sorted()
    ensures
        forall|k: int|
            0 <= k < FIELD_COUNT - 1 ==> lex_lt(
                field_name_spec(#[trigger] spec_field_of(k)),
                field_name_spec(spec_field_of(k + 1)),
            ),
{
    reveal_strlit("alcohol_g");
    reveal_strlit("berries");
    reveal_strlit("butter");
    reveal_strlit("calcium");
    reveal_strlit("carbs");
    reveal_strlit("cheese");
    reveal_strlit("energy_kcal");
    reveal_strlit("fast_food");
    reveal_strlit("fat_g");
    reveal_strlit("fiber");
    reveal_strlit("fish");
    reveal_strlit("iron");
    reveal_strlit("legumes");
    reveal_strlit("magnesium");
    reveal_strlit("mono_fat");
    reveal_strlit("nuts");
    reveal_strlit("omega3");
    reveal_strlit("poultry");
    reveal_strlit("protein");
    reveal_strlit("red_meat");
    reveal_strlit("refined_grains");
    reveal_strlit("saturated_fat_g");
    reveal_strlit("selenium");
    reveal_strlit("sodium_mg");
    reveal_strlit("sugar");
    reveal_strlit("total_fruits");
    reveal_strlit("trans_fat");
    reveal_strlit("vegetables");
    reveal_strlit("vitamin_a");
    reveal_strlit("vitamin_c");
    reveal_strlit("vitamin_e");
    reveal_strlit("whole_grains");
    reveal_strlit("zinc");
    lemma_lex_lt_by_diff("alcohol_g"@, "berries"@, 0);
    lemma_lex_lt_by_diff("berries"@, "butter"@, 1);
    lemma_lex_lt_by_diff("butter"@, "calcium"@, 0);
    lemma_lex_lt_by_diff("calcium"@, "carbs"@, 2);
    lemma_lex_lt_by_diff("carbs"@, "cheese"@, 1);
    lemma_lex_lt_by_diff("cheese"@, "energy_kcal"@, 0);
    lemma_lex_lt_by_diff("energy_kcal"@, "fast_food"@, 0);
    lemma_lex_lt_by_diff("fast_food"@, "fat_g"@, 2);
    lemma_lex_lt_by_diff("fat_g"@, "fiber"@, 1);
    lemma_lex_lt_by_diff("fiber"@, "fish"@, 2);
    lemma_lex_lt_by_diff("fish"@, "iron"@, 0);
    lemma_lex_lt_by_diff("iron"@, "legumes"@, 0);
    lemma_lex_lt_by_diff("legumes"@, "magnesium"@, 0);
    lemma_lex_lt_by_diff("magnesium"@, "mono_fat"@, 1);
    lemma_lex_lt_by_diff("mono_fat"@, "nuts"@, 0);
    lemma_lex_lt_by_diff("nuts"@, "omega3"@, 0);
    lemma_lex_lt_by_diff("omega3"@, "poultry"@, 0);
    lemma_lex_lt_by_diff("poultry"@, "protein"@, 1);
    lemma_lex_lt_by_diff("protein"@, "red_meat"@, 0);
    lemma_lex_lt_by_diff("red_meat"@, "refined_grains"@, 2);
    lemma_lex_lt_by_diff("refined_grains"@, "saturated_fat_g"@, 0);
    lemma_lex_lt_by_diff("saturated_fat_g"@, "selenium"@, 1);
    lemma_lex_lt_by_diff("selenium"@, "sodium_mg"@, 1);
    lemma_lex_lt_by_diff("sodium_mg"@, "sugar"@, 1);
    lemma_lex_lt_by_diff("sugar"@, "total_fruits"@, 0);
    lemma_lex_lt_by_diff("total_fruits"@, "trans_fat"@, 1);
    lemma_lex_lt_by_diff("trans_fat"@, "vegetables"@, 0);
    lemma_lex_lt_by_diff("vegetables"@, "vitamin_a"@, 1);
    lemma_lex_lt_by_diff("vitamin_a"@, "vitamin_c"@, 8);
    lemma_lex_lt_by_diff("vitamin_c"@, "vitamin_e"@, 8);
    lemma_lex_lt_by_diff("vitamin_e"@, "whole_grains"@, 0);
    lemma_lex_lt_by_diff("whole_grains"@, "zinc"@, 0);
}

/// The canonical field order is exactly the lexicographic order of the
/// canonical names: missing-field lists kept in canonical order are sorted
/// alphabetically.
pub proof fn lemma_field_order_is_alphabetical(f: FieldId, g: FieldId)
    requires
        field_index(f) < field_index(g),
    ensures
        lex_lt(field_name_spec(f), field_name_spec(g)),
{
    lemma_adjacent_field_names_sorted();
    crate::fields::lemma_field_index_injective(f);
    crate::fields::lemma_field_index_injective(g);
    lemma_rank_chain(field_index(f), field_index(g));
}

/// Lexicographic order chains along the canonical positions.
proof fn lemma_rank_chain(i: int, j: int)
    requires
        0 <= i < j < FIELD_COUNT,
        forall|k: int|
            0 <= k < FIELD_COUNT - 1 ==> lex_lt(
                field_name_spec(#[trigger] spec_field_of(k)),
                field_name_spec(spec_field_of(k + 1)),
            ),
    ensures
        lex_lt(field_name_spec(spec_field_of(i)), field_name_spec(spec_field_of(j))),
    decreases j - i,
{
    if j == i + 1 {
    } else {
        lemma_rank_chain(i, j - 1);
        lemma_lex_lt_trans(
            field_name_spec(spec_field_of(i)),
            field_name_spec(spec_field_of(j - 1)),
            field_name_spec(spec_field_of(j)),
        );
    }
}


/// Adjacent scores of the name-sorted order are in strict lexicographic
/// name order.
proof fn lemma_adjacent_score_names_sorted()
    ensures
        forall|k: int|
            0 <= k < SCORE_COUNT - 1 ==> lex_lt(
                score_name_spec(#[trigger] spec_sorted_score_of(k)),
                score_name_spec(spec_sorted_score_of(k + 1)),
            ),
{
    reveal_strlit("ACS2020");
    reveal_strlit("AHEI");
    reveal_strlit("DASH");
    reveal_strlit("DASHI");
    reveal_strlit("DII");
    reveal_strlit("HEI");
    reveal_strlit("MIND");
    reveal_strlit("PHDI");
    reveal_strlit("aMED");
    lemma_lex_lt_by_diff("ACS2020"@, "AHEI"@, 1);
    lemma_lex_lt_by_diff("AHEI"@, "DASH"@, 0);
    lemma_lex_lt_by_prefix("DASH"@, "DASHI"@);
    lemma_lex_lt_by_diff("DASHI"@, "DII"@, 1);
    lemma_lex_lt_by_diff("DII"@, "HEI"@, 0);
    lemma_lex_lt_by_diff("HEI"@, "MIND"@, 0);
    lemma_lex_lt_by_diff("MIND"@, "PHDI"@, 0);
    lemma_lex_lt_by_diff("PHDI"@, "aMED"@, 0);
}

/// The name-sorted score order is exactly the lexicographic order of the
/// score names: skipped-score reports come out sorted alphabetically.
pub proof fn lemma_score_order_is_alphabetical(k1: int, k2: int)
    requires
        0 <= k1 < k2 < SCORE_COUNT,
    ensures
        lex_lt(
            score_name_spec(spec_sorted_score_of(k1)),
            score_name_spec(spec_sorted_score_of(k2)),
        ),
    decreases k2 - k1,
{
    lemma_adjacent_score_names_sorted();
    if k2 == k1 + 1 {
    } else {
        lemma_score_order_is_alphabetical(k1, k2 - 1);
        lemma_lex_lt_trans(
            score_name_spec(spec_sorted_score_of(k1)),
            score_name_spec(spec_sorted_score_of(k2 - 1)),
            score_name_spec(spec_sorted_score_of(k2)),
        );
    }
}

} // verus!
