//! The mathematical model of schema normalization.
//!
//! A raw input row is a sequence of (key, amount) pairs with distinct keys.
//! These functions say, for such a row, exactly which value every canonical
//! field receives, which alias substitutions and conflicts are recorded,
//! what the food-item resolver contributes, and which keys stay unmapped.
//! The executable normalizer in [`crate::nutrition_vector`] is specified
//! against this model; the engine's laws are proved about it.
//!
//! Entries are processed field by field in canonical field order, and
//! within one field in input order, so normalization is deterministic. For
//! one field, the entry whose raw key is exactly the canonical name wins
//! over aliased entries; otherwise the first entry in input order wins.
//! Every later entry for an already-populated field is recorded as a
//! conflict and discarded.

use crate::aliases::spec_canonical;
use crate::fields::{field_name_spec, spec_field_of, FieldId};
use crate::food_item_resolver::spec_resolve;
use vstd::prelude::*;

verus! {

/// The raw row a normalization run consumes: keys with fixed-point amounts.
pub open spec fn entries_view(data: Seq<(String, crate::quantity::Quantity)>) -> Seq<
    (Seq<char>, int),
> {
    data.map_values(|p: (String, crate::quantity::Quantity)| (p.0@, p.1@))
}

/// The entry's key canonicalizes to `f`.
pub open spec fn entry_resolves(e: (Seq<char>, int), f: FieldId) -> bool {
    spec_canonical(e.0) == Some(f)
}

/// The entry's key is exactly the canonical name of `f` (and resolves to it).
pub open spec fn entry_exact(e: (Seq<char>, int), f: FieldId) -> bool {
    entry_resolves(e, f) && e.0 == field_name_spec(f)
}

/// The first entry, in input order, resolving to `f`.
pub open spec fn first_direct(s: Seq<(Seq<char>, int)>, f: FieldId) -> Option<(Seq<char>, int)>
    decreases s.len(),
{
    if s.len() == 0 {
        None
    } else if entry_resolves(s[0], f) {
        Some(s[0])
    } else {
        first_direct(s.subrange(1, s.len() as int), f)
    }
}

/// The first entry, in input order, whose key is exactly the canonical name
/// of `f`.
pub open spec fn exact_direct(s: Seq<(Seq<char>, int)>, f: FieldId) -> Option<(Seq<char>, int)>
    decreases s.len(),
{
    if s.len() == 0 {
        None
    } else if entry_exact(s[0], f) {
        Some(s[0])
    } else {
        exact_direct(s.subrange(1, s.len() as int), f)
    }
}

/// The directly-adopted value for `f`: the exactly-named entry's value if
/// one exists, else the first resolving entry's value.
pub open spec fn direct_value(s: Seq<(Seq<char>, int)>, f: FieldId) -> Option<int> {
    match exact_direct(s, f) {
        Some(e) => Some(e.1),
        None => match first_direct(s, f) {
            Some(e) => Some(e.1),
            None => None,
        },
    }
}

/// The canonical-field contributions an entry yields through the food-item
/// resolver, or nothing if its key canonicalizes or does not resolve.
pub open spec fn entry_food_items(e: (Seq<char>, int)) -> Option<Seq<(FieldId, int)>> {
    if spec_canonical(e.0).is_none() {
        spec_resolve(e.0, e.1)
    } else {
        None
    }
}

/// The summed contribution to `f` within one contribution list.
pub open spec fn items_sum(items: Seq<(FieldId, int)>, f: FieldId) -> int
    decreases items.len(),
{
    if items.len() == 0 {
        0
    } else {
        items_sum(items.drop_last(), f) + if items.last().0 == f {
            items.last().1
        } else {
            0
        }
    }
}

/// What one entry contributes to `f`.
pub open spec fn contrib_of(e: (Seq<char>, int), f: FieldId) -> int {
    match entry_food_items(e) {
        Some(items) => items_sum(items, f),
        None => 0,
    }
}

/// The entry contributes to `f` (even if the contributed amount is zero).
pub open spec fn entry_contributes(e: (Seq<char>, int), f: FieldId) -> bool {
    match entry_food_items(e) {
        Some(items) => exists|j: int| 0 <= j < items.len() && (#[trigger] items[j]).0 == f,
        None => false,
    }
}

/// The food-derived total for `f` over a whole row.
pub open spec fn food_sum(s: Seq<(Seq<char>, int)>, f: FieldId) -> int
    decreases s.len(),
{
    if s.len() == 0 {
        0
    } else {
        food_sum(s.drop_last(), f) + contrib_of(s.last(), f)
    }
}

/// Some entry of the row contributes to `f`.
pub open spec fn has_food(s: Seq<(Seq<char>, int)>, f: FieldId) -> bool {
    exists|i: int| 0 <= i < s.len() && entry_contributes(#[trigger] s[i], f)
}

/// The keys contributing to `f`, in input order.
pub open spec fn food_sources(s: Seq<(Seq<char>, int)>, f: FieldId) -> Seq<Seq<char>>
    decreases s.len(),
{
    if s.len() == 0 {
        Seq::empty()
    } else {
        food_sources(s.drop_last(), f) + if entry_contributes(s.last(), f) {
            seq![s.last().0]
        } else {
            Seq::empty()
        }
    }
}

/// The value a canonical field ends up with: the directly-adopted value
/// plus all food-derived contributions, or absent when the row offers
/// neither.
pub open spec fn merged_value(s: Seq<(Seq<char>, int)>, f: FieldId) -> Option<int> {
    if direct_value(s, f).is_some() || has_food(s, f) {
        Some(
            (match direct_value(s, f) {
                Some(v) => v,
                None => 0,
            }) + food_sum(s, f),
        )
    } else {
        None
    }
}

/// The entry's key neither canonicalizes nor food-resolves.
pub open spec fn entry_unmapped(e: (Seq<char>, int)) -> bool {
    spec_canonical(e.0).is_none() && spec_resolve(e.0, e.1).is_none()
}

/// The unmapped keys of a row, in input order.
pub open spec fn unmapped_keys(s: Seq<(Seq<char>, int)>) -> Seq<Seq<char>>
    decreases s.len(),
{
    if s.len() == 0 {
        Seq::empty()
    } else {
        unmapped_keys(s.drop_last()) + if entry_unmapped(s.last()) {
            seq![s.last().0]
        } else {
            Seq::empty()
        }
    }
}

/// The alias-substitution record for one field: the first resolving entry's
/// key, when that key is not the canonical name itself.
pub open spec fn alias_entry(s: Seq<(Seq<char>, int)>, f: FieldId) -> Option<(Seq<char>, FieldId)> {
    match first_direct(s, f) {
        Some(e) => if e.0 != field_name_spec(f) {
            Some((e.0, f))
        } else {
            None
        },
        None => None,
    }
}

/// The alias-substitution records over the first `n` canonical fields.
pub open spec fn aliases_upto(s: Seq<(Seq<char>, int)>, n: int) -> Seq<(Seq<char>, FieldId)>
    decreases n,
{
    if n <= 0 {
        Seq::empty()
    } else {
        aliases_upto(s, n - 1) + match alias_entry(s, spec_field_of(n - 1)) {
            Some(p) => seq![p],
            None => Seq::empty(),
        }
    }
}

/// The conflict records for one field, in input order: every resolving
/// entry beyond the first. A conflicting entry spelled exactly as the
/// canonical name displaces the earlier entry, so the earlier entry's key
/// is the one recorded; otherwise the discarded newcomer's key is recorded.
pub open spec fn conflicts_for(s: Seq<(Seq<char>, int)>, f: FieldId) -> Seq<(Seq<char>, FieldId)>
    decreases s.len(),
{
    if s.len() == 0 {
        Seq::empty()
    } else {
        conflicts_for(s.drop_last(), f) + if entry_resolves(s.last(), f) && first_direct(
            s.drop_last(),
            f,
        ).is_some() {
            seq![
                (
                    if s.last().0 == field_name_spec(f) {
                        first_direct(s.drop_last(), f).unwrap().0
                    } else {
                        s.last().0
                    },
                    f,
                ),
            ]
        } else {
            Seq::empty()
        }
    }
}

/// The conflict records over the first `n` canonical fields, grouped by
/// field in canonical order.
pub open spec fn conflicts_upto(s: Seq<(Seq<char>, int)>, n: int) -> Seq<(Seq<char>, FieldId)>
    decreases n,
{
    if n <= 0 {
        Seq::empty()
    } else {
        conflicts_upto(s, n - 1) + conflicts_for(s, spec_field_of(n - 1))
    }
}

/// The food-translation records over the first `n` canonical fields: for
/// every field with contributions, its summed value and contributing keys.
pub open spec fn translation_upto(s: Seq<(Seq<char>, int)>, n: int) -> Seq<
    (FieldId, int, Seq<Seq<char>>),
> {
    translation_upto_rec(s, n)
}

pub open spec fn translation_upto_rec(s: Seq<(Seq<char>, int)>, n: int) -> Seq<
    (FieldId, int, Seq<Seq<char>>),
>
    decreases n,
{
    if n <= 0 {
        Seq::empty()
    } else {
        translation_upto_rec(s, n - 1) + if has_food(s, spec_field_of(n - 1)) {
            seq![
                (
                    spec_field_of(n - 1),
                    food_sum(s, spec_field_of(n - 1)),
                    food_sources(s, spec_field_of(n - 1)),
                ),
            ]
        } else {
            Seq::empty()
        }
    }
}

/// An executable key/field pair list carries exactly this model list.
pub open spec fn keyed_match(
    v: Seq<(String, FieldId)>,
    m: Seq<(Seq<char>, FieldId)>,
) -> bool {
    &&& v.len() == m.len()
    &&& forall|i: int|
        0 <= i < v.len() ==> (#[trigger] v[i]).0@ == m[i].0 && v[i].1 == m[i].1
}

/// An executable key list carries exactly this model list.
pub open spec fn strings_match(v: Seq<String>, m: Seq<Seq<char>>) -> bool {
    &&& v.len() == m.len()
    &&& forall|i: int| 0 <= i < v.len() ==> (#[trigger] v[i])@ == m[i]
}

/// An executable translation log carries exactly this model list.
pub open spec fn translation_matches(
    v: Seq<(FieldId, crate::food_item_resolver::TranslationEntry)>,
    m: Seq<(FieldId, int, Seq<Seq<char>>)>,
) -> bool {
    &&& v.len() == m.len()
    &&& forall|i: int|
        0 <= i < v.len() ==> (#[trigger] v[i]).0 == m[i].0 && v[i].1.value@ == m[i].1
            && strings_match(v[i].1.source@, m[i].2)
}

/// Every amount of the row is small enough to be a raw input value.
pub open spec fn bounded_entries(s: Seq<(Seq<char>, int)>) -> bool {
    forall|i: int|
        0 <= i < s.len() ==> -(crate::quantity::MAX_INPUT_MICROS as int) <= (#[trigger] s[i]).1
            <= crate::quantity::MAX_INPUT_MICROS as int
}

/// No two entries share a raw key.
pub open spec fn distinct_keys(s: Seq<(Seq<char>, int)>) -> bool {
    forall|i: int, j: int| 0 <= i < j < s.len() ==> (#[trigger] s[i]).0 != (#[trigger] s[j]).0
}

/// What the unmapped-field monitor holds after a row is normalized: one
/// log call, in input order, for every unmapped key.
pub open spec fn logged_fold(
    m: Seq<(Seq<char>, int, Seq<int>)>,
    s: Seq<(Seq<char>, int)>,
) -> Seq<(Seq<char>, int, Seq<int>)>
    decreases s.len(),
{
    if s.len() == 0 {
        m
    } else {
        let prev = logged_fold(m, s.drop_last());
        if entry_unmapped(s.last()) {
            crate::unmapped_monitor::spec_logged(prev, s.last().0, Some(s.last().1))
        } else {
            prev
        }
    }
}

/// A first-resolving witness pins `first_direct`.
pub proof fn lemma_first_direct_witness(s: Seq<(Seq<char>, int)>, f: FieldId, i: int)
    requires
        0 <= i < s.len(),
        entry_resolves(s[i], f),
        forall|j: int| 0 <= j < i ==> !entry_resolves(#[trigger] s[j], f),
    ensures
        first_direct(s, f) == Some(s[i]),
    decreases s.len(),
{
    if entry_resolves(s[0], f) {
        assert(i == 0);
    } else {
        let t = s.subrange(1, s.len() as int);
        lemma_first_direct_witness(t, f, i - 1);
    }
}

/// With no resolving entry, `first_direct` finds nothing.
pub proof fn lemma_first_direct_none(s: Seq<(Seq<char>, int)>, f: FieldId)
    requires
        forall|j: int| 0 <= j < s.len() ==> !entry_resolves(#[trigger] s[j], f),
    ensures
        first_direct(s, f).is_none(),
    decreases s.len(),
{
    if s.len() > 0 {
        lemma_first_direct_none(s.subrange(1, s.len() as int), f);
    }
}

/// A first-exact witness pins `exact_direct`.
pub proof fn lemma_exact_direct_witness(s: Seq<(Seq<char>, int)>, f: FieldId, i: int)
    requires
        0 <= i < s.len(),
        entry_exact(s[i], f),
        forall|j: int| 0 <= j < i ==> !entry_exact(#[trigger] s[j], f),
    ensures
        exact_direct(s, f) == Some(s[i]),
    decreases s.len(),
{
    if entry_exact(s[0], f) {
        assert(i == 0);
    } else {
        let t = s.subrange(1, s.len() as int);
        lemma_exact_direct_witness(t, f, i - 1);
    }
}

/// With no exactly-named entry, `exact_direct` finds nothing.
pub proof fn lemma_exact_direct_none(s: Seq<(Seq<char>, int)>, f: FieldId)
    requires
        forall|j: int| 0 <= j < s.len() ==> !entry_exact(#[trigger] s[j], f),
    ensures
        exact_direct(s, f).is_none(),
    decreases s.len(),
{
    if s.len() > 0 {
        lemma_exact_direct_none(s.subrange(1, s.len() as int), f);
    }
}

/// Whatever `first_direct` returns is an entry of the row resolving to `f`.
pub proof fn lemma_first_direct_is_entry(s: Seq<(Seq<char>, int)>, f: FieldId)
    requires
        first_direct(s, f).is_some(),
    ensures
        exists|i: int|
            0 <= i < s.len() && s[i] == first_direct(s, f).unwrap() && entry_resolves(
                #[trigger] s[i],
                f,
            ),
    decreases s.len(),
{
    if entry_resolves(s[0], f) {
        assert(s[0] == first_direct(s, f).unwrap());
    } else {
        let t = s.subrange(1, s.len() as int);
        lemma_first_direct_is_entry(t, f);
        let i = choose|i: int|
            0 <= i < t.len() && t[i] == first_direct(t, f).unwrap() && entry_resolves(
                #[trigger] t[i],
                f,
            );
        assert(s[i + 1] == t[i]);
    }
}

/// Whatever `exact_direct` returns is an entry of the row exactly named
/// after `f`.
pub proof fn lemma_exact_direct_is_entry(s: Seq<(Seq<char>, int)>, f: FieldId)
    requires
        exact_direct(s, f).is_some(),
    ensures
        exists|i: int|
            0 <= i < s.len() && s[i] == exact_direct(s, f).unwrap() && entry_exact(
                #[trigger] s[i],
                f,
            ),
    decreases s.len(),
{
    if entry_exact(s[0], f) {
        assert(s[0] == exact_direct(s, f).unwrap());
    } else {
        let t = s.subrange(1, s.len() as int);
        lemma_exact_direct_is_entry(t, f);
        let i = choose|i: int|
            0 <= i < t.len() && t[i] == exact_direct(t, f).unwrap() && entry_exact(
                #[trigger] t[i],
                f,
            );
        assert(s[i + 1] == t[i]);
    }
}

/// A directly-adopted value is bounded by the raw-input bound.
pub proof fn lemma_direct_value_bounded(s: Seq<(Seq<char>, int)>, f: FieldId)
    requires
        bounded_entries(s),
        direct_value(s, f).is_some(),
    ensures
        -(crate::quantity::MAX_INPUT_MICROS as int) <= direct_value(s, f).unwrap()
            <= crate::quantity::MAX_INPUT_MICROS as int,
{
    match exact_direct(s, f) {
        Some(e) => {
            lemma_exact_direct_is_entry(s, f);
        },
        None => {
            lemma_first_direct_is_entry(s, f);
        },
    }
}

/// With `first_direct` empty, no entry resolves at all.
pub proof fn lemma_first_direct_none_converse(s: Seq<(Seq<char>, int)>, f: FieldId)
    requires
        first_direct(s, f).is_none(),
    ensures
        forall|i: int| 0 <= i < s.len() ==> !entry_resolves(#[trigger] s[i], f),
    decreases s.len(),
{
    if s.len() > 0 {
        let t = s.subrange(1, s.len() as int);
        lemma_first_direct_none_converse(t, f);
        assert(forall|i: int| 1 <= i < s.len() ==> s[i] == t[i - 1]);
    }
}

/// A field no entry resolves to records no conflicts.
pub proof fn lemma_conflicts_for_no_direct(s: Seq<(Seq<char>, int)>, f: FieldId)
    requires
        forall|i: int| 0 <= i < s.len() ==> !entry_resolves(#[trigger] s[i], f),
    ensures
        conflicts_for(s, f) == Seq::<(Seq<char>, FieldId)>::empty(),
    decreases s.len(),
{
    if s.len() > 0 {
        let t = s.drop_last();
        assert(forall|i: int| 0 <= i < t.len() ==> t[i] == s[i]);
        lemma_conflicts_for_no_direct(t, f);
        assert(conflicts_for(s, f) =~= Seq::<(Seq<char>, FieldId)>::empty());
    }
}

/// The canonical fields, in canonical order, that a row leaves absent.
pub open spec fn model_missing_upto(s: Seq<(Seq<char>, int)>, n: int) -> Seq<FieldId>
    decreases n,
{
    if n <= 0 {
        Seq::empty()
    } else {
        model_missing_upto(s, n - 1) + if merged_value(s, spec_field_of(n - 1)).is_none() {
            seq![spec_field_of(n - 1)]
        } else {
            Seq::empty()
        }
    }
}

/// A row with no contribution to `f` has a zero food total.
pub proof fn lemma_food_sum_zero(s: Seq<(Seq<char>, int)>, f: FieldId)
    requires
        !has_food(s, f),
    ensures
        food_sum(s, f) == 0,
    decreases s.len(),
{
    if s.len() > 0 {
        let t = s.drop_last();
        assert(forall|i: int|
            0 <= i < t.len() ==> !entry_contributes(#[trigger] t[i], f)) by {
            assert(forall|i: int|
                0 <= i < t.len() ==> t[i] == s[i] && !entry_contributes(#[trigger] s[i], f));
        }
        lemma_food_sum_zero(t, f);
        assert(!entry_contributes(s.last(), f));
        lemma_items_sum_no_match(s.last(), f);
    }
}

/// An entry not contributing to `f` contributes the amount zero.
proof fn lemma_items_sum_no_match(e: (Seq<char>, int), f: FieldId)
    requires
        !entry_contributes(e, f),
    ensures
        contrib_of(e, f) == 0,
{
    match entry_food_items(e) {
        Some(items) => {
            lemma_items_sum_all_other(items, f);
        },
        None => {},
    }
}

proof fn lemma_items_sum_all_other(items: Seq<(FieldId, int)>, f: FieldId)
    requires
        forall|j: int| 0 <= j < items.len() ==> (#[trigger] items[j]).0 != f,
    ensures
        items_sum(items, f) == 0,
    decreases items.len(),
{
    if items.len() > 0 {
        let t = items.drop_last();
        assert(forall|j: int| 0 <= j < t.len() ==> (#[trigger] t[j]).0 != f) by {
            assert(forall|j: int| 0 <= j < t.len() ==> t[j] == items[j]);
        }
        lemma_items_sum_all_other(t, f);
    }
}

} // verus!
