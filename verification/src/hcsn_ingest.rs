//! The survey-sheet header adapter for HCSN-style exports: recognizes the
//! survey's serving- and mass-based column names and maps each to a
//! canonical-field spelling.

use crate::text::{lower, str_eq_ci};
use vstd::prelude::*;

verus! {

/// The canonical-field spelling an HCSN header maps to, if recognized
/// (case-insensitively).
pub open spec fn hcsn_target(h: Seq<char>) -> Option<Seq<char>> {
    if lower(h) == lower("leafy_green_veg_servings"@) {
        Some("vegetables"@)
    } else if lower(h) == lower("butter_servings"@) {
        Some("butter"@)
    } else if lower(h) == lower("whole_grain_g"@) {
        Some("whole_grains"@)
    } else if lower(h) == lower("berries_servings"@) {
        Some("berries"@)
    } else if lower(h) == lower("nuts_servings"@) {
        Some("nuts"@)
    } else if lower(h) == lower("fish_servings"@) {
        Some("fish"@)
    } else if lower(h) == lower("red_meat_servings"@) {
        Some("red_meat"@)
    } else if lower(h) == lower("olive_oil_servings"@) {
        Some("mono_fat"@)
    } else {
        None
    }
}

/// The canonical-field spelling an HCSN header maps to.
pub fn hcsn_header_target(h: &str) -> (r: Option<&'static str>)
    ensures
        match r {
            Some(t) => hcsn_target(h@) == Some(t@),
            None => hcsn_target(h@).is_none(),
        },
{
    if str_eq_ci(h, "leafy_green_veg_servings") {
        Some("vegetables")
    } else if str_eq_ci(h, "butter_servings") {
        Some("butter")
    } else if str_eq_ci(h, "whole_grain_g") {
        Some("whole_grains")
    } else if str_eq_ci(h, "berries_servings") {
        Some("berries")
    } else if str_eq_ci(h, "nuts_servings") {
        Some("nuts")
    } else if str_eq_ci(h, "fish_servings") {
        Some("fish")
    } else if str_eq_ci(h, "red_meat_servings") {
        Some("red_meat")
    } else if str_eq_ci(h, "olive_oil_servings") {
        Some("mono_fat")
    } else {
        None
    }
}

/// How many of the first `n` headers are recognized.
pub open spec fn hcsn_hits(hs: Seq<Seq<char>>, n: int) -> int
    decreases n,
{
    if n <= 0 {
        0
    } else {
        hcsn_hits(hs, n - 1) + if hcsn_target(hs[n - 1]).is_some() {
            1int
        } else {
            0int
        }
    }
}

/// A sheet is treated as an HCSN export when at least two of its headers
/// are recognized.
pub fn is_hcsn_sheet(headers: &Vec<String>) -> (r: bool)
    ensures
        r == (hcsn_hits(headers@.map_values(|h: String| h@), headers@.len() as int) >= 2),
{
    let ghost hs = headers@.map_values(|h: String| h@);
    let n = headers.len();
    let mut count: usize = 0;
    let mut i: usize = 0;
    while i < n
        invariant
            0 <= i <= n,
            n == headers@.len(),
            hs == headers@.map_values(|h: String| h@),
            count <= i,
            count as int == hcsn_hits(hs, i as int),
        decreases n - i,
    {
        proof {
            assert(hs[i as int] == headers@[i as int]@);
        }
        if hcsn_header_target(headers[i].as_str()).is_some() {
            count = count + 1;
        }
        i = i + 1;
    }
    count >= 2
}

/// The recognized headers among the first `n`, each with its target.
pub open spec fn hcsn_resolved_upto(hs: Seq<Seq<char>>, n: int) -> Seq<(Seq<char>, Seq<char>)>
    decreases n,
{
    if n <= 0 {
        Seq::empty()
    } else {
        hcsn_resolved_upto(hs, n - 1) + match hcsn_target(hs[n - 1]) {
            Some(t) => seq![(hs[n - 1], t)],
            None => Seq::empty(),
        }
    }
}

/// Map every recognized raw header to its canonical-field spelling, in
/// input order.
pub fn resolve_hcsn_headers(raw_headers: &Vec<String>) -> (r: Vec<(String, &'static str)>)
    ensures
        ({
            let m = hcsn_resolved_upto(
                raw_headers@.map_values(|h: String| h@),
                raw_headers@.len() as int,
            );
            &&& r@.len() == m.len()
            &&& forall|i: int|
                0 <= i < r@.len() ==> (#[trigger] r@[i]).0@ == m[i].0 && r@[i].1@ == m[i].1
        }),
{
    let ghost hs = raw_headers@.map_values(|h: String| h@);
    let n = raw_headers.len();
    let mut r: Vec<(String, &'static str)> = Vec::new();
    let mut i: usize = 0;
    while i < n
        invariant
            0 <= i <= n,
            n == raw_headers@.len(),
            hs == raw_headers@.map_values(|h: String| h@),
            r@.len() == hcsn_resolved_upto(hs, i as int).len(),
            forall|k: int|
                0 <= k < r@.len() ==> (#[trigger] r@[k]).0@ == hcsn_resolved_upto(
                    hs,
                    i as int,
                )[k].0 && r@[k].1@ == hcsn_resolved_upto(hs, i as int)[k].1,
        decreases n - i,
    {
        proof {
            assert(hs[i as int] == raw_headers@[i as int]@);
        }
        match hcsn_header_target(raw_headers[i].as_str()) {
            Some(t) => {
                r.push((raw_headers[i].clone(), t));
            },
            None => {},
        }
        i = i + 1;
    }
    r
}

} // verus!
