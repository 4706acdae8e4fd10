//! The survey-sheet header adapter for ACS2020-style exports: recognizes
//! the survey's column spellings, or any `_acs2020`-suffixed form of them,
//! and maps each to the survey's canonical column name.

use crate::text::{ci_ends_with, ends_with_ci, lower, str_eq_ci};
use vstd::prelude::*;

verus! {

/// The survey column name a base header spelling maps to, if recognized
/// (case-insensitively).
pub open spec fn acs2020_base_target(h: Seq<char>) -> Option<Seq<char>> {
    if lower(h) == lower("vegetable"@) {
        Some("VEG_SERV_ACS2020"@)
    } else if lower(h) == lower("fruit"@) {
        Some("FRT_SERV_ACS2020"@)
    } else if lower(h) == lower("kcal"@) {
        Some("TOTALKCAL_ACS2020"@)
    } else if lower(h) == lower("whole_grains"@) {
        Some("WGRAIN_SERV_ACS2020"@)
    } else if lower(h) == lower("legumes"@) {
        Some("LEGUMES_SERV_ACS2020"@)
    } else if lower(h) == lower("red_meat"@) {
        Some("REDPROCMEAT_SERV_ACS2020"@)
    } else {
        None
    }
}

/// The survey column name a header maps to: its base spelling directly, or
/// the base left after stripping an `_acs2020` suffix.
pub open spec fn acs2020_target(h: Seq<char>) -> Option<Seq<char>> {
    match acs2020_base_target(h) {
        Some(t) => Some(t),
        None => if ci_ends_with(h, "_acs2020"@) {
            acs2020_base_target(lower(h).subrange(0, lower(h).len() - 8))
        } else {
            None
        },
    }
}

/// A header counts toward sheet detection when it carries the `_acs2020`
/// suffix or maps through the base table.
pub open spec fn acs2020_hit(h: Seq<char>) -> bool {
    ci_ends_with(h, "_acs2020"@) || acs2020_base_target(h).is_some()
}

/// The survey column name a base header spelling maps to.
fn acs2020_base_target_exec(h: &str) -> (r: Option<&'static str>)
    ensures
        match r {
            Some(t) => acs2020_base_target(h@) == Some(t@),
            None => acs2020_base_target(h@).is_none(),
        },
{
    if str_eq_ci(h, "vegetable") {
        Some("VEG_SERV_ACS2020")
    } else if str_eq_ci(h, "fruit") {
        Some("FRT_SERV_ACS2020")
    } else if str_eq_ci(h, "kcal") {
        Some("TOTALKCAL_ACS2020")
    } else if str_eq_ci(h, "whole_grains") {
        Some("WGRAIN_SERV_ACS2020")
    } else if str_eq_ci(h, "legumes") {
        Some("LEGUMES_SERV_ACS2020")
    } else if str_eq_ci(h, "red_meat") {
        Some("REDPROCMEAT_SERV_ACS2020")
    } else {
        None
    }
}

/// The survey column name a header maps to, if any.
pub fn acs2020_header_target(h: &str) -> (r: Option<&'static str>)
    ensures
        match r {
            Some(t) => acs2020_target(h@) == Some(t@),
            None => acs2020_target(h@).is_none(),
        },
{
    proof {
        reveal_strlit("_acs2020");
        assert(lower("_acs2020"@) =~= "_acs2020"@);
    }
    match acs2020_base_target_exec(h) {
        Some(t) => Some(t),
        None => {
            if ends_with_ci(h, "_acs2020") {
                let n = h.unicode_len();
                proof {
                    assert(n >= 8);
                }
                let base = h.substring_char(0, n - 8);
                proof {
                    assert(lower(base@) =~= lower(h@).subrange(0, lower(h@).len() - 8));
                }
                match acs2020_base_target_exec(base) {
                    Some(t) => {
                        proof {
                            lemma_base_target_ci(base@);
                        }
                        Some(t)
                    },
                    None => {
                        proof {
                            lemma_base_target_ci(base@);
                        }
                        None
                    },
                }
            } else {
                None
            }
        },
    }
}

/// Base-table lookup only depends on the lower-cased spelling.
proof fn lemma_base_target_ci(h: Seq<char>)
    ensures
        acs2020_base_target(lower(h)) == acs2020_base_target(h),
{
    crate::text::lemma_lower_idempotent(h);
}

/// How many of the first `n` headers count toward detection.
pub open spec fn acs2020_hits(hs: Seq<Seq<char>>, n: int) -> int
    decreases n,
{
    if n <= 0 {
        0
    } else {
        acs2020_hits(hs, n - 1) + if acs2020_hit(hs[n - 1]) {
            1int
        } else {
            0int
        }
    }
}

/// A sheet is treated as an ACS2020 export when at least two headers count.
pub fn is_acs2020_sheet(headers: &Vec<String>) -> (r: bool)
    ensures
        r == (acs2020_hits(headers@.map_values(|h: String| h@), headers@.len() as int) >= 2),
{
    proof {
        reveal_strlit("_acs2020");
        assert(lower("_acs2020"@) =~= "_acs2020"@);
    }
    let ghost hs = headers@.map_values(|h: String| h@);
    let n = headers.len();
    let mut count: usize = 0;
    let mut i: usize = 0;
    while i < n
        invariant
            0 <= i <= n,
            n == headers@.len(),
            hs == headers@.map_values(|h: String| h@),
            count <= i,
            count as int == acs2020_hits(hs, i as int),
            lower("_acs2020"@) == "_acs2020"@,
        decreases n - i,
    {
        proof {
            assert(hs[i as int] == headers@[i as int]@);
        }
        let hit = ends_with_ci(headers[i].as_str(), "_acs2020") || acs2020_base_target_exec(
            headers[i].as_str(),
        ).is_some();
        if hit {
            count = count + 1;
        }
        i = i + 1;
    }
    count >= 2
}

/// The recognized headers among the first `n`, each with its target.
pub open spec fn acs2020_resolved_upto(hs: Seq<Seq<char>>, n: int) -> Seq<(Seq<char>, Seq<char>)>
    decreases n,
{
    if n <= 0 {
        Seq::empty()
    } else {
        acs2020_resolved_upto(hs, n - 1) + match acs2020_target(hs[n - 1]) {
            Some(t) => seq![(hs[n - 1], t)],
            None => Seq::empty(),
        }
    }
}

/// Map every recognized raw header to its survey column name, in input
/// order.
pub fn resolve_acs2020_headers(raw_headers: &Vec<String>) -> (r: Vec<(String, &'static str)>)
    ensures
        ({
            let m = acs2020_resolved_upto(
                raw_headers@.map_values(|h: String| h@),
                raw_headers@.len() as int,
            );
            &&& r@.len() == m.len()
            &&& forall|i: int|
                0 <= i < r@.len() ==> (#[trigger] r@[i]).0@ == m[i].0 && r@[i].1@ == m[i].1
        }),
{
    let ghost hs = raw_headers@.map_values(|h: String| h@);
    let n = raw_headers.len();
    let mut r: Vec<(String, &'static str)> = Vec::new();
    let mut i: usize = 0;
    while i < n
        invariant
            0 <= i <= n,
            n == raw_headers@.len(),
            hs == raw_headers@.map_values(|h: String| h@),
            r@.len() == acs2020_resolved_upto(hs, i as int).len(),
            forall|k: int|
                0 <= k < r@.len() ==> (#[trigger] r@[k]).0@ == acs2020_resolved_upto(
                    hs,
                    i as int,
                )[k].0 && r@[k].1@ == acs2020_resolved_upto(hs, i as int)[k].1,
        decreases n - i,
    {
        proof {
            assert(hs[i as int] == raw_headers@[i as int]@);
        }
        match acs2020_header_target(raw_headers[i].as_str()) {
            Some(t) => {
                r.push((raw_headers[i].clone(), t));
            },
            None => {},
        }
        i = i + 1;
    }
    r
}

} // verus!
