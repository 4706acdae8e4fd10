//! The survey-sheet header adapter for NHANES-style exports: recognizes
//! day-coded nutrient column names and maps them to canonical-field
//! spellings, averaging the per-day columns that share one target before
//! strict normalization.

use crate::aliases::spec_canonical;
use crate::normalize::{distinct_keys, entries_view};
use crate::nutrition_vector::{NutritionVector, SchemaError, MAX_ROW_ENTRIES};
use crate::quantity::{div_trunc, lemma_div_trunc_scaled_bound, Quantity, MAX_INPUT_MICROS};
use crate::text::{lower, str_eq, str_eq_ci};
use crate::unmapped_monitor::UnmappedFieldMonitor;
use vstd::prelude::*;

verus! {

/// The canonical-field spelling an NHANES header maps to, if the header is
/// recognized (case-insensitively).
pub open spec fn nhanes_target(h: Seq<char>) -> Option<Seq<char>> {
    if lower(h) == lower("dr1tkcal"@) || lower(h) == lower("dr2tkcal"@) {
        Some("energy"@)
    } else if lower(h) == lower("dr1tprot"@) || lower(h) == lower("dr2tprot"@) {
        Some("protein"@)
    } else if lower(h) == lower("dr1tcarb"@) || lower(h) == lower("dr2tcarb"@) {
        Some("carbs"@)
    } else if lower(h) == lower("dr1ttfat"@) || lower(h) == lower("dr2ttfat"@) {
        Some("fat"@)
    } else if lower(h) == lower("dr1tsfat"@) || lower(h) == lower("dr2tsfat"@) {
        Some("saturated_fat"@)
    } else if lower(h) == lower("dr1tsugr"@) || lower(h) == lower("dr2tsugr"@) {
        Some("sugar"@)
    } else if lower(h) == lower("dr1tfibe"@) || lower(h) == lower("dr2tfibe"@) {
        Some("fiber"@)
    } else if lower(h) == lower("dr1tsodi"@) || lower(h) == lower("dr2tsodi"@) {
        Some("sodium"@)
    } else {
        None
    }
}

/// The canonical-field spelling an NHANES header maps to.
pub fn nhanes_header_target(h: &str) -> (r: Option<&'static str>)
    ensures
        match r {
            Some(t) => nhanes_target(h@) == Some(t@),
            None => nhanes_target(h@).is_none(),
        },
{
    if str_eq_ci(h, "dr1tkcal") || str_eq_ci(h, "dr2tkcal") {
        Some("energy")
    } else if str_eq_ci(h, "dr1tprot") || str_eq_ci(h, "dr2tprot") {
        Some("protein")
    } else if str_eq_ci(h, "dr1tcarb") || str_eq_ci(h, "dr2tcarb") {
        Some("carbs")
    } else if str_eq_ci(h, "dr1ttfat") || str_eq_ci(h, "dr2ttfat") {
        Some("fat")
    } else if str_eq_ci(h, "dr1tsfat") || str_eq_ci(h, "dr2tsfat") {
        Some("saturated_fat")
    } else if str_eq_ci(h, "dr1tsugr") || str_eq_ci(h, "dr2tsugr") {
        Some("sugar")
    } else if str_eq_ci(h, "dr1tfibe") || str_eq_ci(h, "dr2tfibe") {
        Some("fiber")
    } else if str_eq_ci(h, "dr1tsodi") || str_eq_ci(h, "dr2tsodi") {
        Some("sodium")
    } else {
        None
    }
}

/// How many of the first `n` headers are recognized.
pub open spec fn nhanes_hits(hs: Seq<Seq<char>>, n: int) -> int
    decreases n,
{
    if n <= 0 {
        0
    } else {
        nhanes_hits(hs, n - 1) + if nhanes_target(hs[n - 1]).is_some() {
            1int
        } else {
            0int
        }
    }
}

/// A sheet is treated as an NHANES export when at least two of its headers
/// are recognized.
pub fn is_nhanes_sheet(headers: &Vec<String>) -> (r: bool)
    ensures
        r == (nhanes_hits(headers@.map_values(|h: String| h@), headers@.len() as int) >= 2),
{
    let ghost hs = headers@.map_values(|h: String| h@);
    let n = headers.len();
    let mut count: usize = 0;
    let mut i: usize = 0;
    while i < n
        invariant
            0 <= i <= n,
            n == headers@.len(),
            hs == headers@.map_values(|h: String| h@),
            count <= i,
            count as int == nhanes_hits(hs, i as int),
        decreases n - i,
    {
        proof {
            assert(hs[i as int] == headers@[i as int]@);
        }
        if nhanes_header_target(headers[i].as_str()).is_some() {
            count = count + 1;
        }
        i = i + 1;
    }
    count >= 2
}

/// The recognized headers among the first `n`, each with its target.
pub open spec fn nhanes_resolved_upto(hs: Seq<Seq<char>>, n: int) -> Seq<(Seq<char>, Seq<char>)>
    decreases n,
{
    if n <= 0 {
        Seq::empty()
    } else {
        nhanes_resolved_upto(hs, n - 1) + match nhanes_target(hs[n - 1]) {
            Some(t) => seq![(hs[n - 1], t)],
            None => Seq::empty(),
        }
    }
}

/// Map every recognized raw header to its canonical-field spelling, in
/// input order.
pub fn resolve_nhanes_headers(raw_headers: &Vec<String>) -> (r: Vec<(String, &'static str)>)
    ensures
        ({
            let m = nhanes_resolved_upto(
                raw_headers@.map_values(|h: String| h@),
                raw_headers@.len() as int,
            );
            &&& r@.len() == m.len()
            &&& forall|i: int|
                0 <= i < r@.len() ==> (#[trigger] r@[i]).0@ == m[i].0 && r@[i].1@ == m[i].1
        }),
{
    let ghost hs = raw_headers@.map_values(|h: String| h@);
    let n = raw_headers.len();
    let mut r: Vec<(String, &'static str)> = Vec::new();
    let mut i: usize = 0;
    while i < n
        invariant
            0 <= i <= n,
            n == raw_headers@.len(),
            hs == raw_headers@.map_values(|h: String| h@),
            r@.len() == nhanes_resolved_upto(hs, i as int).len(),
            forall|k: int|
                0 <= k < r@.len() ==> (#[trigger] r@[k]).0@ == nhanes_resolved_upto(
                    hs,
                    i as int,
                )[k].0 && r@[k].1@ == nhanes_resolved_upto(hs, i as int)[k].1,
        decreases n - i,
    {
        proof {
            assert(hs[i as int] == raw_headers@[i as int]@);
        }
        match nhanes_header_target(raw_headers[i].as_str()) {
            Some(t) => {
                r.push((raw_headers[i].clone(), t));
            },
            None => {},
        }
        i = i + 1;
    }
    r
}

/// What a row key contributes under: its NHANES target, or itself when it
/// canonicalizes as it stands.
pub open spec fn nhanes_key_target(k: Seq<char>) -> Option<Seq<char>> {
    match nhanes_target(k) {
        Some(t) => Some(t),
        None => if spec_canonical(k).is_some() {
            Some(k)
        } else {
            None
        },
    }
}

/// The values, in input order, of the first `n` row entries contributing
/// under target `t`.
pub open spec fn nhanes_group(s: Seq<(Seq<char>, int)>, t: Seq<char>, n: int) -> Seq<int>
    decreases n,
{
    if n <= 0 {
        Seq::empty()
    } else {
        nhanes_group(s, t, n - 1) + if nhanes_key_target(s[n - 1].0) == Some(t) {
            seq![s[n - 1].1]
        } else {
            Seq::empty()
        }
    }
}

/// The distinct targets of the first `n` row entries, in first-seen order.
pub open spec fn nhanes_targets_upto(s: Seq<(Seq<char>, int)>, n: int) -> Seq<Seq<char>>
    decreases n,
{
    if n <= 0 {
        Seq::empty()
    } else {
        let pre = nhanes_targets_upto(s, n - 1);
        match nhanes_key_target(s[n - 1].0) {
            Some(t) => if pre.contains(t) {
                pre
            } else {
                pre.push(t)
            },
            None => pre,
        }
    }
}

/// The sum of a value group.
pub open spec fn group_sum(vs: Seq<int>) -> int
    decreases vs.len(),
{
    if vs.len() == 0 {
        0
    } else {
        group_sum(vs.drop_last()) + vs.last()
    }
}

/// The averaged flat row an NHANES row normalizes: one entry per distinct
/// target, in first-seen order, holding the truncating mean of the
/// target's group.
pub open spec fn nhanes_flat_model(s: Seq<(Seq<char>, int)>) -> Seq<(Seq<char>, int)> {
    let ts = nhanes_targets_upto(s, s.len() as int);
    Seq::new(
        ts.len(),
        |i: int|
            (
                ts[i],
                div_trunc(
                    group_sum(nhanes_group(s, ts[i], s.len() as int)),
                    nhanes_group(s, ts[i], s.len() as int).len() as int,
                ),
            ),
    )
}

/// Average the per-day columns of one NHANES row by target.
pub fn average_nhanes_row(row: &Vec<(String, Quantity)>) -> (r: Vec<(String, Quantity)>)
    requires
        row@.len() <= MAX_ROW_ENTRIES,
        forall|i: int| 0 <= i < row@.len() ==> (#[trigger] row@[i]).1.is_input(),
    ensures
        ({
            let m = nhanes_flat_model(entries_view(row@));
            &&& r@.len() == m.len()
            &&& forall|i: int|
                0 <= i < r@.len() ==> (#[trigger] r@[i]).0@ == m[i].0 && r@[i].1@ == m[i].1
            &&& forall|i: int| 0 <= i < r@.len() ==> (#[trigger] r@[i]).1.is_input()
            &&& distinct_keys(entries_view(r@))
        }),
{
    let ghost s = entries_view(row@);
    let n = row.len();
    let mut keys: Vec<String> = Vec::new();
    let mut sums: Vec<i64> = Vec::new();
    let mut counts: Vec<usize> = Vec::new();
    let mut i: usize = 0;
    while i < n
        invariant
            0 <= i <= n,
            n == row@.len(),
            n <= MAX_ROW_ENTRIES,
            s == entries_view(row@),
            forall|w: int| 0 <= w < row@.len() ==> (#[trigger] row@[w]).1.is_input(),
            keys@.len() == sums@.len(),
            keys@.len() == counts@.len(),
            keys@.len() == nhanes_targets_upto(s, i as int).len(),
            forall|k: int|
                0 <= k < keys@.len() ==> (#[trigger] keys@[k])@ == nhanes_targets_upto(
                    s,
                    i as int,
                )[k],
            forall|k: int|
                0 <= k < sums@.len() ==> (#[trigger] sums@[k]) as int == group_sum(
                    nhanes_group(s, nhanes_targets_upto(s, i as int)[k], i as int),
                ),
            forall|k: int|
                0 <= k < counts@.len() ==> (#[trigger] counts@[k]) as int == nhanes_group(
                    s,
                    nhanes_targets_upto(s, i as int)[k],
                    i as int,
                ).len(),
            forall|k: int| 0 <= k < counts@.len() ==> 1 <= #[trigger] counts@[k] <= i,
            forall|k: int|
                0 <= k < sums@.len() ==> -(MAX_INPUT_MICROS as int) * (counts@[k] as int) <= (
                #[trigger] sums@[k]) as int <= (MAX_INPUT_MICROS as int) * (counts@[k] as int),
            forall|k1: int, k2: int|
                0 <= k1 < k2 < keys@.len() ==> (#[trigger] keys@[k1])@ != (#[trigger] keys@[k2])@,
        decreases n - i,
    {
        proof {
            assert(s[i as int] == (row@[i as int].0@, row@[i as int].1@));
        }
        let target: Option<String> = match nhanes_header_target(row[i].0.as_str()) {
            Some(t) => Some(t.to_owned()),
            None => {
                if crate::aliases::canonical_field(row[i].0.as_str()).is_some() {
                    Some(row[i].0.clone())
                } else {
                    None
                }
            },
        };
        let ghost pre_ts = nhanes_targets_upto(s, i as int);
        match target {
            Some(t) => {
                proof {
                    assert(nhanes_key_target(s[i as int].0) == Some(t@));
                }
                let m = keys.len();
                let mut k: usize = 0;
                let mut found: Option<usize> = None;
                while k < m
                    invariant
                        0 <= k <= m,
                        m == keys@.len(),
                        match found {
                            Some(w) => w < m && keys@[w as int]@ == t@,
                            None => forall|w: int| 0 <= w < k ==> (#[trigger] keys@[w])@ != t@,
                        },
                    decreases m - k,
                {
                    if found.is_none() && str_eq(keys[k].as_str(), t.as_str()) {
                        found = Some(k);
                    }
                    k = k + 1;
                }
                proof {
                    assert forall|k2: int| 0 <= k2 < pre_ts.len() implies {
                        &&& nhanes_group(s, pre_ts[k2], i as int + 1) == nhanes_group(
                            s,
                            pre_ts[k2],
                            i as int,
                        ) + (if pre_ts[k2] == t@ {
                            seq![s[i as int].1]
                        } else {
                            Seq::<int>::empty()
                        })
                    } by {
                        if pre_ts[k2] == t@ {
                            assert(nhanes_group(s, pre_ts[k2], i as int + 1) =~= nhanes_group(
                                s,
                                pre_ts[k2],
                                i as int,
                            ) + seq![s[i as int].1]);
                        } else {
                            assert(nhanes_key_target(s[i as int].0) != Some(pre_ts[k2]));
                            assert(nhanes_group(s, pre_ts[k2], i as int + 1) =~= nhanes_group(
                                s,
                                pre_ts[k2],
                                i as int,
                            ));
                        }
                    }
                }
                match found {
                    Some(w) => {
                        proof {
                            assert(pre_ts[w as int] == t@);
                            assert(pre_ts.contains(t@));
                            assert(nhanes_targets_upto(s, i as int + 1) == pre_ts);
                            assert(nhanes_group(s, t@, i as int + 1) =~= nhanes_group(
                                s,
                                t@,
                                i as int,
                            ) + seq![s[i as int].1]);
                            assert(nhanes_group(s, t@, i as int + 1).drop_last() =~= nhanes_group(
                                s,
                                t@,
                                i as int,
                            ));
                            assert(group_sum(nhanes_group(s, t@, i as int + 1)) == group_sum(
                                nhanes_group(s, t@, i as int),
                            ) + s[i as int].1);
                        }
                        let cur = sums[w];
                        let cc = counts[w];
                        sums[w] = cur + row[i].1.micros;
                        counts[w] = cc + 1;
                        proof {
                            let ts2 = nhanes_targets_upto(s, i as int + 1);
                            assert forall|k2: int| 0 <= k2 < keys@.len() implies {
                                &&& (#[trigger] sums@[k2]) as int == group_sum(
                                    nhanes_group(s, ts2[k2], i as int + 1),
                                )
                                &&& counts@[k2] as int == nhanes_group(
                                    s,
                                    ts2[k2],
                                    i as int + 1,
                                ).len()
                                &&& 1 <= counts@[k2] <= i + 1
                                &&& -(MAX_INPUT_MICROS as int) * (counts@[k2] as int) <= sums@[k2]
                                    as int <= (MAX_INPUT_MICROS as int) * (counts@[k2] as int)
                            } by {
                                if k2 != w {
                                    assert(keys@[k2]@ != keys@[w as int]@);
                                    assert(pre_ts[k2] != t@);
                                    assert(nhanes_group(s, ts2[k2], i as int + 1)
                                        =~= nhanes_group(s, pre_ts[k2], i as int));
                                }
                            }
                        }
                    },
                    None => {
                        proof {
                            if pre_ts.contains(t@) {
                                let w = choose|w: int| 0 <= w < pre_ts.len() && pre_ts[w] == t@;
                                assert(keys@[w]@ == t@);
                                assert(false);
                            }
                            assert(nhanes_targets_upto(s, i as int + 1) == pre_ts.push(t@));
                            lemma_group_of_unseen_target_empty(s, t@, i as int);
                            assert(nhanes_group(s, t@, i as int) =~= Seq::<int>::empty());
                            assert(nhanes_group(s, t@, i as int + 1) =~= Seq::<int>::empty()
                                + seq![s[i as int].1]);
                            assert(nhanes_group(s, t@, i as int + 1).len() == 1);
                            assert(nhanes_group(s, t@, i as int + 1).drop_last()
                                =~= Seq::<int>::empty());
                            let g = nhanes_group(s, t@, i as int + 1);
                            assert(g.len() == 1);
                            assert(g.drop_last() == Seq::<int>::empty());
                            assert(group_sum(Seq::<int>::empty()) == 0);
                            assert(g.last() == s[i as int].1);
                            assert(group_sum(g) == group_sum(g.drop_last()) + g.last());
                            assert(group_sum(nhanes_group(s, t@, i as int + 1)) == s[i as int].1);
                        }
                        keys.push(t);
                        sums.push(row[i].1.micros);
                        counts.push(1);
                        proof {
                            let ts2 = nhanes_targets_upto(s, i as int + 1);
                            assert(ts2 == pre_ts.push(t@));
                            assert(keys@.len() == ts2.len());
                            assert forall|k2: int| 0 <= k2 < keys@.len() implies {
                                &&& (#[trigger] keys@[k2])@ == ts2[k2]
                                &&& sums@[k2] as int == group_sum(
                                    nhanes_group(s, ts2[k2], i as int + 1),
                                )
                                &&& counts@[k2] as int == nhanes_group(
                                    s,
                                    ts2[k2],
                                    i as int + 1,
                                ).len()
                                &&& 1 <= counts@[k2] <= i + 1
                                &&& -(MAX_INPUT_MICROS as int) * (counts@[k2] as int) <= sums@[k2]
                                    as int <= (MAX_INPUT_MICROS as int) * (counts@[k2] as int)
                            } by {
                                if k2 < pre_ts.len() {
                                    assert(keys@[k2]@ != t@);
                                    assert(ts2[k2] == pre_ts[k2]);
                                    assert(pre_ts[k2] != t@);
                                    assert(nhanes_group(s, ts2[k2], i as int + 1)
                                        =~= nhanes_group(s, pre_ts[k2], i as int));
                                } else {
                                    assert(k2 == pre_ts.len());
                                    assert(ts2[k2] == t@);
                                }
                            }
                            assert forall|w1: int, w2: int|
                                0 <= w1 < w2 < keys@.len() implies (#[trigger] keys@[w1])@ != (
                                #[trigger] keys@[w2])@ by {
                                if w2 == keys@.len() - 1 {
                                    assert(keys@[w1]@ != t@);
                                }
                            }
                        }
                    },
                }
            },
            None => {
                proof {
                    assert(nhanes_key_target(s[i as int].0).is_none());
                    assert(nhanes_targets_upto(s, i as int + 1) == pre_ts);
                    assert forall|k2: int| 0 <= k2 < pre_ts.len() implies nhanes_group(
                        s,
                        pre_ts[k2],
                        i as int + 1,
                    ) == nhanes_group(s, pre_ts[k2], i as int) by {
                        assert(nhanes_group(s, pre_ts[k2], i as int + 1) =~= nhanes_group(
                            s,
                            pre_ts[k2],
                            i as int,
                        ));
                    }
                }
            },
        }
        proof {
            let ts2 = nhanes_targets_upto(s, i as int + 1);
            assert(keys@.len() == sums@.len() && keys@.len() == counts@.len());
            assert(keys@.len() == ts2.len());
            assert(forall|k2: int|
                0 <= k2 < keys@.len() ==> (#[trigger] keys@[k2])@ == ts2[k2]);
            assert(forall|k2: int|
                0 <= k2 < sums@.len() ==> (#[trigger] sums@[k2]) as int == group_sum(
                    nhanes_group(s, ts2[k2], i as int + 1),
                ));
            assert forall|k2: int|
                0 <= k2 < counts@.len() implies (#[trigger] counts@[k2]) as int == nhanes_group(
                s,
                ts2[k2],
                i as int + 1,
            ).len() && 1 <= counts@[k2] <= i + 1 && -(MAX_INPUT_MICROS as int) * (
            counts@[k2] as int) <= sums@[k2] as int <= (MAX_INPUT_MICROS as int) * (
            counts@[k2] as int) by {
                assert(sums@[k2] as int == group_sum(nhanes_group(s, ts2[k2], i as int + 1)));
            }
        }
        i = i + 1;
    }
    let m = keys.len();
    let mut out: Vec<(String, Quantity)> = Vec::new();
    let mut k: usize = 0;
    while k < m
        invariant
            0 <= k <= m,
            m == keys@.len(),
            m == sums@.len(),
            m == counts@.len(),
            n == row@.len(),
            n <= MAX_ROW_ENTRIES,
            s == entries_view(row@),
            keys@.len() == nhanes_targets_upto(s, n as int).len(),
            forall|w: int|
                0 <= w < keys@.len() ==> (#[trigger] keys@[w])@ == nhanes_targets_upto(
                    s,
                    n as int,
                )[w],
            forall|w: int|
                0 <= w < sums@.len() ==> (#[trigger] sums@[w]) as int == group_sum(
                    nhanes_group(s, nhanes_targets_upto(s, n as int)[w], n as int),
                ),
            forall|w: int|
                0 <= w < counts@.len() ==> (#[trigger] counts@[w]) as int == nhanes_group(
                    s,
                    nhanes_targets_upto(s, n as int)[w],
                    n as int,
                ).len(),
            forall|w: int| 0 <= w < counts@.len() ==> 1 <= #[trigger] counts@[w] <= n,
            forall|w: int|
                0 <= w < sums@.len() ==> -(MAX_INPUT_MICROS as int) * (counts@[w] as int) <= (
                #[trigger] sums@[w]) as int <= (MAX_INPUT_MICROS as int) * (counts@[w] as int),
            forall|w1: int, w2: int|
                0 <= w1 < w2 < keys@.len() ==> (#[trigger] keys@[w1])@ != (#[trigger] keys@[w2])@,
            out@.len() == k,
            forall|w: int|
                0 <= w < k ==> (#[trigger] out@[w]).0@ == nhanes_flat_model(s)[w].0
                    && out@[w].1@ == nhanes_flat_model(s)[w].1,
            forall|w: int| 0 <= w < k ==> (#[trigger] out@[w]).1.is_input(),
        decreases m - k,
    {
        let total = sums[k];
        let cnt = counts[k];
        proof {
            assert(cnt >= 1);
            lemma_div_trunc_scaled_bound(total as int, cnt as int, MAX_INPUT_MICROS as int);
        }
        let avg: i64 = total / (cnt as i64);
        proof {
            assert(s.len() == n as int);
            assert(avg as int == div_trunc(total as int, cnt as int));
            let ts = nhanes_targets_upto(s, s.len() as int);
            assert(nhanes_flat_model(s).len() == ts.len());
            assert(nhanes_flat_model(s)[k as int] == (
                ts[k as int],
                div_trunc(
                    group_sum(nhanes_group(s, ts[k as int], s.len() as int)),
                    nhanes_group(s, ts[k as int], s.len() as int).len() as int,
                ),
            ));
            assert(keys@[k as int]@ == ts[k as int]);
            assert(total as int == group_sum(nhanes_group(s, ts[k as int], s.len() as int)));
            assert(cnt as int == nhanes_group(s, ts[k as int], s.len() as int).len());
            assert(-MAX_INPUT_MICROS <= avg <= MAX_INPUT_MICROS);
        }
        out.push((keys[k].clone(), Quantity { micros: avg }));
        k = k + 1;
    }
    proof {
        assert(distinct_keys(entries_view(out@))) by {
            let fv = entries_view(out@);
            assert forall|w1: int, w2: int|
                0 <= w1 < w2 < fv.len() implies (#[trigger] fv[w1]).0 != (#[trigger] fv[w2]).0 by {
                assert(fv[w1].0 == out@[w1].0@);
                assert(fv[w2].0 == out@[w2].0@);
                assert(out@[w1].0@ == nhanes_targets_upto(s, n as int)[w1]);
                assert(out@[w2].0@ == nhanes_targets_upto(s, n as int)[w2]);
                assert(keys@[w1]@ != keys@[w2]@);
            }
        }
    }
    out
}

/// A target not yet seen has an empty group so far.
proof fn lemma_group_of_unseen_target_empty(s: Seq<(Seq<char>, int)>, t: Seq<char>, n: int)
    requires
        0 <= n <= s.len(),
        !nhanes_targets_upto(s, n).contains(t),
    ensures
        nhanes_group(s, t, n).len() == 0,
    decreases n,
{
    if n > 0 {
        assert(!nhanes_targets_upto(s, n - 1).contains(t)) by {
            let pre = nhanes_targets_upto(s, n - 1);
            if pre.contains(t) {
                let w = choose|w: int| 0 <= w < pre.len() && pre[w] == t;
                match nhanes_key_target(s[n - 1].0) {
                    Some(t2) => {
                        if pre.contains(t2) {
                            assert(nhanes_targets_upto(s, n)[w] == t);
                        } else {
                            assert(nhanes_targets_upto(s, n)[w] == t);
                        }
                    },
                    None => {
                        assert(nhanes_targets_upto(s, n)[w] == t);
                    },
                }
                assert(nhanes_targets_upto(s, n).contains(t));
            }
        }
        lemma_group_of_unseen_target_empty(s, t, n - 1);
        match nhanes_key_target(s[n - 1].0) {
            Some(t2) => {
                if t2 == t {
                    let pre = nhanes_targets_upto(s, n - 1);
                    if pre.contains(t) {
                    } else {
                        assert(nhanes_targets_upto(s, n) == pre.push(t));
                        assert(nhanes_targets_upto(s, n).contains(t)) by {
                            assert(nhanes_targets_upto(s, n).last() == t);
                        }
                    }
                }
            },
            None => {},
        }
    }
}

/// Build a canonical vector from one NHANES row: entries sharing a target
/// are averaged across days, and the averaged row is normalized strictly.
/// Keys that are neither recognized headers nor spellings the alias
/// registry accepts are dropped before normalization.
pub fn build_nutrition_vector_from_nhanes(
    row: &Vec<(String, Quantity)>,
    monitor: &mut UnmappedFieldMonitor,
) -> (r: Result<NutritionVector, SchemaError>)
    requires
        row@.len() <= MAX_ROW_ENTRIES,
        forall|i: int| 0 <= i < row@.len() ==> (#[trigger] row@[i]).1.is_input(),
    ensures
        ({
            let s2 = nhanes_flat_model(entries_view(row@));
            match r {
                Ok(nv) => {
                    &&& nv.wf()
                    &&& forall|f: crate::fields::FieldId|
                        crate::nutrition_vector::merged_matches(s2, nv, f)
                    &&& forall|f: crate::fields::FieldId|
                        (#[trigger] crate::normalize::merged_value(s2, f)).is_some()
                },
                Err(e) => {
                    &&& e.missing_canonical_fields@ == crate::normalize::model_missing_upto(
                        s2,
                        crate::fields::FIELD_COUNT as int,
                    )
                    &&& crate::normalize::strings_match(
                        e.unmapped_aliases@,
                        crate::normalize::unmapped_keys(s2),
                    )
                    &&& crate::normalize::keyed_match(
                        e.conflicting_aliases@,
                        crate::normalize::conflicts_upto(s2, crate::fields::FIELD_COUNT as int),
                    )
                },
            }
        }),
{
    let ghost s = entries_view(row@);
    let flat = average_nhanes_row(row);
    proof {
        lemma_targets_bounded(s, s.len() as int);
        assert(flat@.len() <= MAX_ROW_ENTRIES);
        assert(entries_view(flat@) =~= nhanes_flat_model(s)) by {
            let fv = entries_view(flat@);
            let m = nhanes_flat_model(s);
            assert forall|w: int| 0 <= w < fv.len() implies fv[w] == m[w] by {
                assert(fv[w] == (flat@[w].0@, flat@[w].1@));
            }
        }
    }
    NutritionVector::from_map(&flat, monitor)
}

/// A row yields no more targets than entries.
proof fn lemma_targets_bounded(s: Seq<(Seq<char>, int)>, n: int)
    requires
        n >= 0,
    ensures
        nhanes_targets_upto(s, n).len() <= n,
    decreases n,
{
    if n > 0 {
        lemma_targets_bounded(s, n - 1);
    }
}

} // verus!
