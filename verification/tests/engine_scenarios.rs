use dietarycodex::batch::{alias_hit_counts, score_rows};
use dietarycodex::contracts::{get_contract, range, required_fields, ScoreId};
use dietarycodex::eval::{evaluate_allow_partial, skipped_scores};
use dietarycodex::fields::FieldId;
use dietarycodex::nutrition_vector::{NutritionVector, SchemaError};
use dietarycodex::quantity::Quantity;
use dietarycodex::scores::capped_score;
use dietarycodex::unmapped_monitor::UnmappedFieldMonitor;

fn row(entries: &[(&str, f64)]) -> Vec<(String, Quantity)> {
    entries
        .iter()
        .map(|(k, v)| {
            (
                k.to_string(),
                Quantity::from_micros((v * 1_000_000.0).round() as i64),
            )
        })
        .collect()
}

#[test]
fn scenario_alias_and_skip_trace() {
    let data = row(&[("kcal", 1800.0), ("fat_g", 60.0)]);
    let mut monitor = UnmappedFieldMonitor::new();
    let (nv, trace) = NutritionVector::from_partial_map(&data, &mut monitor);
    assert!(trace
        .aliases_applied
        .iter()
        .any(|(k, f)| k == "kcal" && *f == FieldId::EnergyKcal));
    assert_eq!(nv.energy, Some(Quantity::from_units(1800)));
    assert_eq!(nv.fat, Some(Quantity::from_units(60)));
    let result = evaluate_allow_partial(&nv);
    let dash = result.get("DASH").unwrap();
    assert!(dash.value.is_none());
    assert!(dash
        .explanation
        .as_ref()
        .unwrap()
        .contains("saturated_fat_g"));
}

#[test]
fn scenario_beef_contributes_protein() {
    let data = row(&[("beef_g", 100.0)]);
    let mut monitor = UnmappedFieldMonitor::new();
    let (nv, trace) = NutritionVector::from_partial_map(&data, &mut monitor);
    assert_eq!(nv.protein, Some(Quantity::from_units(26)));
    let entry = trace
        .translation_log
        .iter()
        .find(|(f, _)| *f == FieldId::Protein)
        .expect("protein translation recorded");
    assert_eq!(entry.1.value, Quantity::from_units(26));
    assert_eq!(entry.1.source, vec!["beef_g".to_string()]);
}

#[test]
fn scenario_empty_map_skips_everything() {
    let data: Vec<(String, Quantity)> = Vec::new();
    let mut monitor = UnmappedFieldMonitor::new();
    let (nv, trace) = NutritionVector::from_partial_map(&data, &mut monitor);
    assert_eq!(
        trace.missing_fields.len(),
        NutritionVector::all_field_names().len()
    );
    let result = evaluate_allow_partial(&nv);
    assert!(result.scores.iter().all(|(_, s)| s.value.is_none()));
    let skipped = skipped_scores(&result);
    assert_eq!(skipped.len(), 9);
    let names: Vec<&str> = skipped.iter().map(|(n, _)| n.as_str()).collect();
    assert_eq!(
        names,
        vec!["ACS2020", "AHEI", "DASH", "DASHI", "DII", "HEI", "MIND", "PHDI", "aMED"]
    );
}

#[test]
fn capped_score_exact_values() {
    let cap = |v: i64, m: i64| capped_score(Quantity::from_units(v), Quantity::from_units(m));
    assert_eq!(cap(0, 100).micros(), 0);
    assert_eq!(cap(50, 100).micros(), 5_000_000);
    assert_eq!(cap(100, 100).micros(), 10_000_000);
    assert_eq!(cap(150, 100).micros(), 10_000_000);
    assert_eq!(
        capped_score(Quantity::from_micros(-5), Quantity::from_units(100)).micros(),
        0
    );
    assert_eq!(cap(250, 300).micros(), 8_333_333);
}

#[test]
fn contracts_expose_ranges_and_fields() {
    let c = get_contract(ScoreId::Ahei);
    assert_eq!(
        c.required,
        vec![FieldId::FatG, FieldId::Fiber, FieldId::SaturatedFatG]
    );
    let (lo, hi) = c.range.unwrap();
    assert_eq!(lo.micros(), 0);
    assert_eq!(hi.micros(), 20_000_000);
    assert!(range("DII").is_none());
    assert!(range("NOPE").is_none());
    assert_eq!(required_fields("HEI").len(), 3);
    assert!(required_fields("NOPE").is_empty());
}

#[test]
fn schema_error_reports_blocking_scores() {
    let err = SchemaError::new(vec![FieldId::SodiumMg], Vec::new(), Vec::new());
    assert_eq!(err.index_dependencies.len(), 1);
    let (f, blocked) = &err.index_dependencies[0];
    assert_eq!(*f, FieldId::SodiumMg);
    assert_eq!(
        blocked.clone(),
        vec![ScoreId::Dash, ScoreId::Dashi, ScoreId::Hei]
    );
}

#[test]
fn batch_coverage_percentages() {
    let full: Vec<(String, Quantity)> = NutritionVector::all_field_names()
        .iter()
        .map(|f| (f.to_string(), Quantity::from_units(1)))
        .collect();
    let empty: Vec<(String, Quantity)> = Vec::new();
    let rows = vec![full, empty];
    let mut monitor = UnmappedFieldMonitor::new();
    let out = score_rows(&rows, &mut monitor);
    assert_eq!(out.rows.len(), 2);
    for (sc, pct) in &out.coverage.percent_scored {
        assert_eq!(pct.micros(), 50_000_000, "score {}", sc.name());
    }
    assert_eq!(out.coverage.most_missing.len(), 33);
    assert_eq!(out.coverage.most_missing[0].0, FieldId::AlcoholG);
    assert!(out.coverage.most_missing.iter().all(|(_, c)| *c == 1));
}

#[test]
fn batch_counts_alias_hits() {
    let r1 = row(&[("kcal", 1800.0), ("fat", 60.0)]);
    let r2 = row(&[("kcal", 2000.0)]);
    let rows = vec![r1, r2];
    let mut monitor = UnmappedFieldMonitor::new();
    let out = score_rows(&rows, &mut monitor);
    let hits = alias_hit_counts(&out.rows);
    assert_eq!(hits.len(), 2);
    assert!(hits.contains(&("kcal".to_string(), 2)));
    assert!(hits.contains(&("fat".to_string(), 1)));
}

#[test]
fn fdc_entries_map_names_and_units() {
    let entries: Vec<(String, String, Quantity)> = vec![
        (
            "Energy".to_string(),
            "kcal".to_string(),
            Quantity::from_units(250),
        ),
        (
            "Sodium, Na".to_string(),
            "mg".to_string(),
            Quantity::from_units(500),
        ),
        (
            "Protein".to_string(),
            "g".to_string(),
            Quantity::from_units(20),
        ),
        (
            "Protein".to_string(),
            "g".to_string(),
            Quantity::from_units(22),
        ),
        (
            "Obscurium".to_string(),
            "g".to_string(),
            Quantity::from_units(1),
        ),
    ];
    let nv = NutritionVector::from_fdc_entries(&entries);
    assert_eq!(nv.energy, Some(Quantity::from_units(250)));
    // 500 mg convert to 0.5 g, then scale back up for the mg-carried field.
    assert_eq!(nv.sodium, Some(Quantity::from_units(500)));
    // The last record for a repeated name wins.
    assert_eq!(nv.protein, Some(Quantity::from_units(22)));
    assert_eq!(nv.zinc, None);
}

#[test]
fn conflict_prefers_exact_name_over_alias() {
    let data = row(&[("kcal", 1500.0), ("energy_kcal", 1700.0)]);
    let mut monitor = UnmappedFieldMonitor::new();
    let (nv, trace) = NutritionVector::from_partial_map(&data, &mut monitor);
    assert_eq!(nv.energy, Some(Quantity::from_units(1700)));
    assert!(trace
        .conflicting_aliases
        .iter()
        .any(|(k, f)| k == "kcal" && *f == FieldId::EnergyKcal));
}

#[test]
fn food_contributions_sum_across_keys() {
    let data = row(&[("beef_g", 100.0), ("chicken_g", 100.0)]);
    let mut monitor = UnmappedFieldMonitor::new();
    let (nv, _trace) = NutritionVector::from_partial_map(&data, &mut monitor);
    // 26 g from beef plus 27 g from chicken: summed, not overwritten.
    assert_eq!(nv.protein, Some(Quantity::from_units(53)));
    assert_eq!(nv.red_meat, Some(Quantity::from_units(100)));
    assert_eq!(nv.poultry, Some(Quantity::from_units(100)));
}

#[test]
fn canonical_round_trip_has_clean_trace() {
    let data: Vec<(String, Quantity)> = NutritionVector::all_field_names()
        .iter()
        .map(|f| (f.to_string(), Quantity::from_units(2)))
        .collect();
    let mut monitor = UnmappedFieldMonitor::new();
    let (_nv, trace) = NutritionVector::from_partial_map(&data, &mut monitor);
    assert!(trace.aliases_applied.is_empty());
    assert!(trace.conflicting_aliases.is_empty());
    assert!(trace.missing_fields.is_empty());
}
