use dietarycodex::eval::evaluate_allow_partial;
use dietarycodex::fields::FieldId;
use dietarycodex::nutrition_vector::NutritionVector;
use dietarycodex::quantity::Quantity;
use dietarycodex::unmapped_monitor::UnmappedFieldMonitor;

fn row(entries: &[(&str, f64)]) -> Vec<(String, Quantity)> {
    entries
        .iter()
        .map(|(k, v)| {
            (
                k.to_string(),
                Quantity::from_micros((v * 1_000_000.0).round() as i64),
            )
        })
        .collect()
}

#[test]
fn trace_consistency() {
    let data = row(&[("kcal", 2000.0), ("fat_g", 70.0)]);
    let mut monitor = UnmappedFieldMonitor::new();
    let (nv, trace) = NutritionVector::from_partial_map(&data, &mut monitor);
    assert!(trace
        .aliases_applied
        .iter()
        .any(|(k, f)| k == "kcal" && *f == FieldId::EnergyKcal));

    let result = evaluate_allow_partial(&nv);

    for f in &result.trace.used_fields {
        assert!(
            !result.trace.missing_fields.contains(f),
            "{} listed as used and missing",
            f.name()
        );
    }

    let dash_reason = result
        .get("DASH")
        .unwrap()
        .explanation
        .as_ref()
        .unwrap()
        .clone();
    assert!(dash_reason.contains("saturated_fat_g"));
}

#[test]
fn partial_map_conflicting_alias() {
    let data = row(&[("alcohol_g", 10.0), ("alc", 5.0)]);
    let mut monitor = UnmappedFieldMonitor::new();
    let (nv, trace) = NutritionVector::from_partial_map(&data, &mut monitor);
    assert!(trace
        .conflicting_aliases
        .iter()
        .any(|(k, f)| k == "alc" && *f == FieldId::AlcoholG));
    assert_eq!(nv.alcohol, Some(Quantity::from_units(10)));
}
