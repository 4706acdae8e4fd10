use dietarycodex::eval::evaluate_allow_partial;
use dietarycodex::fields::FieldId;
use dietarycodex::food_item_resolver::FoodItemResolver;
use dietarycodex::nutrition_vector::NutritionVector;
use dietarycodex::quantity::Quantity;
use dietarycodex::unmapped_monitor::UnmappedFieldMonitor;

fn row(entries: &[(&str, f64)]) -> Vec<(String, Quantity)> {
    entries
        .iter()
        .map(|(k, v)| {
            (
                k.to_string(),
                Quantity::from_micros((v * 1_000_000.0).round() as i64),
            )
        })
        .collect()
}

#[test]
fn raw_item_only_resolves() {
    let data = row(&[("beef_g", 100.0)]);
    let mut monitor = UnmappedFieldMonitor::new();
    let (nv, trace) = NutritionVector::from_partial_map(&data, &mut monitor);
    assert_eq!(nv.protein, Some(Quantity::from_units(26)));
    let entry = trace
        .translation_log
        .iter()
        .find(|(f, _)| *f == FieldId::Protein)
        .expect("protein contribution logged");
    assert!(entry.1.source.contains(&"beef_g".to_string()));
    let result = evaluate_allow_partial(&nv);
    assert!(result.scores.iter().all(|(_, s)| s.value.is_none()));
}

#[test]
fn raw_and_canonical_combined() {
    let data = row(&[("beef_g", 100.0), ("protein", 10.0)]);
    let mut monitor = UnmappedFieldMonitor::new();
    let (nv, trace) = NutritionVector::from_partial_map(&data, &mut monitor);
    assert_eq!(nv.protein, Some(Quantity::from_units(36)));
    let entry = trace
        .translation_log
        .iter()
        .find(|(f, _)| *f == FieldId::Protein)
        .expect("protein contribution logged");
    assert_eq!(entry.1.value, Quantity::from_units(26));
}

#[test]
fn empty_input_gives_errors() {
    let data: Vec<(String, Quantity)> = Vec::new();
    let mut monitor = UnmappedFieldMonitor::new();
    let (nv, trace) = NutritionVector::from_partial_map(&data, &mut monitor);
    assert!(trace.missing_fields.contains(&FieldId::EnergyKcal));
    assert_eq!(trace.missing_fields.len(), 33);
    assert!(trace.used_fields.is_empty());
    let result = evaluate_allow_partial(&nv);
    assert!(result.scores.iter().all(|(_, s)| s.value.is_none()));
    assert!(!result.errors.is_empty());
}

#[test]
fn resolver_scales_by_mass_and_servings() {
    let resolver = FoodItemResolver::new();
    let by_mass = resolver
        .resolve("beef_g", Quantity::from_units(50))
        .expect("beef_g resolves");
    let protein = by_mass
        .iter()
        .find(|(f, _)| *f == FieldId::Protein)
        .unwrap()
        .1;
    assert_eq!(protein, Quantity::from_units(13));

    let by_servings = resolver
        .resolve("beef_servings", Quantity::from_units(2))
        .expect("beef_servings resolves");
    let protein2 = by_servings
        .iter()
        .find(|(f, _)| *f == FieldId::Protein)
        .unwrap()
        .1;
    assert_eq!(protein2, Quantity::from_units(52));

    assert!(resolver.resolve("beef", Quantity::from_units(1)).is_none());
    assert!(resolver
        .resolve("venison_g", Quantity::from_units(1))
        .is_none());
}
