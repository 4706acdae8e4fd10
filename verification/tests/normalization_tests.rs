use dietarycodex::eval::evaluate_allow_partial;
use dietarycodex::fields::FieldId;
use dietarycodex::nutrition_vector::NutritionVector;
use dietarycodex::quantity::Quantity;
use dietarycodex::unmapped_monitor::UnmappedFieldMonitor;

fn row(entries: &[(&str, f64)]) -> Vec<(String, Quantity)> {
    entries
        .iter()
        .map(|(k, v)| {
            (
                k.to_string(),
                Quantity::from_micros((v * 1_000_000.0).round() as i64),
            )
        })
        .collect()
}

#[test]
fn noisy_aliases_normalize_and_score() {
    let data = row(&[
        ("kcal", 1800.0),
        ("fat", 60.0),
        ("saturated_fat", 15.0),
        ("carbohydrate", 200.0),
        ("fiber", 25.0),
        ("sugars", 40.0),
        ("protein", 50.0),
        ("sodium", 1500.0),
        ("calcium", 900.0),
        ("iron", 10.0),
        ("vitamin_c", 60.0),
        ("total_fruits", 200.0),
        ("vegetables", 250.0),
        ("whole_grains", 90.0),
        ("refined_grains", 80.0),
        ("legumes", 30.0),
        ("fish", 20.0),
        ("red_meat", 30.0),
        ("mono_fat", 25.0),
        ("berries", 5.0),
        ("cheese", 15.0),
        ("butter", 5.0),
        ("poultry", 40.0),
        ("fast_food", 0.0),
        ("nuts", 10.0),
        ("omega3", 1.0),
        ("vitamin_a", 800.0),
        ("vitamin_e", 10.0),
        ("zinc", 12.0),
        ("selenium", 55.0),
        ("magnesium", 300.0),
        ("trans_fat", 0.1),
        ("alcohol_intake", 2.0),
    ]);
    let mut monitor = UnmappedFieldMonitor::new();
    let (nv, _trace) = NutritionVector::from_partial_map(&data, &mut monitor);
    let result = evaluate_allow_partial(&nv);
    assert!(result.scores.iter().any(|(_, s)| s.value.is_some()));
}

#[test]
fn duplicate_fields_prefers_canonical() {
    let data = row(&[("carbs", 100.0), ("carbohydrate", 150.0)]);
    let mut monitor = UnmappedFieldMonitor::new();
    let (nv, trace) = NutritionVector::from_partial_map(&data, &mut monitor);
    assert_eq!(nv.carbs, Some(Quantity::from_units(100)));
    assert!(trace
        .conflicting_aliases
        .iter()
        .any(|(k, f)| k == "carbohydrate" && *f == FieldId::Carbs));
}

#[test]
fn missing_canonical_field_errors() {
    let mut data: Vec<(String, Quantity)> = Vec::new();
    for f in NutritionVector::all_field_names() {
        if f != "fat_g" {
            data.push((f.to_string(), Quantity::from_units(1)));
        }
    }
    let mut monitor = UnmappedFieldMonitor::new();
    let err = NutritionVector::from_map(&data, &mut monitor).unwrap_err();
    assert!(err.missing_canonical_fields.contains(&FieldId::FatG));
}
