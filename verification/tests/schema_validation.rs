use dietarycodex::aliases::canonical_field;
use dietarycodex::fields::FieldId;
use dietarycodex::nutrition_vector::NutritionVector;
use dietarycodex::quantity::Quantity;
use dietarycodex::unmapped_monitor::UnmappedFieldMonitor;

fn full_map() -> Vec<(String, Quantity)> {
    NutritionVector::all_field_names()
        .iter()
        .map(|f| (f.to_string(), Quantity::from_units(1)))
        .collect()
}

#[test]
fn load_canonical_fields() {
    let data = full_map();
    let mut monitor = UnmappedFieldMonitor::new();
    let nv = NutritionVector::from_map(&data, &mut monitor).expect("should load");
    assert!(nv.missing_fields().is_empty());
}

#[test]
fn load_with_aliases() {
    let data: Vec<(String, Quantity)> = NutritionVector::all_field_names()
        .iter()
        .map(|f| {
            let key = match *f {
                "alcohol_g" => "alc",
                "energy_kcal" => "kcal",
                "sodium_mg" => "sodium",
                other => other,
            };
            (key.to_string(), Quantity::from_units(1))
        })
        .collect();
    let mut monitor = UnmappedFieldMonitor::new();
    let nv = NutritionVector::from_map(&data, &mut monitor).expect("aliases should map");
    assert!(nv.missing_fields().is_empty());
}

#[test]
fn unmapped_field_fails() {
    let mut data: Vec<(String, Quantity)> = full_map()
        .into_iter()
        .filter(|(k, _)| k != "alcohol_g")
        .collect();
    data.push(("alcohol_content".to_string(), Quantity::from_units(1)));
    let mut monitor = UnmappedFieldMonitor::new();
    let err = NutritionVector::from_map(&data, &mut monitor).unwrap_err();
    assert!(err.missing_canonical_fields.contains(&FieldId::AlcoholG));
    assert!(err.unmapped_aliases.contains(&"alcohol_content".to_string()));
}

#[test]
fn alias_map_covers_all_fields() {
    for f in NutritionVector::all_field_names() {
        assert!(
            canonical_field(f).is_some(),
            "canonical field {} missing identity alias",
            f
        );
    }
    let upper: String = "ENERGY_KCAL".to_string();
    assert_eq!(canonical_field(upper.as_str()), Some(FieldId::EnergyKcal));
}
