use dietarycodex::nhanes_ingest::{
    build_nutrition_vector_from_nhanes, is_nhanes_sheet, resolve_nhanes_headers,
};
use dietarycodex::nutrition_vector::NutritionVector;
use dietarycodex::quantity::Quantity;
use dietarycodex::unmapped_monitor::UnmappedFieldMonitor;

#[test]
fn nhanes_ingest_tests_resolve_headers_maps_known_fields() {
    let headers = vec![
        "DR1TKCAL".to_string(),
        "DR2TKCAL".to_string(),
        "DR1TPROT".to_string(),
    ];
    let map = resolve_nhanes_headers(&headers);
    assert!(map
        .iter()
        .any(|(h, t)| h == "DR1TKCAL" && *t == "energy"));
    assert!(map
        .iter()
        .any(|(h, t)| h == "DR1TPROT" && *t == "protein"));
    assert!(is_nhanes_sheet(&headers));
}

#[test]
fn build_vector_averages_days() {
    let mut row: Vec<(String, Quantity)> = vec![
        ("DR1TKCAL".to_string(), Quantity::from_units(2000)),
        ("DR2TKCAL".to_string(), Quantity::from_units(1800)),
        ("DR1TPROT".to_string(), Quantity::from_units(60)),
        ("DR2TPROT".to_string(), Quantity::from_units(80)),
    ];
    for field in NutritionVector::all_field_names() {
        if field != "energy_kcal" && field != "protein" {
            row.push((field.to_string(), Quantity::from_units(0)));
        }
    }
    let mut monitor = UnmappedFieldMonitor::new();
    let nv = build_nutrition_vector_from_nhanes(&row, &mut monitor).unwrap();
    assert_eq!(nv.energy, Some(Quantity::from_units(1900)));
    assert_eq!(nv.protein, Some(Quantity::from_units(70)));
}
