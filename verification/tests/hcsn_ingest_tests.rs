use dietarycodex::hcsn_ingest::{is_hcsn_sheet, resolve_hcsn_headers};

#[test]
fn hcsn_ingest_tests_resolve_headers_maps_known_fields() {
    let headers = vec![
        "leafy_green_veg_servings".to_string(),
        "butter_servings".to_string(),
        "whole_grain_g".to_string(),
    ];
    let map = resolve_hcsn_headers(&headers);
    assert!(map
        .iter()
        .any(|(h, t)| h == "leafy_green_veg_servings" && *t == "vegetables"));
    assert!(map
        .iter()
        .any(|(h, t)| h == "butter_servings" && *t == "butter"));
    assert!(map
        .iter()
        .any(|(h, t)| h == "whole_grain_g" && *t == "whole_grains"));
    assert!(is_hcsn_sheet(&headers));
}

#[test]
fn hcsn_ingest_tests_unknown_headers_not_mapped() {
    let headers = vec!["random".to_string(), "another".to_string()];
    let map = resolve_hcsn_headers(&headers);
    assert!(map.is_empty());
    assert!(!is_hcsn_sheet(&headers));
}
