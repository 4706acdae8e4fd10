use dietarycodex::acs2020_ingest::{is_acs2020_sheet, resolve_acs2020_headers};

#[test]
fn acs2020_ingest_tests_resolve_headers_maps_known_fields() {
    let headers = vec![
        "vegetable".to_string(),
        "fruit".to_string(),
        "kcal".to_string(),
    ];
    let map = resolve_acs2020_headers(&headers);
    assert!(map
        .iter()
        .any(|(h, t)| h == "vegetable" && *t == "VEG_SERV_ACS2020"));
    assert!(map
        .iter()
        .any(|(h, t)| h == "fruit" && *t == "FRT_SERV_ACS2020"));
    assert!(map
        .iter()
        .any(|(h, t)| h == "kcal" && *t == "TOTALKCAL_ACS2020"));
    assert!(is_acs2020_sheet(&headers));
}

#[test]
fn acs2020_ingest_tests_unknown_headers_not_mapped() {
    let headers = vec!["random".to_string(), "another".to_string()];
    let map = resolve_acs2020_headers(&headers);
    assert!(map.is_empty());
    assert!(!is_acs2020_sheet(&headers));
}

#[test]
fn acs2020_suffix_headers_resolve() {
    let headers = vec![
        "vegetable_acs2020".to_string(),
        "FRUIT_ACS2020".to_string(),
    ];
    let map = resolve_acs2020_headers(&headers);
    assert!(map
        .iter()
        .any(|(h, t)| h == "vegetable_acs2020" && *t == "VEG_SERV_ACS2020"));
    assert!(map
        .iter()
        .any(|(h, t)| h == "FRUIT_ACS2020" && *t == "FRT_SERV_ACS2020"));
    assert!(is_acs2020_sheet(&headers));
}
