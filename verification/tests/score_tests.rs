use dietarycodex::contracts::ScoreId;
use dietarycodex::eval::{
    evaluate_all_scores, evaluate_allow_partial, format_skipped_scores,
};
use dietarycodex::fields::FieldId;
use dietarycodex::nutrition_vector::NutritionVector;
use dietarycodex::quantity::Quantity;
use dietarycodex::scores::acs2020::Acs2020Scorer;
use dietarycodex::scores::amed::AMedScorer;
use dietarycodex::scores::dash::DashScorer;
use dietarycodex::scores::dashi::DashiScorer;
use dietarycodex::scores::dii::DiiScorer;
use dietarycodex::scores::hei::HeiScorer;
use dietarycodex::scores::mind::MindScorer;
use dietarycodex::scores::phdi::PhdiScorer;
use dietarycodex::scores::registry::{all_score_metadata, all_scorers};
use dietarycodex::unmapped_monitor::UnmappedFieldMonitor;

fn q(units: i64) -> Option<Quantity> {
    Some(Quantity::from_units(units))
}

fn expected_names() -> Vec<String> {
    all_scorers().into_iter().map(|s| s.name().to_string()).collect()
}

fn row(entries: &[(&str, f64)]) -> Vec<(String, Quantity)> {
    entries
        .iter()
        .map(|(k, v)| {
            (
                k.to_string(),
                Quantity::from_micros((v * 1_000_000.0).round() as i64),
            )
        })
        .collect()
}

#[test]
fn hei_score_not_nan() {
    let nv = NutritionVector {
        total_fruits: q(150),
        whole_grains: q(80),
        sodium: q(1600),
        ..Default::default()
    };
    let val = HeiScorer.evaluate(&nv);
    assert_eq!(val.micros(), 26_250_000);
}

#[test]
fn dash_score_not_nan() {
    let nv = NutritionVector {
        total_fruits: q(200),
        vegetables: q(250),
        whole_grains: q(80),
        sodium: q(1600),
        saturated_fat: q(10),
        energy: q(2000),
        ..Default::default()
    };
    let val = DashScorer.evaluate(&nv);
    assert_eq!(val.micros(), 40_000_000);
}

#[test]
fn dashi_score_not_nan() {
    let nv = NutritionVector {
        vegetables: q(250),
        total_fruits: q(250),
        whole_grains: q(80),
        calcium: q(900),
        sodium: q(1600),
        ..Default::default()
    };
    let val = DashiScorer.evaluate(&nv);
    assert_eq!(val.micros(), 8_050_000);
}

#[test]
fn amed_score_not_nan() {
    let nv = NutritionVector {
        vegetables: q(250),
        legumes: q(100),
        total_fruits: q(150),
        whole_grains: q(80),
        fish: q(80),
        mono_fat: q(30),
        red_meat: q(50),
        ..Default::default()
    };
    let val = AMedScorer.evaluate(&nv);
    assert_eq!(val.micros(), 58_833_333);
}

#[test]
fn evaluate_returns_dash() {
    let nv = NutritionVector {
        total_fruits: q(200),
        vegetables: q(200),
        whole_grains: q(80),
        sodium: q(1600),
        saturated_fat: q(10),
        energy: q(2000),
        ..Default::default()
    };
    let scores = evaluate_allow_partial(&nv);
    match scores.get("DASH") {
        Some(info) if info.value.is_some() => {}
        _ => panic!("DASH score not computed"),
    }
}

#[test]
fn evaluate_returns_dashi() {
    let names = expected_names();
    assert!(names.contains(&"DASHI".to_string()));
}

#[test]
fn evaluate_returns_dii() {
    let nv = NutritionVector {
        saturated_fat: q(8),
        sugar: q(50),
        fiber: q(20),
        vitamin_c: q(60),
        vitamin_a: q(700),
        vitamin_e: q(10),
        omega3: q(1),
        zinc: q(12),
        selenium: q(55),
        magnesium: q(300),
        trans_fat: Some(Quantity::from_micros(500_000)),
        ..Default::default()
    };
    let scores = evaluate_allow_partial(&nv);
    match scores.get("DII") {
        Some(info) if info.value.is_some() => {}
        _ => panic!("DII score not computed"),
    }
    let val = DiiScorer.evaluate(&nv);
    assert_eq!(val.micros(), -3_185_000);
}

#[test]
fn acs2020_score_not_nan() {
    let nv = NutritionVector {
        vegetables: q(250),
        legumes: q(90),
        total_fruits: q(180),
        whole_grains: q(80),
        red_meat: q(40),
        sugar: q(30),
        alcohol: q(10),
        ..Default::default()
    };
    let val = Acs2020Scorer.evaluate(&nv);
    assert_eq!(val.micros(), 51_333_333);
}

#[test]
fn evaluate_returns_acs2020() {
    let names = expected_names();
    assert!(names.contains(&"ACS2020".to_string()));
}

#[test]
fn phdi_score_not_nan() {
    let nv = NutritionVector {
        vegetables: q(250),
        legumes: q(80),
        whole_grains: q(70),
        fat: q(40),
        saturated_fat: q(10),
        trans_fat: Some(Quantity::from_micros(500_000)),
        red_meat: q(20),
        sugar: q(30),
        refined_grains: q(100),
        energy: q(2000),
        ..Default::default()
    };
    let val = PhdiScorer.evaluate(&nv);
    assert_eq!(val.micros(), 59_444_444);
}

#[test]
fn evaluate_returns_phdi() {
    let names = expected_names();
    assert!(names.contains(&"PHDI".to_string()));
}

#[test]
fn mind_score_not_nan() {
    let nv = NutritionVector {
        vegetables: q(150),
        berries: q(40),
        nuts: q(20),
        whole_grains: q(60),
        fish: q(50),
        poultry: q(80),
        mono_fat: q(25),
        red_meat: q(20),
        sugar: q(15),
        cheese: q(10),
        butter: q(5),
        fast_food: q(0),
        ..Default::default()
    };
    let val = MindScorer.evaluate(&nv);
    assert_eq!(val.micros(), 9_816_666);
}

#[test]
fn evaluate_returns_mind() {
    let names = expected_names();
    assert!(names.contains(&"MIND".to_string()));
}

#[test]
fn default_evaluates_all_scores() {
    let nv = NutritionVector::default();
    assert!(evaluate_all_scores(&nv).is_err());
}

#[test]
fn returns_err_with_missing_fields() {
    let nv = NutritionVector { fiber: q(5), ..Default::default() };
    let err = evaluate_all_scores(&nv).unwrap_err();
    assert!(err.missing_canonical_fields.contains(&FieldId::FatG));
    assert!(err.missing_canonical_fields.contains(&FieldId::SaturatedFatG));
}

#[test]
fn allow_partial_skips_missing() {
    let nv = NutritionVector {
        fiber: q(5),
        fat: q(40),
        saturated_fat: q(10),
        ..Default::default()
    };
    let result = evaluate_allow_partial(&nv);
    match result.get("AHEI") {
        Some(info) if info.value.is_some() => {
            assert_eq!(info.value.unwrap().micros(), 9_500_000);
        }
        _ => panic!("AHEI should be computed"),
    }
    match result.get("DASH") {
        Some(info) if info.value.is_none() => {}
        _ => panic!("DASH should be skipped"),
    }
}

#[test]
fn skipped_reason_lists_missing_fields() {
    let nv = NutritionVector { fiber: q(5), ..Default::default() };
    let result = evaluate_allow_partial(&nv);
    match result.get("AHEI") {
        Some(info) if info.value.is_none() => {
            let reason = info.explanation.as_ref().unwrap();
            assert!(reason.contains("fat"));
            assert!(reason.contains("saturated_fat"));
        }
        _ => panic!("AHEI should be skipped"),
    }
    match result.get("DASH") {
        Some(info) if info.value.is_none() => {
            let reason = info.explanation.as_ref().unwrap();
            assert!(reason.contains("sodium"));
            assert!(reason.contains("energy"));
        }
        _ => panic!("DASH should be skipped"),
    }
}

#[test]
fn metadata_fields_are_valid() {
    let all_fields: Vec<&str> = NutritionVector::all_field_names();
    for meta in all_score_metadata() {
        for field in &meta.required_fields {
            assert!(
                all_fields.contains(&field.name()),
                "{} missing field {}",
                meta.name,
                field.name()
            );
        }
    }
}

#[test]
fn metadata_sorted() {
    let metas = all_score_metadata();
    let names: Vec<&str> = metas.iter().map(|m| m.name).collect();
    let mut sorted_names = names.clone();
    sorted_names.sort();
    assert_eq!(names, sorted_names, "score metadata not sorted by name");

    for meta in metas {
        let fields: Vec<&str> = meta.required_fields.iter().map(|f| f.name()).collect();
        let mut sorted_fields = fields.clone();
        sorted_fields.sort();
        assert_eq!(fields, sorted_fields, "fields for {} not sorted", meta.name);
    }
}

fn all_fields_nv() -> NutritionVector {
    NutritionVector {
        energy: q(2000),
        fat: q(70),
        saturated_fat: q(10),
        carbs: q(250),
        fiber: q(30),
        sugar: q(25),
        protein: q(50),
        sodium: q(1500),
        calcium: q(900),
        iron: q(10),
        vitamin_c: q(60),
        total_fruits: q(250),
        vegetables: q(250),
        whole_grains: q(90),
        refined_grains: q(90),
        legumes: q(100),
        fish: q(50),
        red_meat: q(30),
        mono_fat: q(30),
        berries: q(30),
        cheese: q(20),
        butter: q(5),
        poultry: q(50),
        fast_food: q(0),
        nuts: q(20),
        omega3: q(1),
        vitamin_a: q(800),
        vitamin_e: q(10),
        zinc: q(12),
        selenium: q(55),
        magnesium: q(300),
        trans_fat: Some(Quantity::from_micros(200_000)),
        alcohol: q(5),
    }
}

#[test]
fn all_scores_skipped_when_no_input() {
    let nv = NutritionVector::default();
    let result = evaluate_allow_partial(&nv);
    assert!(result.scores.iter().all(|(_, s)| s.value.is_none()));
}

#[test]
fn no_scores_skipped_when_all_fields_present() {
    let nv = all_fields_nv();
    let result = evaluate_allow_partial(&nv);
    assert!(result.scores.iter().all(|(_, s)| s.value.is_some()));
}

#[test]
fn skipped_reason_fields_are_required() {
    let nv = NutritionVector::default();
    let result = evaluate_allow_partial(&nv);
    let meta_map: Vec<(&str, Vec<&str>)> = all_score_metadata()
        .into_iter()
        .map(|m| (m.name, m.required_fields.iter().map(|f| f.name()).collect()))
        .collect();

    for (sc, info) in &result.scores {
        if info.value.is_none() {
            let reason = info.explanation.as_ref().unwrap().clone();
            let fields: Vec<&str> = reason
                .trim_start_matches("missing fields: ")
                .split(',')
                .map(|s| s.trim())
                .collect();
            let required = &meta_map
                .iter()
                .find(|(n, _)| *n == sc.name())
                .unwrap()
                .1;
            for f in fields {
                assert!(
                    required.contains(&f),
                    "{} reported missing {} not in required fields",
                    sc.name(),
                    f
                );
            }
        }
    }
}

#[test]
fn skipped_reason_field_order() {
    let nv = NutritionVector::default();
    let result = evaluate_allow_partial(&nv);
    for (_, status) in &result.scores {
        if status.value.is_none() {
            let reason = status.explanation.as_ref().unwrap();
            let fields: Vec<&str> = reason
                .trim_start_matches("missing fields: ")
                .split(',')
                .map(|s| s.trim())
                .collect();
            let mut sorted = fields.clone();
            sorted.sort();
            assert_eq!(fields, sorted);
        }
    }
}

#[test]
fn verbose_partial_output_stable() {
    let nv = NutritionVector::default();
    let result = evaluate_allow_partial(&nv);
    let output = format_skipped_scores(&result).expect("expected skipped scores");
    let lines: Vec<&str> = output.lines().collect();
    assert!(!lines.is_empty());
    assert_eq!(lines[0], "Skipped scores:");
    let names: Vec<&str> = lines
        .iter()
        .skip(1)
        .map(|l| l.split(':').next().unwrap().trim())
        .collect();
    let mut sorted_names = names.clone();
    sorted_names.sort();
    assert_eq!(names, sorted_names);
    for line in lines.iter().skip(1) {
        let reason = line.splitn(2, ':').nth(1).unwrap().trim();
        let fields: Vec<&str> = reason
            .trim_start_matches("missing fields: ")
            .split(',')
            .map(|s| s.trim())
            .collect();
        let mut sorted_fields = fields.clone();
        sorted_fields.sort();
        assert_eq!(fields, sorted_fields);
    }
}

#[test]
fn deserialize_alias_alcohol() {
    let mut monitor = UnmappedFieldMonitor::new();
    let data = row(&[("ALCOHOL", 12.5)]);
    let (nv, _) = NutritionVector::from_partial_map(&data, &mut monitor);
    assert_eq!(nv.alcohol, Some(Quantity::from_micros(12_500_000)));
}

#[test]
fn deserialize_alias_alcohol_intake() {
    let mut monitor = UnmappedFieldMonitor::new();
    let data = row(&[("alcohol_intake", 3.0)]);
    let (nv, _) = NutritionVector::from_partial_map(&data, &mut monitor);
    assert_eq!(nv.alcohol, Some(Quantity::from_micros(3_000_000)));
}

#[test]
fn out_of_range_score_marked_invalid() {
    let nv = NutritionVector {
        fiber: Some(Quantity::from_micros(-50_000_000)),
        fat: q(40),
        saturated_fat: q(10),
        ..Default::default()
    };
    let result = evaluate_allow_partial(&nv);
    let info = result.get("AHEI").unwrap();
    assert_eq!(info.value.unwrap().micros(), -12_500_000);
    assert!(!info.valid);
    assert_eq!(info.explanation.as_deref(), Some("out of range [0, 20]"));
}

#[test]
fn registry_order_is_fixed() {
    let names = expected_names();
    assert_eq!(
        names,
        vec!["AHEI", "HEI", "DASH", "DASHI", "aMED", "DII", "PHDI", "ACS2020", "MIND"]
    );
    assert_eq!(ScoreId::Dash.name(), "DASH");
}
