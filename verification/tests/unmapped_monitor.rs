use dietarycodex::nutrition_vector::NutritionVector;
use dietarycodex::quantity::Quantity;
use dietarycodex::unmapped_monitor::UnmappedFieldMonitor;

#[test]
fn logs_unknown_field() {
    let mut monitor = UnmappedFieldMonitor::new();
    monitor.reset();
    let data = vec![("venison_g".to_string(), Quantity::from_units(50))];
    let (_nv, _trace) = NutritionVector::from_partial_map(&data, &mut monitor);
    let snap = monitor.snapshot();
    let entry = snap
        .iter()
        .find(|(k, _)| k == "venison_g")
        .expect("venison_g logged");
    assert_eq!(entry.1.count, 1);
    assert_eq!(entry.1.samples, vec![Quantity::from_units(50)]);
}

#[test]
fn monitor_counts_and_caps_samples() {
    let mut monitor = UnmappedFieldMonitor::new();
    for i in 0..5i64 {
        monitor.log("Mystery", Some(Quantity::from_units(i)));
    }
    monitor.log("MYSTERY", None);
    let snap = monitor.snapshot();
    assert_eq!(snap.len(), 1);
    assert_eq!(snap[0].0, "Mystery");
    assert_eq!(snap[0].1.count, 6);
    assert_eq!(snap[0].1.samples.len(), 3);
    monitor.reset();
    assert!(monitor.snapshot().is_empty());
}
