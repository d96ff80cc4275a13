use spectro_cam_rs::calibration::{SpectrumCalibration, SpectrumCalibrationPoint, Wavelength};
use spectro_cam_rs::fixed::ONE;
use spectro_cam_rs::reference::{compute_scaling, ReferenceConfig, ReferencePoint};

fn sample(nm: i64, value: i64) -> ReferencePoint {
    ReferencePoint { wavelength: nm * ONE, value }
}

/// Bin `i` lies at `400 + i / 4` nanometres.
fn calibration() -> SpectrumCalibration {
    SpectrumCalibration::new(
        SpectrumCalibrationPoint { wavelength: 400, index: 0 },
        SpectrumCalibrationPoint { wavelength: 500, index: 400 },
    )
    .unwrap()
}

fn nm(quarters: usize) -> Wavelength {
    calibration().get_wavelength_from_index(quarters)
}

fn curve() -> ReferenceConfig {
    let mut reference = ReferenceConfig::new();
    reference.set_reference(vec![sample(400, 100), sample(410, 200), sample(430, -200)]);
    reference
}

#[test]
fn reference_values_at_the_samples() {
    let reference = curve();
    assert_eq!(reference.get_value_at_wavelength(&nm(0)), Some(100));
    assert_eq!(reference.get_value_at_wavelength(&nm(40)), Some(200));
    assert_eq!(reference.get_value_at_wavelength(&nm(120)), Some(-200));
}

#[test]
fn reference_values_between_the_samples() {
    let reference = curve();
    assert_eq!(reference.get_value_at_wavelength(&nm(20)), Some(150));
    assert_eq!(reference.get_value_at_wavelength(&nm(10)), Some(125));
    assert_eq!(reference.get_value_at_wavelength(&nm(1)), Some(102));
    assert_eq!(reference.get_value_at_wavelength(&nm(80)), Some(0));
    assert_eq!(reference.get_value_at_wavelength(&nm(60)), Some(100));
    assert_eq!(reference.get_value_at_wavelength(&nm(119)), Some(-195));
    assert_eq!(reference.get_value_at_wavelength(&nm(41)), Some(195));
}

#[test]
fn no_reference_value_outside_of_the_curve() {
    let reference = curve();
    assert_eq!(reference.get_value_at_wavelength(&nm(121)), None);
    assert_eq!(reference.get_value_at_wavelength(&nm(4000)), None);
    let below = calibration().get_wavelength_from_position(-1);
    assert_eq!(reference.get_value_at_wavelength(&below), None);
    // a value of zero is a value
    let mut flat = ReferenceConfig::new();
    flat.set_reference(vec![sample(400, 0), sample(500, 0)]);
    assert_eq!(flat.get_value_at_wavelength(&nm(7)), Some(0));
    assert_eq!(flat.get_value_at_wavelength(&below), None);
}

#[test]
fn no_reference_value_without_a_curve() {
    let mut reference = ReferenceConfig::new();
    assert!(!reference.has_reference());
    assert_eq!(reference.get_value_at_wavelength(&nm(0)), None);
    reference.set_reference(vec![]);
    assert!(reference.has_reference());
    assert_eq!(reference.get_value_at_wavelength(&nm(0)), None);
    reference.set_reference(vec![sample(400, 9)]);
    assert_eq!(reference.get_value_at_wavelength(&nm(0)), Some(9));
    assert_eq!(reference.get_value_at_wavelength(&nm(1)), None);
    reference.delete_reference();
    assert_eq!(reference.get_value_at_wavelength(&nm(0)), None);
}

#[test]
fn reference_values_are_scaled() {
    let mut reference = curve();
    reference.set_scale(ONE / 2);
    assert_eq!(reference.get_value_at_wavelength(&nm(20)), Some(75));
    assert_eq!(reference.get_value_at_wavelength(&nm(119)), Some(-98));
    reference.set_scale(3 * ONE);
    assert_eq!(reference.get_value_at_wavelength(&nm(40)), Some(600));
    assert_eq!(reference.scale(), 3 * ONE);
}

#[test]
fn samples_are_kept_in_the_order_given() {
    let mut reference = curve();
    reference.set_reference(vec![sample(7, 0), sample(6, 1), sample(6, 2)]);
    let kept = reference.reference().unwrap();
    assert_eq!(kept, &vec![sample(7, 0), sample(6, 1), sample(6, 2)]);
}

#[test]
fn a_curve_in_descending_order_is_looked_up_alike() {
    let mut reference = ReferenceConfig::new();
    reference.set_reference(vec![sample(430, -200), sample(410, 200), sample(400, 100)]);
    assert_eq!(reference.get_value_at_wavelength(&nm(0)), Some(100));
    assert_eq!(reference.get_value_at_wavelength(&nm(20)), Some(150));
    assert_eq!(reference.get_value_at_wavelength(&nm(40)), Some(200));
    assert_eq!(reference.get_value_at_wavelength(&nm(80)), Some(0));
    assert_eq!(reference.get_value_at_wavelength(&nm(119)), Some(-195));
    assert_eq!(reference.get_value_at_wavelength(&nm(120)), Some(-200));
    assert_eq!(reference.get_value_at_wavelength(&nm(121)), None);
}

#[test]
fn of_samples_with_one_wavelength_the_first_counts() {
    let mut reference = ReferenceConfig::new();
    reference.set_reference(vec![
        sample(400, 100),
        sample(410, 200),
        sample(410, 500),
        sample(420, 600),
    ]);
    assert_eq!(reference.get_value_at_wavelength(&nm(20)), Some(150));
    assert_eq!(reference.get_value_at_wavelength(&nm(40)), Some(200));
    assert_eq!(reference.get_value_at_wavelength(&nm(60)), Some(550));
    // no two samples differ: there is no segment, only the samples
    reference.set_reference(vec![sample(400, 1), sample(400, 2)]);
    assert_eq!(reference.get_value_at_wavelength(&nm(0)), Some(1));
    assert_eq!(reference.get_value_at_wavelength(&nm(1)), None);
}

#[test]
fn the_first_segment_that_holds_a_wavelength_counts() {
    let mut reference = ReferenceConfig::new();
    reference.set_reference(vec![sample(400, 0), sample(420, 200), sample(410, 1000)]);
    // 415 nm lies on both segments
    assert_eq!(reference.get_value_at_wavelength(&nm(60)), Some(150));
    assert_eq!(reference.get_value_at_wavelength(&nm(80)), Some(200));
    assert_eq!(reference.get_value_at_wavelength(&nm(81)), None);
}

#[test]
fn scaling_is_reference_over_measurement() {
    let reference = curve();
    let sum = vec![50, 3, -7];
    // the reference at bins 0, 1 and 2 is 100, 102 and 105
    let scaling = compute_scaling(&reference, &calibration(), &sum).unwrap();
    assert_eq!(scaling, vec![2 * ONE, 34 * ONE, -15 * ONE]);
}

#[test]
fn scaling_has_no_result_beyond_the_reference() {
    let reference = curve();
    let sum = vec![1; 122];
    assert_eq!(compute_scaling(&reference, &calibration(), &sum), None);
    let sum = vec![1; 121];
    assert_eq!(compute_scaling(&reference, &calibration(), &sum).unwrap().len(), 121);
    assert_eq!(compute_scaling(&ReferenceConfig::new(), &calibration(), &sum), None);
    assert_eq!(compute_scaling(&ReferenceConfig::new(), &calibration(), &vec![]), Some(vec![]));
}

#[test]
fn a_sum_of_zero_gives_a_saturated_factor() {
    let reference = curve();
    assert_eq!(
        compute_scaling(&reference, &calibration(), &vec![1, 0, 1]),
        Some(vec![100 * ONE, i64::MAX, 105 * ONE])
    );
    let mut negative = ReferenceConfig::new();
    negative.set_reference(vec![sample(400, -5), sample(500, -5)]);
    assert_eq!(compute_scaling(&negative, &calibration(), &vec![0, 5]), Some(vec![i64::MIN, -ONE]));
    let mut zero = ReferenceConfig::new();
    zero.set_reference(vec![sample(400, 0), sample(500, 0)]);
    assert_eq!(compute_scaling(&zero, &calibration(), &vec![0, 5]), Some(vec![0, 0]));
}

#[test]
fn the_drawn_curve_is_scaled() {
    let mut reference = curve();
    reference.set_scale(ONE / 4);
    let line = reference.to_line().unwrap();
    assert_eq!(
        line,
        vec![
            ReferencePoint { wavelength: 400 * ONE, value: 25 },
            ReferencePoint { wavelength: 410 * ONE, value: 50 },
            ReferencePoint { wavelength: 430 * ONE, value: -50 },
        ]
    );
    assert_eq!(ReferenceConfig::new().to_line(), None);
}
