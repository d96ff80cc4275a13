use spectro_cam_rs::calibration::{
    GainPresets, Linearize, SpectrumCalibration, SpectrumCalibrationPoint,
};
use spectro_cam_rs::fixed::ONE;

fn point(index: u32, wavelength: u32) -> SpectrumCalibrationPoint {
    SpectrumCalibrationPoint { wavelength, index }
}

fn anchors() -> SpectrumCalibration {
    SpectrumCalibration::new(point(0, 400), point(99, 700)).unwrap()
}

#[test]
fn wavelength_at_the_anchors_is_exact() {
    let calibration = anchors();
    assert!(calibration.get_wavelength_from_index(0).is_exactly(400));
    assert!(calibration.get_wavelength_from_index(99).is_exactly(700));
}

#[test]
fn wavelength_below_bin_zero_is_extrapolated() {
    let calibration = anchors();
    let w = calibration.get_wavelength_from_position(-1);
    assert!(w.is_below(400));
    assert_eq!(w.numerator(), 400 * 99 - 300);
    assert_eq!(w.denominator(), 99);
    assert_eq!(w.whole_nm(), 396);
}

#[test]
fn wavelength_beyond_the_upper_anchor_is_extrapolated() {
    let calibration = anchors();
    let w = calibration.get_wavelength_from_index(198);
    assert!(w.is_exactly(1000));
    assert!(!w.is_below(1000));
}

#[test]
fn wavelength_is_strictly_increasing_in_equal_steps() {
    let calibration = SpectrumCalibration::new(point(10, 300), point(2010, 301)).unwrap();
    let mut previous = calibration.get_wavelength_from_index(0).numerator();
    for index in 1..50usize {
        let w = calibration.get_wavelength_from_index(index);
        assert_eq!(w.denominator(), 2000);
        assert_eq!(w.numerator() - previous, 1);
        previous = w.numerator();
    }
}

#[test]
fn wavelength_between_the_anchors() {
    let calibration = SpectrumCalibration::new(point(50, 436), point(150, 546)).unwrap();
    let w = calibration.get_wavelength_from_index(100);
    assert!(w.is_exactly(491));
    let v = calibration.get_wavelength_from_index(51);
    assert_eq!((v.numerator(), v.denominator()), (436 * 100 + 110, 100));
    assert_eq!(v.whole_nm(), 437);
}

#[test]
fn whole_nanometres_of_a_negative_wavelength_are_zero() {
    let calibration = SpectrumCalibration::new(point(0, 1), point(1, 1000)).unwrap();
    let w = calibration.get_wavelength_from_position(-5);
    assert!(w.numerator() < 0);
    assert_eq!(w.whole_nm(), 0);
}

#[test]
fn anchors_out_of_order_are_refused() {
    assert!(SpectrumCalibration::new(point(5, 400), point(5, 700)).is_none());
    assert!(SpectrumCalibration::new(point(6, 400), point(5, 700)).is_none());
    assert!(SpectrumCalibration::new(point(0, 700), point(5, 700)).is_none());
    assert!(SpectrumCalibration::new(point(0, 701), point(5, 700)).is_none());
}

#[test]
fn moving_an_anchor_across_the_other_changes_nothing() {
    let mut calibration = anchors();
    assert!(!calibration.set_low(point(99, 500)));
    assert!(!calibration.set_low(point(10, 700)));
    assert_eq!(calibration.low(), point(0, 400));
    assert!(!calibration.set_high(point(0, 900)));
    assert_eq!(calibration.high(), point(99, 700));
    assert!(calibration.set_low(point(10, 450)));
    assert!(calibration.set_high(point(60, 650)));
    assert_eq!(calibration.low(), point(10, 450));
    assert_eq!(calibration.high(), point(60, 650));
    assert!(calibration.set_anchors(point(100, 800), point(200, 900)));
    assert!(!calibration.set_anchors(point(200, 800), point(100, 900)));
    assert_eq!(calibration.low(), point(100, 800));
}

#[test]
fn scaling_factor_defaults_to_one() {
    let mut calibration = anchors();
    assert_eq!(calibration.get_scaling_factor_from_index(0), ONE);
    assert_eq!(calibration.get_scaling_factor_from_index(1_000_000), ONE);
    calibration.set_scaling(Some(vec![2 * ONE, ONE / 2]));
    assert!(calibration.has_scaling());
    assert_eq!(calibration.get_scaling_factor_from_index(0), 2_000_000);
    assert_eq!(calibration.get_scaling_factor_from_index(1), 500_000);
    assert_eq!(calibration.get_scaling_factor_from_index(2), ONE);
    calibration.set_scaling(None);
    assert!(!calibration.has_scaling());
    assert_eq!(calibration.get_scaling_factor_from_index(0), ONE);
}

#[test]
fn gain_presets_are_the_luma_weights() {
    let mut calibration = anchors();
    assert_eq!(calibration.gains(), (ONE, ONE, ONE));
    calibration.set_gain_preset(GainPresets::Rec601);
    assert_eq!(calibration.gains(), (299_000, 587_000, 114_000));
    calibration.set_gain_preset(GainPresets::Rec709);
    assert_eq!(calibration.gains(), (212_600, 715_200, 72_200));
    calibration.set_gain_preset(GainPresets::SRgb);
    assert_eq!(calibration.gains(), (212_600, 715_200, 72_200));
    calibration.set_gain_preset(GainPresets::Unity);
    assert_eq!(calibration.gains(), (1_000_000, 1_000_000, 1_000_000));
    calibration.set_gains(3, -4, 5);
    assert_eq!(calibration.gains(), (3, -4, 5));
}

#[test]
fn linearize_mode_reports_a_change() {
    let mut calibration = anchors();
    assert_eq!(calibration.linearize(), Linearize::Off);
    assert!(!calibration.set_linearize(Linearize::Off));
    assert!(calibration.set_linearize(Linearize::SRgb));
    assert_eq!(calibration.linearize(), Linearize::SRgb);
    assert!(calibration.set_linearize(Linearize::Rec709));
    assert!(!calibration.set_linearize(Linearize::Rec709));
}

#[test]
fn a_copy_of_a_calibration_is_equal() {
    let mut calibration = anchors();
    calibration.set_scaling(Some(vec![7, 8, 9]));
    calibration.set_gains(1, 2, 3);
    let copy = calibration.clone();
    assert_eq!(copy.low(), calibration.low());
    assert_eq!(copy.high(), calibration.high());
    assert_eq!(copy.gains(), (1, 2, 3));
    assert_eq!(copy.get_scaling_factor_from_index(2), 9);
}
