use spectro_cam_rs::calibration::{SpectrumCalibration, SpectrumCalibrationPoint};
use spectro_cam_rs::config::{PostprocessingConfig, SpectrometerConfig, ViewConfig};
use spectro_cam_rs::controls::{
    controls_from_descriptions, find_control, find_description, is_checked, menu_selection,
    reset_to_defaults, slider_range, CameraControl, ControlDescription, ControlInput, ControlKind,
};
use spectro_cam_rs::fixed::ONE;
use spectro_cam_rs::gui::SpectrometerGui;
use spectro_cam_rs::reference::ReferenceConfig;
use spectro_cam_rs::spectrum::SpectrumRgb;

fn control(id: u32, value: i32) -> CameraControl {
    CameraControl { id, name: format!("control {}", id), value }
}

fn description(id: u32, kind: ControlKind, default: i32) -> ControlDescription {
    ControlDescription {
        id,
        name: format!("control {}", id),
        kind,
        default,
        read_only: false,
        write_only: false,
    }
}

fn values(controls: &[CameraControl]) -> Vec<(u32, i32)> {
    controls.iter().map(|c| (c.id, c.value)).collect()
}

fn gui() -> SpectrometerGui {
    SpectrometerGui::new(SpectrometerConfig {
        spectrum_calibration: SpectrumCalibration::new(
            SpectrumCalibrationPoint { wavelength: 400, index: 0 },
            SpectrumCalibrationPoint { wavelength: 700, index: 99 },
        )
        .unwrap(),
        postprocessing_config: PostprocessingConfig::new(10, false, ONE),
        view_config: ViewConfig::new(true, true, 1, ONE, (1, 1)).unwrap(),
        reference_config: ReferenceConfig::new(),
    })
}

#[test]
fn only_controls_that_can_be_read_and_written_are_adjustable() {
    let mut d = description(1, ControlKind::Boolean, 0);
    assert!(d.is_adjustable());
    d.read_only = true;
    assert!(!d.is_adjustable());
    d.read_only = false;
    d.write_only = true;
    assert!(!d.is_adjustable());
}

#[test]
fn an_integer_control_stays_strictly_inside_its_limits() {
    let d = description(1, ControlKind::Integer { minimum: -10, maximum: 10 }, 0);
    assert_eq!(d.value_for(ControlInput::Integer(3)), Some(3));
    assert_eq!(d.value_for(ControlInput::Integer(10)), Some(9));
    assert_eq!(d.value_for(ControlInput::Integer(-100)), Some(-9));
    assert_eq!(d.value_for(ControlInput::Boolean(true)), None);
    assert_eq!(d.value_for(ControlInput::Menu(0)), None);
    assert_eq!(slider_range(-10, 10), Some((-9, 9)));
    assert_eq!(slider_range(0, 2), Some((1, 1)));
    assert_eq!(slider_range(0, 1), None);
    assert_eq!(slider_range(i32::MAX, i32::MIN), None);
    assert_eq!(slider_range(i32::MIN, i32::MAX), Some((i32::MIN + 1, i32::MAX - 1)));
    let empty = description(1, ControlKind::Integer { minimum: 4, maximum: 5 }, 0);
    assert_eq!(empty.value_for(ControlInput::Integer(4)), None);
}

#[test]
fn a_boolean_control_is_one_or_zero() {
    let d = description(1, ControlKind::Boolean, 0);
    assert_eq!(d.value_for(ControlInput::Boolean(true)), Some(1));
    assert_eq!(d.value_for(ControlInput::Boolean(false)), Some(0));
    assert_eq!(d.value_for(ControlInput::Integer(1)), None);
    assert!(is_checked(1));
    assert!(!is_checked(0));
    assert!(!is_checked(2));
}

#[test]
fn a_menu_control_takes_the_chosen_item() {
    let d = description(1, ControlKind::Menu { items: vec![0, 3, u32::MAX] }, 0);
    assert_eq!(d.value_for(ControlInput::Menu(1)), Some(3));
    assert_eq!(d.value_for(ControlInput::Menu(2)), Some(-1));
    assert_eq!(d.value_for(ControlInput::Menu(3)), None);
    assert_eq!(menu_selection(&vec![0, 3, 3, u32::MAX], 3), Some(1));
    assert_eq!(menu_selection(&vec![0, 3, u32::MAX], -1), Some(2));
    assert_eq!(menu_selection(&vec![0, 3], 2), None);
    assert_eq!(menu_selection(&vec![], 0), None);
    let other = description(1, ControlKind::Other, 0);
    assert_eq!(other.value_for(ControlInput::Menu(0)), None);
    assert_eq!(other.value_for(ControlInput::Integer(0)), None);
}

#[test]
fn controls_are_found_by_identifier() {
    let controls = vec![control(5, 1), control(7, 2), control(5, 3)];
    assert_eq!(find_control(&controls, 5), Some(0));
    assert_eq!(find_control(&controls, 7), Some(1));
    assert_eq!(find_control(&controls, 6), None);
    let descriptions = vec![
        description(7, ControlKind::Boolean, 0),
        description(5, ControlKind::Boolean, 0),
    ];
    assert_eq!(find_description(&descriptions, 5), Some(1));
    assert_eq!(find_description(&descriptions, 1), None);
}

#[test]
fn defaults_are_restored_by_identifier() {
    let mut controls = vec![control(5, 1), control(7, 2), control(9, 3)];
    let descriptions = vec![
        description(7, ControlKind::Boolean, 70),
        description(5, ControlKind::Other, 50),
        description(5, ControlKind::Boolean, 51),
    ];
    reset_to_defaults(&mut controls, &descriptions);
    assert_eq!(values(&controls), vec![(5, 50), (7, 70), (9, 3)]);
    assert_eq!(controls[1].name, "control 7");
}

#[test]
fn a_changed_control_clears_the_buffer() {
    let mut gui = gui();
    gui.set_camera_controls(vec![control(5, 1), control(7, 2)]);
    gui.update_spectrum(SpectrumRgb::from_element(1, 1));
    // the same value is no change
    assert_eq!(gui.set_control_value(7, 2), None);
    assert_eq!(gui.buffered_frames(), 1);
    // an unknown control is no change
    assert_eq!(gui.set_control_value(8, 2), None);
    assert_eq!(gui.buffered_frames(), 1);
    assert_eq!(gui.set_control_value(7, 3), Some(1));
    assert_eq!(gui.buffered_frames(), 0);
    assert_eq!(values(gui.camera_controls()), vec![(5, 1), (7, 3)]);
}

#[test]
fn resetting_the_controls_clears_the_buffer() {
    let mut gui = gui();
    gui.set_camera_controls(vec![control(5, 1), control(7, 2)]);
    gui.update_spectrum(SpectrumRgb::from_element(1, 1));
    gui.reset_controls(&vec![description(7, ControlKind::Boolean, 0)]);
    assert_eq!(gui.buffered_frames(), 0);
    assert_eq!(values(gui.camera_controls()), vec![(5, 1), (7, 0)]);
}

#[test]
fn controls_are_offered_when_adjustable_and_valued() {
    let mut read_only = description(2, ControlKind::Boolean, 0);
    read_only.read_only = true;
    let mut write_only = description(3, ControlKind::Boolean, 0);
    write_only.write_only = true;
    let descriptions = vec![
        description(1, ControlKind::Boolean, 0),
        read_only,
        write_only,
        description(4, ControlKind::Integer { minimum: 0, maximum: 9 }, 5),
        description(5, ControlKind::Other, 0),
        description(6, ControlKind::Boolean, 0),
    ];
    let values = vec![Some(1), Some(2), Some(3), None, Some(-5)];
    let controls = controls_from_descriptions(&descriptions, &values);
    assert_eq!(values_of(&controls), vec![(1, 1), (5, -5)]);
    assert_eq!(controls[1].name, "control 5");
    assert!(controls_from_descriptions(&vec![], &values).is_empty());
    assert!(controls_from_descriptions(&descriptions, &vec![]).is_empty());
}

fn values_of(controls: &[CameraControl]) -> Vec<(u32, i32)> {
    controls.iter().map(|c| (c.id, c.value)).collect()
}
