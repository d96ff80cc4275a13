use spectro_cam_rs::calibration::{
    GainPresets, Linearize, SpectrumCalibration, SpectrumCalibrationPoint,
};
use spectro_cam_rs::config::{PostprocessingConfig, SpectrometerConfig, ViewConfig};
use spectro_cam_rs::filter::{FilterStep, ZeroPhaseFilter};
use spectro_cam_rs::fixed::ONE;
use spectro_cam_rs::gui::{SpectrometerGui, StreamAction};
use spectro_cam_rs::reference::ReferenceConfig;
use spectro_cam_rs::spectrum::{Spectrum, SpectrumRgb};
use spectro_cam_rs::{ThreadId, ThreadResult};

fn config(buffer_size: usize, filter: bool) -> SpectrometerConfig {
    SpectrometerConfig {
        spectrum_calibration: SpectrumCalibration::new(
            SpectrumCalibrationPoint { wavelength: 400, index: 0 },
            SpectrumCalibrationPoint { wavelength: 700, index: 99 },
        )
        .unwrap(),
        postprocessing_config: PostprocessingConfig::new(buffer_size, filter, ONE / 2),
        view_config: ViewConfig::new(true, true, 1, 10 * ONE, (800, 600)).unwrap(),
        reference_config: ReferenceConfig::new(),
    }
}

fn rows(spectrum: &Spectrum) -> [Vec<i64>; 4] {
    [
        spectrum.row(0).clone(),
        spectrum.row(1).clone(),
        spectrum.row(2).clone(),
        spectrum.row(3).clone(),
    ]
}

#[test]
fn three_frames_are_averaged_and_summed() {
    let mut gui = SpectrometerGui::new(config(3, false));
    assert_eq!(gui.spectrum().ncols(), 0);
    for value in 1..=3 {
        assert!(gui.update_spectrum(SpectrumRgb::from_element(1, value)).is_none());
    }
    assert_eq!(gui.buffered_frames(), 3);
    assert_eq!(rows(gui.spectrum()), [vec![2], vec![2], vec![2], vec![6]]);
}

#[test]
fn zero_reference_is_subtracted() {
    let mut gui = SpectrometerGui::new(config(1, false));
    gui.update_spectrum(SpectrumRgb::from_element(1, 1));
    assert_eq!(rows(gui.spectrum()), [vec![1], vec![1], vec![1], vec![3]]);
    gui.set_zero_reference();
    assert_eq!(rows(gui.zero_reference().unwrap()), [vec![1], vec![1], vec![1], vec![3]]);
    gui.update_spectrum(SpectrumRgb::from_element(1, 2));
    assert_eq!(rows(gui.spectrum()), [vec![1], vec![1], vec![1], vec![3]]);
    gui.clear_zero_reference();
    assert!(gui.zero_reference().is_none());
    gui.update_spectrum(SpectrumRgb::from_element(1, 2));
    assert_eq!(rows(gui.spectrum()), [vec![2], vec![2], vec![2], vec![6]]);
}

#[test]
fn zero_reference_is_not_replaced_while_set() {
    let mut gui = SpectrometerGui::new(config(1, false));
    gui.update_spectrum(SpectrumRgb::from_element(2, 5));
    gui.set_zero_reference();
    gui.update_spectrum(SpectrumRgb::from_element(2, 8));
    gui.set_zero_reference();
    assert_eq!(gui.zero_reference().unwrap().row(3), &vec![15, 15]);
    assert_eq!(gui.spectrum().row(3), &vec![9, 9]);
}

#[test]
fn a_new_width_clears_buffer_and_zero_reference() {
    let mut gui = SpectrometerGui::new(config(10, false));
    gui.update_spectrum(SpectrumRgb::from_element(3, 4));
    gui.update_spectrum(SpectrumRgb::from_element(3, 6));
    gui.set_zero_reference();
    assert_eq!(gui.buffered_frames(), 2);
    gui.update_spectrum(SpectrumRgb::from_element(2, 7));
    assert_eq!(gui.buffered_frames(), 1);
    assert!(gui.zero_reference().is_none());
    assert_eq!(rows(gui.spectrum()), [vec![7, 7], vec![7, 7], vec![7, 7], vec![21, 21]]);
}

#[test]
fn a_zero_reference_of_another_width_is_dropped_after_a_cleared_buffer() {
    let mut gui = SpectrometerGui::new(config(10, false));
    gui.update_spectrum(SpectrumRgb::from_element(3, 4));
    gui.set_zero_reference();
    // a change of the linearisation empties the buffer, so that the next
    // frame finds nothing to compare its width with
    gui.set_linearize(Linearize::Rec601);
    assert_eq!(gui.buffered_frames(), 0);
    assert!(gui.zero_reference().is_some());
    gui.update_spectrum(SpectrumRgb::from_element(5, 1));
    assert!(gui.zero_reference().is_none());
    assert_eq!(gui.spectrum().row(3), &vec![3, 3, 3, 3, 3]);
}

#[test]
fn gains_scale_each_channel() {
    let mut gui = SpectrometerGui::new(config(1, false));
    gui.set_gains(2 * ONE, ONE / 2, 0);
    gui.update_spectrum(
        SpectrumRgb::from_rows(vec![10, 20], vec![10, 21], vec![10, 20]).unwrap(),
    );
    assert_eq!(rows(gui.spectrum()), [vec![20, 40], vec![5, 10], vec![0, 0], vec![25, 50]]);
    gui.set_gain_preset(GainPresets::Rec601);
    gui.update_spectrum(
        SpectrumRgb::from_rows(vec![1000, 0], vec![1000, 0], vec![1000, 1]).unwrap(),
    );
    assert_eq!(rows(gui.spectrum()), [vec![299, 0], vec![587, 0], vec![114, 0], vec![1000, 0]]);
}

#[test]
fn sum_saturates() {
    let mut gui = SpectrometerGui::new(config(1, false));
    gui.update_spectrum(SpectrumRgb::from_element(1, i64::MAX));
    assert_eq!(rows(gui.spectrum()), [
        vec![i64::MAX],
        vec![i64::MAX],
        vec![i64::MAX],
        vec![i64::MAX],
    ]);
    gui.set_zero_reference();
    gui.update_spectrum(SpectrumRgb::from_element(1, i64::MIN));
    assert_eq!(gui.spectrum().row(0), &vec![i64::MIN]);
    assert_eq!(gui.spectrum().row(3), &vec![i64::MIN]);
}

#[test]
fn linearize_change_clears_the_buffer() {
    let mut gui = SpectrometerGui::new(config(10, false));
    gui.update_spectrum(SpectrumRgb::from_element(3, 4));
    gui.update_spectrum(SpectrumRgb::from_element(3, 4));
    gui.set_linearize(Linearize::Off);
    assert_eq!(gui.buffered_frames(), 2);
    gui.set_linearize(Linearize::SRgb);
    assert_eq!(gui.buffered_frames(), 0);
    assert_eq!(gui.config().spectrum_calibration.linearize(), Linearize::SRgb);
}

#[test]
fn with_the_filter_on_the_spectrum_waits_for_the_smoothed_one() {
    let mut gui = SpectrometerGui::new(config(1, true));
    gui.update_spectrum(SpectrumRgb::from_element(1, 1));
    // nothing is published before the smoothed spectrum is handed in
    assert_eq!(gui.spectrum().ncols(), 0);
    let mut filter = gui.update_spectrum(SpectrumRgb::from_element(2, 4)).unwrap();
    assert_eq!(gui.buffered_frames(), 1);
    assert_eq!(rows(&filter.spectrum()), [vec![4, 4], vec![4, 4], vec![4, 4], vec![12, 12]]);
    // a filter that halves every sample
    loop {
        match filter.step() {
            FilterStep::Restart => filter.restarted(),
            FilterStep::Sample(sample) => filter.accept(sample / 2),
            FilterStep::Finished => break,
        }
    }
    assert!(gui.publish_filtered(filter));
    assert_eq!(rows(gui.spectrum()), [vec![1, 1], vec![1, 1], vec![1, 1], vec![3, 3]]);
}

#[test]
fn an_unfinished_filter_run_is_not_published() {
    let mut gui = SpectrometerGui::new(config(1, true));
    let mut filter = gui.update_spectrum(SpectrumRgb::from_element(2, 4)).unwrap();
    filter.restarted();
    filter.accept(9);
    assert!(!gui.publish_filtered(filter));
    assert_eq!(gui.spectrum().ncols(), 0);
}

#[test]
fn zero_reference_is_subtracted_after_smoothing() {
    let mut gui = SpectrometerGui::new(config(1, true));
    assert!(gui.publish_filtered(smoothed(
        Spectrum::from_rows(vec![1, 2], vec![3, 4], vec![5, 6], vec![7, 8]).unwrap(),
    )));
    gui.set_zero_reference();
    assert!(gui.publish_filtered(smoothed(
        Spectrum::from_rows(vec![10, 10], vec![10, 10], vec![10, 10], vec![10, 10]).unwrap(),
    )));
    assert_eq!(rows(gui.spectrum()), [vec![9, 8], vec![7, 6], vec![5, 4], vec![3, 2]]);
    // a smoothed spectrum of another width drops the zero reference
    assert!(gui.publish_filtered(smoothed(
        Spectrum::from_rows(vec![1], vec![1], vec![1], vec![1]).unwrap(),
    )));
    assert!(gui.zero_reference().is_none());
    assert_eq!(rows(gui.spectrum()), [vec![1], vec![1], vec![1], vec![1]]);
}

/// A finished run of a filter that passes every sample through.
fn smoothed(spectrum: Spectrum) -> ZeroPhaseFilter {
    let mut filter = ZeroPhaseFilter::new(&spectrum);
    loop {
        match filter.step() {
            FilterStep::Restart => filter.restarted(),
            FilterStep::Sample(sample) => filter.accept(sample),
            FilterStep::Finished => break,
        }
    }
    filter
}

#[test]
fn scaling_vector_multiplies_the_sum() {
    let mut gui = SpectrometerGui::new(config(1, false));
    gui.set_reference(vec![
        spectro_cam_rs::reference::ReferencePoint { wavelength: 300 * ONE, value: 600 },
        spectro_cam_rs::reference::ReferencePoint { wavelength: 800 * ONE, value: 600 },
    ]);
    gui.update_spectrum(SpectrumRgb::from_rows(vec![1, 2], vec![1, 2], vec![1, 2]).unwrap());
    assert_eq!(gui.spectrum().row(3), &vec![3, 6]);
    assert!(gui.set_reference_as_calibration());
    assert_eq!(gui.config().spectrum_calibration.get_scaling_factor_from_index(0), 200 * ONE);
    assert_eq!(gui.config().spectrum_calibration.get_scaling_factor_from_index(1), 100 * ONE);
    // not again while a scaling vector is set
    assert!(!gui.set_reference_as_calibration());
    gui.update_spectrum(SpectrumRgb::from_rows(vec![1, 2], vec![1, 2], vec![1, 2]).unwrap());
    assert_eq!(rows(gui.spectrum()), [vec![1, 2], vec![1, 2], vec![1, 2], vec![600, 600]]);
    // bins past the scaling vector are not scaled
    gui.update_spectrum(SpectrumRgb::from_element(3, 1));
    assert_eq!(gui.spectrum().row(3), &vec![600, 300, 3]);
    gui.delete_calibration();
    gui.update_spectrum(SpectrumRgb::from_element(3, 1));
    assert_eq!(gui.spectrum().row(3), &vec![3, 3, 3]);
}

#[test]
fn calibration_fails_outside_of_the_reference() {
    let mut gui = SpectrometerGui::new(config(1, false));
    gui.update_spectrum(SpectrumRgb::from_element(2, 1));
    // no reference at all
    assert!(!gui.set_reference_as_calibration());
    // bin 0 lies at 400 nm, below the curve
    gui.set_reference(vec![
        spectro_cam_rs::reference::ReferencePoint { wavelength: 401 * ONE, value: 600 },
        spectro_cam_rs::reference::ReferencePoint { wavelength: 800 * ONE, value: 600 },
    ]);
    assert!(!gui.set_reference_as_calibration());
    assert!(!gui.config().spectrum_calibration.has_scaling());
    assert_eq!(gui.spectrum().row(3), &vec![3, 3]);
}

#[test]
fn calibration_takes_a_combined_value_of_zero() {
    let mut gui = SpectrometerGui::new(config(1, false));
    gui.set_reference(vec![
        spectro_cam_rs::reference::ReferencePoint { wavelength: 800 * ONE, value: 600 },
        spectro_cam_rs::reference::ReferencePoint { wavelength: 300 * ONE, value: 600 },
    ]);
    gui.update_spectrum(SpectrumRgb::from_rows(vec![1, 0], vec![1, 0], vec![1, 0]).unwrap());
    gui.set_zero_reference();
    assert!(gui.set_reference_as_calibration());
    assert_eq!(gui.config().spectrum_calibration.scaling(), Some(&vec![200 * ONE, i64::MAX]));
    // nothing else changes
    assert_eq!(gui.spectrum().row(3), &vec![3, 0]);
    assert_eq!(gui.buffered_frames(), 1);
    assert_eq!(gui.zero_reference().unwrap().row(3), &vec![3, 0]);
    gui.clear_zero_reference();
    gui.update_spectrum(SpectrumRgb::from_rows(vec![1, 0], vec![1, 0], vec![1, 0]).unwrap());
    assert_eq!(gui.spectrum().row(3), &vec![600, 0]);
}

#[test]
fn an_imported_reference_replaces_the_old_one_wholesale() {
    let mut gui = SpectrometerGui::new(config(1, false));
    let point = |wavelength, value| spectro_cam_rs::reference::ReferencePoint { wavelength, value };
    gui.import_reference(Ok(vec![point(1, 2)]));
    assert_eq!(gui.last_error().unwrap().id, ThreadId::Main);
    assert_eq!(gui.last_error().unwrap().result, Ok(()));
    // rows in any order, with a wavelength twice
    gui.import_reference(Ok(vec![point(5, 2), point(5, 3), point(4, 1)]));
    let kept = gui.config().reference_config.reference().unwrap();
    assert_eq!(kept, &vec![point(5, 2), point(5, 3), point(4, 1)]);
    assert_eq!(gui.last_error().unwrap().result, Ok(()));
    // a file that could not be read leaves the curve untouched
    gui.import_reference(Err("no such file".to_string()));
    let kept = gui.config().reference_config.reference().unwrap();
    assert_eq!(kept, &vec![point(5, 2), point(5, 3), point(4, 1)]);
    assert_eq!(gui.last_error().unwrap().id, ThreadId::Main);
    assert_eq!(gui.last_error().unwrap().result, Err("no such file".to_string()));
    gui.import_reference(Ok(vec![]));
    assert!(gui.config().reference_config.reference().unwrap().is_empty());
    gui.delete_reference();
    assert!(!gui.config().reference_config.has_reference());
    gui.set_reference_scale(5);
    assert_eq!(gui.config().reference_config.scale(), 5);
}

#[test]
fn update_takes_one_frame_and_one_result() {
    let mut gui = SpectrometerGui::new(config(2, false));
    let todo = gui.update(None, None);
    assert!(!todo.repaint);
    assert!(todo.filter.is_none());
    assert_eq!(gui.toggle_stream(true), StreamAction::Start);
    let todo = gui.update(Some(SpectrumRgb::from_element(1, 3)), None);
    assert!(todo.repaint);
    assert_eq!(gui.spectrum().row(3), &vec![9]);
    let failure = ThreadResult { id: ThreadId::Camera, result: Err("gone".to_string()) };
    let todo = gui.update(Some(SpectrumRgb::from_element(1, 5)), Some(failure));
    // the stream was still running when the round began
    assert!(todo.repaint);
    assert!(!gui.running());
    assert_eq!(gui.spectrum().row(3), &vec![12]);
    assert_eq!(gui.last_error().unwrap().result, Err("gone".to_string()));
    let todo = gui.update(None, None);
    assert!(!todo.repaint);
}

#[test]
fn update_hands_out_the_filter_run() {
    let mut gui = SpectrometerGui::new(config(2, true));
    let todo = gui.update(Some(SpectrumRgb::from_element(1, 3)), None);
    let filter = todo.filter.unwrap();
    assert_eq!(filter.step(), FilterStep::Restart);
    assert_eq!(filter.spectrum().row(3), &vec![9]);
    assert!(gui.update(None, None).filter.is_none());
}

#[test]
fn only_a_camera_failure_stops_the_run() {
    let mut gui = SpectrometerGui::new(config(2, false));
    gui.toggle_stream(true);
    gui.handle_thread_result(&ThreadResult { id: ThreadId::Main, result: Err("x".to_string()) });
    assert!(gui.running());
    gui.handle_thread_result(&ThreadResult { id: ThreadId::Camera, result: Ok(()) });
    assert!(gui.running());
    gui.handle_thread_result(&ThreadResult { id: ThreadId::Camera, result: Err("x".to_string()) });
    assert!(!gui.running());
    // handling alone does not record the result
    assert!(gui.last_error().is_none());
}

#[test]
fn connect_button_toggles_the_stream() {
    let mut gui = SpectrometerGui::new(config(5, false));
    gui.update_spectrum(SpectrumRgb::from_element(1, 3));
    assert_eq!(gui.toggle_stream(false), StreamAction::Refused);
    assert!(!gui.running());
    assert_eq!(gui.buffered_frames(), 1);
    let refusal = gui.last_error().unwrap();
    assert_eq!(refusal.id, ThreadId::Main);
    assert_eq!(refusal.result, Err("Choose a camera format!".to_string()));
    assert_eq!(gui.toggle_stream(true), StreamAction::Start);
    assert!(gui.running());
    assert_eq!(gui.buffered_frames(), 0);
    gui.update_spectrum(SpectrumRgb::from_element(1, 3));
    assert_eq!(gui.toggle_stream(true), StreamAction::Stop);
    assert!(!gui.running());
    assert_eq!(gui.buffered_frames(), 1);
}

#[test]
fn persisting_records_the_window_size() {
    let mut gui = SpectrometerGui::new(config(5, true));
    gui.set_gains(1, 2, 3);
    let stored = gui.persist_config((1024, 768));
    assert_eq!(stored.view_config.window_size(), (1024, 768));
    assert_eq!(gui.config().view_config.window_size(), (1024, 768));
    assert_eq!(stored.spectrum_calibration.gains(), (1, 2, 3));
    assert_eq!(stored.postprocessing_config.spectrum_buffer_size(), 5);
    assert!(stored.postprocessing_config.spectrum_filter_active());
    assert_eq!(stored.view_config.peaks_dips_unique_window(), 10 * ONE);
}

#[test]
fn settings_keep_their_ranges() {
    let mut post = PostprocessingConfig::new(0, false, 5);
    assert_eq!(post.spectrum_buffer_size(), 1);
    post.set_spectrum_buffer_size(1000);
    assert_eq!(post.spectrum_buffer_size(), 100);
    post.set_spectrum_buffer_size(17);
    assert_eq!(post.spectrum_buffer_size(), 17);
    assert_eq!(post.spectrum_filter_cutoff(), 5);
    assert_eq!(post.effective_cutoff(), 1_000);
    post.set_spectrum_filter_cutoff(2 * ONE);
    assert_eq!(post.effective_cutoff(), ONE);
    post.set_spectrum_filter_cutoff(250_000);
    assert_eq!(post.effective_cutoff(), 250_000);
    post.set_spectrum_filter_active(true);
    assert!(post.spectrum_filter_active());

    assert!(ViewConfig::new(true, true, 0, ONE, (1, 1)).is_none());
    assert!(ViewConfig::new(true, true, 1, 0, (1, 1)).is_none());
    let mut view = ViewConfig::new(true, false, 3, ONE, (1, 1)).unwrap();
    assert!(!view.set_peaks_dips_find_window(0));
    assert_eq!(view.peaks_dips_find_window(), 3);
    assert!(view.set_peaks_dips_find_window(200));
    assert!(!view.set_peaks_dips_unique_window(-1));
    assert!(view.set_peaks_dips_unique_window(2));
    assert_eq!(view.peaks_dips_unique_window(), 2);
    view.set_draw(false, true);
    assert!(!view.draw_peaks() && view.draw_dips());

    let mut gui = SpectrometerGui::new(config(5, true));
    gui.set_postprocessing_config(post);
    gui.set_view_config(view);
    assert_eq!(gui.config().postprocessing_config.spectrum_buffer_size(), 17);
    assert_eq!(gui.config().view_config.peaks_dips_find_window(), 200);
    gui.set_tungsten_filament_temp(3000);
    assert_eq!(gui.tungsten_filament_temp(), 3000);
    assert!(!gui.take_camera_config_change());
    gui.note_camera_config_change();
    assert!(gui.camera_config_change_pending());
    assert!(gui.take_camera_config_change());
    assert!(!gui.camera_config_change_pending());
    assert!(!gui.take_camera_config_change());
    assert!(gui.set_calibration_anchors(
        SpectrumCalibrationPoint { wavelength: 900, index: 500 },
        SpectrumCalibrationPoint { wavelength: 901, index: 501 },
    ));
    assert!(!gui.set_calibration_anchors(
        SpectrumCalibrationPoint { wavelength: 900, index: 500 },
        SpectrumCalibrationPoint { wavelength: 900, index: 501 },
    ));
    assert_eq!(gui.config().spectrum_calibration.low().index, 500);
}
