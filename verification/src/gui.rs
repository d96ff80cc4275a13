//! The state behind the spectrometer's user interface and the decisions it
//! takes: what a new frame does to the averaging buffer and the published
//! spectrum, what the controls of the calibration window change, and what
//! is handed out for drawing and export.
//!
//! Nothing here draws, waits or talks to a device.  The caller receives
//! frames and events, hands them in, and carries out what comes back.

use crate::buffer::{dimension_changes, mean_of, pushed, FrameBuffer};
use crate::calibration::{CalibrationView, GainPresets, Linearize, SpectrumCalibrationPoint};
use crate::config::{ConfigView, PostprocessingConfig, SpectrometerConfig, ViewConfig};
use crate::controls::{
    find_control, first_with_id, reset_to_defaults, with_defaults, with_value, CameraControl,
    ControlDescription,
};
use crate::filter::{FilterView, ZeroPhaseFilter};
use crate::fixed::ONE;
use crate::peaks::{
    feature_point, features, find_peaks_and_dips, label_height, max_value, peak_label, row_max,
    PeakLabel, PointView, SpectrumPoint,
};
use crate::reference::{compute_scaling, scaling_vector, ReferencePoint, ReferenceView};
use crate::spectrum::{
    flat_field, flat_fielded, lemma_scaled_by_one, scale_row, scaled_row, sum_rows, summed_rows,
    RgbView, Spectrum, SpectrumRgb, SpectrumView,
};
use vstd::prelude::*;

verus! {

/// Who reports a result.
#[derive(Clone, Copy, Debug, PartialEq, Eq, Structural)]
pub enum ThreadId {
    Camera,
    Main,
}

/// The outcome of an operation, with who reports it.
#[derive(Debug)]
pub struct ThreadResult {
    pub id: ThreadId,
    pub result: Result<(), String>,
}

/// What the caller does with the camera stream after the connect button was
/// pressed.
#[derive(Clone, Copy, Debug, PartialEq, Eq, Structural)]
pub enum StreamAction {
    /// Start the stream.
    Start,
    /// Stop the stream.
    Stop,
    /// Nothing: no camera format is chosen.
    Refused,
}

/// The spectrum assembled from the mean frame: each colour row times its
/// gain, and the combined row as the sum of the three, times the scaling
/// factor of each bin.
pub open spec fn assembled(mean: RgbView, calibration: CalibrationView) -> SpectrumView {
    let r = scaled_row(mean.r, calibration.gain_r);
    let g = scaled_row(mean.g, calibration.gain_g);
    let b = scaled_row(mean.b, calibration.gain_b);
    SpectrumView { r, g, b, sum: flat_fielded(summed_rows(r, g, b), calibration) }
}

/// With unity gains and no scaling vector, the assembled spectrum is the
/// mean frame itself, with the sum of its three rows as the combined row.
pub proof fn lemma_assembled_with_unity(mean: RgbView, calibration: CalibrationView)
    requires
        calibration.gain_r == ONE,
        calibration.gain_g == ONE,
        calibration.gain_b == ONE,
        calibration.scaling is None,
    ensures
        assembled(mean, calibration) == (SpectrumView {
            r: mean.r,
            g: mean.g,
            b: mean.b,
            sum: summed_rows(mean.r, mean.g, mean.b),
        }),
{
    assert forall|row: Seq<i64>| #[trigger] scaled_row(row, ONE) == row by {
        assert forall|i: int| 0 <= i < row.len() implies scaled_row(row, ONE)[i] == row[i] by {
            lemma_scaled_by_one(row[i]);
        }
        assert(scaled_row(row, ONE) =~= row);
    }
    let sum = summed_rows(mean.r, mean.g, mean.b);
    assert forall|i: int| 0 <= i < sum.len() implies flat_fielded(sum, calibration)[i]
        == sum[i] by {
        lemma_scaled_by_one(sum[i]);
    }
    assert(flat_fielded(sum, calibration) =~= sum);
}

/// The zero reference that is left once a spectrum of `ncols` bins arrives:
/// one of another number of bins is dropped.
pub open spec fn fitting_zero(zero: Option<SpectrumView>, ncols: nat) -> Option<SpectrumView> {
    match zero {
        Some(z) => if z.ncols() == ncols {
            zero
        } else {
            None
        },
        None => None,
    }
}

/// The spectrum that is published: the given one minus the zero reference,
/// where one of the same number of bins is set.
pub open spec fn published(spectrum: SpectrumView, zero: Option<SpectrumView>) -> SpectrumView {
    match fitting_zero(zero, spectrum.ncols()) {
        Some(z) => spectrum.minus(z),
        None => spectrum,
    }
}

/// The mathematical content of a [`SpectrometerGui`].
pub struct GuiView {
    pub config: ConfigView,
    pub running: bool,
    pub camera_controls: Seq<CameraControl>,
    pub spectrum: SpectrumView,
    pub spectrum_buffer: Seq<RgbView>,
    pub zero_reference: Option<SpectrumView>,
    pub tungsten_filament_temp: u16,
    pub camera_config_change_pending: bool,
    pub last_error: Option<ThreadResult>,
}

impl GuiView {
    /// The buffer after `frame` was taken in.
    pub open spec fn buffer_after(self, frame: RgbView) -> Seq<RgbView> {
        pushed(
            self.spectrum_buffer,
            frame,
            self.config.postprocessing_config.spectrum_buffer_size as int,
        )
    }

    /// The zero reference after `frame` was taken in: it is dropped when the
    /// number of bins changes.
    pub open spec fn zero_after(self, frame: RgbView) -> Option<SpectrumView> {
        if dimension_changes(self.spectrum_buffer, frame) {
            None
        } else {
            fitting_zero(self.zero_reference, frame.ncols())
        }
    }

    /// The spectrum assembled after `frame` was taken in, before smoothing
    /// and before the zero reference is subtracted.
    pub open spec fn assembled_after(self, frame: RgbView) -> SpectrumView {
        assembled(mean_of(self.buffer_after(frame)), self.config.spectrum_calibration)
    }

    /// The state after `frame` was taken in.  With the low-pass filter off
    /// the new spectrum is published at once; with the filter on the
    /// published spectrum waits for the smoothed one.
    pub open spec fn after_frame(self, frame: RgbView) -> GuiView {
        GuiView {
            spectrum_buffer: self.buffer_after(frame),
            zero_reference: self.zero_after(frame),
            spectrum: if self.config.postprocessing_config.spectrum_filter_active {
                self.spectrum
            } else {
                published(self.assembled_after(frame), self.zero_after(frame))
            },
            ..self
        }
    }

    /// The state after the filter run came back with the smoothed spectrum.
    pub open spec fn after_filtered(self, filtered: SpectrumView) -> GuiView {
        GuiView {
            zero_reference: fitting_zero(self.zero_reference, filtered.ncols()),
            spectrum: published(filtered, self.zero_reference),
            ..self
        }
    }

    /// The state after a result was reported: a failure of the camera stops
    /// the run, and the result is kept as the last one.
    pub open spec fn after_result(self, result: ThreadResult) -> GuiView {
        GuiView {
            running: self.running && !(result.id == ThreadId::Camera && result.result is Err),
            last_error: Some(result),
            ..self
        }
    }

    /// Whether there is a control with identifier `id`, and the first of
    /// them has another value than `value`.
    pub open spec fn has_other_value(self, id: u32, value: i32) -> bool {
        let position = first_with_id(self.camera_controls, id, 0);
        position < self.camera_controls.len() && self.camera_controls[position].value != value
    }

    /// The state with the reference curve replaced by `points`.
    pub open spec fn with_reference(self, points: Seq<ReferencePoint>) -> GuiView {
        GuiView {
            config: ConfigView {
                reference_config: ReferenceView {
                    reference: Some(points),
                    ..self.config.reference_config
                },
                ..self.config
            },
            ..self
        }
    }

    /// Whether the reference can be taken as the calibration: there is a
    /// reference curve and no scaling vector yet.
    pub open spec fn can_calibrate(self) -> bool {
        self.config.reference_config.reference is Some
            && self.config.spectrum_calibration.scaling is None
    }

    /// Whether the reference has a value at the wavelength of every bin of
    /// the published spectrum.
    pub open spec fn reference_covers_spectrum(self) -> bool {
        forall|i: int|
            0 <= i < self.spectrum.sum.len()
                ==> #[trigger] self.config.reference_config.has_value_at(
                self.config.spectrum_calibration.wavelength(i),
            )
    }

    /// The scaling vector that the reference gives for the published
    /// spectrum.
    pub open spec fn calibration_from_reference(self) -> Option<Seq<i64>> {
        scaling_vector(
            self.config.reference_config,
            self.config.spectrum_calibration,
            self.spectrum.sum,
        )
    }
}

/// The points of one row of a spectrum: for each bin, in bin order, its
/// wavelength and its value.
pub open spec fn line_points(row: Seq<i64>, calibration: CalibrationView) -> Seq<PointView> {
    Seq::new(row.len(), |i: int| feature_point(row, calibration, i))
}

/// The labels of the features of a row whose greatest value is `max`.
pub open spec fn labels_of(points: Seq<SpectrumPoint>, max: int, peaks: bool) -> Seq<
    crate::peaks::LabelView,
> {
    Seq::new(
        points.len(),
        |i: int|
            crate::peaks::LabelView {
                wavelength: points[i].wavelength@,
                height: label_height(points[i].value as int, max, peaks) as i64,
                nanometres: points[i].wavelength.whole() as u32,
            },
    )
}

/// What one round of [`SpectrometerGui::update`] asks of the caller.
#[derive(Debug)]
pub struct Update {
    /// Whether the display is to be drawn again without waiting for input.
    pub repaint: bool,
    /// The filter run to carry out before the new spectrum is published.
    pub filter: Option<ZeroPhaseFilter>,
}

/// The state behind the user interface of the spectrometer.
pub struct SpectrometerGui {
    config: SpectrometerConfig,
    running: bool,
    camera_controls: Vec<CameraControl>,
    spectrum: Spectrum,
    spectrum_buffer: FrameBuffer,
    zero_reference: Option<Spectrum>,
    tungsten_filament_temp: u16,
    camera_config_change_pending: bool,
    last_error: Option<ThreadResult>,
}

impl View for SpectrometerGui {
    type V = GuiView;

    closed spec fn view(&self) -> GuiView {
        GuiView {
            config: self.config@,
            running: self.running,
            camera_controls: self.camera_controls@,
            spectrum: self.spectrum@,
            spectrum_buffer: self.spectrum_buffer@,
            zero_reference: match self.zero_reference {
                Some(z) => Some(z@),
                None => None,
            },
            tungsten_filament_temp: self.tungsten_filament_temp,
            camera_config_change_pending: self.camera_config_change_pending,
            last_error: self.last_error,
        }
    }
}

impl SpectrometerGui {
    /// The state at start: not running, no frames, an empty spectrum, no
    /// zero reference, no controls, no result, and a filament temperature of
    /// 2800 kelvin.
    pub fn new(config: SpectrometerConfig) -> (gui: Self)
        ensures
            gui@.config == config@,
            !gui@.running,
            gui@.camera_controls.len() == 0,
            gui@.spectrum.valid(),
            gui@.spectrum.ncols() == 0,
            gui@.spectrum_buffer.len() == 0,
            gui@.zero_reference is None,
            gui@.tungsten_filament_temp == 2800,
            !gui@.camera_config_change_pending,
            gui@.last_error is None,
    {
        SpectrometerGui {
            config,
            running: false,
            camera_controls: Vec::new(),
            spectrum: Spectrum::zeros(0),
            spectrum_buffer: FrameBuffer::new(),
            zero_reference: None,
            tungsten_filament_temp: 2800,
            camera_config_change_pending: false,
            last_error: None,
        }
    }

    /// The settings.
    pub fn config(&self) -> (config: &SpectrometerConfig)
        ensures
            config@ == self@.config,
    {
        &self.config
    }

    /// Whether the camera stream is taken to be running.
    pub fn running(&self) -> (b: bool)
        ensures
            b == self@.running,
    {
        self.running
    }

    /// The published spectrum.
    pub fn spectrum(&self) -> (spectrum: &Spectrum)
        ensures
            spectrum@ == self@.spectrum,
    {
        &self.spectrum
    }

    /// The number of frames in the averaging buffer.
    pub fn buffered_frames(&self) -> (n: usize)
        ensures
            n == self@.spectrum_buffer.len(),
    {
        self.spectrum_buffer.len()
    }

    /// The zero reference, if one is set.
    pub fn zero_reference(&self) -> (zero: Option<&Spectrum>)
        ensures
            match zero {
                Some(z) => self@.zero_reference == Some(z@),
                None => self@.zero_reference is None,
            },
    {
        match &self.zero_reference {
            Some(z) => Some(z),
            None => None,
        }
    }

    /// The last result that was reported, if any.
    pub fn last_error(&self) -> (result: Option<&ThreadResult>)
        ensures
            match result {
                Some(r) => self@.last_error == Some(*r),
                None => self@.last_error is None,
            },
    {
        match &self.last_error {
            Some(r) => Some(r),
            None => None,
        }
    }

    /// The values that the camera's controls are set to.
    pub fn camera_controls(&self) -> (controls: &Vec<CameraControl>)
        ensures
            controls@ == self@.camera_controls,
    {
        &self.camera_controls
    }

    /// One round of the consumer loop: at most one new frame and at most one
    /// reported result are taken in.
    ///
    /// The display is to be drawn again at once if the stream was running
    /// when the round began.  A frame is processed as by
    /// [`Self::update_spectrum`]; a result as by
    /// [`Self::handle_thread_result`], and it is kept as the last one.
    pub fn update(&mut self, spectrum: Option<SpectrumRgb>, result: Option<ThreadResult>) -> (todo:
        Update)
        ensures
            todo.repaint == old(self)@.running,
            ({
                let framed = match spectrum {
                    Some(frame) => old(self)@.after_frame(frame@),
                    None => old(self)@,
                };
                final(self)@ == match result {
                    Some(r) => framed.after_result(r),
                    None => framed,
                }
            }),
            match todo.filter {
                Some(filter) => spectrum is Some
                    && old(self)@.config.postprocessing_config.spectrum_filter_active && filter@
                    == FilterView::start(old(self)@.assembled_after(spectrum->0@)),
                None => spectrum is None
                    || !old(self)@.config.postprocessing_config.spectrum_filter_active,
            },
    {
        let repaint = self.running;
        let filter = match spectrum {
            Some(frame) => self.update_spectrum(frame),
            None => None,
        };
        match result {
            Some(r) => {
                self.handle_thread_result(&r);
                self.last_error = Some(r);
            },
            None => {},
        }
        Update { repaint, filter }
    }

    /// Takes in a new frame, already linearised.
    ///
    /// The frame is pushed onto the averaging buffer, which is cleared first
    /// if the number of bins changed; in that case, and whenever the zero
    /// reference has another number of bins than the frame, the zero
    /// reference is dropped.  The mean of the buffered frames is multiplied
    /// row by row with the gains; the combined row is the sum of the three
    /// colour rows times the scaling factor of each bin.
    ///
    /// With the low-pass filter off, the zero reference is subtracted and the
    /// result is published.  With the filter on, the assembled spectrum is
    /// returned as a filter run; the caller carries it out and hands it
    /// back to [`Self::publish_filtered`].
    pub fn update_spectrum(&mut self, spectrum: SpectrumRgb) -> (filter: Option<ZeroPhaseFilter>)
        ensures
            final(self)@ == old(self)@.after_frame(spectrum@),
            dimension_changes(old(self)@.spectrum_buffer, spectrum@) ==> {
                &&& final(self)@.spectrum_buffer == seq![spectrum@]
                &&& final(self)@.zero_reference is None
            },
            match filter {
                Some(f) => old(self)@.config.postprocessing_config.spectrum_filter_active && f@
                    == FilterView::start(old(self)@.assembled_after(spectrum@)),
                None => !old(self)@.config.postprocessing_config.spectrum_filter_active,
            },
    {
        let ncols: usize = spectrum.ncols();
        let buffer_size: usize = self.config.postprocessing_config.spectrum_buffer_size();
        let dimension_changed = self.spectrum_buffer.push(spectrum, buffer_size);
        if dimension_changed {
            self.zero_reference = None;
        } else {
            self.drop_unfitting_zero(ncols);
        }
        let combined_buffer = self.spectrum_buffer.mean_frame();
        let (gain_r, gain_g, gain_b) = self.config.spectrum_calibration.gains();
        let r = scale_row(combined_buffer.row(0), gain_r);
        let g = scale_row(combined_buffer.row(1), gain_g);
        let b = scale_row(combined_buffer.row(2), gain_b);
        let sum = flat_field(&sum_rows(&r, &g, &b), &self.config.spectrum_calibration);
        let current_spectrum = Spectrum::of_rows(r, g, b, sum);
        if self.config.postprocessing_config.spectrum_filter_active() {
            Some(ZeroPhaseFilter::new(&current_spectrum))
        } else {
            self.publish(current_spectrum);
            None
        }
    }

    /// Publishes the spectrum of a filter run that is finished: the zero
    /// reference is subtracted where one of the same number of bins is set;
    /// one of another number of bins is dropped.  A run that is not finished
    /// is not published, and nothing changes.
    pub fn publish_filtered(&mut self, filter: ZeroPhaseFilter) -> (published: bool)
        ensures
            published <==> filter@.step() is Finished,
            published ==> final(self)@ == old(self)@.after_filtered(filter@.spectrum),
            !published ==> final(self)@ == old(self)@,
    {
        if !filter.is_finished() {
            return false;
        }
        let filtered = filter.into_spectrum();
        let ncols: usize = filtered.ncols();
        self.drop_unfitting_zero(ncols);
        self.publish(filtered);
        true
    }

    fn drop_unfitting_zero(&mut self, ncols: usize)
        ensures
            final(self)@ == (GuiView {
                zero_reference: fitting_zero(old(self)@.zero_reference, ncols as nat),
                ..old(self)@
            }),
    {
        let fits = match &self.zero_reference {
            Some(z) => z.ncols() == ncols,
            None => true,
        };
        if !fits {
            self.zero_reference = None;
        }
    }

    fn publish(&mut self, spectrum: Spectrum)
        requires
            old(self)@.zero_reference matches Some(z) ==> z.ncols() == spectrum@.ncols(),
        ensures
            final(self)@ == (GuiView {
                spectrum: published(spectrum@, old(self)@.zero_reference),
                ..old(self)@
            }),
    {
        let difference = match &self.zero_reference {
            Some(zero) => Some(spectrum.minus(zero)),
            None => None,
        };
        match difference {
            Some(d) => {
                self.spectrum = d;
            },
            None => {
                self.spectrum = spectrum;
            },
        }
    }

    /// Takes note of a reported result: when the camera reports a failure,
    /// the stream is no longer taken to be running.
    pub fn handle_thread_result(&mut self, res: &ThreadResult)
        ensures
            final(self)@ == (GuiView {
                running: old(self)@.running && !(res.id == ThreadId::Camera && res.result is Err),
                ..old(self)@
            }),
    {
        let failed = match &res.result {
            Ok(_) => false,
            Err(_) => true,
        };
        if res.id == ThreadId::Camera && failed {
            self.running = false;
        }
    }

    /// The decision behind the connect button.  With a camera format chosen
    /// the stream is toggled: it is started, with an empty averaging buffer,
    /// if it was not running, and stopped if it was.  Without one, nothing
    /// is toggled and the refusal is kept as the last result.
    pub fn toggle_stream(&mut self, has_camera_format: bool) -> (action: StreamAction)
        ensures
            has_camera_format && !old(self)@.running ==> {
                &&& action == StreamAction::Start
                &&& final(self)@ == (GuiView {
                    running: true,
                    spectrum_buffer: Seq::<RgbView>::empty(),
                    ..old(self)@
                })
            },
            has_camera_format && old(self)@.running ==> {
                &&& action == StreamAction::Stop
                &&& final(self)@ == (GuiView { running: false, ..old(self)@ })
            },
            !has_camera_format ==> {
                &&& action == StreamAction::Refused
                &&& final(self)@.last_error matches Some(refusal)
                &&& refusal.id == ThreadId::Main
                &&& refusal.result matches Err(message)
                &&& message@ == "Choose a camera format!"@
                &&& final(self)@ == (GuiView {
                    last_error: final(self)@.last_error,
                    ..old(self)@
                })
            },
    {
        if has_camera_format {
            self.running = !self.running;
            if self.running {
                self.spectrum_buffer.clear();
                StreamAction::Start
            } else {
                StreamAction::Stop
            }
        } else {
            self.last_error = Some(
                ThreadResult {
                    id: ThreadId::Main,
                    result: Err("Choose a camera format!".to_owned()),
                },
            );
            StreamAction::Refused
        }
    }

    /// Takes over the values that the camera's controls have at the start of
    /// a stream.
    pub fn set_camera_controls(&mut self, controls: Vec<CameraControl>)
        ensures
            final(self)@ == (GuiView { camera_controls: controls@, ..old(self)@ }),
    {
        self.camera_controls = controls;
    }

    /// Sets the control with identifier `id` to `value`.  Where there is such
    /// a control and its value changes, the averaging buffer is cleared,
    /// since frames taken before and after the change do not belong in one
    /// mean, and the position of the control is returned.
    pub fn set_control_value(&mut self, id: u32, value: i32) -> (changed: Option<usize>)
        ensures
            changed is Some <==> old(self)@.has_other_value(id, value),
            match changed {
                Some(position) => {
                    &&& position == first_with_id(old(self)@.camera_controls, id, 0)
                    &&& final(self)@ == (GuiView {
                        camera_controls: with_value(
                            old(self)@.camera_controls,
                            position as int,
                            value,
                        ),
                        spectrum_buffer: Seq::<RgbView>::empty(),
                        ..old(self)@
                    })
                },
                None => final(self)@ == old(self)@,
            },
    {
        match find_control(&self.camera_controls, id) {
            Some(position) => {
                if self.camera_controls[position].value != value {
                    self.camera_controls[position].value = value;
                    self.spectrum_buffer.clear();
                    assert(self@.camera_controls =~= with_value(
                        old(self)@.camera_controls,
                        position as int,
                        value,
                    ));
                    Some(position)
                } else {
                    None
                }
            },
            None => None,
        }
    }

    /// Sets all controls back to the defaults that the descriptions give,
    /// and clears the averaging buffer.
    pub fn reset_controls(&mut self, descriptions: &Vec<ControlDescription>)
        ensures
            final(self)@ == (GuiView {
                camera_controls: with_defaults(old(self)@.camera_controls, descriptions@),
                spectrum_buffer: Seq::<RgbView>::empty(),
                ..old(self)@
            }),
    {
        reset_to_defaults(&mut self.camera_controls, descriptions);
        self.spectrum_buffer.clear();
    }

    /// Selects the linearisation mode.  A change clears the averaging
    /// buffer: frames linearised in different ways are not averaged.
    pub fn set_linearize(&mut self, mode: Linearize)
        ensures
            final(self)@.config.spectrum_calibration == (CalibrationView {
                linearize: mode,
                ..old(self)@.config.spectrum_calibration
            }),
            final(self)@.spectrum_buffer == if mode
                != old(self)@.config.spectrum_calibration.linearize {
                Seq::<RgbView>::empty()
            } else {
                old(self)@.spectrum_buffer
            },
            final(self)@ == (GuiView {
                config: ConfigView {
                    spectrum_calibration: final(self)@.config.spectrum_calibration,
                    ..old(self)@.config
                },
                spectrum_buffer: final(self)@.spectrum_buffer,
                ..old(self)@
            }),
    {
        let changed = self.config.spectrum_calibration.set_linearize(mode);
        if changed {
            self.spectrum_buffer.clear();
        }
    }

    /// Moves the calibration anchors, if the lower one stays strictly below
    /// the upper one by index and by wavelength; otherwise nothing changes.
    pub fn set_calibration_anchors(
        &mut self,
        low: SpectrumCalibrationPoint,
        high: SpectrumCalibrationPoint,
    ) -> (accepted: bool)
        ensures
            accepted <==> (low.index < high.index && low.wavelength < high.wavelength),
            accepted ==> final(self)@ == (GuiView {
                config: ConfigView {
                    spectrum_calibration: CalibrationView {
                        low,
                        high,
                        ..old(self)@.config.spectrum_calibration
                    },
                    ..old(self)@.config
                },
                ..old(self)@
            }),
            !accepted ==> final(self)@ == old(self)@,
    {
        self.config.spectrum_calibration.set_anchors(low, high)
    }

    /// Sets the gains of the red, green and blue channel.
    pub fn set_gains(&mut self, gain_r: i64, gain_g: i64, gain_b: i64)
        ensures
            final(self)@ == (GuiView {
                config: ConfigView {
                    spectrum_calibration: CalibrationView {
                        gain_r,
                        gain_g,
                        gain_b,
                        ..old(self)@.config.spectrum_calibration
                    },
                    ..old(self)@.config
                },
                ..old(self)@
            }),
    {
        self.config.spectrum_calibration.set_gains(gain_r, gain_g, gain_b);
    }

    /// Sets the three gains to those of a named preset.
    pub fn set_gain_preset(&mut self, preset: GainPresets)
        ensures
            final(self)@ == (GuiView {
                config: ConfigView {
                    spectrum_calibration: CalibrationView {
                        gain_r: crate::calibration::preset_gains(preset).0 as i64,
                        gain_g: crate::calibration::preset_gains(preset).1 as i64,
                        gain_b: crate::calibration::preset_gains(preset).2 as i64,
                        ..old(self)@.config.spectrum_calibration
                    },
                    ..old(self)@.config
                },
                ..old(self)@
            }),
    {
        self.config.spectrum_calibration.set_gain_preset(preset);
    }

    /// Replaces the averaging and smoothing settings.
    pub fn set_postprocessing_config(&mut self, config: PostprocessingConfig)
        ensures
            final(self)@ == (GuiView {
                config: ConfigView { postprocessing_config: config@, ..old(self)@.config },
                ..old(self)@
            }),
    {
        self.config.postprocessing_config = config;
    }

    /// Replaces the view settings.
    pub fn set_view_config(&mut self, config: ViewConfig)
        ensures
            final(self)@ == (GuiView {
                config: ConfigView { view_config: config@, ..old(self)@.config },
                ..old(self)@
            }),
    {
        self.config.view_config = config;
    }

    /// Replaces the reference curve by the given samples, in the order
    /// given.  Nothing of the old curve is kept.
    pub fn set_reference(&mut self, points: Vec<ReferencePoint>)
        ensures
            final(self)@ == old(self)@.with_reference(points@),
    {
        self.config.reference_config.set_reference(points);
    }

    /// The decision behind the import of a reference file.  Where the file
    /// was read, its samples replace the reference curve wholesale, in file
    /// order, and the success is kept as the last result.  Where it was not,
    /// the curve stays untouched and the failure is kept as the last result.
    pub fn import_reference(&mut self, read: Result<Vec<ReferencePoint>, String>)
        ensures
            final(self)@ == match read {
                Ok(points) => GuiView {
                    last_error: Some(ThreadResult { id: ThreadId::Main, result: Ok(()) }),
                    ..old(self)@.with_reference(points@)
                },
                Err(message) => GuiView {
                    last_error: Some(ThreadResult { id: ThreadId::Main, result: Err(message) }),
                    ..old(self)@
                },
            },
    {
        match read {
            Ok(points) => {
                self.config.reference_config.set_reference(points);
                self.last_error = Some(ThreadResult { id: ThreadId::Main, result: Ok(()) });
            },
            Err(message) => {
                self.last_error = Some(ThreadResult { id: ThreadId::Main, result: Err(message) });
            },
        }
    }

    /// Removes the reference curve.
    pub fn delete_reference(&mut self)
        ensures
            final(self)@ == (GuiView {
                config: ConfigView {
                    reference_config: ReferenceView {
                        reference: None,
                        ..old(self)@.config.reference_config
                    },
                    ..old(self)@.config
                },
                ..old(self)@
            }),
    {
        self.config.reference_config.delete_reference();
    }

    /// Sets the factor that the values of the reference curve are multiplied
    /// with.
    pub fn set_reference_scale(&mut self, scale: i64)
        ensures
            final(self)@ == (GuiView {
                config: ConfigView {
                    reference_config: ReferenceView {
                        scale,
                        ..old(self)@.config.reference_config
                    },
                    ..old(self)@.config
                },
                ..old(self)@
            }),
    {
        self.config.reference_config.set_scale(scale);
    }

    /// Takes the reference as the calibration: where there is a reference
    /// curve and no scaling vector yet, the scaling vector becomes, bin by
    /// bin, the reference value at the bin's wavelength divided by the
    /// combined value of the published spectrum.  The one way for this to
    /// fail is that the curve has no value for one of the bins; then nothing
    /// changes.  A combined value of zero is no failure: its factor is the
    /// greatest or the least value, by the sign of the reference value, or
    /// zero for a reference value of zero.
    pub fn set_reference_as_calibration(&mut self) -> (done: bool)
        ensures
            done <==> (old(self)@.can_calibrate() && old(self)@.reference_covers_spectrum()),
            done ==> old(self)@.calibration_from_reference() is Some,
            done ==> final(self)@ == (GuiView {
                config: ConfigView {
                    spectrum_calibration: CalibrationView {
                        scaling: old(self)@.calibration_from_reference(),
                        ..old(self)@.config.spectrum_calibration
                    },
                    ..old(self)@.config
                },
                ..old(self)@
            }),
            !done ==> final(self)@ == old(self)@,
    {
        if !self.config.reference_config.has_reference()
            || self.config.spectrum_calibration.has_scaling() {
            return false;
        }
        let scaling = compute_scaling(
            &self.config.reference_config,
            &self.config.spectrum_calibration,
            self.spectrum.row(3),
        );
        match scaling {
            Some(factors) => {
                self.config.spectrum_calibration.set_scaling(Some(factors));
                true
            },
            None => false,
        }
    }

    /// Removes the scaling vector.
    pub fn delete_calibration(&mut self)
        ensures
            final(self)@ == (GuiView {
                config: ConfigView {
                    spectrum_calibration: CalibrationView {
                        scaling: None,
                        ..old(self)@.config.spectrum_calibration
                    },
                    ..old(self)@.config
                },
                ..old(self)@
            }),
    {
        self.config.spectrum_calibration.set_scaling(None);
    }

    /// Takes the published spectrum as the zero reference, unless one is
    /// set already.
    pub fn set_zero_reference(&mut self)
        ensures
            final(self)@ == (GuiView {
                zero_reference: if old(self)@.zero_reference is None {
                    Some(old(self)@.spectrum)
                } else {
                    old(self)@.zero_reference
                },
                ..old(self)@
            }),
    {
        if self.zero_reference.is_none() {
            self.zero_reference = Some(self.spectrum.clone());
        }
    }

    /// Removes the zero reference.
    pub fn clear_zero_reference(&mut self)
        ensures
            final(self)@ == (GuiView { zero_reference: None, ..old(self)@ }),
    {
        self.zero_reference = None;
    }

    /// The temperature in kelvin of the filament that a reference curve is
    /// generated for.
    pub fn tungsten_filament_temp(&self) -> (kelvin: u16)
        ensures
            kelvin == self@.tungsten_filament_temp,
    {
        self.tungsten_filament_temp
    }

    /// Sets the filament temperature.
    pub fn set_tungsten_filament_temp(&mut self, kelvin: u16)
        ensures
            final(self)@ == (GuiView { tungsten_filament_temp: kelvin, ..old(self)@ }),
    {
        self.tungsten_filament_temp = kelvin;
    }

    /// Whether a change of the camera's image settings waits to be sent.
    pub fn camera_config_change_pending(&self) -> (pending: bool)
        ensures
            pending == self@.camera_config_change_pending,
    {
        self.camera_config_change_pending
    }

    /// Records that the camera's image settings were changed and wait to be
    /// sent.
    pub fn note_camera_config_change(&mut self)
        ensures
            final(self)@ == (GuiView { camera_config_change_pending: true, ..old(self)@ }),
    {
        self.camera_config_change_pending = true;
    }

    /// The decision behind the button that sends the camera's image
    /// settings: they are to be sent if a change is waiting, and after that
    /// no change is waiting any more.
    pub fn take_camera_config_change(&mut self) -> (send: bool)
        ensures
            send == old(self)@.camera_config_change_pending,
            final(self)@ == (GuiView { camera_config_change_pending: false, ..old(self)@ }),
    {
        let send = self.camera_config_change_pending;
        self.camera_config_change_pending = false;
        send
    }

    /// The points of one row of the published spectrum, for drawing it as a
    /// line: for each bin, in bin order, its wavelength and its value.
    /// Rows 0 to 2 are the colour channels, row 3 is the combined row.
    pub fn spectrum_channel_to_line(&self, channel_index: usize) -> (line: Vec<SpectrumPoint>)
        requires
            channel_index < 4,
        ensures
            line@.map_values(|p: SpectrumPoint| p@) == line_points(
                self@.spectrum.row(channel_index as int),
                self@.config.spectrum_calibration,
            ),
    {
        let row = self.spectrum.row(channel_index);
        let mut line: Vec<SpectrumPoint> = Vec::with_capacity(row.len());
        let mut i: usize = 0;
        while i < row.len()
            invariant
                i <= row.len(),
                line.len() == i,
                forall|k: int|
                    0 <= k < i ==> (#[trigger] line[k])@ == feature_point(
                        row@,
                        self.config.spectrum_calibration@,
                        k,
                    ),
            decreases row.len() - i,
        {
            let wavelength = self.config.spectrum_calibration.get_wavelength_from_index(i);
            line.push(SpectrumPoint { wavelength, value: row[i] });
            i += 1;
        }
        assert(line@.map_values(|p: SpectrumPoint| p@) =~= line_points(
            row@,
            self.config.spectrum_calibration@,
        ));
        line
    }

    /// The peaks (`peaks == true`) or dips (`peaks == false`) of the
    /// combined row of the published spectrum, with the search window and
    /// the neighbourhood width of the view settings, and a label for each.
    pub fn spectrum_to_peaks_and_dips(&self, peaks: bool) -> (found: (
        Vec<SpectrumPoint>,
        Vec<PeakLabel>,
    ))
        ensures
            found.0@.map_values(|p: SpectrumPoint| p@) == features(
                self@.spectrum.sum,
                self@.config.spectrum_calibration,
                self@.config.view_config.peaks_dips_find_window as int,
                self@.config.view_config.peaks_dips_unique_window as int,
                peaks,
            ),
            found.1@.map_values(|l: PeakLabel| l@) == labels_of(
                found.0@,
                row_max(self@.spectrum.sum),
                peaks,
            ),
    {
        let spectrum = self.spectrum.row(3);
        let max_spectrum_value: i64 = max_value(spectrum);
        let filtered_peaks_dips = find_peaks_and_dips(
            spectrum,
            &self.config.spectrum_calibration,
            self.config.view_config.peaks_dips_find_window(),
            self.config.view_config.peaks_dips_unique_window(),
            peaks,
        );
        let mut peak_dip_labels: Vec<PeakLabel> = Vec::with_capacity(filtered_peaks_dips.len());
        let mut i: usize = 0;
        while i < filtered_peaks_dips.len()
            invariant
                i <= filtered_peaks_dips.len(),
                peak_dip_labels.len() == i,
                forall|k: int|
                    0 <= k < i ==> (#[trigger] peak_dip_labels[k])@ == labels_of(
                        filtered_peaks_dips@,
                        max_spectrum_value as int,
                        peaks,
                    )[k],
            decreases filtered_peaks_dips.len() - i,
        {
            peak_dip_labels.push(peak_label(&filtered_peaks_dips[i], max_spectrum_value, peaks));
            i += 1;
        }
        assert(peak_dip_labels@.map_values(|l: PeakLabel| l@) =~= labels_of(
            filtered_peaks_dips@,
            max_spectrum_value as int,
            peaks,
        ));
        (filtered_peaks_dips, peak_dip_labels)
    }

    /// Records the size of the window and hands out the settings as they
    /// are to be stored.
    pub fn persist_config(&mut self, window_size: (u32, u32)) -> (stored: SpectrometerConfig)
        ensures
            final(self)@.config.view_config == (crate::config::ViewConfigView {
                window_size,
                ..old(self)@.config.view_config
            }),
            final(self)@ == (GuiView {
                config: ConfigView {
                    view_config: final(self)@.config.view_config,
                    ..old(self)@.config
                },
                ..old(self)@
            }),
            stored@ == final(self)@.config,
    {
        self.config.view_config.set_window_size(window_size);
        self.config.clone()
    }
}

} // verus!
