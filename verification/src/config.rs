//! The settings that the processing pipeline and the feature detector read.

use crate::buffer::MAX_BUFFER_SIZE;
use crate::calibration::{CalibrationView, SpectrumCalibration};
use crate::reference::{ReferenceConfig, ReferenceView};
use vstd::prelude::*;

verus! {

/// The least cutoff that the low-pass filter is run with: 0.001.
pub const MIN_FILTER_CUTOFF: i64 = 1_000;

/// The greatest cutoff that the low-pass filter is run with: 1.0.
pub const MAX_FILTER_CUTOFF: i64 = 1_000_000;

/// The nominal sampling rate that the cutoff is measured against, whatever
/// the spacing of the bins: 2.0, so that a cutoff of 1.0 is the highest
/// frequency that a row can hold.
pub const FILTER_SAMPLING_RATE: i64 = 2_000_000;

/// `value` limited to the range from `low` to `high`.
pub open spec fn clamped(value: int, low: int, high: int) -> int {
    if value < low {
        low
    } else if value > high {
        high
    } else {
        value
    }
}

/// Averaging and smoothing of the spectrum.
#[derive(Clone, Copy, Debug)]
pub struct PostprocessingConfig {
    spectrum_buffer_size: usize,
    spectrum_filter_active: bool,
    spectrum_filter_cutoff: i64,
}

/// The mathematical content of a [`PostprocessingConfig`].
pub struct PostprocessingView {
    pub spectrum_buffer_size: usize,
    pub spectrum_filter_active: bool,
    pub spectrum_filter_cutoff: i64,
}

impl PostprocessingView {
    /// The buffer size lies between 1 and [`MAX_BUFFER_SIZE`].
    pub open spec fn valid(self) -> bool {
        1 <= self.spectrum_buffer_size <= MAX_BUFFER_SIZE
    }

    /// The cutoff that the filter is run with: the configured one, limited
    /// to the range from 0.001 to 1.0.
    pub open spec fn effective_cutoff(self) -> int {
        clamped(
            self.spectrum_filter_cutoff as int,
            MIN_FILTER_CUTOFF as int,
            MAX_FILTER_CUTOFF as int,
        )
    }
}

impl View for PostprocessingConfig {
    type V = PostprocessingView;

    closed spec fn view(&self) -> PostprocessingView {
        PostprocessingView {
            spectrum_buffer_size: self.spectrum_buffer_size,
            spectrum_filter_active: self.spectrum_filter_active,
            spectrum_filter_cutoff: self.spectrum_filter_cutoff,
        }
    }
}

impl PostprocessingConfig {
    #[verifier::type_invariant]
    spec fn inv(self) -> bool {
        self@.valid()
    }

    /// Settings with the buffer size and the cutoff as given, the buffer
    /// size limited to the range from 1 to [`MAX_BUFFER_SIZE`].
    pub fn new(
        spectrum_buffer_size: usize,
        spectrum_filter_active: bool,
        spectrum_filter_cutoff: i64,
    ) -> (config: Self)
        ensures
            config@.valid(),
            config@.spectrum_buffer_size as int == clamped(
                spectrum_buffer_size as int,
                1,
                MAX_BUFFER_SIZE as int,
            ),
            config@.spectrum_filter_active == spectrum_filter_active,
            config@.spectrum_filter_cutoff == spectrum_filter_cutoff,
    {
        let size: usize = if spectrum_buffer_size < 1 {
            1
        } else if spectrum_buffer_size > MAX_BUFFER_SIZE {
            MAX_BUFFER_SIZE
        } else {
            spectrum_buffer_size
        };
        PostprocessingConfig {
            spectrum_buffer_size: size,
            spectrum_filter_active,
            spectrum_filter_cutoff,
        }
    }

    /// The number of frames that are averaged.
    pub fn spectrum_buffer_size(&self) -> (size: usize)
        ensures
            size == self@.spectrum_buffer_size,
            self@.valid(),
    {
        proof {
            use_type_invariant(self);
        }
        self.spectrum_buffer_size
    }

    /// Sets the number of frames that are averaged, limited to the range
    /// from 1 to [`MAX_BUFFER_SIZE`].
    pub fn set_spectrum_buffer_size(&mut self, size: usize)
        ensures
            final(self)@.spectrum_buffer_size as int == clamped(
                size as int,
                1,
                MAX_BUFFER_SIZE as int,
            ),
            final(self)@.spectrum_filter_active == old(self)@.spectrum_filter_active,
            final(self)@.spectrum_filter_cutoff == old(self)@.spectrum_filter_cutoff,
    {
        self.spectrum_buffer_size = if size < 1 {
            1
        } else if size > MAX_BUFFER_SIZE {
            MAX_BUFFER_SIZE
        } else {
            size
        };
    }

    /// Whether the low-pass filter is applied.
    pub fn spectrum_filter_active(&self) -> (active: bool)
        ensures
            active == self@.spectrum_filter_active,
    {
        self.spectrum_filter_active
    }

    /// Switches the low-pass filter on or off.
    pub fn set_spectrum_filter_active(&mut self, active: bool)
        ensures
            final(self)@ == (PostprocessingView { spectrum_filter_active: active, ..old(self)@ }),
    {
        proof {
            use_type_invariant(&*self);
        }
        self.spectrum_filter_active = active;
    }

    /// The cutoff as it was set.
    pub fn spectrum_filter_cutoff(&self) -> (cutoff: i64)
        ensures
            cutoff == self@.spectrum_filter_cutoff,
    {
        self.spectrum_filter_cutoff
    }

    /// Sets the cutoff of the low-pass filter.
    pub fn set_spectrum_filter_cutoff(&mut self, cutoff: i64)
        ensures
            final(self)@ == (PostprocessingView { spectrum_filter_cutoff: cutoff, ..old(self)@ }),
    {
        proof {
            use_type_invariant(&*self);
        }
        self.spectrum_filter_cutoff = cutoff;
    }

    /// The cutoff that the filter is run with: the configured one, limited
    /// to the range from 0.001 to 1.0.
    pub fn effective_cutoff(&self) -> (cutoff: i64)
        ensures
            cutoff as int == self@.effective_cutoff(),
            MIN_FILTER_CUTOFF <= cutoff <= MAX_FILTER_CUTOFF,
    {
        if self.spectrum_filter_cutoff < MIN_FILTER_CUTOFF {
            MIN_FILTER_CUTOFF
        } else if self.spectrum_filter_cutoff > MAX_FILTER_CUTOFF {
            MAX_FILTER_CUTOFF
        } else {
            self.spectrum_filter_cutoff
        }
    }
}

/// What is shown of the spectrum's features, and the size of the window.
#[derive(Clone, Copy, Debug)]
pub struct ViewConfig {
    draw_peaks: bool,
    draw_dips: bool,
    peaks_dips_find_window: usize,
    peaks_dips_unique_window: i64,
    window_size: (u32, u32),
}

/// The mathematical content of a [`ViewConfig`].
pub struct ViewConfigView {
    pub draw_peaks: bool,
    pub draw_dips: bool,
    pub peaks_dips_find_window: usize,
    pub peaks_dips_unique_window: i64,
    pub window_size: (u32, u32),
}

impl ViewConfigView {
    /// The search window is at least one bin wide on either side, and the
    /// neighbourhood of a feature has a positive width.
    pub open spec fn valid(self) -> bool {
        self.peaks_dips_find_window >= 1 && self.peaks_dips_unique_window > 0
    }
}

impl View for ViewConfig {
    type V = ViewConfigView;

    closed spec fn view(&self) -> ViewConfigView {
        ViewConfigView {
            draw_peaks: self.draw_peaks,
            draw_dips: self.draw_dips,
            peaks_dips_find_window: self.peaks_dips_find_window,
            peaks_dips_unique_window: self.peaks_dips_unique_window,
            window_size: self.window_size,
        }
    }
}

impl ViewConfig {
    #[verifier::type_invariant]
    spec fn inv(self) -> bool {
        self@.valid()
    }

    /// Settings as given; `None` unless the search window is at least 1 and
    /// the width of the neighbourhood is positive.
    pub fn new(
        draw_peaks: bool,
        draw_dips: bool,
        peaks_dips_find_window: usize,
        peaks_dips_unique_window: i64,
        window_size: (u32, u32),
    ) -> (made: Option<Self>)
        ensures
            made is Some <==> (peaks_dips_find_window >= 1 && peaks_dips_unique_window > 0),
            made matches Some(config) ==> config@ == (ViewConfigView {
                draw_peaks,
                draw_dips,
                peaks_dips_find_window,
                peaks_dips_unique_window,
                window_size,
            }),
    {
        if peaks_dips_find_window >= 1 && peaks_dips_unique_window > 0 {
            Some(
                ViewConfig {
                    draw_peaks,
                    draw_dips,
                    peaks_dips_find_window,
                    peaks_dips_unique_window,
                    window_size,
                },
            )
        } else {
            None
        }
    }

    /// Whether peaks are shown.
    pub fn draw_peaks(&self) -> (b: bool)
        ensures
            b == self@.draw_peaks,
    {
        self.draw_peaks
    }

    /// Whether dips are shown.
    pub fn draw_dips(&self) -> (b: bool)
        ensures
            b == self@.draw_dips,
    {
        self.draw_dips
    }

    /// Chooses whether peaks and dips are shown.
    pub fn set_draw(&mut self, draw_peaks: bool, draw_dips: bool)
        ensures
            final(self)@ == (ViewConfigView { draw_peaks, draw_dips, ..old(self)@ }),
    {
        proof {
            use_type_invariant(&*self);
        }
        self.draw_peaks = draw_peaks;
        self.draw_dips = draw_dips;
    }

    /// The half-width in bins of the window in which a feature must be the
    /// best value.
    pub fn peaks_dips_find_window(&self) -> (window: usize)
        ensures
            window == self@.peaks_dips_find_window,
            window >= 1,
    {
        proof {
            use_type_invariant(self);
        }
        self.peaks_dips_find_window
    }

    /// Sets the half-width of the search window, if it is at least 1;
    /// otherwise nothing changes.
    pub fn set_peaks_dips_find_window(&mut self, window: usize) -> (accepted: bool)
        ensures
            accepted <==> window >= 1,
            accepted ==> final(self)@ == (ViewConfigView {
                peaks_dips_find_window: window,
                ..old(self)@
            }),
            !accepted ==> final(self)@ == old(self)@,
    {
        proof {
            use_type_invariant(&*self);
        }
        if window >= 1 {
            self.peaks_dips_find_window = window;
            true
        } else {
            false
        }
    }

    /// The fixed-point width in nanometres of the neighbourhood within which
    /// only the best features are kept.
    pub fn peaks_dips_unique_window(&self) -> (window: i64)
        ensures
            window == self@.peaks_dips_unique_window,
            window > 0,
    {
        proof {
            use_type_invariant(self);
        }
        self.peaks_dips_unique_window
    }

    /// Sets the width of the neighbourhood, if it is positive; otherwise
    /// nothing changes.
    pub fn set_peaks_dips_unique_window(&mut self, window: i64) -> (accepted: bool)
        ensures
            accepted <==> window > 0,
            accepted ==> final(self)@ == (ViewConfigView {
                peaks_dips_unique_window: window,
                ..old(self)@
            }),
            !accepted ==> final(self)@ == old(self)@,
    {
        proof {
            use_type_invariant(&*self);
        }
        if window > 0 {
            self.peaks_dips_unique_window = window;
            true
        } else {
            false
        }
    }

    /// The size of the window, width first.
    pub fn window_size(&self) -> (size: (u32, u32))
        ensures
            size == self@.window_size,
    {
        self.window_size
    }

    /// Records the size of the window.
    pub fn set_window_size(&mut self, size: (u32, u32))
        ensures
            final(self)@ == (ViewConfigView { window_size: size, ..old(self)@ }),
    {
        proof {
            use_type_invariant(&*self);
        }
        self.window_size = size;
    }
}

/// All settings of the spectrometer that the library reads.
#[derive(Debug)]
pub struct SpectrometerConfig {
    pub spectrum_calibration: SpectrumCalibration,
    pub postprocessing_config: PostprocessingConfig,
    pub view_config: ViewConfig,
    pub reference_config: ReferenceConfig,
}

/// The mathematical content of a [`SpectrometerConfig`].
pub struct ConfigView {
    pub spectrum_calibration: CalibrationView,
    pub postprocessing_config: PostprocessingView,
    pub view_config: ViewConfigView,
    pub reference_config: ReferenceView,
}

impl ConfigView {
    /// Every part is valid.
    pub open spec fn valid(self) -> bool {
        &&& self.spectrum_calibration.valid()
        &&& self.postprocessing_config.valid()
        &&& self.view_config.valid()
    }
}

impl View for SpectrometerConfig {
    type V = ConfigView;

    open spec fn view(&self) -> ConfigView {
        ConfigView {
            spectrum_calibration: self.spectrum_calibration@,
            postprocessing_config: self.postprocessing_config@,
            view_config: self.view_config@,
            reference_config: self.reference_config@,
        }
    }
}

impl Clone for SpectrometerConfig {
    fn clone(&self) -> (copy: Self)
        ensures
            copy@ == self@,
    {
        SpectrometerConfig {
            spectrum_calibration: self.spectrum_calibration.clone(),
            postprocessing_config: self.postprocessing_config,
            view_config: self.view_config,
            reference_config: self.reference_config.clone(),
        }
    }
}

} // verus!
