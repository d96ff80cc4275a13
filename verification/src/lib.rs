//! Spectral signal processing for a camera-based spectrometer.
//!
//! A camera looks at a diffraction grating; each frame gives a row of
//! intensities per colour channel, one value per spectral bin.  This
//! library turns the stream of such frames into a calibrated spectrum and
//! finds the peaks and dips in it:
//!
//! * [`buffer`] keeps the most recent frames and averages them;
//! * [`calibration`] maps bins to wavelengths and holds the gains and the
//!   per-bin scaling factors;
//! * [`gui`] holds the state of the instrument and assembles the spectrum:
//!   mean, gains, combined row, scaling, zero reference;
//! * [`filter`] schedules the zero-phase low-pass filter over the assembled
//!   spectrum, and [`zero_phase`] says what that schedule computes;
//! * [`peaks`] finds the local extrema of the combined row;
//! * [`reference`] interpolates a reference curve and derives the scaling
//!   factors from it;
//! * [`controls`] models the controls of the camera;
//! * [`config`] holds the settings, [`spectrum`] the rows of values,
//!   [`fixed`] the arithmetic and [`selection`] a helper for specifications.
//!
//! All values are integers.  Intensities, gains, factors and widths are
//! fixed-point numbers with six decimal places (see [`fixed::ONE`]);
//! wavelengths that the calibration computes are exact fractions.  The
//! result of every operation is stated exactly, rounding and saturation
//! included.

pub mod buffer;
pub mod calibration;
pub mod config;
pub mod controls;
pub mod filter;
pub mod fixed;
pub mod gui;
pub mod peaks;
pub mod reference;
pub mod selection;
pub mod spectrum;
pub mod zero_phase;

pub use gui::{ThreadId, ThreadResult};
