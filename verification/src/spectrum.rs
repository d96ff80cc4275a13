//! Frames and spectra: rows of fixed-point intensities, one value per
//! spectral bin.
//!
//! A [`SpectrumRgb`] is one raw frame with a row for each colour channel; a
//! [`Spectrum`] adds the combined row.  Within one value all rows have the
//! same number of bins.

use crate::calibration::{CalibrationView, Fraction, SpectrumCalibration, Wavelength};
use crate::fixed::{minus, saturate, saturated, scale, scaled};
use vstd::prelude::*;

verus! {

/// `row` with every bin multiplied by `factor`.
pub open spec fn scaled_row(row: Seq<i64>, factor: i64) -> Seq<i64> {
    Seq::new(row.len(), |i: int| scaled(row[i] as int, factor as int) as i64)
}

/// The bin-wise sum of three rows of one length.
pub open spec fn summed_rows(r: Seq<i64>, g: Seq<i64>, b: Seq<i64>) -> Seq<i64> {
    Seq::new(r.len(), |i: int| saturated(r[i] + g[i] + b[i]) as i64)
}

/// `sum` with every bin multiplied by the scaling factor that the
/// calibration holds for it.
pub open spec fn flat_fielded(sum: Seq<i64>, calibration: CalibrationView) -> Seq<i64> {
    Seq::new(sum.len(), |i: int| scaled(sum[i] as int, calibration.scaling_factor(i)) as i64)
}

/// The bin-wise difference `a - b` of two rows of one length.
pub open spec fn row_difference(a: Seq<i64>, b: Seq<i64>) -> Seq<i64> {
    Seq::new(a.len(), |i: int| saturated(a[i] - b[i]) as i64)
}

/// A row of `ncols` bins that holds `value` everywhere.
pub open spec fn constant(ncols: nat, value: i64) -> Seq<i64> {
    Seq::new(ncols, |i: int| value)
}

/// Multiplying by 1.0 changes nothing.
pub proof fn lemma_scaled_by_one(value: i64)
    ensures
        scaled(value as int, crate::fixed::ONE as int) == value,
{
    vstd::arithmetic::div_mod::lemma_div_multiples_vanish(value as int, crate::fixed::ONE as int);
    assert((value as int) * (crate::fixed::ONE as int) == (crate::fixed::ONE as int) * (
    value as int)) by (nonlinear_arith);
}

pub(crate) fn scale_row(row: &Vec<i64>, factor: i64) -> (out: Vec<i64>)
    ensures
        out@ == scaled_row(row@, factor),
{
    let mut out: Vec<i64> = Vec::with_capacity(row.len());
    let mut i: usize = 0;
    while i < row.len()
        invariant
            i <= row.len(),
            out.len() == i,
            forall|j: int| 0 <= j < i ==> out[j] == scaled_row(row@, factor)[j],
        decreases row.len() - i,
    {
        out.push(scale(row[i], factor));
        i += 1;
    }
    out
}

pub(crate) fn sum_rows(r: &Vec<i64>, g: &Vec<i64>, b: &Vec<i64>) -> (out: Vec<i64>)
    requires
        r.len() == g.len(),
        r.len() == b.len(),
    ensures
        out@ == summed_rows(r@, g@, b@),
{
    let mut out: Vec<i64> = Vec::with_capacity(r.len());
    let mut i: usize = 0;
    while i < r.len()
        invariant
            i <= r.len(),
            r.len() == g.len(),
            r.len() == b.len(),
            out.len() == i,
            forall|j: int| 0 <= j < i ==> out[j] == summed_rows(r@, g@, b@)[j],
        decreases r.len() - i,
    {
        let total: i128 = r[i] as i128 + g[i] as i128 + b[i] as i128;
        out.push(saturate(total));
        i += 1;
    }
    out
}

pub(crate) fn flat_field(sum: &Vec<i64>, calibration: &SpectrumCalibration) -> (out: Vec<i64>)
    ensures
        out@ == flat_fielded(sum@, calibration@),
{
    let mut out: Vec<i64> = Vec::with_capacity(sum.len());
    let mut i: usize = 0;
    while i < sum.len()
        invariant
            i <= sum.len(),
            out.len() == i,
            forall|j: int| 0 <= j < i ==> out[j] == flat_fielded(sum@, calibration@)[j],
        decreases sum.len() - i,
    {
        let factor: i64 = calibration.get_scaling_factor_from_index(i);
        out.push(scale(sum[i], factor));
        i += 1;
    }
    out
}

pub(crate) fn subtract_row(a: &Vec<i64>, b: &Vec<i64>) -> (out: Vec<i64>)
    requires
        a.len() == b.len(),
    ensures
        out@ == row_difference(a@, b@),
{
    let mut out: Vec<i64> = Vec::with_capacity(a.len());
    let mut i: usize = 0;
    while i < a.len()
        invariant
            i <= a.len(),
            a.len() == b.len(),
            out.len() == i,
            forall|j: int| 0 <= j < i ==> out[j] == row_difference(a@, b@)[j],
        decreases a.len() - i,
    {
        out.push(minus(a[i], b[i]));
        i += 1;
    }
    out
}

/// The mathematical content of a [`SpectrumRgb`]: one row per colour
/// channel.
pub struct RgbView {
    pub r: Seq<i64>,
    pub g: Seq<i64>,
    pub b: Seq<i64>,
}

impl RgbView {
    /// The three rows have one length.
    pub open spec fn valid(self) -> bool {
        self.r.len() == self.g.len() && self.r.len() == self.b.len()
    }

    /// The number of spectral bins.
    pub open spec fn ncols(self) -> nat {
        self.r.len()
    }

    /// The row of channel 0 (red), 1 (green) or 2 (blue).
    pub open spec fn row(self, channel: int) -> Seq<i64> {
        if channel == 0 {
            self.r
        } else if channel == 1 {
            self.g
        } else {
            self.b
        }
    }
}

/// One frame of raw intensities: a red, a green and a blue row over the
/// same spectral bins.
#[derive(Debug)]
pub struct SpectrumRgb {
    r: Vec<i64>,
    g: Vec<i64>,
    b: Vec<i64>,
}

impl View for SpectrumRgb {
    type V = RgbView;

    closed spec fn view(&self) -> RgbView {
        RgbView { r: self.r@, g: self.g@, b: self.b@ }
    }
}

impl Clone for SpectrumRgb {
    fn clone(&self) -> (copy: Self)
        ensures
            copy@ == self@,
    {
        proof {
            use_type_invariant(self);
        }
        SpectrumRgb { r: self.r.clone(), g: self.g.clone(), b: self.b.clone() }
    }
}

impl SpectrumRgb {
    #[verifier::type_invariant]
    spec fn inv(self) -> bool {
        self@.valid()
    }

    /// A frame of the three rows; `None` unless they have one length.
    pub fn from_rows(r: Vec<i64>, g: Vec<i64>, b: Vec<i64>) -> (made: Option<Self>)
        ensures
            made is Some <==> (r.len() == g.len() && r.len() == b.len()),
            made matches Some(frame) ==> frame@ == (RgbView { r: r@, g: g@, b: b@ }),
    {
        if r.len() == g.len() && r.len() == b.len() {
            Some(SpectrumRgb { r, g, b })
        } else {
            None
        }
    }

    /// A frame of three rows of one length.
    pub(crate) fn of_rows(r: Vec<i64>, g: Vec<i64>, b: Vec<i64>) -> (frame: Self)
        requires
            r.len() == g.len(),
            r.len() == b.len(),
        ensures
            frame@ == (RgbView { r: r@, g: g@, b: b@ }),
    {
        SpectrumRgb { r, g, b }
    }

    /// A frame of `ncols` bins that holds `value` everywhere.
    pub fn from_element(ncols: usize, value: i64) -> (frame: Self)
        ensures
            frame@ == (RgbView {
                r: constant(ncols as nat, value),
                g: constant(ncols as nat, value),
                b: constant(ncols as nat, value),
            }),
    {
        let r = constant_row(ncols, value);
        let g = constant_row(ncols, value);
        let b = constant_row(ncols, value);
        SpectrumRgb { r, g, b }
    }

    /// The number of spectral bins.
    pub fn ncols(&self) -> (n: usize)
        ensures
            n == self@.ncols(),
            self@.valid(),
    {
        proof {
            use_type_invariant(self);
        }
        self.r.len()
    }

    /// The row of channel 0 (red), 1 (green) or 2 (blue).
    pub fn row(&self, channel: usize) -> (row: &Vec<i64>)
        requires
            channel < 3,
        ensures
            row@ == self@.row(channel as int),
            self@.valid(),
    {
        proof {
            use_type_invariant(self);
        }
        if channel == 0 {
            &self.r
        } else if channel == 1 {
            &self.g
        } else {
            &self.b
        }
    }
}

pub(crate) fn constant_row(ncols: usize, value: i64) -> (row: Vec<i64>)
    ensures
        row@ == constant(ncols as nat, value),
{
    let mut row: Vec<i64> = Vec::with_capacity(ncols);
    let mut i: usize = 0;
    while i < ncols
        invariant
            i <= ncols,
            row.len() == i,
            forall|j: int| 0 <= j < i ==> row[j] == value,
        decreases ncols - i,
    {
        row.push(value);
        i += 1;
    }
    assert(row@ =~= constant(ncols as nat, value));
    row
}

/// The mathematical content of a [`Spectrum`]: the three colour rows and
/// the combined row.
pub struct SpectrumView {
    pub r: Seq<i64>,
    pub g: Seq<i64>,
    pub b: Seq<i64>,
    pub sum: Seq<i64>,
}

impl SpectrumView {
    /// The four rows have one length.
    pub open spec fn valid(self) -> bool {
        &&& self.r.len() == self.g.len()
        &&& self.r.len() == self.b.len()
        &&& self.r.len() == self.sum.len()
    }

    /// The number of spectral bins.
    pub open spec fn ncols(self) -> nat {
        self.r.len()
    }

    /// The row of index 0 (red), 1 (green), 2 (blue) or 3 (combined).
    pub open spec fn row(self, index: int) -> Seq<i64> {
        if index == 0 {
            self.r
        } else if index == 1 {
            self.g
        } else if index == 2 {
            self.b
        } else {
            self.sum
        }
    }

    /// This spectrum with `zero` subtracted bin by bin, in all four rows.
    pub open spec fn minus(self, zero: SpectrumView) -> SpectrumView {
        SpectrumView {
            r: row_difference(self.r, zero.r),
            g: row_difference(self.g, zero.g),
            b: row_difference(self.b, zero.b),
            sum: row_difference(self.sum, zero.sum),
        }
    }
}

/// A processed spectrum: a red, a green, a blue and a combined row over the
/// same spectral bins.
#[derive(Debug)]
pub struct Spectrum {
    r: Vec<i64>,
    g: Vec<i64>,
    b: Vec<i64>,
    sum: Vec<i64>,
}

impl View for Spectrum {
    type V = SpectrumView;

    closed spec fn view(&self) -> SpectrumView {
        SpectrumView { r: self.r@, g: self.g@, b: self.b@, sum: self.sum@ }
    }
}

impl Clone for Spectrum {
    fn clone(&self) -> (copy: Self)
        ensures
            copy@ == self@,
    {
        proof {
            use_type_invariant(self);
        }
        Spectrum {
            r: self.r.clone(),
            g: self.g.clone(),
            b: self.b.clone(),
            sum: self.sum.clone(),
        }
    }
}

impl Spectrum {
    #[verifier::type_invariant]
    spec fn inv(self) -> bool {
        self@.valid()
    }

    /// A spectrum of `ncols` bins that is zero everywhere.
    pub fn zeros(ncols: usize) -> (spectrum: Self)
        ensures
            spectrum@ == (SpectrumView {
                r: constant(ncols as nat, 0),
                g: constant(ncols as nat, 0),
                b: constant(ncols as nat, 0),
                sum: constant(ncols as nat, 0),
            }),
    {
        let r = constant_row(ncols, 0);
        let g = constant_row(ncols, 0);
        let b = constant_row(ncols, 0);
        let sum = constant_row(ncols, 0);
        Spectrum { r, g, b, sum }
    }

    /// A spectrum of four rows of one length.
    pub(crate) fn of_rows(r: Vec<i64>, g: Vec<i64>, b: Vec<i64>, sum: Vec<i64>) -> (spectrum: Self)
        requires
            r.len() == g.len(),
            r.len() == b.len(),
            r.len() == sum.len(),
        ensures
            spectrum@ == (SpectrumView { r: r@, g: g@, b: b@, sum: sum@ }),
    {
        Spectrum { r, g, b, sum }
    }

    /// A spectrum of the four rows; `None` unless they have one length.
    pub fn from_rows(r: Vec<i64>, g: Vec<i64>, b: Vec<i64>, sum: Vec<i64>) -> (made: Option<Self>)
        ensures
            made is Some <==> (r.len() == g.len() && r.len() == b.len() && r.len() == sum.len()),
            made matches Some(spectrum) ==> spectrum@ == (SpectrumView {
                r: r@,
                g: g@,
                b: b@,
                sum: sum@,
            }),
    {
        if r.len() == g.len() && r.len() == b.len() && r.len() == sum.len() {
            Some(Spectrum { r, g, b, sum })
        } else {
            None
        }
    }

    /// The number of spectral bins.
    pub fn ncols(&self) -> (n: usize)
        ensures
            n == self@.ncols(),
            self@.valid(),
    {
        proof {
            use_type_invariant(self);
        }
        self.r.len()
    }

    /// The row of index 0 (red), 1 (green), 2 (blue) or 3 (combined).
    pub fn row(&self, index: usize) -> (row: &Vec<i64>)
        requires
            index < 4,
        ensures
            row@ == self@.row(index as int),
            self@.valid(),
    {
        proof {
            use_type_invariant(self);
        }
        if index == 0 {
            &self.r
        } else if index == 1 {
            &self.g
        } else if index == 2 {
            &self.b
        } else {
            &self.sum
        }
    }

    /// This spectrum with `zero` subtracted bin by bin, in all four rows.
    pub fn minus(&self, zero: &Spectrum) -> (difference: Spectrum)
        requires
            self@.ncols() == zero@.ncols(),
        ensures
            difference@ == self@.minus(zero@),
            difference@.valid(),
    {
        proof {
            use_type_invariant(self);
            use_type_invariant(zero);
        }
        Spectrum {
            r: subtract_row(&self.r, &zero.r),
            g: subtract_row(&self.g, &zero.g),
            b: subtract_row(&self.b, &zero.b),
            sum: subtract_row(&self.sum, &zero.sum),
        }
    }
}

/// One row of an exported spectrum: a bin's wavelength and its four
/// intensities.
#[derive(Clone, Copy, Debug)]
pub struct SpectrumExportPoint {
    pub wavelength: Wavelength,
    pub r: i64,
    pub g: i64,
    pub b: i64,
    pub sum: i64,
}

/// The mathematical content of a [`SpectrumExportPoint`].
pub struct ExportPointView {
    pub wavelength: Fraction,
    pub r: i64,
    pub g: i64,
    pub b: i64,
    pub sum: i64,
}

impl View for SpectrumExportPoint {
    type V = ExportPointView;

    open spec fn view(&self) -> ExportPointView {
        ExportPointView {
            wavelength: self.wavelength@,
            r: self.r,
            g: self.g,
            b: self.b,
            sum: self.sum,
        }
    }
}

/// The export row of bin `i`.
pub open spec fn export_point(
    spectrum: SpectrumView,
    calibration: CalibrationView,
    i: int,
) -> ExportPointView {
    ExportPointView {
        wavelength: calibration.wavelength(i),
        r: spectrum.r[i],
        g: spectrum.g[i],
        b: spectrum.b[i],
        sum: spectrum.sum[i],
    }
}

/// The rows of an exported spectrum, one per bin in bin order.
pub open spec fn export_points(
    spectrum: SpectrumView,
    calibration: CalibrationView,
) -> Seq<ExportPointView> {
    Seq::new(spectrum.ncols(), |i: int| export_point(spectrum, calibration, i))
}

/// The rows that an export of `spectrum` writes: for each bin, in bin
/// order, its wavelength and its red, green, blue and combined intensity.
pub fn spectrum_to_point_vec(
    spectrum: &Spectrum,
    spectrum_calibration: &SpectrumCalibration,
) -> (points: Vec<SpectrumExportPoint>)
    ensures
        points@.map_values(|p: SpectrumExportPoint| p@) == export_points(
            spectrum@,
            spectrum_calibration@,
        ),
{
    let ncols: usize = spectrum.ncols();
    let mut points: Vec<SpectrumExportPoint> = Vec::with_capacity(ncols);
    let mut i: usize = 0;
    while i < ncols
        invariant
            i <= ncols,
            ncols == spectrum@.ncols(),
            spectrum@.valid(),
            points.len() == i,
            forall|j: int|
                0 <= j < i ==> (#[trigger] points[j])@ == export_point(
                    spectrum@,
                    spectrum_calibration@,
                    j,
                ),
        decreases ncols - i,
    {
        let wavelength = spectrum_calibration.get_wavelength_from_index(i);
        points.push(
            SpectrumExportPoint {
                wavelength,
                r: spectrum.row(0)[i],
                g: spectrum.row(1)[i],
                b: spectrum.row(2)[i],
                sum: spectrum.row(3)[i],
            },
        );
        i += 1;
    }
    assert(points@.map_values(|p: SpectrumExportPoint| p@) =~= export_points(
        spectrum@,
        spectrum_calibration@,
    ));
    points
}

} // verus!
