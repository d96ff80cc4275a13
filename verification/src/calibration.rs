//! Wavelength calibration: the affine map from spectral bin index to
//! wavelength, the per-channel gains and the optional per-bin scaling
//! factors.

use crate::fixed::ONE;
use vstd::prelude::*;

verus! {

/// One calibration anchor: the bin at `index` is known to lie at
/// `wavelength` nanometres.
#[derive(Clone, Copy, Debug, PartialEq, Eq, Structural)]
pub struct SpectrumCalibrationPoint {
    pub wavelength: u32,
    pub index: u32,
}

/// The transfer characteristic that raw samples are linearised with before
/// they are averaged.
#[derive(Clone, Copy, Debug, PartialEq, Eq, Structural)]
pub enum Linearize {
    Off,
    Rec601,
    Rec709,
    SRgb,
}

/// Named sets of channel gains.
#[derive(Clone, Copy, Debug, PartialEq, Eq, Structural)]
pub enum GainPresets {
    Unity,
    SRgb,
    Rec601,
    Rec709,
}

/// The gains `(r, g, b)` that a preset stands for, in fixed point: unity, or
/// the luma weights of the named standard.
pub open spec fn preset_gains(preset: GainPresets) -> (int, int, int) {
    match preset {
        GainPresets::Unity => (1_000_000, 1_000_000, 1_000_000),
        GainPresets::SRgb => (212_600, 715_200, 72_200),
        GainPresets::Rec601 => (299_000, 587_000, 114_000),
        GainPresets::Rec709 => (212_600, 715_200, 72_200),
    }
}

/// A wavelength in nanometres as the exact fraction
/// `numerator / denominator`.
#[derive(Clone, Copy, Debug)]
pub struct Wavelength {
    numerator: i128,
    denominator: i128,
}

/// The magnitude below which the numerator of every [`Wavelength`] stays.
pub open spec fn numerator_limit() -> int {
    0x2_0000_0000_0000_0000_0000_0000int
}

/// A fraction `num / den` of mathematical integers.
pub struct Fraction {
    pub num: int,
    pub den: int,
}

impl View for Wavelength {
    type V = Fraction;

    closed spec fn view(&self) -> Fraction {
        Fraction { num: self.numerator as int, den: self.denominator as int }
    }
}

impl Wavelength {
    #[verifier::type_invariant]
    spec fn inv(self) -> bool {
        self.in_range()
    }

    /// The numerator of the fraction.
    pub open spec fn num(self) -> int {
        self@.num
    }

    /// The denominator of the fraction.
    pub open spec fn den(self) -> int {
        self@.den
    }

    /// The bounds that every wavelength value keeps: a positive denominator
    /// that fits 32 bits and a numerator below [`numerator_limit`].
    pub open spec fn in_range(self) -> bool {
        &&& 0 < self.den() <= u32::MAX
        &&& -numerator_limit() < self.num() < numerator_limit()
    }

    /// The whole number of nanometres at or below this wavelength, limited
    /// to the range of `u32`.
    pub open spec fn whole(self) -> int {
        let floor = self.num() / self.den();
        if floor < 0 {
            0
        } else if floor > u32::MAX {
            u32::MAX as int
        } else {
            floor
        }
    }

    /// The numerator of the fraction.
    pub fn numerator(&self) -> (n: i128)
        ensures
            n as int == self.num(),
            self.in_range(),
    {
        proof {
            use_type_invariant(self);
        }
        self.numerator
    }

    /// The denominator of the fraction.
    pub fn denominator(&self) -> (d: i128)
        ensures
            d as int == self.den(),
            self.in_range(),
    {
        proof {
            use_type_invariant(self);
        }
        self.denominator
    }

    /// The wavelength rounded down to whole nanometres and limited to the
    /// range of `u32`; negative wavelengths give 0.
    pub fn whole_nm(&self) -> (nm: u32)
        ensures
            nm as int == self.whole(),
    {
        proof {
            use_type_invariant(self);
            crate::fixed::lemma_floor_div_bounds(self.num(), self.den());
        }
        let floor: i128 = crate::fixed::floor_div(self.numerator, self.denominator);
        if floor < 0 {
            0
        } else if floor > u32::MAX as i128 {
            u32::MAX
        } else {
            floor as u32
        }
    }

    /// Whether this wavelength is exactly `nm` nanometres.
    pub fn is_exactly(&self, nm: u32) -> (b: bool)
        ensures
            b <==> self.num() == nm * self.den(),
    {
        proof {
            use_type_invariant(self);
            lemma_whole_product_bound(nm as int, self.den());
        }
        self.numerator == (nm as i128) * self.denominator
    }

    /// Whether this wavelength is strictly below `nm` nanometres.
    pub fn is_below(&self, nm: u32) -> (b: bool)
        ensures
            b <==> self.num() < nm * self.den(),
    {
        proof {
            use_type_invariant(self);
            lemma_whole_product_bound(nm as int, self.den());
        }
        self.numerator < (nm as i128) * self.denominator
    }
}

proof fn lemma_whole_product_bound(a: int, b: int)
    by (nonlinear_arith)
    requires
        0 <= a <= u32::MAX,
        0 <= b <= u32::MAX,
    ensures
        0 <= a * b <= 0xffff_ffff_ffff_ffff,
{
}

/// The mathematical content of a [`SpectrumCalibration`].
pub struct CalibrationView {
    pub low: SpectrumCalibrationPoint,
    pub high: SpectrumCalibrationPoint,
    pub linearize: Linearize,
    pub gain_r: i64,
    pub gain_g: i64,
    pub gain_b: i64,
    pub scaling: Option<Seq<i64>>,
}

impl CalibrationView {
    /// The two anchors are in strictly increasing order, by index and by
    /// wavelength.
    pub open spec fn valid(self) -> bool {
        &&& self.low.index < self.high.index
        &&& self.low.wavelength < self.high.wavelength
    }

    /// The number of bins between the two anchors.
    pub open spec fn span(self) -> int {
        self.high.index - self.low.index
    }

    /// The number of nanometres between the two anchors.
    pub open spec fn rise(self) -> int {
        self.high.wavelength - self.low.wavelength
    }

    /// The wavelength of bin `index` is
    /// `low.wavelength + (index - low.index) * rise / span`; this is its
    /// numerator over the denominator `span`.
    pub open spec fn wavelength_numerator(self, index: int) -> int {
        self.low.wavelength * self.span() + (index - self.low.index) * self.rise()
    }

    /// The wavelength of bin `index` as a fraction.
    pub open spec fn wavelength(self, index: int) -> Fraction {
        Fraction { num: self.wavelength_numerator(index), den: self.span() }
    }

    /// The factor that the sum of bin `index` is multiplied with: the entry
    /// of the scaling vector where there is one, 1.0 otherwise.
    pub open spec fn scaling_factor(self, index: int) -> int {
        match self.scaling {
            Some(factors) => if 0 <= index < factors.len() {
                factors[index] as int
            } else {
                ONE as int
            },
            None => ONE as int,
        }
    }
}

/// The wavelength of each anchor's bin is that anchor's wavelength.
pub proof fn lemma_wavelength_at_anchors(c: CalibrationView)
    requires
        c.valid(),
    ensures
        c.wavelength_numerator(c.low.index as int) == c.low.wavelength * c.span(),
        c.wavelength_numerator(c.high.index as int) == c.high.wavelength * c.span(),
{
    let span = c.span();
    let rise = c.rise();
    let lw = c.low.wavelength as int;
    let hw = c.high.wavelength as int;
    assert(0 * rise == 0);
    assert(lw * span + span * rise == hw * span) by (nonlinear_arith)
        requires
            rise == hw - lw,
    ;
}

/// The map from bin index to wavelength is affine: its difference
/// between any two bins is the difference of the indices times the slope
/// `rise / span`.
pub proof fn lemma_wavelength_affine(c: CalibrationView, i: int, j: int)
    ensures
        c.wavelength_numerator(j) - c.wavelength_numerator(i) == (j - i) * c.rise(),
{
    let rise = c.rise();
    let li = c.low.index as int;
    assert((j - li) * rise - (i - li) * rise == (j - i) * rise) by (nonlinear_arith);
}

/// The map from bin index to wavelength is strictly increasing.
pub proof fn lemma_wavelength_increasing(c: CalibrationView, i: int, j: int)
    requires
        c.valid(),
        i < j,
    ensures
        c.wavelength_numerator(i) < c.wavelength_numerator(j),
{
    lemma_wavelength_affine(c, i, j);
    let rise = c.rise();
    assert((j - i) * rise > 0) by (nonlinear_arith)
        requires
            j - i > 0,
            rise > 0,
    ;
}

/// The bounds on a wavelength numerator for any 64-bit index.
pub proof fn lemma_wavelength_bounds(c: CalibrationView, index: int)
    requires
        c.valid(),
        i64::MIN <= index <= u64::MAX,
    ensures
        -0x1_0000_0000_0000_0000_0000_0000 < (index - c.low.index) * c.rise()
            < 0x1_0000_0000_0000_0000_0000_0000,
        0 <= c.low.wavelength * c.span() <= 0xffff_ffff_ffff_ffff,
        -numerator_limit() < c.wavelength_numerator(index) < numerator_limit(),
{
    let span = c.span();
    let rise = c.rise();
    let offset = index - c.low.index;
    lemma_whole_product_bound(c.low.wavelength as int, span);
    assert(-0x1_0000_0000_0000_0000_0000_0000 < offset * rise
        < 0x1_0000_0000_0000_0000_0000_0000) by (nonlinear_arith)
        requires
            -0x1_0000_0000_0000_0000 <= offset <= 0x1_0000_0000_0000_0000,
            0 < rise <= 0xffff_ffff,
    ;
}

/// The calibration of the spectral axis and of the channel intensities.
///
/// The anchors are always in strictly increasing order, by index and by
/// wavelength, so the wavelength map is defined for every index.
#[derive(Debug)]
pub struct SpectrumCalibration {
    low: SpectrumCalibrationPoint,
    high: SpectrumCalibrationPoint,
    linearize: Linearize,
    gain_r: i64,
    gain_g: i64,
    gain_b: i64,
    scaling: Option<Vec<i64>>,
}

impl View for SpectrumCalibration {
    type V = CalibrationView;

    closed spec fn view(&self) -> CalibrationView {
        CalibrationView {
            low: self.low,
            high: self.high,
            linearize: self.linearize,
            gain_r: self.gain_r,
            gain_g: self.gain_g,
            gain_b: self.gain_b,
            scaling: match self.scaling {
                Some(factors) => Some(factors@),
                None => None,
            },
        }
    }
}

impl Clone for SpectrumCalibration {
    fn clone(&self) -> (copy: Self)
        ensures
            copy@ == self@,
    {
        proof {
            use_type_invariant(self);
        }
        let scaling = match &self.scaling {
            Some(factors) => Some(factors.clone()),
            None => None,
        };
        SpectrumCalibration {
            low: self.low,
            high: self.high,
            linearize: self.linearize,
            gain_r: self.gain_r,
            gain_g: self.gain_g,
            gain_b: self.gain_b,
            scaling,
        }
    }
}

impl SpectrumCalibration {
    #[verifier::type_invariant]
    spec fn inv(self) -> bool {
        self@.valid()
    }

    /// A calibration through the two anchors, with unity gains, no
    /// linearisation and no scaling vector; `None` unless `low` lies
    /// strictly below `high` by index and by wavelength.
    pub fn new(low: SpectrumCalibrationPoint, high: SpectrumCalibrationPoint) -> (made: Option<
        Self,
    >)
        ensures
            made is Some <==> (low.index < high.index && low.wavelength < high.wavelength),
            made matches Some(c) ==> c@ == (CalibrationView {
                low,
                high,
                linearize: Linearize::Off,
                gain_r: ONE,
                gain_g: ONE,
                gain_b: ONE,
                scaling: None,
            }),
    {
        if low.index < high.index && low.wavelength < high.wavelength {
            Some(
                SpectrumCalibration {
                    low,
                    high,
                    linearize: Linearize::Off,
                    gain_r: ONE,
                    gain_g: ONE,
                    gain_b: ONE,
                    scaling: None,
                },
            )
        } else {
            None
        }
    }

    /// The lower anchor.
    pub fn low(&self) -> (p: SpectrumCalibrationPoint)
        ensures
            p == self@.low,
            self@.valid(),
    {
        proof {
            use_type_invariant(self);
        }
        self.low
    }

    /// The upper anchor.
    pub fn high(&self) -> (p: SpectrumCalibrationPoint)
        ensures
            p == self@.high,
            self@.valid(),
    {
        proof {
            use_type_invariant(self);
        }
        self.high
    }

    /// Moves both anchors, if the lower one lies strictly below the upper
    /// one by index and by wavelength; otherwise nothing changes.
    pub fn set_anchors(
        &mut self,
        low: SpectrumCalibrationPoint,
        high: SpectrumCalibrationPoint,
    ) -> (accepted: bool)
        ensures
            accepted <==> (low.index < high.index && low.wavelength < high.wavelength),
            accepted ==> final(self)@ == (CalibrationView { low, high, ..old(self)@ }),
            !accepted ==> final(self)@ == old(self)@,
    {
        proof {
            use_type_invariant(&*self);
        }
        if low.index < high.index && low.wavelength < high.wavelength {
            let mut scaling: Option<Vec<i64>> = None;
            std::mem::swap(&mut scaling, &mut self.scaling);
            *self = SpectrumCalibration {
                low,
                high,
                linearize: self.linearize,
                gain_r: self.gain_r,
                gain_g: self.gain_g,
                gain_b: self.gain_b,
                scaling,
            };
            true
        } else {
            false
        }
    }

    /// Moves the lower anchor, if it stays strictly below the upper one by
    /// index and by wavelength; otherwise nothing changes.
    pub fn set_low(&mut self, low: SpectrumCalibrationPoint) -> (accepted: bool)
        ensures
            accepted <==> (low.index < old(self)@.high.index
                && low.wavelength < old(self)@.high.wavelength),
            accepted ==> final(self)@ == (CalibrationView { low, ..old(self)@ }),
            !accepted ==> final(self)@ == old(self)@,
    {
        if low.index < self.high.index && low.wavelength < self.high.wavelength {
            self.low = low;
            true
        } else {
            false
        }
    }

    /// Moves the upper anchor, if it stays strictly above the lower one by
    /// index and by wavelength; otherwise nothing changes.
    pub fn set_high(&mut self, high: SpectrumCalibrationPoint) -> (accepted: bool)
        ensures
            accepted <==> (old(self)@.low.index < high.index && old(self)@.low.wavelength
                < high.wavelength),
            accepted ==> final(self)@ == (CalibrationView { high, ..old(self)@ }),
            !accepted ==> final(self)@ == old(self)@,
    {
        if self.low.index < high.index && self.low.wavelength < high.wavelength {
            self.high = high;
            true
        } else {
            false
        }
    }

    /// The linearisation mode.
    pub fn linearize(&self) -> (mode: Linearize)
        ensures
            mode == self@.linearize,
    {
        self.linearize
    }

    /// Selects the linearisation mode and reports whether it changed.
    pub fn set_linearize(&mut self, mode: Linearize) -> (changed: bool)
        ensures
            changed <==> mode != old(self)@.linearize,
            final(self)@ == (CalibrationView { linearize: mode, ..old(self)@ }),
    {
        proof {
            use_type_invariant(&*self);
        }
        let changed = self.linearize != mode;
        self.linearize = mode;
        changed
    }

    /// The gains of the red, green and blue channel.
    pub fn gains(&self) -> (g: (i64, i64, i64))
        ensures
            g == (self@.gain_r, self@.gain_g, self@.gain_b),
    {
        (self.gain_r, self.gain_g, self.gain_b)
    }

    /// Sets the gains of the red, green and blue channel.
    pub fn set_gains(&mut self, gain_r: i64, gain_g: i64, gain_b: i64)
        ensures
            final(self)@ == (CalibrationView { gain_r, gain_g, gain_b, ..old(self)@ }),
    {
        proof {
            use_type_invariant(&*self);
        }
        self.gain_r = gain_r;
        self.gain_g = gain_g;
        self.gain_b = gain_b;
    }

    /// Sets the three gains to those of a named preset.
    pub fn set_gain_preset(&mut self, preset: GainPresets)
        ensures
            final(self)@.gain_r == preset_gains(preset).0,
            final(self)@.gain_g == preset_gains(preset).1,
            final(self)@.gain_b == preset_gains(preset).2,
            final(self)@ == (CalibrationView {
                gain_r: final(self)@.gain_r,
                gain_g: final(self)@.gain_g,
                gain_b: final(self)@.gain_b,
                ..old(self)@
            }),
    {
        match preset {
            GainPresets::Unity => self.set_gains(1_000_000, 1_000_000, 1_000_000),
            GainPresets::SRgb => self.set_gains(212_600, 715_200, 72_200),
            GainPresets::Rec601 => self.set_gains(299_000, 587_000, 114_000),
            GainPresets::Rec709 => self.set_gains(212_600, 715_200, 72_200),
        }
    }

    /// Whether a scaling vector is set.
    pub fn has_scaling(&self) -> (b: bool)
        ensures
            b <==> self@.scaling is Some,
    {
        self.scaling.is_some()
    }

    /// The scaling vector, if one is set.
    pub fn scaling(&self) -> (scaling: Option<&Vec<i64>>)
        ensures
            match scaling {
                Some(factors) => self@.scaling == Some(factors@),
                None => self@.scaling is None,
            },
    {
        match &self.scaling {
            Some(factors) => Some(factors),
            None => None,
        }
    }

    /// Sets or clears the scaling vector.
    pub fn set_scaling(&mut self, scaling: Option<Vec<i64>>)
        ensures
            final(self)@ == (CalibrationView {
                scaling: match scaling {
                    Some(factors) => Some(factors@),
                    None => None,
                },
                ..old(self)@
            }),
    {
        proof {
            use_type_invariant(&*self);
        }
        self.scaling = scaling;
    }

    /// The wavelength of bin `index`, as the exact fraction
    /// `low.wavelength + (index - low.index) * rise / span`.  The map is not
    /// clamped: bins beyond the anchors are extrapolated.
    pub fn get_wavelength_from_index(&self, index: usize) -> (w: Wavelength)
        ensures
            self@.valid(),
            w@ == self@.wavelength(index as int),
            w.in_range(),
    {
        self.wavelength_at(index as i128)
    }

    /// The wavelength at a signed position on the bin axis, by the same
    /// affine map as [`Self::get_wavelength_from_index`]: positions below
    /// bin 0 are extrapolated too.
    pub fn get_wavelength_from_position(&self, position: i64) -> (w: Wavelength)
        ensures
            self@.valid(),
            w@ == self@.wavelength(position as int),
            w.in_range(),
    {
        self.wavelength_at(position as i128)
    }

    fn wavelength_at(&self, index: i128) -> (w: Wavelength)
        requires
            i64::MIN <= index <= u64::MAX,
        ensures
            self@.valid(),
            w@ == self@.wavelength(index as int),
            w.in_range(),
    {
        proof {
            use_type_invariant(self);
            lemma_wavelength_bounds(self@, index as int);
        }
        let span: i128 = self.high.index as i128 - self.low.index as i128;
        let rise: i128 = self.high.wavelength as i128 - self.low.wavelength as i128;
        let offset: i128 = index - self.low.index as i128;
        let base: i128 = (self.low.wavelength as i128) * span;
        Wavelength { numerator: base + offset * rise, denominator: span }
    }

    /// The factor that the sum of bin `index` is multiplied with: the entry
    /// of the scaling vector where there is one, 1.0 otherwise.
    pub fn get_scaling_factor_from_index(&self, index: usize) -> (factor: i64)
        ensures
            factor as int == self@.scaling_factor(index as int),
    {
        match &self.scaling {
            Some(factors) => if index < factors.len() {
                factors[index]
            } else {
                ONE
            },
            None => ONE,
        }
    }
}

} // verus!
