//! The reference curve and the scaling vector derived from it.
//!
//! A reference curve is a list of samples `(wavelength, value)`, kept in the
//! order in which they were given.  Two neighbouring samples of different
//! wavelengths span a segment, on which the curve is the straight line
//! through them.  The value at a wavelength is taken from the first segment
//! that holds it; a wavelength on no segment has the value of the first
//! sample that lies exactly there, and no value if there is none.  Of
//! samples with one and the same wavelength the first one counts.

use crate::calibration::{Fraction, SpectrumCalibration, Wavelength};
use crate::fixed::{floor_div, quotient, ratio, scale, scaled, ONE};
use vstd::prelude::*;

verus! {

/// One sample of a reference curve.  The wavelength is in fixed-point
/// nanometres, the value a fixed-point intensity.
#[derive(Clone, Copy, Debug, PartialEq, Eq, Structural)]
pub struct ReferencePoint {
    pub wavelength: i64,
    pub value: i64,
}

/// Whether the sample lies at or below the wavelength `w`.
pub open spec fn at_or_before(point: ReferencePoint, w: Fraction) -> bool {
    point.wavelength * w.den <= w.num * ONE
}

/// Whether the sample lies at or above the wavelength `w`.
pub open spec fn at_or_after(point: ReferencePoint, w: Fraction) -> bool {
    w.num * ONE <= point.wavelength * w.den
}

/// Whether the samples at `j` and `j + 1` span a segment that holds `w`:
/// their wavelengths differ, and `w` lies between them, ends included.
pub open spec fn brackets(points: Seq<ReferencePoint>, j: int, w: Fraction) -> bool {
    &&& 0 <= j < points.len() - 1
    &&& {
        ||| points[j].wavelength < points[j + 1].wavelength && at_or_before(points[j], w)
            && at_or_after(points[j + 1], w)
        ||| points[j + 1].wavelength < points[j].wavelength && at_or_before(points[j + 1], w)
            && at_or_after(points[j], w)
    }
}

/// The first position at or after `from` whose segment holds `w`; the
/// number of samples where there is none.
pub open spec fn first_bracket(points: Seq<ReferencePoint>, w: Fraction, from: int) -> int
    decreases points.len() - from,
{
    if from < 0 || from >= points.len() {
        points.len() as int
    } else if brackets(points, from, w) {
        from
    } else {
        first_bracket(points, w, from + 1)
    }
}

/// The first position at or after `from` of a sample that lies exactly at
/// `w`; the number of samples where there is none.
pub open spec fn first_hit(points: Seq<ReferencePoint>, w: Fraction, from: int) -> int
    decreases points.len() - from,
{
    if from < 0 || from >= points.len() {
        points.len() as int
    } else if at_or_before(points[from], w) && at_or_after(points[from], w) {
        from
    } else {
        first_hit(points, w, from + 1)
    }
}

/// How far `w` lies along the segment from `from` to `to`, as a fixed-point
/// fraction between 0 and 1, rounded down.
pub open spec fn progress(from: ReferencePoint, to: ReferencePoint, w: Fraction) -> int {
    ((w.num * ONE - from.wavelength * w.den) * ONE) / ((to.wavelength - from.wavelength) * w.den)
}

/// The value at `w` of the straight line from `from` to `to`, rounded down.
pub open spec fn interpolated(from: ReferencePoint, to: ReferencePoint, w: Fraction) -> int {
    from.value + ((to.value - from.value) * progress(from, to, w)) / (ONE as int)
}

/// The value at `w` on the segment that the samples at `j` and `j + 1`
/// span, reckoned from the sample of the lower wavelength.
pub open spec fn segment_value(points: Seq<ReferencePoint>, j: int, w: Fraction) -> int {
    if points[j].wavelength < points[j + 1].wavelength {
        interpolated(points[j], points[j + 1], w)
    } else {
        interpolated(points[j + 1], points[j], w)
    }
}

/// Whether the curve has a value at `w`: `w` lies on a segment or exactly
/// at a sample.
pub open spec fn covers(points: Seq<ReferencePoint>, w: Fraction) -> bool {
    first_bracket(points, w, 0) < points.len() || first_hit(points, w, 0) < points.len()
}

/// The value of the curve at `w`: that of the first segment that holds `w`;
/// where there is none, that of the first sample exactly at `w`; `None`
/// where there is none either.
pub open spec fn curve_value(points: Seq<ReferencePoint>, w: Fraction) -> Option<int> {
    if first_bracket(points, w, 0) < points.len() {
        Some(segment_value(points, first_bracket(points, w, 0), w))
    } else if first_hit(points, w, 0) < points.len() {
        Some(points[first_hit(points, w, 0)].value as int)
    } else {
        None
    }
}

/// The samples with their values multiplied by `factor`.
pub open spec fn scaled_points(points: Seq<ReferencePoint>, factor: i64) -> Seq<ReferencePoint> {
    Seq::new(
        points.len(),
        |i: int|
            ReferencePoint {
                wavelength: points[i].wavelength,
                value: scaled(points[i].value as int, factor as int) as i64,
            },
    )
}

/// The mathematical content of a [`ReferenceConfig`].
pub struct ReferenceView {
    pub reference: Option<Seq<ReferencePoint>>,
    pub scale: i64,
}

impl ReferenceView {
    /// Whether the reference has a value at `w`: there is a curve, and `w`
    /// lies on one of its segments or exactly at one of its samples.
    pub open spec fn has_value_at(self, w: Fraction) -> bool {
        self.reference matches Some(points) && covers(points, w)
    }

    /// The reference value at `w`: the value of the curve times the scale;
    /// `None` where there is no curve or the curve has no value at `w`.
    pub open spec fn value_at(self, w: Fraction) -> Option<i64> {
        match self.reference {
            Some(points) => match curve_value(points, w) {
                Some(value) => Some(scaled(value, self.scale as int) as i64),
                None => None,
            },
            None => None,
        }
    }
}

/// The wavelengths of the samples rise strictly from each sample to the
/// next.
pub open spec fn rising(points: Seq<ReferencePoint>) -> bool {
    forall|j: int|
        0 <= j < points.len() - 1 ==> (#[trigger] points[j]).wavelength < points[j + 1].wavelength
}

proof fn lemma_rising_is_sorted(points: Seq<ReferencePoint>, i: int, j: int)
    requires
        rising(points),
        0 <= i <= j < points.len(),
    ensures
        points[i].wavelength <= points[j].wavelength,
    decreases j - i,
{
    if i < j {
        lemma_rising_is_sorted(points, i, j - 1);
        assert(points[j - 1].wavelength < points[j].wavelength);
    }
}

proof fn lemma_before_is_kept(earlier: ReferencePoint, later: ReferencePoint, w: Fraction)
    requires
        w.den > 0,
        earlier.wavelength <= later.wavelength,
    ensures
        at_or_before(later, w) ==> at_or_before(earlier, w),
        at_or_after(earlier, w) ==> at_or_after(later, w),
{
    assert(earlier.wavelength * w.den <= later.wavelength * w.den) by (nonlinear_arith)
        requires
            earlier.wavelength <= later.wavelength,
            w.den > 0,
    ;
}

proof fn lemma_rising_curve_has_segment(points: Seq<ReferencePoint>, w: Fraction, from: int)
    requires
        rising(points),
        0 <= from < points.len() - 1,
        at_or_before(points[from], w),
        at_or_after(points.last(), w),
    ensures
        first_bracket(points, w, from) < points.len(),
    decreases points.len() - from,
{
    assert(points[from].wavelength < points[from + 1].wavelength);
    if !at_or_after(points[from + 1], w) {
        assert(from + 1 < points.len() - 1);
        lemma_rising_curve_has_segment(points, w, from + 1);
    }
}

proof fn lemma_first_bracket_brackets(points: Seq<ReferencePoint>, w: Fraction, from: int)
    requires
        0 <= from,
        first_bracket(points, w, from) < points.len(),
    ensures
        from <= first_bracket(points, w, from),
        brackets(points, first_bracket(points, w, from), w),
    decreases points.len() - from,
{
    if from < points.len() && !brackets(points, from, w) {
        lemma_first_bracket_brackets(points, w, from + 1);
    }
}

proof fn lemma_first_hit_hits(points: Seq<ReferencePoint>, w: Fraction, from: int)
    requires
        0 <= from,
        first_hit(points, w, from) < points.len(),
    ensures
        from <= first_hit(points, w, from),
        at_or_before(points[first_hit(points, w, from)], w),
        at_or_after(points[first_hit(points, w, from)], w),
    decreases points.len() - from,
{
    if from < points.len() && !(at_or_before(points[from], w) && at_or_after(points[from], w)) {
        lemma_first_hit_hits(points, w, from + 1);
    }
}

/// A curve whose wavelengths rise from sample to sample has a value at
/// every wavelength from its first sample to its last, ends included, and
/// at no other.
pub proof fn lemma_rising_curve_covers(points: Seq<ReferencePoint>, w: Fraction)
    requires
        rising(points),
        w.den > 0,
    ensures
        covers(points, w) <==> (points.len() > 0 && at_or_before(points.first(), w)
            && at_or_after(points.last(), w)),
{
    let n = points.len() as int;
    if n > 0 && at_or_before(points.first(), w) && at_or_after(points.last(), w) {
        if n == 1 {
            assert(first_hit(points, w, 0) == 0);
        } else {
            lemma_rising_curve_has_segment(points, w, 0);
        }
    }
    if first_bracket(points, w, 0) < n {
        lemma_first_bracket_brackets(points, w, 0);
        let j = first_bracket(points, w, 0);
        assert(points[j].wavelength < points[j + 1].wavelength);
        lemma_rising_is_sorted(points, 0, j);
        lemma_rising_is_sorted(points, j + 1, n - 1);
        lemma_before_is_kept(points[0], points[j], w);
        lemma_before_is_kept(points[j + 1], points[n - 1], w);
    } else if first_hit(points, w, 0) < n {
        lemma_first_hit_hits(points, w, 0);
        let k = first_hit(points, w, 0);
        lemma_rising_is_sorted(points, 0, k);
        lemma_rising_is_sorted(points, k, n - 1);
        lemma_before_is_kept(points[0], points[k], w);
        lemma_before_is_kept(points[k], points[n - 1], w);
    }
}

/// On a segment that brackets `w`, the progress is a fraction between 0
/// and 1.
pub proof fn lemma_progress_bounds(from: ReferencePoint, to: ReferencePoint, w: Fraction)
    requires
        w.den > 0,
        from.wavelength < to.wavelength,
        at_or_before(from, w),
        at_or_after(to, w),
    ensures
        0 <= progress(from, to, w) <= ONE,
        0 <= w.num * ONE - from.wavelength * w.den <= (to.wavelength - from.wavelength) * w.den,
        (to.wavelength - from.wavelength) * w.den > 0,
{
    let x0 = from.wavelength as int;
    let x1 = to.wavelength as int;
    let den = w.den;
    let position = w.num * ONE - x0 * den;
    let length = (x1 - x0) * den;
    assert(length == x1 * den - x0 * den) by (nonlinear_arith)
        requires
            length == (x1 - x0) * den,
    ;
    assert(length > 0) by (nonlinear_arith)
        requires
            length == (x1 - x0) * den,
            x1 - x0 > 0,
            den > 0,
    ;
    assert(0 <= position <= length);
    let one = ONE as int;
    assert(0 <= position * one <= length * one) by (nonlinear_arith)
        requires
            0 <= position <= length,
            one > 0,
    ;
    vstd::arithmetic::div_mod::lemma_div_is_ordered(0, position * one, length);
    vstd::arithmetic::div_mod::lemma_div_is_ordered(position * one, length * one, length);
    vstd::arithmetic::div_mod::lemma_div_multiples_vanish(one, length);
    assert(0int / length == 0) by (nonlinear_arith)
        requires
            length > 0,
    ;
}

/// A value interpolated on a bracketing segment lies between the values at
/// the segment's ends.
pub proof fn lemma_interpolated_bounds(from: ReferencePoint, to: ReferencePoint, w: Fraction)
    requires
        w.den > 0,
        from.wavelength < to.wavelength,
        at_or_before(from, w),
        at_or_after(to, w),
    ensures
        from.value <= to.value ==> from.value <= interpolated(from, to, w) <= to.value,
        from.value >= to.value ==> to.value <= interpolated(from, to, w) <= from.value,
{
    lemma_progress_bounds(from, to, w);
    let t = progress(from, to, w);
    let dy = to.value - from.value;
    let one = ONE as int;
    if dy >= 0 {
        assert(0 <= dy * t <= dy * one) by (nonlinear_arith)
            requires
                dy >= 0,
                0 <= t <= one,
        ;
        vstd::arithmetic::div_mod::lemma_div_is_ordered(0, dy * t, one);
        vstd::arithmetic::div_mod::lemma_div_is_ordered(dy * t, dy * one, one);
    } else {
        assert(dy * one <= dy * t <= 0) by (nonlinear_arith)
            requires
                dy < 0,
                0 <= t <= one,
        ;
        vstd::arithmetic::div_mod::lemma_div_is_ordered(dy * one, dy * t, one);
        vstd::arithmetic::div_mod::lemma_div_is_ordered(dy * t, 0, one);
    }
    assert(dy * one == one * dy) by (nonlinear_arith);
    vstd::arithmetic::div_mod::lemma_div_multiples_vanish(dy, one);
}

/// A reference curve with a scale for its values.
#[derive(Debug)]
pub struct ReferenceConfig {
    reference: Option<Vec<ReferencePoint>>,
    scale: i64,
}

impl View for ReferenceConfig {
    type V = ReferenceView;

    closed spec fn view(&self) -> ReferenceView {
        ReferenceView {
            reference: match self.reference {
                Some(points) => Some(points@),
                None => None,
            },
            scale: self.scale,
        }
    }
}

impl Clone for ReferenceConfig {
    fn clone(&self) -> (copy: Self)
        ensures
            copy@ == self@,
    {
        let reference = match &self.reference {
            Some(points) => Some(points.clone()),
            None => None,
        };
        ReferenceConfig { reference, scale: self.scale }
    }
}

impl ReferenceConfig {
    /// A configuration without a curve, with scale 1.0.
    pub fn new() -> (config: Self)
        ensures
            config@ == (ReferenceView { reference: None, scale: ONE }),
    {
        ReferenceConfig { reference: None, scale: ONE }
    }

    /// Whether there is a curve.
    pub fn has_reference(&self) -> (b: bool)
        ensures
            b <==> self@.reference is Some,
    {
        self.reference.is_some()
    }

    /// The samples of the curve, if there is one.
    pub fn reference(&self) -> (points: Option<&Vec<ReferencePoint>>)
        ensures
            match points {
                Some(p) => self@.reference == Some(p@),
                None => self@.reference is None,
            },
    {
        match &self.reference {
            Some(points) => Some(points),
            None => None,
        }
    }

    /// Replaces the curve by the given samples, in the order given.
    pub fn set_reference(&mut self, points: Vec<ReferencePoint>)
        ensures
            final(self)@ == (ReferenceView { reference: Some(points@), ..old(self)@ }),
    {
        self.reference = Some(points);
    }

    /// Removes the curve.
    pub fn delete_reference(&mut self)
        ensures
            final(self)@ == (ReferenceView { reference: None, ..old(self)@ }),
    {
        self.reference = None;
    }

    /// The factor that the values of the curve are multiplied with.
    pub fn scale(&self) -> (s: i64)
        ensures
            s == self@.scale,
    {
        self.scale
    }

    /// Sets the factor that the values of the curve are multiplied with.
    pub fn set_scale(&mut self, scale: i64)
        ensures
            final(self)@ == (ReferenceView { scale, ..old(self)@ }),
    {
        self.scale = scale;
    }

    /// The curve as it is drawn: its samples with their values times the
    /// scale; `None` where there is no curve.
    pub fn to_line(&self) -> (line: Option<Vec<ReferencePoint>>)
        ensures
            match line {
                Some(points) => self@.reference is Some && points@ == scaled_points(
                    self@.reference->0,
                    self@.scale,
                ),
                None => self@.reference is None,
            },
    {
        match &self.reference {
            Some(points) => {
                let mut line: Vec<ReferencePoint> = Vec::with_capacity(points.len());
                let mut i: usize = 0;
                while i < points.len()
                    invariant
                        i <= points.len(),
                        line.len() == i,
                        forall|k: int|
                            0 <= k < i ==> line[k] == scaled_points(points@, self.scale)[k],
                    decreases points.len() - i,
                {
                    line.push(
                        ReferencePoint {
                            wavelength: points[i].wavelength,
                            value: scale(points[i].value, self.scale),
                        },
                    );
                    i += 1;
                }
                assert(line@ =~= scaled_points(points@, self.scale));
                Some(line)
            },
            None => None,
        }
    }

    /// The reference value at `wavelength`: the curve, interpolated linearly
    /// between its samples, times the scale.  `None` where there is no curve
    /// or the curve has no value at the wavelength, which is distinct from a
    /// value of zero.
    pub fn get_value_at_wavelength(&self, wavelength: &Wavelength) -> (value: Option<i64>)
        ensures
            value == self@.value_at(wavelength@),
            value is Some <==> self@.has_value_at(wavelength@),
    {
        match &self.reference {
            Some(points) => match value_on_curve(points, wavelength) {
                Some(v) => Some(scale(v, self.scale)),
                None => None,
            },
            None => None,
        }
    }
}

fn position_of(point: &ReferencePoint, wavelength: &Wavelength) -> (offset: i128)
    ensures
        wavelength.in_range(),
        offset as int == wavelength.num() * ONE - point.wavelength * wavelength.den(),
{
    let num: i128 = wavelength.numerator();
    let den: i128 = wavelength.denominator();
    let one: i128 = ONE as i128;
    assert(one == 1_000_000);
    assert(-0x8000_0000_0000_0000 * 0xffff_ffff <= (point.wavelength as int) * (den as int)
        <= 0x8000_0000_0000_0000 * 0xffff_ffff) by (nonlinear_arith)
        requires
            -0x8000_0000_0000_0000 <= point.wavelength as int <= 0x8000_0000_0000_0000,
            0 < den as int <= 0xffff_ffff,
    ;
    num * one - (point.wavelength as i128) * den
}

/// The value at `wavelength` of the straight line from `from` to `to`.
fn interpolate(from: ReferencePoint, to: ReferencePoint, wavelength: &Wavelength) -> (value: i64)
    requires
        from.wavelength < to.wavelength,
        at_or_before(from, wavelength@),
        at_or_after(to, wavelength@),
    ensures
        value as int == interpolated(from, to, wavelength@),
{
    let one: i128 = ONE as i128;
    assert(one == 1_000_000);
    let position: i128 = position_of(&from, wavelength);
    let den: i128 = wavelength.denominator();
    proof {
        lemma_progress_bounds(from, to, wavelength@);
        lemma_interpolated_bounds(from, to, wavelength@);
    }
    assert(0 < (to.wavelength - from.wavelength) * (den as int) <= 0xffff_ffff_ffff_ffff
        * 0xffff_ffff) by (nonlinear_arith)
        requires
            0 < to.wavelength - from.wavelength <= 0xffff_ffff_ffff_ffff,
            0 < den as int <= 0xffff_ffff,
    ;
    let length: i128 = (to.wavelength as i128 - from.wavelength as i128) * den;
    let t: i128 = floor_div(position * one, length);
    let dy: i128 = to.value as i128 - from.value as i128;
    assert(-0xffff_ffff_ffff_ffff * 1_000_000 <= (dy as int) * (t as int) <= 0xffff_ffff_ffff_ffff
        * 1_000_000) by (nonlinear_arith)
        requires
            -0xffff_ffff_ffff_ffff <= dy as int <= 0xffff_ffff_ffff_ffff,
            0 <= t as int <= 1_000_000,
    ;
    let rise: i128 = floor_div(dy * t, one);
    (from.value as i128 + rise) as i64
}

/// The value of the curve at `wavelength`; `None` where it has none.
fn value_on_curve(points: &Vec<ReferencePoint>, wavelength: &Wavelength) -> (value: Option<i64>)
    ensures
        match value {
            Some(v) => curve_value(points@, wavelength@) == Some(v as int),
            None => curve_value(points@, wavelength@) is None,
        },
{
    let n: usize = points.len();
    let mut j: usize = 0;
    while n - j > 1
        invariant
            j <= n,
            n == points.len(),
            first_bracket(points@, wavelength@, 0) == first_bracket(
                points@,
                wavelength@,
                j as int,
            ),
        decreases n - j,
    {
        let here: i128 = position_of(&points[j], wavelength);
        let next: i128 = position_of(&points[j + 1], wavelength);
        if points[j].wavelength < points[j + 1].wavelength && here >= 0 && next <= 0 {
            assert(brackets(points@, j as int, wavelength@));
            return Some(interpolate(points[j], points[j + 1], wavelength));
        }
        if points[j + 1].wavelength < points[j].wavelength && next >= 0 && here <= 0 {
            assert(brackets(points@, j as int, wavelength@));
            return Some(interpolate(points[j + 1], points[j], wavelength));
        }
        assert(!brackets(points@, j as int, wavelength@));
        j += 1;
    }
    assert(first_bracket(points@, wavelength@, 0) == n) by {
        if j < n {
            assert(!brackets(points@, j as int, wavelength@));
            assert(first_bracket(points@, wavelength@, j + 1) == n);
        }
    }
    let mut k: usize = 0;
    while k < n
        invariant
            k <= n,
            n == points.len(),
            first_bracket(points@, wavelength@, 0) == n,
            first_hit(points@, wavelength@, 0) == first_hit(points@, wavelength@, k as int),
        decreases n - k,
    {
        if position_of(&points[k], wavelength) == 0 {
            assert(first_hit(points@, wavelength@, k as int) == k);
            return Some(points[k].value);
        }
        k += 1;
    }
    assert(first_hit(points@, wavelength@, n as int) == n);
    None
}

/// The scaling factor for one bin: the reference value at the bin's
/// wavelength divided by the bin's measured sum; `None` where the reference
/// has no value there.  A sum of zero gives the greatest factor for a
/// positive reference value, the least for a negative one, and zero for a
/// reference value of zero.
pub open spec fn scaling_entry(
    reference: ReferenceView,
    wavelength: Fraction,
    sum: i64,
) -> Option<i64> {
    match reference.value_at(wavelength) {
        Some(value) => Some(ratio(value as int, sum as int) as i64),
        None => None,
    }
}

/// The scaling vector that makes the measured row `sum` match the
/// reference: for each bin its [`scaling_entry`]; `None` as soon as one bin
/// has none.
pub open spec fn scaling_vector(
    reference: ReferenceView,
    calibration: crate::calibration::CalibrationView,
    sum: Seq<i64>,
) -> Option<Seq<i64>> {
    if forall|i: int|
        0 <= i < sum.len() ==> (#[trigger] scaling_entry(
            reference,
            calibration.wavelength(i),
            sum[i],
        )) is Some {
        Some(
            Seq::new(
                sum.len(),
                |i: int| scaling_entry(reference, calibration.wavelength(i), sum[i]).unwrap(),
            ),
        )
    } else {
        None
    }
}

/// Derives the scaling vector from the reference curve and the measured
/// combined row: entry `i` is the reference value at the wavelength of bin
/// `i` divided by `sum[i]`.  There is no result if the reference has no
/// value for one of the bins, and only then.
pub fn compute_scaling(
    reference: &ReferenceConfig,
    calibration: &SpectrumCalibration,
    sum: &Vec<i64>,
) -> (scaling: Option<Vec<i64>>)
    ensures
        match scaling {
            Some(factors) => scaling_vector(reference@, calibration@, sum@) == Some(factors@),
            None => scaling_vector(reference@, calibration@, sum@) is None,
        },
        scaling is Some <==> forall|i: int|
            0 <= i < sum.len() ==> #[trigger] reference@.has_value_at(calibration@.wavelength(i)),
{
    let mut factors: Vec<i64> = Vec::with_capacity(sum.len());
    let mut i: usize = 0;
    while i < sum.len()
        invariant
            i <= sum.len(),
            factors.len() == i,
            forall|k: int|
                0 <= k < i ==> (#[trigger] scaling_entry(
                    reference@,
                    calibration@.wavelength(k),
                    sum[k],
                )) == Some(factors[k]),
        decreases sum.len() - i,
    {
        let wavelength = calibration.get_wavelength_from_index(i);
        match reference.get_value_at_wavelength(&wavelength) {
            Some(value) => {
                factors.push(quotient(value, sum[i]));
            },
            None => {
                assert(scaling_entry(
                    reference@,
                    calibration@.wavelength(i as int),
                    sum[i as int],
                ) is None);
                return None;
            },
        }
        i += 1;
    }
    assert forall|k: int| 0 <= k < sum.len() implies #[trigger] reference@.has_value_at(
        calibration@.wavelength(k),
    ) by {
        assert(scaling_entry(reference@, calibration@.wavelength(k), sum[k]) is Some);
    }
    assert(scaling_vector(reference@, calibration@, sum@).unwrap() =~= factors@);
    Some(factors)
}

} // verus!
