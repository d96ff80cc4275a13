//! Detection of local peaks and dips in the combined row of a spectrum.
//!
//! A bin is a *candidate* if it is strictly higher (peaks) or strictly lower
//! (dips) than every other bin within `find_window` bins on either side, and
//! that whole window lies inside the row.  A candidate *survives* if no
//! candidate whose wavelength is less than half of `unique_window` away is
//! strictly better than it.  Candidates of equal value never remove each
//! other.

use crate::calibration::{CalibrationView, Fraction, SpectrumCalibration, Wavelength};
use crate::fixed::{floor_div, saturate, saturated, ONE};
use crate::selection::{lemma_selection_of_one, lemma_selection_step, positions};
use vstd::prelude::*;

verus! {

/// A feature of a spectrum: a wavelength and the intensity found there.
#[derive(Clone, Copy, Debug)]
pub struct SpectrumPoint {
    pub wavelength: Wavelength,
    pub value: i64,
}

/// The mathematical content of a [`SpectrumPoint`].
pub struct PointView {
    pub wavelength: Fraction,
    pub value: i64,
}

impl View for SpectrumPoint {
    type V = PointView;

    open spec fn view(&self) -> PointView {
        PointView { wavelength: self.wavelength@, value: self.value }
    }
}

/// Whether the value of bin `a` is strictly better than that of bin `b`:
/// higher when peaks are sought, lower when dips are.
pub open spec fn outshines(sum: Seq<i64>, peaks: bool, a: int, b: int) -> bool {
    if peaks {
        sum[a] > sum[b]
    } else {
        sum[a] < sum[b]
    }
}

/// Whether bin `c` is a candidate: the window of `find_window` bins on
/// either side of it lies inside the row, and `c` is strictly better than
/// every other bin in that window.
pub open spec fn is_candidate(sum: Seq<i64>, find_window: int, peaks: bool, c: int) -> bool {
    &&& 0 <= find_window <= c < sum.len() - find_window
    &&& forall|j: int|
        c - find_window <= j <= c + find_window && j != c ==> #[trigger] outshines(
            sum,
            peaks,
            c,
            j,
        )
}

/// Whether the wavelengths of bins `a` and `b` are less than half of
/// `unique_window` apart.
pub open spec fn near(calibration: CalibrationView, unique_window: int, a: int, b: int) -> bool {
    let gap = calibration.wavelength_numerator(a) - calibration.wavelength_numerator(b);
    let distance = if gap < 0 {
        -gap
    } else {
        gap
    };
    2 * distance * ONE < unique_window * calibration.span()
}

/// Whether bin `c` is a candidate that no candidate near it outshines.
pub open spec fn survives(
    sum: Seq<i64>,
    calibration: CalibrationView,
    find_window: int,
    unique_window: int,
    peaks: bool,
    c: int,
) -> bool {
    &&& is_candidate(sum, find_window, peaks, c)
    &&& forall|d: int|
        #![trigger is_candidate(sum, find_window, peaks, d)]
        is_candidate(sum, find_window, peaks, d) && near(calibration, unique_window, c, d)
            ==> !outshines(sum, peaks, d, c)
}

/// The feature at bin `c`: its wavelength and its value.
pub open spec fn feature_point(sum: Seq<i64>, calibration: CalibrationView, c: int) -> PointView {
    PointView { wavelength: calibration.wavelength(c), value: sum[c] }
}

/// The bins that survive, in increasing order.
pub open spec fn surviving_bins(
    sum: Seq<i64>,
    calibration: CalibrationView,
    find_window: int,
    unique_window: int,
    peaks: bool,
) -> Seq<int> {
    positions(sum.len()).filter(
        |c: int| survives(sum, calibration, find_window, unique_window, peaks, c),
    )
}

/// The peaks or dips of a row: the features at the bins that survive, in
/// bin order.
pub open spec fn features(
    sum: Seq<i64>,
    calibration: CalibrationView,
    find_window: int,
    unique_window: int,
    peaks: bool,
) -> Seq<PointView> {
    surviving_bins(sum, calibration, find_window, unique_window, peaks).map_values(
        |c: int| feature_point(sum, calibration, c),
    )
}

/// A sequence with a strict global maximum at `m`, searched with a window
/// that fits around `m` and is wide enough to reach `m` from every other
/// position where it fits (the first and the last of them are no more than
/// `find_window` bins from `m`), has exactly one peak, and it is at `m`.
pub proof fn lemma_single_peak(
    sum: Seq<i64>,
    calibration: CalibrationView,
    find_window: int,
    unique_window: int,
    m: int,
)
    requires
        calibration.valid(),
        unique_window > 0,
        0 <= find_window <= m < sum.len() - find_window,
        forall|j: int| 0 <= j < sum.len() && j != m ==> sum[j] < sum[m],
        m <= 2 * find_window,
        sum.len() - 1 - m <= 2 * find_window,
    ensures
        features(sum, calibration, find_window, unique_window, true) == seq![
            feature_point(sum, calibration, m),
        ],
{
    let pred = |c: int| survives(sum, calibration, find_window, unique_window, true, c);
    assert forall|c: int| 0 <= c < sum.len() implies (#[trigger] pred(c) <==> c == m) by {
        if c == m {
            assert forall|j: int|
                m - find_window <= j <= m + find_window && j != m implies #[trigger] outshines(
                sum,
                true,
                m,
                j,
            ) by {}
            assert(is_candidate(sum, find_window, true, m));
        } else if is_candidate(sum, find_window, true, c) {
            // The window around `c` holds `m`, which is higher.
            assert(outshines(sum, true, c, m));
        }
    }
    lemma_selection_of_one(sum.len(), pred, m);
    assert(seq![m].map_values(|c: int| feature_point(sum, calibration, c)) =~= seq![
        feature_point(sum, calibration, m),
    ]);
}

/// A candidate that has a strictly better candidate near it is removed.
pub proof fn lemma_outshone_is_removed(
    sum: Seq<i64>,
    calibration: CalibrationView,
    find_window: int,
    unique_window: int,
    peaks: bool,
    c: int,
    d: int,
)
    requires
        is_candidate(sum, find_window, peaks, d),
        near(calibration, unique_window, c, d),
        outshines(sum, peaks, d, c),
    ensures
        !survives(sum, calibration, find_window, unique_window, peaks, c),
{
}

/// Candidates of equal value do not remove each other: a candidate
/// survives as soon as every candidate near it has either the same value or
/// a worse one.
pub proof fn lemma_ties_survive(
    sum: Seq<i64>,
    calibration: CalibrationView,
    find_window: int,
    unique_window: int,
    peaks: bool,
    c: int,
)
    requires
        is_candidate(sum, find_window, peaks, c),
        forall|d: int|
            #![trigger is_candidate(sum, find_window, peaks, d)]
            is_candidate(sum, find_window, peaks, d) && near(calibration, unique_window, c, d)
                ==> sum[d] == sum[c] || outshines(sum, peaks, c, d),
    ensures
        survives(sum, calibration, find_window, unique_window, peaks, c),
{
}

/// Of two candidates that are the only ones and lie near each other, both
/// survive if their values are equal; otherwise the better one survives and
/// the other is removed.
pub proof fn lemma_pair_of_candidates(
    sum: Seq<i64>,
    calibration: CalibrationView,
    find_window: int,
    unique_window: int,
    peaks: bool,
    a: int,
    b: int,
)
    requires
        is_candidate(sum, find_window, peaks, a),
        is_candidate(sum, find_window, peaks, b),
        forall|c: int| #[trigger] is_candidate(sum, find_window, peaks, c) ==> c == a || c == b,
        near(calibration, unique_window, a, b),
    ensures
        sum[a] == sum[b] ==> survives(sum, calibration, find_window, unique_window, peaks, a)
            && survives(sum, calibration, find_window, unique_window, peaks, b),
        outshines(sum, peaks, b, a) ==> !survives(
            sum,
            calibration,
            find_window,
            unique_window,
            peaks,
            a,
        ) && survives(sum, calibration, find_window, unique_window, peaks, b),
{
}

fn better(peaks: bool, a: i64, b: i64) -> (r: bool)
    ensures
        r == if peaks {
            a > b
        } else {
            a < b
        },
{
    if peaks {
        a > b
    } else {
        a < b
    }
}

fn candidate_at(sum: &Vec<i64>, find_window: usize, peaks: bool, c: usize) -> (found: bool)
    ensures
        found == is_candidate(sum@, find_window as int, peaks, c as int),
{
    if c < find_window || c >= sum.len() || sum.len() - c <= find_window {
        return false;
    }
    let last: usize = c + find_window;
    let mut j: usize = c - find_window;
    while j <= last
        invariant
            c - find_window <= j <= last + 1,
            last == c + find_window,
            last < sum.len(),
            find_window <= c,
            forall|k: int| c - find_window <= k < j && k != c ==> #[trigger] outshines(
                sum@,
                peaks,
                c as int,
                k,
            ),
        decreases last + 1 - j,
    {
        if j != c && !better(peaks, sum[c], sum[j]) {
            assert(!outshines(sum@, peaks, c as int, j as int));
            return false;
        }
        j += 1;
    }
    true
}

fn near_bins(calibration: &SpectrumCalibration, unique_window: i64, a: usize, b: usize) -> (r: bool)
    requires
        unique_window > 0,
    ensures
        r == near(calibration@, unique_window as int, a as int, b as int),
{
    let wa = calibration.get_wavelength_from_index(a);
    let wb = calibration.get_wavelength_from_index(b);
    let gap: i128 = wa.numerator() - wb.numerator();
    let distance: i128 = if gap < 0 {
        -gap
    } else {
        gap
    };
    let span: i128 = wa.denominator();
    let one: i128 = ONE as i128;
    assert(one == 1_000_000);
    assert(0 <= (unique_window as int) * (span as int) <= 0x7fff_ffff_ffff_ffff * 0xffff_ffff)
        by (nonlinear_arith)
        requires
            0 < unique_window as int <= 0x7fff_ffff_ffff_ffff,
            0 < span as int <= 0xffff_ffff,
    ;
    2 * distance * one < (unique_window as i128) * span
}

/// Whether some candidate near bin `c` outshines it.
fn outshone(
    sum: &Vec<i64>,
    calibration: &SpectrumCalibration,
    unique_window: i64,
    peaks: bool,
    candidates: &Vec<usize>,
    c: usize,
) -> (beaten: bool)
    requires
        unique_window > 0,
        c < sum.len(),
        forall|k: int| 0 <= k < candidates.len() ==> #[trigger] candidates[k] < sum.len(),
    ensures
        beaten <==> exists|k: int|
            0 <= k < candidates.len() && near(
                calibration@,
                unique_window as int,
                c as int,
                #[trigger] candidates[k] as int,
            ) && outshines(sum@, peaks, candidates[k] as int, c as int),
{
    let mut k: usize = 0;
    while k < candidates.len()
        invariant
            k <= candidates.len(),
            unique_window > 0,
            c < sum.len(),
            forall|i: int| 0 <= i < candidates.len() ==> #[trigger] candidates[i] < sum.len(),
            forall|i: int|
                0 <= i < k ==> !(near(
                    calibration@,
                    unique_window as int,
                    c as int,
                    #[trigger] candidates[i] as int,
                ) && outshines(sum@, peaks, candidates[i] as int, c as int)),
        decreases candidates.len() - k,
    {
        let d: usize = candidates[k];
        if near_bins(calibration, unique_window, c, d) && better(peaks, sum[d], sum[c]) {
            return true;
        }
        k += 1;
    }
    false
}

/// Finds the peaks (`peaks == true`) or dips (`peaks == false`) of the
/// combined row `sum`.
///
/// `find_window` is the half-width of the search window in bins,
/// `unique_window` the fixed-point width in nanometres of the neighbourhood
/// within which only the best candidates are kept.  The result holds, in
/// bin order, the wavelength and value of every bin that survives.
pub fn find_peaks_and_dips(
    sum: &Vec<i64>,
    calibration: &SpectrumCalibration,
    find_window: usize,
    unique_window: i64,
    peaks: bool,
) -> (points: Vec<SpectrumPoint>)
    requires
        unique_window > 0,
    ensures
        points@.map_values(|p: SpectrumPoint| p@) == features(
            sum@,
            calibration@,
            find_window as int,
            unique_window as int,
            peaks,
        ),
{
    let n: usize = sum.len();
    let mut candidates: Vec<usize> = Vec::new();
    let mut flags: Vec<bool> = Vec::with_capacity(n);
    let mut c: usize = 0;
    while c < n
        invariant
            c <= n,
            n == sum.len(),
            flags.len() == c,
            forall|i: int|
                0 <= i < c ==> #[trigger] flags[i] == is_candidate(
                    sum@,
                    find_window as int,
                    peaks,
                    i,
                ),
            forall|k: int|
                0 <= k < candidates.len() ==> #[trigger] candidates[k] < c && is_candidate(
                    sum@,
                    find_window as int,
                    peaks,
                    candidates[k] as int,
                ),
            forall|i: int|
                0 <= i < c && #[trigger] is_candidate(sum@, find_window as int, peaks, i)
                    ==> exists|k: int| 0 <= k < candidates.len() && #[trigger] candidates[k] == i,
        decreases n - c,
    {
        let found = candidate_at(sum, find_window, peaks, c);
        if found {
            let ghost before = candidates@;
            candidates.push(c);
            assert(candidates[candidates.len() - 1] == c);
            assert forall|i: int|
                0 <= i < c + 1 && #[trigger] is_candidate(
                    sum@,
                    find_window as int,
                    peaks,
                    i,
                ) implies exists|k: int|
                0 <= k < candidates.len() && #[trigger] candidates[k] == i by {
                if i < c {
                    let k = choose|k: int| 0 <= k < before.len() && #[trigger] before[k] == i;
                    assert(candidates[k] == i);
                }
            }
        }
        flags.push(found);
        c += 1;
    }
    let ghost pred = |b: int|
        survives(sum@, calibration@, find_window as int, unique_window as int, peaks, b);
    let ghost point = |b: int| feature_point(sum@, calibration@, b);
    let mut points: Vec<SpectrumPoint> = Vec::new();
    let mut b: usize = 0;
    proof {
        lemma_selection_of_one(0, pred, 0);
        assert(positions(0).filter(pred).map_values(point) =~= Seq::<PointView>::empty());
    }
    while b < n
        invariant
            b <= n,
            n == sum.len(),
            flags.len() == n,
            unique_window > 0,
            pred == |b: int|
                survives(sum@, calibration@, find_window as int, unique_window as int, peaks, b),
            point == |b: int| feature_point(sum@, calibration@, b),
            forall|i: int|
                0 <= i < n ==> #[trigger] flags[i] == is_candidate(
                    sum@,
                    find_window as int,
                    peaks,
                    i,
                ),
            forall|k: int|
                0 <= k < candidates.len() ==> #[trigger] candidates[k] < n && is_candidate(
                    sum@,
                    find_window as int,
                    peaks,
                    candidates[k] as int,
                ),
            forall|i: int|
                0 <= i < n && #[trigger] is_candidate(sum@, find_window as int, peaks, i)
                    ==> exists|k: int| 0 <= k < candidates.len() && #[trigger] candidates[k] == i,
            points@.map_values(|p: SpectrumPoint| p@) == positions(b as nat).filter(
                pred,
            ).map_values(point),
        decreases n - b,
    {
        let mut kept: bool = false;
        if flags[b] {
            let beaten = outshone(sum, calibration, unique_window, peaks, &candidates, b);
            kept = !beaten;
            proof {
                if beaten {
                    let k = choose|k: int|
                        0 <= k < candidates.len() && near(
                            calibration@,
                            unique_window as int,
                            b as int,
                            #[trigger] candidates[k] as int,
                        ) && outshines(sum@, peaks, candidates[k] as int, b as int);
                    assert(is_candidate(sum@, find_window as int, peaks, candidates[k] as int));
                    assert(!pred(b as int));
                } else {
                    assert forall|d: int|
                        #![trigger is_candidate(sum@, find_window as int, peaks, d)]
                        is_candidate(sum@, find_window as int, peaks, d) && near(
                            calibration@,
                            unique_window as int,
                            b as int,
                            d,
                        ) implies !outshines(sum@, peaks, d, b as int) by {
                        let k = choose|k: int|
                            0 <= k < candidates.len() && #[trigger] candidates[k] == d;
                        assert(candidates[k] as int == d);
                    }
                    assert(pred(b as int));
                }
            }
        } else {
            assert(!pred(b as int));
        }
        proof {
            lemma_selection_step(b as nat, pred);
        }
        if kept {
            let ghost before = points@;
            let wavelength = calibration.get_wavelength_from_index(b);
            points.push(SpectrumPoint { wavelength, value: sum[b] });
            assert(points@.map_values(|p: SpectrumPoint| p@) =~= before.map_values(
                |p: SpectrumPoint| p@,
            ).push(point(b as int)));
            assert(positions(b as nat).filter(pred).push(b as int).map_values(point) =~= positions(
                b as nat,
            ).filter(pred).map_values(point).push(point(b as int)));
        }
        b += 1;
    }
    points
}

/// The greatest value of a row; 0 for an empty row.
pub open spec fn row_max(row: Seq<i64>) -> int
    decreases row.len(),
{
    if row.len() == 0 {
        0
    } else if row.len() == 1 {
        row[0] as int
    } else {
        let rest = row_max(row.drop_last());
        if row.last() > rest {
            row.last() as int
        } else {
            rest
        }
    }
}

/// The greatest value of a row; 0 for an empty row.
pub fn max_value(row: &Vec<i64>) -> (max: i64)
    ensures
        max as int == row_max(row@),
{
    if row.len() == 0 {
        return 0;
    }
    let mut max: i64 = row[0];
    let mut i: usize = 1;
    assert(row@.subrange(0, 1) =~= seq![row[0]]);
    while i < row.len()
        invariant
            1 <= i <= row.len(),
            max as int == row_max(row@.subrange(0, i as int)),
        decreases row.len() - i,
    {
        assert(row@.subrange(0, i + 1).drop_last() =~= row@.subrange(0, i as int));
        if row[i] > max {
            max = row[i];
        }
        i += 1;
    }
    assert(row@.subrange(0, row.len() as int) =~= row@);
    max
}

/// Where the label of a feature is drawn: at the feature's wavelength, one
/// hundredth of the row's greatest value above a peak or below a dip, with
/// the wavelength in whole nanometres as its text.
#[derive(Clone, Copy, Debug)]
pub struct PeakLabel {
    pub wavelength: Wavelength,
    pub height: i64,
    pub nanometres: u32,
}

/// The mathematical content of a [`PeakLabel`].
pub struct LabelView {
    pub wavelength: Fraction,
    pub height: i64,
    pub nanometres: u32,
}

impl View for PeakLabel {
    type V = LabelView;

    open spec fn view(&self) -> LabelView {
        LabelView {
            wavelength: self.wavelength@,
            height: self.height,
            nanometres: self.nanometres,
        }
    }
}

/// The height of the label of a feature of value `value` in a row whose
/// greatest value is `max`.
pub open spec fn label_height(value: int, max: int, peaks: bool) -> int {
    if peaks {
        saturated(value + max / 100)
    } else {
        saturated(value - max / 100)
    }
}

/// The label of a feature.
pub fn peak_label(point: &SpectrumPoint, max: i64, peaks: bool) -> (label: PeakLabel)
    ensures
        label.wavelength == point.wavelength,
        label.height as int == label_height(point.value as int, max as int, peaks),
        label.nanometres as int == point.wavelength.whole(),
{
    proof {
        crate::fixed::lemma_floor_div_bounds(max as int, 100);
    }
    let offset: i128 = floor_div(max as i128, 100);
    let height: i64 = if peaks {
        saturate(point.value as i128 + offset)
    } else {
        saturate(point.value as i128 - offset)
    };
    PeakLabel { wavelength: point.wavelength, height, nanometres: point.wavelength.whole_nm() }
}

} // verus!
