//! The averaging buffer: a bounded window over the most recent frames,
//! newest first, and its bin-wise mean.

use crate::fixed::floor_div;
use crate::spectrum::{RgbView, SpectrumRgb};
use rayon::iter::{IntoParallelRefIterator, ParallelIterator};
use std::collections::VecDeque;
use vstd::prelude::*;

verus! {

/// The largest number of frames that the buffer is ever asked to hold.
pub const MAX_BUFFER_SIZE: usize = 100;

/// All frames are well formed and have as many bins as the first one.
pub open spec fn uniform(frames: Seq<RgbView>) -> bool {
    forall|f: int|
        0 <= f < frames.len() ==> (#[trigger] frames[f]).valid() && frames[f].ncols()
            == frames[0].ncols()
}

/// The buffer after `frame` was pushed onto `frames` with room for `size`
/// frames: a frame with another number of bins than the buffered ones
/// replaces them all; otherwise it goes in front of them and the oldest are
/// dropped until `size` are left.
pub open spec fn pushed(frames: Seq<RgbView>, frame: RgbView, size: int) -> Seq<RgbView> {
    let kept = if dimension_changes(frames, frame) {
        Seq::<RgbView>::empty()
    } else {
        frames
    };
    let all = seq![frame] + kept;
    if all.len() > size {
        all.subrange(0, size)
    } else {
        all
    }
}

/// Whether `frame` has another number of bins than the frames in a
/// non-empty buffer.
pub open spec fn dimension_changes(frames: Seq<RgbView>, frame: RgbView) -> bool {
    frames.len() > 0 && frames[0].ncols() != frame.ncols()
}

/// The sum over all frames of the value in row `channel` at `bin`.
pub open spec fn column_total(frames: Seq<RgbView>, channel: int, bin: int) -> int
    decreases frames.len(),
{
    if frames.len() == 0 {
        0
    } else {
        column_total(frames.drop_last(), channel, bin) + frames.last().row(channel)[bin]
    }
}

/// The mean over all frames of row `channel`: in each bin the sum of the
/// frames' values divided by the number of frames, rounded down.
pub open spec fn mean_row(frames: Seq<RgbView>, channel: int) -> Seq<i64> {
    Seq::new(
        frames[0].ncols(),
        |bin: int| (column_total(frames, channel, bin) / (frames.len() as int)) as i64,
    )
}

/// The bin-wise mean of a non-empty sequence of frames.
pub open spec fn mean_of(frames: Seq<RgbView>) -> RgbView {
    RgbView { r: mean_row(frames, 0), g: mean_row(frames, 1), b: mean_row(frames, 2) }
}

/// The total over two runs of frames, one after the other, is the sum of
/// their totals.  So however a sequence of frames is cut into runs, and in
/// whatever grouping the totals of the runs are added up, the result is the
/// total of the whole sequence.
pub proof fn lemma_column_total_of_parts(
    first: Seq<RgbView>,
    second: Seq<RgbView>,
    channel: int,
    bin: int,
)
    ensures
        column_total(first + second, channel, bin) == column_total(first, channel, bin)
            + column_total(second, channel, bin),
    decreases second.len(),
{
    if second.len() == 0 {
        assert(first + second =~= first);
    } else {
        assert((first + second).drop_last() =~= first + second.drop_last());
        assert((first + second).last() == second.last());
        lemma_column_total_of_parts(first, second.drop_last(), channel, bin);
    }
}

/// A column total lies between the least and the greatest sample value
/// times the number of frames.
pub proof fn lemma_column_total_bounds(frames: Seq<RgbView>, channel: int, bin: int)
    ensures
        frames.len() * i64::MIN <= column_total(frames, channel, bin) <= frames.len() * i64::MAX,
    decreases frames.len(),
{
    if frames.len() > 0 {
        lemma_column_total_bounds(frames.drop_last(), channel, bin);
        let n = frames.len() as int;
        assert((n - 1) * i64::MIN + i64::MIN == n * i64::MIN) by (nonlinear_arith);
        assert((n - 1) * i64::MAX + i64::MAX == n * i64::MAX) by (nonlinear_arith);
    } else {
        assert(0 * i64::MIN == 0);
        assert(0 * i64::MAX == 0);
    }
}

/// A mean of 64-bit samples is a 64-bit value.
pub proof fn lemma_mean_in_range(frames: Seq<RgbView>, channel: int, bin: int)
    requires
        frames.len() > 0,
    ensures
        i64::MIN <= column_total(frames, channel, bin) / (frames.len() as int) <= i64::MAX,
{
    let n = frames.len() as int;
    let total = column_total(frames, channel, bin);
    lemma_column_total_bounds(frames, channel, bin);
    vstd::arithmetic::div_mod::lemma_div_is_ordered(n * i64::MIN, total, n);
    vstd::arithmetic::div_mod::lemma_div_is_ordered(total, n * i64::MAX, n);
    vstd::arithmetic::div_mod::lemma_div_multiples_vanish(i64::MIN as int, n);
    vstd::arithmetic::div_mod::lemma_div_multiples_vanish(i64::MAX as int, n);
}

/// The column totals of frames that are all alike are that frame's values
/// times the number of frames.
pub proof fn lemma_column_total_of_identical(
    frames: Seq<RgbView>,
    frame: RgbView,
    channel: int,
    bin: int,
)
    requires
        forall|f: int| 0 <= f < frames.len() ==> frames[f] == frame,
    ensures
        column_total(frames, channel, bin) == frames.len() * frame.row(channel)[bin],
    decreases frames.len(),
{
    let value = frame.row(channel)[bin] as int;
    if frames.len() > 0 {
        lemma_column_total_of_identical(frames.drop_last(), frame, channel, bin);
        let n = frames.len() as int;
        assert(frames.last() == frame);
        assert((n - 1) * value + value == n * value) by (nonlinear_arith);
    } else {
        assert(0 * value == 0);
    }
}

/// The mean over any number of copies of one frame is that frame, exactly.
pub proof fn lemma_mean_of_identical(frames: Seq<RgbView>, frame: RgbView)
    requires
        frames.len() > 0,
        frame.valid(),
        forall|f: int| 0 <= f < frames.len() ==> frames[f] == frame,
    ensures
        mean_of(frames) == frame,
{
    let n = frames.len() as int;
    assert(frames[0] == frame);
    assert forall|channel: int| 0 <= channel < 3 implies mean_row(frames, channel) == frame.row(
        channel,
    ) by {
        assert forall|bin: int| 0 <= bin < frame.ncols() implies mean_row(frames, channel)[bin]
            == frame.row(channel)[bin] by {
            let value = frame.row(channel)[bin] as int;
            lemma_column_total_of_identical(frames, frame, channel, bin);
            vstd::arithmetic::div_mod::lemma_div_multiples_vanish(value, n);
        }
        assert(mean_row(frames, channel) =~= frame.row(channel));
    }
    assert(mean_row(frames, 0) == frame.r);
    assert(mean_row(frames, 1) == frame.g);
    assert(mean_row(frames, 2) == frame.b);
}

/// Column totals of frames, wide enough that no sum of buffered frames
/// overflows.
pub(crate) struct RgbTotal {
    pub r: Vec<i128>,
    pub g: Vec<i128>,
    pub b: Vec<i128>,
}

/// The magnitude that the entries of a total stay below on both sides of an
/// addition.
pub(crate) open spec fn total_limit() -> int {
    0x2000_0000_0000_0000_0000_0000_0000_0000int
}

pub(crate) open spec fn row_within_limit(row: Seq<i128>) -> bool {
    forall|i: int| 0 <= i < row.len() ==> -total_limit() <= #[trigger] row[i] <= total_limit()
}

fn zero_total_row(ncols: usize) -> (row: Vec<i128>)
    ensures
        row.len() == ncols,
        forall|i: int| 0 <= i < ncols ==> row[i] == 0,
{
    let mut row: Vec<i128> = Vec::with_capacity(ncols);
    let mut i: usize = 0;
    while i < ncols
        invariant
            i <= ncols,
            row.len() == i,
            forall|j: int| 0 <= j < i ==> row[j] == 0,
        decreases ncols - i,
    {
        row.push(0);
        i += 1;
    }
    row
}

fn widen_row(samples: &Vec<i64>) -> (row: Vec<i128>)
    ensures
        row.len() == samples.len(),
        forall|i: int| 0 <= i < row.len() ==> row[i] == samples[i],
{
    let mut row: Vec<i128> = Vec::with_capacity(samples.len());
    let mut i: usize = 0;
    while i < samples.len()
        invariant
            i <= samples.len(),
            row.len() == i,
            forall|j: int| 0 <= j < i ==> row[j] == samples[j],
        decreases samples.len() - i,
    {
        row.push(samples[i] as i128);
        i += 1;
    }
    row
}

fn add_total_rows(a: &Vec<i128>, b: &Vec<i128>) -> (row: Vec<i128>)
    requires
        a.len() == b.len(),
        row_within_limit(a@),
        row_within_limit(b@),
    ensures
        row.len() == a.len(),
        forall|i: int| 0 <= i < row.len() ==> row[i] == a[i] + b[i],
{
    let mut row: Vec<i128> = Vec::with_capacity(a.len());
    let mut i: usize = 0;
    while i < a.len()
        invariant
            i <= a.len(),
            a.len() == b.len(),
            row_within_limit(a@),
            row_within_limit(b@),
            row.len() == i,
            forall|j: int| 0 <= j < i ==> row[j] == a[j] + b[j],
        decreases a.len() - i,
    {
        row.push(a[i] + b[i]);
        i += 1;
    }
    row
}

impl RgbTotal {
    /// Rows of one length whose entries an addition can take.
    pub(crate) open spec fn addable(self) -> bool {
        &&& self.r.len() == self.g.len()
        &&& self.r.len() == self.b.len()
        &&& row_within_limit(self.r@)
        &&& row_within_limit(self.g@)
        &&& row_within_limit(self.b@)
    }

    pub(crate) open spec fn row(self, channel: int) -> Seq<i128> {
        if channel == 0 {
            self.r@
        } else if channel == 1 {
            self.g@
        } else {
            self.b@
        }
    }

    /// The total of no frames: zero in each of `ncols` bins.
    pub(crate) fn zeros(ncols: usize) -> (total: RgbTotal)
        ensures
            total.addable(),
            total.r.len() == ncols,
            forall|channel: int, i: int|
                0 <= channel < 3 && 0 <= i < ncols ==> #[trigger] total.row(channel)[i] == 0,
    {
        RgbTotal { r: zero_total_row(ncols), g: zero_total_row(ncols), b: zero_total_row(ncols) }
    }

    /// The total of one frame: its own values.
    pub(crate) fn of(frame: &SpectrumRgb) -> (total: RgbTotal)
        ensures
            total.addable(),
            total.r.len() == frame@.ncols(),
            forall|channel: int, i: int|
                0 <= channel < 3 && 0 <= i < frame@.ncols() ==> #[trigger] total.row(channel)[i]
                    == frame@.row(channel)[i],
    {
        RgbTotal {
            r: widen_row(frame.row(0)),
            g: widen_row(frame.row(1)),
            b: widen_row(frame.row(2)),
        }
    }

    /// The bin-wise sum of two totals over the same bins.
    pub(crate) fn plus(self, other: RgbTotal) -> (total: RgbTotal)
        requires
            self.addable(),
            other.addable(),
            self.r.len() == other.r.len(),
        ensures
            total.r.len() == self.r.len(),
            total.g.len() == self.r.len(),
            total.b.len() == self.r.len(),
            forall|channel: int, i: int|
                0 <= channel < 3 && 0 <= i < self.r.len() ==> #[trigger] total.row(channel)[i]
                    == self.row(channel)[i] + other.row(channel)[i],
    {
        RgbTotal {
            r: add_total_rows(&self.r, &other.r),
            g: add_total_rows(&self.g, &other.g),
            b: add_total_rows(&self.b, &other.b),
        }
    }
}

/// The views of the frames of a buffer, in its order.
pub open spec fn frame_views(frames: Seq<SpectrumRgb>) -> Seq<RgbView> {
    frames.map_values(|frame: SpectrumRgb| frame@)
}

/// Sums the frames bin by bin on rayon's thread pool: each frame is widened
/// by [`RgbTotal::of`] and the totals are combined by
/// `ParallelIterator::reduce` with [`RgbTotal::zeros`] as the identity and
/// [`RgbTotal::plus`] as the operation.
///
/// rayon leaves open in which grouping it combines the items and where it
/// inserts identities.  The contract claims that the result is the column
/// total all the same: the operation is exact integer addition, which is
/// associative and has the all-zero total as its identity (see
/// [`lemma_column_total_of_parts`]), and with at most [`MAX_BUFFER_SIZE`]
/// frames of 64-bit samples every partial sum is far inside the range that
/// `plus` asks for.  The contract is taken on trust: the body is not
/// verified.
#[verifier::external_body]
fn parallel_total(frames: &VecDeque<SpectrumRgb>, ncols: usize) -> (total: RgbTotal)
    requires
        frames@.len() <= MAX_BUFFER_SIZE,
        uniform(frame_views(frames@)),
        frames@.len() > 0 ==> frames@[0]@.ncols() == ncols,
    ensures
        total.r.len() == ncols,
        total.g.len() == ncols,
        total.b.len() == ncols,
        forall|channel: int, bin: int|
            0 <= channel < 3 && 0 <= bin < ncols ==> #[trigger] total.row(channel)[bin]
                == column_total(frame_views(frames@), channel, bin),
{
    frames.par_iter().map(|frame| RgbTotal::of(frame)).reduce(
        || RgbTotal::zeros(ncols),
        |a, b| a.plus(b),
    )
}

fn mean_of_total_row(
    total: &Vec<i128>,
    count: usize,
    Ghost(frames): Ghost<Seq<RgbView>>,
    Ghost(channel): Ghost<int>,
) -> (row: Vec<i64>)
    requires
        count > 0,
        count == frames.len(),
        total.len() == frames[0].ncols(),
        forall|bin: int|
            0 <= bin < total.len() ==> #[trigger] total[bin] == column_total(frames, channel, bin),
    ensures
        row@ == mean_row(frames, channel),
{
    let mut row: Vec<i64> = Vec::with_capacity(total.len());
    let mut bin: usize = 0;
    while bin < total.len()
        invariant
            bin <= total.len(),
            count > 0,
            count == frames.len(),
            total.len() == frames[0].ncols(),
            forall|k: int|
                0 <= k < total.len() ==> #[trigger] total[k] == column_total(frames, channel, k),
            row.len() == bin,
            forall|k: int| 0 <= k < bin ==> row[k] == mean_row(frames, channel)[k],
        decreases total.len() - bin,
    {
        proof {
            lemma_mean_in_range(frames, channel, bin as int);
        }
        let mean: i128 = floor_div(total[bin], count as i128);
        row.push(mean as i64);
        bin += 1;
    }
    row
}

/// The most recent frames, newest first.  All buffered frames have the same
/// number of bins, and there are never more than [`MAX_BUFFER_SIZE`].
pub struct FrameBuffer {
    frames: VecDeque<SpectrumRgb>,
}

impl View for FrameBuffer {
    type V = Seq<RgbView>;

    closed spec fn view(&self) -> Seq<RgbView> {
        frame_views(self.frames@)
    }
}

impl FrameBuffer {
    #[verifier::type_invariant]
    spec fn inv(self) -> bool {
        self@.len() <= MAX_BUFFER_SIZE && uniform(self@)
    }

    /// An empty buffer.
    pub fn new() -> (buffer: Self)
        ensures
            buffer@.len() == 0,
    {
        FrameBuffer { frames: VecDeque::with_capacity(MAX_BUFFER_SIZE) }
    }

    /// The number of buffered frames.
    pub fn len(&self) -> (n: usize)
        ensures
            n == self@.len(),
            n <= MAX_BUFFER_SIZE,
            uniform(self@),
    {
        proof {
            use_type_invariant(self);
        }
        self.frames.len()
    }

    /// The number of bins of the buffered frames; `None` when the buffer is
    /// empty.
    pub fn ncols(&self) -> (n: Option<usize>)
        ensures
            self@.len() == 0 ==> n is None,
            self@.len() > 0 ==> n == Some(self@[0].ncols() as usize) && self@[0].ncols()
                <= usize::MAX,
    {
        if self.frames.len() > 0 {
            Some(self.frames[0].ncols())
        } else {
            None
        }
    }

    /// Drops all frames.
    pub fn clear(&mut self)
        ensures
            final(self)@ == Seq::<RgbView>::empty(),
    {
        self.frames = VecDeque::new();
        assert(self@ =~= Seq::<RgbView>::empty());
    }

    /// Takes in a new frame.  If the buffer holds frames of another number
    /// of bins it is cleared first, and `true` is returned.  The frame goes
    /// to the front; then the oldest frames are dropped until no more than
    /// `buffer_size` are left.
    pub fn push(&mut self, frame: SpectrumRgb, buffer_size: usize) -> (dimension_changed: bool)
        requires
            1 <= buffer_size <= MAX_BUFFER_SIZE,
        ensures
            dimension_changed <==> dimension_changes(old(self)@, frame@),
            final(self)@ == pushed(old(self)@, frame@, buffer_size as int),
            dimension_changed ==> final(self)@ == seq![frame@],
            final(self)@.len() >= 1,
            final(self)@[0] == frame@,
    {
        proof {
            use_type_invariant(&*self);
        }
        let ncols: usize = frame.ncols();
        let mut frames: VecDeque<SpectrumRgb> = VecDeque::new();
        std::mem::swap(&mut frames, &mut self.frames);
        let dimension_changed = frames.len() > 0 && frames[0].ncols() != ncols;
        if dimension_changed {
            frames.clear();
        }
        let ghost kept = frames@;
        frames.push_front(frame);
        frames.truncate(buffer_size);
        proof {
            let all = seq![frame@] + frame_views(kept);
            assert(frame_views(kept) =~= if dimension_changed {
                Seq::<RgbView>::empty()
            } else {
                old(self)@
            });
            assert(frame_views(seq![frame] + kept) =~= all);
            if all.len() > buffer_size {
                assert(frame_views((seq![frame] + kept).subrange(0, buffer_size as int))
                    =~= all.subrange(0, buffer_size as int));
            }
            let after = frame_views(frames@);
            assert(after == pushed(old(self)@, frame@, buffer_size as int));
            assert(after[0] == frame@);
            assert forall|f: int| 0 <= f < after.len() implies (#[trigger] after[f]).valid()
                && after[f].ncols() == after[0].ncols() by {
                assert(after[f] == all[f]);
                if f > 0 {
                    assert(all[f] == old(self)@[f - 1]);
                }
            }
        }
        self.frames = frames;
        dimension_changed
    }

    /// The bin-wise mean of the buffered frames: in each channel and bin the
    /// sum over the frames divided by their number, rounded down.
    pub fn mean_frame(&self) -> (mean: SpectrumRgb)
        requires
            self@.len() > 0,
        ensures
            mean@ == mean_of(self@),
            mean@.valid(),
            mean@.ncols() == self@[0].ncols(),
    {
        proof {
            use_type_invariant(self);
        }
        let count: usize = self.frames.len();
        let ncols: usize = self.frames[0].ncols();
        let total = parallel_total(&self.frames, ncols);
        assert(total.row(0) == total.r@);
        assert(total.row(1) == total.g@);
        assert(total.row(2) == total.b@);
        let r = mean_of_total_row(&total.r, count, Ghost(self@), Ghost(0));
        let g = mean_of_total_row(&total.g, count, Ghost(self@), Ghost(1));
        let b = mean_of_total_row(&total.b, count, Ghost(self@), Ghost(2));
        SpectrumRgb::of_rows(r, g, b)
    }
}

} // verus!
