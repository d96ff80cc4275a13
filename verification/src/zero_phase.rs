//! What a run of the [`ZeroPhaseFilter`](crate::filter::ZeroPhaseFilter)
//! computes, for any causal filter that drives it.
//!
//! A causal filter is taken as a function from its state and an input
//! sample to its next state and an output sample, with a state that it
//! starts from.  One pass of it over a row gives a row of outputs; the
//! zero-phase filter of a row is a pass over the row followed by a pass over
//! the reversed result, reversed again.  The laws of this module say that
//! the schedule of the state machine computes exactly that, row by row.

use crate::filter::{
    lemma_restart_progresses, lemma_sample_progresses, with_sample, FilterStep, FilterView,
};
use crate::spectrum::{constant, SpectrumView};
use vstd::prelude::*;

verus! {

/// The state of a filter that started from `init` and was fed with
/// `inputs`, one after the other.
pub open spec fn state_after<S>(step: spec_fn(S, i64) -> (S, i64), init: S, inputs: Seq<i64>) -> S
    decreases inputs.len(),
{
    if inputs.len() == 0 {
        init
    } else {
        step(state_after(step, init, inputs.drop_last()), inputs.last()).0
    }
}

/// The output that the filter gives for the sample at position `i` of
/// `inputs`, after it was started from `init` and fed with the samples
/// before it.
pub open spec fn output_at<S>(
    step: spec_fn(S, i64) -> (S, i64),
    init: S,
    inputs: Seq<i64>,
    i: int,
) -> i64 {
    step(state_after(step, init, inputs.take(i)), inputs[i]).1
}

/// The outputs of one pass of the filter over `inputs`, started from
/// `init`.
pub open spec fn pass<S>(step: spec_fn(S, i64) -> (S, i64), init: S, inputs: Seq<i64>) -> Seq<
    i64,
> {
    Seq::new(inputs.len(), |i: int| output_at(step, init, inputs, i))
}

/// The zero-phase filter of a row: a pass over the row from first to last,
/// then a pass, started afresh, from last to first over the output of the
/// first pass.
pub open spec fn zero_phase<S>(step: spec_fn(S, i64) -> (S, i64), init: S, row: Seq<i64>) -> Seq<
    i64,
> {
    pass(step, init, pass(step, init, row).reverse()).reverse()
}

/// `spectrum` with row `row` replaced by `values`.
pub open spec fn with_row(spectrum: SpectrumView, row: int, values: Seq<i64>) -> SpectrumView {
    if row == 0 {
        SpectrumView { r: values, ..spectrum }
    } else if row == 1 {
        SpectrumView { g: values, ..spectrum }
    } else if row == 2 {
        SpectrumView { b: values, ..spectrum }
    } else {
        SpectrumView { sum: values, ..spectrum }
    }
}

/// The state of the run before row `row` is filtered; with `row == 4`, the
/// state at the end.
pub open spec fn before_row(spectrum: SpectrumView, row: nat) -> FilterView {
    FilterView { spectrum, row, backward: false, started: false, taken: 0 }
}

/// The state in which a run ends when the filter `step`, started from
/// `init` at every restart and now in the state `current`, answers every
/// step of the schedule.
pub open spec fn driven<S>(
    state: FilterView,
    step: spec_fn(S, i64) -> (S, i64),
    init: S,
    current: S,
) -> FilterView
    decreases state.remaining(),
    when state.valid()
{
    match state.step() {
        FilterStep::Finished => state,
        FilterStep::Restart => {
            proof {
                lemma_restart_progresses(state);
            }
            driven(state.after_restart(), step, init, init)
        },
        FilterStep::Sample(sample) => {
            proof {
                lemma_sample_progresses(state, step(current, sample).1);
            }
            driven(state.after_sample(step(current, sample).1), step, init, step(current, sample).0)
        },
    }
}

/// The row that is being filtered forward, when `taken` of its samples are
/// replaced by the filter's outputs.
pub open spec fn forward_row<S>(
    step: spec_fn(S, i64) -> (S, i64),
    init: S,
    unfiltered: Seq<i64>,
    taken: int,
) -> Seq<i64> {
    Seq::new(
        unfiltered.len(),
        |i: int|
            if i < taken {
                output_at(step, init, unfiltered, i)
            } else {
                unfiltered[i]
            },
    )
}

/// The row that is being filtered backward, when the last `taken` of its
/// samples are replaced by the filter's outputs.  `forward` is the row as
/// the forward pass left it.
pub open spec fn backward_row<S>(
    step: spec_fn(S, i64) -> (S, i64),
    init: S,
    forward: Seq<i64>,
    taken: int,
) -> Seq<i64> {
    Seq::new(
        forward.len(),
        |i: int|
            if i >= forward.len() - taken {
                output_at(step, init, forward.reverse(), forward.len() - 1 - i)
            } else {
                forward[i]
            },
    )
}

proof fn lemma_with_sample_is_with_row(spectrum: SpectrumView, row: int, bin: int, value: i64)
    ensures
        with_sample(spectrum, row, bin, value) == with_row(
            spectrum,
            row,
            spectrum.row(row).update(bin, value),
        ),
{
}

proof fn lemma_state_after_one_more<S>(
    step: spec_fn(S, i64) -> (S, i64),
    init: S,
    inputs: Seq<i64>,
    k: int,
)
    requires
        0 <= k < inputs.len(),
    ensures
        state_after(step, init, inputs.take(k + 1)) == step(
            state_after(step, init, inputs.take(k)),
            inputs[k],
        ).0,
{
    assert(inputs.take(k + 1).drop_last() =~= inputs.take(k));
    assert(inputs.take(k + 1).last() == inputs[k]);
}

/// From within the forward pass over a row, the run goes on as from the
/// start of the backward pass with the row replaced by the outputs of a
/// whole pass.
proof fn lemma_forward_pass<S>(
    state: FilterView,
    step: spec_fn(S, i64) -> (S, i64),
    init: S,
    current: S,
    unfiltered: Seq<i64>,
)
    requires
        state.valid(),
        state.row < 4,
        !state.backward,
        state.started,
        unfiltered.len() == state.spectrum.ncols(),
        state.spectrum.row(state.row as int) == forward_row(
            step,
            init,
            unfiltered,
            state.taken as int,
        ),
        current == state_after(step, init, unfiltered.take(state.taken as int)),
    ensures
        driven(state, step, init, current) == driven(
            FilterView {
                spectrum: with_row(state.spectrum, state.row as int, pass(step, init, unfiltered)),
                row: state.row,
                backward: true,
                started: false,
                taken: 0,
            },
            step,
            init,
            init,
        ),
    decreases state.spectrum.ncols() - state.taken,
{
    let n = state.spectrum.ncols() as int;
    let k = state.taken as int;
    let row = state.row as int;
    let sample = state.spectrum.row(row)[k];
    assert(sample == unfiltered[k]);
    let output = step(current, sample).1;
    let next = step(current, sample).0;
    assert(output == output_at(step, init, unfiltered, k));
    lemma_state_after_one_more(step, init, unfiltered, k);
    lemma_sample_progresses(state, output);
    lemma_with_sample_is_with_row(state.spectrum, row, k, output);
    let after = state.after_sample(output);
    assert(state.spectrum.row(row).update(k, output) =~= forward_row(
        step,
        init,
        unfiltered,
        k + 1,
    ));
    assert(after.spectrum == with_row(
        state.spectrum,
        row,
        forward_row(step, init, unfiltered, k + 1),
    ));
    assert(after.spectrum.row(row) == forward_row(step, init, unfiltered, k + 1));
    assert(driven(state, step, init, current) == driven(after, step, init, next));
    if k + 1 < n {
        lemma_forward_pass(after, step, init, next, unfiltered);
        assert(with_row(after.spectrum, row, pass(step, init, unfiltered)) == with_row(
            state.spectrum,
            row,
            pass(step, init, unfiltered),
        ));
    } else {
        assert(forward_row(step, init, unfiltered, n) =~= pass(step, init, unfiltered));
        // Both runs begin with a restart, which forgets the filter's state.
        lemma_restart_progresses(after);
        assert(driven(after, step, init, next) == driven(after.after_restart(), step, init, init));
        assert(driven(after, step, init, init) == driven(after.after_restart(), step, init, init));
    }
}

/// From within the backward pass over a row, the run goes on as from the
/// start of the next row with the row replaced by the reversed outputs of a
/// whole pass over the reversed row.
proof fn lemma_backward_pass<S>(
    state: FilterView,
    step: spec_fn(S, i64) -> (S, i64),
    init: S,
    current: S,
    forward: Seq<i64>,
)
    requires
        state.valid(),
        state.row < 4,
        state.backward,
        state.started,
        forward.len() == state.spectrum.ncols(),
        state.spectrum.row(state.row as int) == backward_row(
            step,
            init,
            forward,
            state.taken as int,
        ),
        current == state_after(step, init, forward.reverse().take(state.taken as int)),
    ensures
        driven(state, step, init, current) == driven(
            before_row(
                with_row(
                    state.spectrum,
                    state.row as int,
                    pass(step, init, forward.reverse()).reverse(),
                ),
                state.row + 1,
            ),
            step,
            init,
            init,
        ),
    decreases state.spectrum.ncols() - state.taken,
{
    let n = state.spectrum.ncols() as int;
    let k = state.taken as int;
    let row = state.row as int;
    let reversed = forward.reverse();
    let bin = n - 1 - k;
    let sample = state.spectrum.row(row)[bin];
    assert(sample == forward[bin]);
    assert(sample == reversed[k]);
    let output = step(current, sample).1;
    let next = step(current, sample).0;
    assert(output == output_at(step, init, reversed, k));
    lemma_state_after_one_more(step, init, reversed, k);
    lemma_sample_progresses(state, output);
    lemma_with_sample_is_with_row(state.spectrum, row, bin, output);
    let after = state.after_sample(output);
    assert(state.spectrum.row(row).update(bin, output) =~= backward_row(
        step,
        init,
        forward,
        k + 1,
    ));
    assert(after.spectrum == with_row(
        state.spectrum,
        row,
        backward_row(step, init, forward, k + 1),
    ));
    assert(after.spectrum.row(row) == backward_row(step, init, forward, k + 1));
    assert(driven(state, step, init, current) == driven(after, step, init, next));
    if k + 1 < n {
        lemma_backward_pass(after, step, init, next, forward);
        assert(with_row(after.spectrum, row, pass(step, init, reversed).reverse()) == with_row(
            state.spectrum,
            row,
            pass(step, init, reversed).reverse(),
        ));
    } else {
        assert(backward_row(step, init, forward, n) =~= pass(step, init, reversed).reverse());
        let target = before_row(
            with_row(state.spectrum, row, pass(step, init, reversed).reverse()),
            state.row + 1,
        );
        assert(after == target);
        // The next step is a restart or the end; neither looks at the
        // filter's state.
        if after.row < 4 {
            lemma_restart_progresses(after);
            assert(driven(after, step, init, next) == driven(
                after.after_restart(),
                step,
                init,
                init,
            ));
            assert(driven(after, step, init, init) == driven(
                after.after_restart(),
                step,
                init,
                init,
            ));
        } else {
            assert(driven(after, step, init, next) == after);
            assert(driven(after, step, init, init) == after);
        }
    }
}

/// Filtering one row: from the start of row `row`, the run goes on as from
/// the start of the next row with the row replaced by its zero-phase
/// filter.
proof fn lemma_row<S>(spectrum: SpectrumView, row: nat, step: spec_fn(S, i64) -> (S, i64), init: S)
    requires
        spectrum.valid(),
        spectrum.ncols() > 0,
        row < 4,
    ensures
        driven(before_row(spectrum, row), step, init, init) == driven(
            before_row(
                with_row(spectrum, row as int, zero_phase(step, init, spectrum.row(row as int))),
                row + 1,
            ),
            step,
            init,
            init,
        ),
{
    let unfiltered = spectrum.row(row as int);
    let start = before_row(spectrum, row);
    lemma_restart_progresses(start);
    let forward_start = start.after_restart();
    assert(driven(start, step, init, init) == driven(forward_start, step, init, init));
    assert(unfiltered =~= forward_row(step, init, unfiltered, 0));
    assert(unfiltered.take(0) =~= Seq::<i64>::empty());
    lemma_forward_pass(forward_start, step, init, init, unfiltered);
    let forward = pass(step, init, unfiltered);
    let turned = FilterView {
        spectrum: with_row(spectrum, row as int, forward),
        row,
        backward: true,
        started: false,
        taken: 0,
    };
    lemma_restart_progresses(turned);
    let backward_start = turned.after_restart();
    assert(driven(turned, step, init, init) == driven(backward_start, step, init, init));
    assert(forward =~= backward_row(step, init, forward, 0));
    assert(forward.reverse().take(0) =~= Seq::<i64>::empty());
    lemma_backward_pass(backward_start, step, init, init, forward);
    assert(with_row(backward_start.spectrum, row as int, zero_phase(step, init, unfiltered))
        == with_row(spectrum, row as int, zero_phase(step, init, unfiltered)));
}

/// A run of the schedule, driven by any causal filter that is started from
/// the same state at every restart, ends with each of the four rows
/// replaced by its zero-phase filter: a pass over the row from first to
/// last, and a pass from last to first over what the first pass gave.
pub proof fn lemma_run_is_zero_phase<S>(
    spectrum: SpectrumView,
    step: spec_fn(S, i64) -> (S, i64),
    init: S,
)
    requires
        spectrum.valid(),
    ensures
        driven(FilterView::start(spectrum), step, init, init).step() is Finished,
        driven(FilterView::start(spectrum), step, init, init).spectrum == (SpectrumView {
            r: zero_phase(step, init, spectrum.r),
            g: zero_phase(step, init, spectrum.g),
            b: zero_phase(step, init, spectrum.b),
            sum: zero_phase(step, init, spectrum.sum),
        }),
{
    if spectrum.ncols() == 0 {
        assert(zero_phase(step, init, spectrum.r) =~= spectrum.r);
        assert(zero_phase(step, init, spectrum.g) =~= spectrum.g);
        assert(zero_phase(step, init, spectrum.b) =~= spectrum.b);
        assert(zero_phase(step, init, spectrum.sum) =~= spectrum.sum);
    } else {
        let s1 = with_row(spectrum, 0, zero_phase(step, init, spectrum.r));
        let s2 = with_row(s1, 1, zero_phase(step, init, spectrum.g));
        let s3 = with_row(s2, 2, zero_phase(step, init, spectrum.b));
        let s4 = with_row(s3, 3, zero_phase(step, init, spectrum.sum));
        lemma_row(spectrum, 0, step, init);
        lemma_row(s1, 1, step, init);
        lemma_row(s2, 2, step, init);
        lemma_row(s3, 3, step, init);
        assert(FilterView::start(spectrum) == before_row(spectrum, 0));
        assert(before_row(s4, 4).valid());
        assert(driven(before_row(s4, 4), step, init, init) == before_row(s4, 4));
    }
}

/// Zero-phase filtering keeps a constant row as it is, for every filter of
/// which one pass keeps that row as it is.
pub proof fn lemma_zero_phase_keeps_constant<S>(
    step: spec_fn(S, i64) -> (S, i64),
    init: S,
    ncols: nat,
    value: i64,
)
    requires
        pass(step, init, constant(ncols, value)) == constant(ncols, value),
    ensures
        zero_phase(step, init, constant(ncols, value)) == constant(ncols, value),
{
    assert(constant(ncols, value).reverse() =~= constant(ncols, value));
}

} // verus!
