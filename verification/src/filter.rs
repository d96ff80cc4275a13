//! Zero-phase smoothing of a spectrum, as a schedule for a causal filter.
//!
//! Each of the four rows is smoothed on its own, in two passes: the filter
//! runs over the bins from first to last, and then, started afresh, over the
//! output of the first pass from last to first.  The second pass cancels the
//! delay of the first.  What is kept is the output of the second pass.
//!
//! The filter itself works outside of this library.  [`ZeroPhaseFilter`]
//! holds the spectrum and says, step by step, what the filter has to be fed
//! with and when it has to start afresh; it takes the filter's output back
//! and puts it in place.

use crate::spectrum::{Spectrum, SpectrumView};
use vstd::prelude::*;

verus! {

/// What the driver of the filter does next.
#[derive(Clone, Copy, Debug, PartialEq, Eq, Structural)]
pub enum FilterStep {
    /// Start the filter afresh, with its state cleared, and report this with
    /// [`ZeroPhaseFilter::restarted`].
    Restart,
    /// Run the filter on this sample and hand its output to
    /// [`ZeroPhaseFilter::accept`].
    Sample(i64),
    /// All rows are done.
    Finished,
}

/// The mathematical content of a [`ZeroPhaseFilter`].
pub struct FilterView {
    /// The rows, partly filtered.
    pub spectrum: SpectrumView,
    /// The row that is being filtered; 4 when all are done.
    pub row: nat,
    /// Whether the second pass, from the last bin to the first, is under
    /// way.
    pub backward: bool,
    /// Whether the filter was started afresh for the pass under way.
    pub started: bool,
    /// The number of samples that the pass under way has dealt with.
    pub taken: nat,
}

/// `spectrum` with bin `bin` of row `row` replaced by `value`.
pub open spec fn with_sample(
    spectrum: SpectrumView,
    row: int,
    bin: int,
    value: i64,
) -> SpectrumView {
    if row == 0 {
        SpectrumView { r: spectrum.r.update(bin, value), ..spectrum }
    } else if row == 1 {
        SpectrumView { g: spectrum.g.update(bin, value), ..spectrum }
    } else if row == 2 {
        SpectrumView { b: spectrum.b.update(bin, value), ..spectrum }
    } else {
        SpectrumView { sum: spectrum.sum.update(bin, value), ..spectrum }
    }
}

impl FilterView {
    /// The state before anything was filtered.  A spectrum without bins is
    /// finished from the start.
    pub open spec fn start(spectrum: SpectrumView) -> FilterView {
        FilterView {
            spectrum,
            row: if spectrum.ncols() == 0 {
                4
            } else {
                0
            },
            backward: false,
            started: false,
            taken: 0,
        }
    }

    /// The rows have one length; while a row is being filtered the pass
    /// under way has samples left; at the end nothing is under way.
    pub open spec fn valid(self) -> bool {
        &&& self.spectrum.valid()
        &&& self.row <= 4
        &&& self.row < 4 ==> self.taken < self.spectrum.ncols()
        &&& self.row == 4 ==> !self.backward && !self.started && self.taken == 0
        &&& !self.started ==> self.taken == 0
    }

    /// The bin that the pass under way deals with next: it counts up in the
    /// first pass and down in the second.
    pub open spec fn bin(self) -> int {
        if self.backward {
            self.spectrum.ncols() - 1 - self.taken
        } else {
            self.taken as int
        }
    }

    /// What the driver does next.
    pub open spec fn step(self) -> FilterStep {
        if self.row >= 4 {
            FilterStep::Finished
        } else if !self.started {
            FilterStep::Restart
        } else {
            FilterStep::Sample(self.spectrum.row(self.row as int)[self.bin()])
        }
    }

    /// The state after the filter was started afresh.
    pub open spec fn after_restart(self) -> FilterView {
        FilterView { started: true, ..self }
    }

    /// The state after the filter gave `output` for the sample it was fed
    /// with: the output takes the sample's place, and the pass moves on to
    /// its next bin, or, at its end, to the second pass or to the next row.
    pub open spec fn after_sample(self, output: i64) -> FilterView {
        let spectrum = with_sample(self.spectrum, self.row as int, self.bin(), output);
        if self.taken + 1 < self.spectrum.ncols() {
            FilterView { spectrum, taken: self.taken + 1, ..self }
        } else if !self.backward {
            FilterView { spectrum, backward: true, started: false, taken: 0, ..self }
        } else {
            FilterView {
                spectrum,
                row: self.row + 1,
                backward: false,
                started: false,
                taken: 0,
            }
        }
    }

    /// The number of steps, restarts and samples together, until the filter
    /// is finished.
    pub open spec fn remaining(self) -> int {
        if self.row >= 4 {
            0
        } else {
            let per_pass = self.spectrum.ncols() + 1;
            let passes_after = 2 * (3 - self.row) + if self.backward {
                0int
            } else {
                1int
            };
            passes_after * per_pass + (self.spectrum.ncols() - self.taken) + if self.started {
                0int
            } else {
                1int
            }
        }
    }
}

/// A restart leaves a valid state valid and brings the end one step nearer.
pub proof fn lemma_restart_progresses(state: FilterView)
    requires
        state.valid(),
        state.step() is Restart,
    ensures
        state.after_restart().valid(),
        state.after_restart().spectrum == state.spectrum,
        state.after_restart().remaining() == state.remaining() - 1,
{
}

/// A sample leaves a valid state valid, keeps the number of bins, and brings
/// the end one step nearer.
pub proof fn lemma_sample_progresses(state: FilterView, output: i64)
    requires
        state.valid(),
        state.step() is Sample,
    ensures
        state.after_sample(output).valid(),
        state.after_sample(output).spectrum.ncols() == state.spectrum.ncols(),
        state.after_sample(output).remaining() == state.remaining() - 1,
{
    let n = state.spectrum.ncols() as int;
    let row = state.row as int;
    let per_pass = n + 1;
    if state.taken + 1 < n {
    } else if !state.backward {
        assert((2 * (3 - row) + 1) * per_pass == (2 * (3 - row)) * per_pass + per_pass)
            by (nonlinear_arith);
    } else if row < 3 {
        assert((2 * (3 - row)) * per_pass == (2 * (3 - (row + 1)) + 1) * per_pass + per_pass)
            by (nonlinear_arith);
    } else {
        assert((2 * (3 - row)) * per_pass == 0) by (nonlinear_arith)
            requires
                row == 3,
        ;
    }
}

/// The state of a zero-phase filter run over a spectrum.
#[derive(Debug)]
pub struct ZeroPhaseFilter {
    r: Vec<i64>,
    g: Vec<i64>,
    b: Vec<i64>,
    sum: Vec<i64>,
    row: usize,
    backward: bool,
    started: bool,
    taken: usize,
}

impl View for ZeroPhaseFilter {
    type V = FilterView;

    closed spec fn view(&self) -> FilterView {
        FilterView {
            spectrum: SpectrumView { r: self.r@, g: self.g@, b: self.b@, sum: self.sum@ },
            row: self.row as nat,
            backward: self.backward,
            started: self.started,
            taken: self.taken as nat,
        }
    }
}

impl ZeroPhaseFilter {
    #[verifier::type_invariant]
    spec fn inv(self) -> bool {
        self@.valid()
    }

    /// A run over `spectrum` with nothing filtered yet.
    pub fn new(spectrum: &Spectrum) -> (filter: Self)
        ensures
            filter@ == FilterView::start(spectrum@),
            filter@.valid(),
    {
        let ncols: usize = spectrum.ncols();
        ZeroPhaseFilter {
            r: spectrum.row(0).clone(),
            g: spectrum.row(1).clone(),
            b: spectrum.row(2).clone(),
            sum: spectrum.row(3).clone(),
            row: if ncols == 0 {
                4
            } else {
                0
            },
            backward: false,
            started: false,
            taken: 0,
        }
    }

    /// What the driver does next.
    pub fn step(&self) -> (step: FilterStep)
        ensures
            step == self@.step(),
            self@.valid(),
    {
        proof {
            use_type_invariant(self);
        }
        if self.row >= 4 {
            FilterStep::Finished
        } else if !self.started {
            FilterStep::Restart
        } else {
            let bin: usize = if self.backward {
                self.r.len() - 1 - self.taken
            } else {
                self.taken
            };
            let sample: i64 = if self.row == 0 {
                self.r[bin]
            } else if self.row == 1 {
                self.g[bin]
            } else if self.row == 2 {
                self.b[bin]
            } else {
                self.sum[bin]
            };
            FilterStep::Sample(sample)
        }
    }

    /// Whether all rows are done.
    pub fn is_finished(&self) -> (done: bool)
        ensures
            done <==> self@.step() is Finished,
    {
        self.row >= 4
    }

    /// Records that the filter was started afresh.  Where the next step is
    /// not a restart, nothing changes.
    pub fn restarted(&mut self)
        ensures
            final(self)@ == if old(self)@.step() is Restart {
                old(self)@.after_restart()
            } else {
                old(self)@
            },
    {
        proof {
            use_type_invariant(&*self);
        }
        if self.row < 4 && !self.started {
            self.started = true;
        }
    }

    /// Takes the filter's output for the sample it was fed with.  Where the
    /// next step is not a sample, nothing changes.
    pub fn accept(&mut self, output: i64)
        ensures
            final(self)@ == if old(self)@.step() is Sample {
                old(self)@.after_sample(output)
            } else {
                old(self)@
            },
    {
        proof {
            use_type_invariant(&*self);
        }
        if self.row >= 4 || !self.started {
            return ;
        }
        proof {
            lemma_sample_progresses(self@, output);
        }
        let ncols: usize = self.r.len();
        let bin: usize = if self.backward {
            ncols - 1 - self.taken
        } else {
            self.taken
        };
        let last: bool = self.taken + 1 >= ncols;
        if self.row == 0 {
            self.r[bin] = output;
        } else if self.row == 1 {
            self.g[bin] = output;
        } else if self.row == 2 {
            self.b[bin] = output;
        } else {
            self.sum[bin] = output;
        }
        if !last {
            self.taken = self.taken + 1;
        } else {
            self.taken = 0;
            self.started = false;
            if self.backward {
                self.backward = false;
                self.row = self.row + 1;
            } else {
                self.backward = true;
            }
        }
    }

    /// The spectrum as far as it is filtered.
    pub fn spectrum(&self) -> (spectrum: Spectrum)
        ensures
            spectrum@ == self@.spectrum,
    {
        proof {
            use_type_invariant(self);
        }
        Spectrum::of_rows(self.r.clone(), self.g.clone(), self.b.clone(), self.sum.clone())
    }

    /// Ends the run and hands out the spectrum as far as it is filtered.
    pub fn into_spectrum(self) -> (spectrum: Spectrum)
        ensures
            spectrum@ == self@.spectrum,
    {
        proof {
            use_type_invariant(&self);
        }
        Spectrum::of_rows(self.r, self.g, self.b, self.sum)
    }
}

} // verus!
