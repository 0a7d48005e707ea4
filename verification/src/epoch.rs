use vstd::prelude::*;

verus! {

/// Where a simulation epoch stands: the steps taken in the current run, how
/// many substeps a step is split into, how many steps a run has, and how many
/// times the epoch restarts after its first run.
pub struct EpochClockView {
    pub steps: nat,
    pub substeps: nat,
    pub max_steps: nat,
    pub restarts: nat,
    pub restarts_left: nat,
}

/// The number of steps of one run of an epoch.
pub open spec fn run_length(c: EpochClockView) -> int {
    (c.max_steps * c.substeps) as int
}

/// Whether the epoch has finished its last run.
pub open spec fn epoch_done(c: EpochClockView) -> bool {
    c.steps == run_length(c) && c.restarts_left == 0
}

/// The steps left before the epoch is done: the rest of this run, and a whole
/// run for every restart left.
pub open spec fn steps_left(c: EpochClockView) -> int {
    c.restarts_left * run_length(c) + (run_length(c) - c.steps)
}

/// What a step of the epoch does besides running the individuals.
pub struct EpochStep {
    /// The substep the step is, which movement and actions depend on.
    pub substep: usize,
    /// Whether the run was over, so that the environment and the species were
    /// restarted before the step.
    pub restarted: bool,
}

/// The step counter of a simulation epoch.
pub struct EpochClock {
    steps: usize,
    substeps: usize,
    max_steps: usize,
    restarts: usize,
    restarts_left: usize,
}

impl View for EpochClock {
    type V = EpochClockView;

    closed spec fn view(&self) -> EpochClockView {
        EpochClockView {
            steps: self.steps as nat,
            substeps: self.substeps as nat,
            max_steps: self.max_steps as nat,
            restarts: self.restarts as nat,
            restarts_left: self.restarts_left as nat,
        }
    }
}

impl EpochClock {
    #[verifier::type_invariant]
    spec fn inv(self) -> bool {
        self.max_steps * self.substeps >= 1 ==> self.steps <= self.max_steps * self.substeps
    }

    /// An epoch of 100 steps of 4 substeps that does not restart.
    pub fn new() -> (r: EpochClock)
        ensures
            r@ == (EpochClockView { steps: 0, substeps: 4, max_steps: 100, restarts: 0, restarts_left: 0 }),
    {
        EpochClock { steps: 0, substeps: 4, max_steps: 100, restarts: 0, restarts_left: 0 }
    }

    /// An epoch of `max_steps` steps of 4 substeps, run again `restarts` times.
    pub fn new_restartable(max_steps: usize, restarts: usize) -> (r: EpochClock)
        ensures
            r@ == (EpochClockView {
                steps: 0,
                substeps: 4,
                max_steps: max_steps as nat,
                restarts: restarts as nat,
                restarts_left: restarts as nat,
            }),
    {
        EpochClock { steps: 0, substeps: 4, max_steps, restarts, restarts_left: restarts }
    }

    /// An epoch as configured: `max_steps` steps of `substeps` substeps, run again
    /// `restarts` times.
    pub fn new_from_config(max_steps: usize, restarts: usize, substeps: usize) -> (r: EpochClock)
        ensures
            r@ == (EpochClockView {
                steps: 0,
                substeps: substeps as nat,
                max_steps: max_steps as nat,
                restarts: restarts as nat,
                restarts_left: restarts as nat,
            }),
    {
        EpochClock { steps: 0, substeps, max_steps, restarts, restarts_left: restarts }
    }

    /// The same schedule from its start, for the next epoch.
    pub fn advanced(&self) -> (r: EpochClock)
        ensures
            r@ == (EpochClockView {
                steps: 0,
                substeps: 4,
                max_steps: self@.max_steps,
                restarts: self@.restarts,
                restarts_left: self@.restarts,
            }),
    {
        EpochClock::new_restartable(self.max_steps, self.restarts)
    }

    pub fn steps(&self) -> (r: usize)
        ensures
            r == self@.steps,
    {
        self.steps
    }

    pub fn max_steps(&self) -> (r: usize)
        ensures
            r == self@.max_steps,
    {
        self.max_steps
    }

    pub fn restarts(&self) -> (r: usize)
        ensures
            r == self@.restarts,
    {
        self.restarts
    }

    pub fn substeps(&self) -> (r: usize)
        ensures
            r == self@.substeps,
    {
        self.substeps
    }

    /// Whether the epoch has finished its last run.
    pub fn done(&self) -> (r: bool)
        requires
            self@.max_steps * self@.substeps <= usize::MAX,
        ensures
            r == epoch_done(self@),
    {
        proof {
            assert(self.max_steps * self.substeps <= usize::MAX);
        }
        let run = self.max_steps * self.substeps;
        self.steps == run && self.restarts_left == 0
    }

    /// Takes a step: restarts the run first if it is over, and tells which substep
    /// the step is.
    pub fn step(&mut self) -> (r: EpochStep)
        requires
            old(self)@.substeps > 0,
            old(self)@.max_steps * old(self)@.substeps <= usize::MAX,
            old(self)@.steps < usize::MAX,
            !epoch_done(old(self)@),
        ensures
            r.substep == old(self)@.steps % old(self)@.substeps,
            r.restarted == (old(self)@.steps == run_length(old(self)@)),
            final(self)@.steps == (if r.restarted { 1 } else { old(self)@.steps + 1 }),
            final(self)@.restarts_left == (if r.restarted {
                old(self)@.restarts_left - 1
            } else {
                old(self)@.restarts_left as int
            }),
            final(self)@.substeps == old(self)@.substeps,
            final(self)@.max_steps == old(self)@.max_steps,
            final(self)@.restarts == old(self)@.restarts,
            run_length(old(self)@) >= 1 ==> steps_left(final(self)@) == steps_left(old(self)@) - 1,
    {
        proof {
            use_type_invariant(&*self);
            assert(self.max_steps * self.substeps <= usize::MAX);
        }
        let run = self.max_steps * self.substeps;
        let substep = self.steps % self.substeps;
        let restarted = self.steps == run;
        if restarted {
            self.restarts_left = self.restarts_left - 1;
            self.steps = 0;
        }
        self.steps = self.steps + 1;
        proof {
            if run >= 1 {
                lemma_step_counts_down(old(self)@, self@);
            }
        }
        EpochStep { substep, restarted }
    }
}

/// Every step of an epoch whose runs are at least a step long brings it exactly one
/// step closer to done, and it is done exactly when no steps are left.
pub proof fn lemma_step_counts_down(before: EpochClockView, after: EpochClockView)
    requires
        run_length(before) >= 1,
        before.steps <= run_length(before),
        !epoch_done(before),
        after.substeps == before.substeps,
        after.max_steps == before.max_steps,
        before.steps == run_length(before) ==> after.steps == 1 && after.restarts_left == before.restarts_left - 1,
        before.steps != run_length(before) ==> after.steps == before.steps + 1
            && after.restarts_left == before.restarts_left,
    ensures
        steps_left(after) == steps_left(before) - 1,
        after.steps <= run_length(after),
        epoch_done(after) <==> steps_left(after) == 0,
{
    let t = run_length(before);
    assert(run_length(after) == t);
    if before.steps == t {
        assert(before.restarts_left >= 1);
        assert((before.restarts_left - 1) * t == before.restarts_left * t - t) by (nonlinear_arith);
    }
    assert(after.restarts_left * t >= 0) by (nonlinear_arith)
        requires after.restarts_left >= 0, t >= 1;
    if after.restarts_left > 0 {
        assert(after.restarts_left * t >= t) by (nonlinear_arith)
            requires after.restarts_left >= 1, t >= 1;
    } else {
        assert(after.restarts_left * t == 0) by (nonlinear_arith)
            requires after.restarts_left == 0;
    }
}

/// A fresh epoch run again `r` times, with runs of `t` steps, is done after exactly
/// `(r + 1) * t` steps.
pub proof fn lemma_fresh_epoch_length(c: EpochClockView)
    requires
        c.steps == 0,
        c.restarts_left == c.restarts,
    ensures
        steps_left(c) == (c.restarts + 1) * run_length(c),
{
    assert((c.restarts + 1) * run_length(c) == c.restarts * run_length(c) + run_length(c)) by (nonlinear_arith);
}

} // verus!
