use vstd::prelude::*;
use crate::params::StlPlan;

verus! {

/// Where a decomposition stands.
#[derive(Clone, Copy, Debug, PartialEq, Eq, Structural)]
pub enum Phase {
    /// Nothing has been computed: the trend is zero and every weight is one.
    Initializing,
    /// One pass of the inner loop is due: detrend, smooth the cycle-subseries, low-pass
    /// filter, deseasonalize, smooth the trend.
    InnerLoop,
    /// The robustness weights are due to be recomputed from the remainder.
    RobustnessUpdate,
    /// The iteration budget is spent; the estimates are final.
    Done,
}

/// The product of two numbers, named so that a count of steps reads as one term.
pub open spec fn product(a: int, b: int) -> int {
    a * b
}

/// The state of a decomposition as a mathematical value.
pub struct EngineState {
    /// What is due next.
    pub phase: Phase,
    /// Robustness updates completed so far.
    pub round: nat,
    /// Inner passes completed in the current round.
    pub pass: nat,
    /// Inner passes that each round runs.
    pub inner_loops: nat,
    /// Robustness updates that the whole run performs.
    pub updates: nat,
}

impl EngineState {
    /// The state before anything has run.
    pub open spec fn initial(plan: StlPlan) -> EngineState {
        EngineState {
            phase: Phase::Initializing,
            round: 0,
            pass: 0,
            inner_loops: plan.inner_loops as nat,
            updates: plan.updates(),
        }
    }

    /// What holds of every state that a run passes through.
    pub open spec fn inv(self) -> bool {
        &&& self.round <= self.updates
        &&& match self.phase {
            Phase::Initializing => self.round == 0 && self.pass == 0,
            Phase::InnerLoop => self.pass < self.inner_loops,
            Phase::RobustnessUpdate => self.round < self.updates && self.pass == 0,
            Phase::Done => self.round == self.updates && self.pass == 0,
        }
    }

    /// The state once the inner passes of `round` are over: another robustness update while
    /// some remain, the end otherwise.
    pub open spec fn after_round(self, round: nat) -> EngineState {
        if round < self.updates {
            EngineState { phase: Phase::RobustnessUpdate, round, pass: 0, ..self }
        } else {
            EngineState { phase: Phase::Done, round, pass: 0, ..self }
        }
    }

    /// The state at the start of `round`.
    pub open spec fn begin_round(self, round: nat) -> EngineState {
        if self.inner_loops > 0 {
            EngineState { phase: Phase::InnerLoop, round, pass: 0, ..self }
        } else {
            self.after_round(round)
        }
    }

    /// The state that follows once the work of this one is done.
    pub open spec fn next(self) -> EngineState {
        match self.phase {
            Phase::Initializing => self.begin_round(0),
            Phase::InnerLoop => if self.pass + 1 < self.inner_loops {
                EngineState { pass: self.pass + 1, ..self }
            } else {
                self.after_round(self.round)
            },
            Phase::RobustnessUpdate => self.begin_round(self.round + 1),
            Phase::Done => self,
        }
    }

    /// The state after `k` steps.
    pub open spec fn run(self, k: nat) -> EngineState
        decreases k,
    {
        if k == 0 {
            self
        } else {
            self.next().run((k - 1) as nat)
        }
    }

    /// Steps that remain until the end.
    pub open spec fn remaining(self) -> nat {
        let later = product(self.updates - self.round, self.inner_loops as int + 1);
        match self.phase {
            Phase::Initializing => (later + self.inner_loops + 1) as nat,
            Phase::InnerLoop => (later + self.inner_loops - self.pass) as nat,
            Phase::RobustnessUpdate => later as nat,
            Phase::Done => 0,
        }
    }

    /// Inner passes completed so far.
    pub open spec fn passes_done(self) -> nat {
        match self.phase {
            Phase::Initializing => 0,
            Phase::InnerLoop => (product(self.round as int, self.inner_loops as int)
                + self.pass) as nat,
            Phase::RobustnessUpdate => product(self.round as int + 1, self.inner_loops as int) as nat,
            Phase::Done => product(self.round as int + 1, self.inner_loops as int) as nat,
        }
    }

    /// Whether the smoothers take the robustness weights into account: every smoother
    /// does, from the first update on.
    pub open spec fn weighted(self) -> bool {
        self.round > 0
    }
}

/// Law: a step keeps the invariant, and unless the run is over it brings the end one step
/// nearer. An inner-loop step completes one inner pass, a robustness step one update, and no
/// other step completes either.
pub proof fn lemma_step(s: EngineState)
    requires
        s.inv(),
    ensures
        s.next().inv(),
        s.next().inner_loops == s.inner_loops,
        s.next().updates == s.updates,
        s.phase != Phase::Done ==> s.next().remaining() + 1 == s.remaining(),
        s.phase == Phase::Done <==> s.remaining() == 0,
        s.next().passes_done() == s.passes_done() + if s.phase == Phase::InnerLoop {
            1nat
        } else {
            0nat
        },
        s.next().round == s.round + if s.phase == Phase::RobustnessUpdate {
            1nat
        } else {
            0nat
        },
{
    let u = s.updates - s.round;
    let n = s.inner_loops as int;
    assert(product(u, n + 1) >= 0 && product(u - 1, n + 1) == product(u, n + 1) - n - 1)
        by (nonlinear_arith)
        requires
            u >= 0,
            n >= 0,
    ;
    assert(u >= 1 ==> product(u, n + 1) >= n + 1) by (nonlinear_arith)
        requires
            n >= 0,
    ;
    assert(product(0, n + 1) == 0 && product(0, n) == 0) by (nonlinear_arith);
    let r = s.round as int;
    assert(product(r, n) >= 0 && product(r + 1, n) == product(r, n) + n && product(r + 2, n)
        == product(r, n) + 2 * n) by (nonlinear_arith)
        requires
            r >= 0,
            n >= 0,
    ;
    assert(product(1, n) == n) by (nonlinear_arith);
}

/// Law: the iteration budget is honoured. From any state of a run, the steps that remain
/// lead to the end and no fewer do; at the end every round has run all its inner passes
/// and every update has been made.
pub proof fn lemma_run_ends(s: EngineState, k: nat)
    requires
        s.inv(),
        k <= s.remaining(),
    ensures
        s.run(k).inv(),
        s.run(k).updates == s.updates,
        s.run(k).inner_loops == s.inner_loops,
        s.run(k).remaining() + k == s.remaining(),
        s.run(k).phase == Phase::Done <==> k == s.remaining(),
        s.run(s.remaining()).round == s.updates,
        s.run(s.remaining()).passes_done() == product(s.updates as int + 1, s.inner_loops as int),
    decreases k,
{
    lemma_step(s);
    if k > 0 {
        lemma_run_ends(s.next(), (k - 1) as nat);
    }
    lemma_run_total(s);
}

/// The full run from a state ends with every update made.
proof fn lemma_run_total(s: EngineState)
    requires
        s.inv(),
    ensures
        s.run(s.remaining()).inv(),
        s.run(s.remaining()).phase == Phase::Done,
        s.run(s.remaining()).updates == s.updates,
        s.run(s.remaining()).inner_loops == s.inner_loops,
        s.run(s.remaining()).round == s.updates,
        s.run(s.remaining()).passes_done() == product(s.updates as int + 1, s.inner_loops as int),
    decreases s.remaining(),
{
    lemma_step(s);
    if s.remaining() > 0 {
        lemma_run_total(s.next());
    }
}

/// Law: a plan without updates never re-weights, be it that robustness is off or that no
/// outer loop was asked for. No state of its run is a robustness update, and no smoother
/// ever sees a weight other than one.
pub proof fn lemma_plain_run_is_unweighted(plan: StlPlan, k: nat)
    requires
        plan.updates() == 0,
    ensures
        EngineState::initial(plan).run(k).phase != Phase::RobustnessUpdate,
        !EngineState::initial(plan).run(k).weighted(),
{
    lemma_unweighted_from(EngineState::initial(plan), k);
}

/// From a state without updates to come or behind it, no step leads to one.
proof fn lemma_unweighted_from(s: EngineState, k: nat)
    requires
        s.inv(),
        s.updates == 0,
    ensures
        s.run(k).phase != Phase::RobustnessUpdate,
        !s.run(k).weighted(),
    decreases k,
{
    lemma_step(s);
    if k > 0 {
        lemma_unweighted_from(s.next(), (k - 1) as nat);
    }
}

/// Law: a whole run takes `(updates + 1) * (inner_loops + 1)` steps, where `updates` is the
/// number of robustness rounds of a robust plan and zero otherwise.
pub proof fn lemma_run_length(plan: StlPlan)
    ensures
        EngineState::initial(plan).inv(),
        EngineState::initial(plan).remaining() == (plan.updates() + 1) * (plan.inner_loops + 1),
{
    let u = plan.updates() as int;
    let n = plan.inner_loops as int;
    assert(product(u - 0, n + 1) + n + 1 == (u + 1) * (n + 1) && (u + 1) * (n + 1) >= 0)
        by (nonlinear_arith)
        requires
            u >= 0,
            n >= 0,
    ;
}

/// The state machine that drives one decomposition. The caller does the work that the
/// current phase names and then steps; the machine decides what comes next.
#[derive(Clone, Copy, Debug)]
pub struct Engine {
    phase: Phase,
    round: usize,
    pass: usize,
    inner_loops: usize,
    updates: usize,
}

impl View for Engine {
    type V = EngineState;

    closed spec fn view(&self) -> EngineState {
        EngineState {
            phase: self.phase,
            round: self.round as nat,
            pass: self.pass as nat,
            inner_loops: self.inner_loops as nat,
            updates: self.updates as nat,
        }
    }
}

impl Engine {
    #[verifier::type_invariant]
    spec fn consistent(self) -> bool {
        self@.inv()
    }

    /// Starts a run of the plan.
    pub fn start(plan: &StlPlan) -> (r: Engine)
        ensures
            r@ == EngineState::initial(*plan),
    {
        let updates = if plan.robust {
            plan.outer_loops
        } else {
            0
        };
        Engine {
            phase: Phase::Initializing,
            round: 0,
            pass: 0,
            inner_loops: plan.inner_loops,
            updates,
        }
    }

    /// Moves on once the work of the current phase is done.
    pub fn step(&self) -> (r: Engine)
        ensures
            r@ == self@.next(),
            self@.inv(),
    {
        proof {
            use_type_invariant(self);
            lemma_step(self@);
        }
        match self.phase {
            Phase::Initializing => self.begin(0),
            Phase::InnerLoop => if self.pass + 1 < self.inner_loops {
                Engine { pass: self.pass + 1, ..*self }
            } else {
                self.finish(self.round)
            },
            Phase::RobustnessUpdate => self.begin(self.round + 1),
            Phase::Done => *self,
        }
    }

    fn finish(&self, round: usize) -> (r: Engine)
        requires
            round <= self.updates,
        ensures
            r@ == self@.after_round(round as nat),
    {
        if round < self.updates {
            Engine { phase: Phase::RobustnessUpdate, round, pass: 0, ..*self }
        } else {
            Engine { phase: Phase::Done, round, pass: 0, ..*self }
        }
    }

    fn begin(&self, round: usize) -> (r: Engine)
        requires
            round <= self.updates,
        ensures
            r@ == self@.begin_round(round as nat),
    {
        if self.inner_loops > 0 {
            Engine { phase: Phase::InnerLoop, round, pass: 0, ..*self }
        } else {
            self.finish(round)
        }
    }

    /// What is due next.
    pub fn phase(&self) -> (r: Phase)
        ensures
            r == self@.phase,
    {
        self.phase
    }

    /// Robustness updates completed so far.
    pub fn round(&self) -> (r: usize)
        ensures
            r == self@.round,
    {
        self.round
    }

    /// Inner passes completed in the current round.
    pub fn pass(&self) -> (r: usize)
        ensures
            r == self@.pass,
    {
        self.pass
    }

    /// Whether the run is over.
    pub fn is_done(&self) -> (r: bool)
        ensures
            r == (self@.phase == Phase::Done),
    {
        match self.phase {
            Phase::Done => true,
            _ => false,
        }
    }

    /// Whether the smoothers take the robustness weights into account. Until the first
    /// update, and at the end of a run without updates, every weight counts as one.
    pub fn weighted(&self) -> (r: bool)
        ensures
            r == self@.weighted(),
    {
        self.round > 0
    }
}

/// Length of a sequence after a centred moving average of the given window.
pub open spec fn averaged_len(len: int, window: int) -> int {
    len - window + 1
}

/// Law: the three moving averages of the low-pass filter, of windows `period`, `period`
/// and 3, bring the extended buffer of `n + 2 * period` entries back to the `n` entries of
/// the series, and none of them runs out of entries on the way.
pub proof fn lemma_low_pass_lengths(n: int, period: int)
    requires
        period >= 1,
        n >= 1,
    ensures
        averaged_len(n + 2 * period, period) >= period,
        averaged_len(averaged_len(n + 2 * period, period), period) >= 3,
        averaged_len(averaged_len(averaged_len(n + 2 * period, period), period), 3) == n,
{
}

/// Lengths of the three moving averages of the low-pass filter for a plan, in the order in
/// which they run; the last is the length of the series.
pub fn low_pass_lengths(plan: &StlPlan) -> (r: (usize, usize, usize))
    requires
        plan.wf(),
    ensures
        r.0 == averaged_len(plan.nobs + 2 * plan.period, plan.period as int),
        r.1 == averaged_len(r.0 as int, plan.period as int),
        r.2 == averaged_len(r.1 as int, 3),
        r.2 == plan.nobs,
{
    (plan.nobs + plan.period + 1, plan.nobs + 2, plan.nobs)
}

/// Ranks, counted from 0 in ascending order, of the two middle values among `n`; for an odd
/// `n` they are the same. The median is the mean of the values at the two ranks.
pub fn median_ranks(n: usize) -> (r: (usize, usize))
    requires
        n >= 1,
    ensures
        r.0 == (n - 1) / 2,
        r.1 == n / 2,
        r.0 <= r.1 < n,
        r.0 + r.1 == n - 1,
{
    ((n - 1) / 2, n / 2)
}

} // verus!
