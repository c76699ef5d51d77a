//! The plant simulator, the controller's fallback policy, and the
//! control-loop driver.
//!
//! The driver (`Simulation`) owns the state and control histories.  At each
//! step it either records a fresh control decision (exactly when the step
//! index is a whole multiple of the re-solve period) or holds the most recent
//! one, then advances the plant one step with the held action — the
//! zero-order-hold behavior of a receding-horizon controller.  The solve
//! itself is an outside capability: the caller formulates, solves, extracts,
//! and hands the resulting `Solution` to `step_with_solution`; between
//! re-solves it calls `step_held`.
//!
//! The driver's well-formedness invariant pins the whole bookkeeping down:
//! the state history holds `t + 1` entries (the seed plus one per simulated
//! step), the control history holds one entry per re-solve event begun
//! (`ceil(t / period)` of them), and the state recorded after step `i` is
//! exactly the plant update of its predecessor under the control decision of
//! block `i / period`.

use vstd::prelude::*;

use crate::mpc::Solution;
use crate::mpc::SolveStatus;
use crate::scalar::Scalar;
use crate::scalar::SCALE;
use crate::scalar::mul_raw;
use crate::scalar::lemma_mul_raw_contracts;

verus! {

/// Raw magnitude cap on one applied control action and on the plant's affine
/// offset (a value magnitude of one million whole units).
pub const INPUT_LIMIT: i64 = 1_000_000_000_000;

/// Raw magnitude cap on the initial plant state.
pub const INIT_LIMIT: i64 = 1_000_000_000_000;

/// Cap on the number of simulated steps.
pub const STEP_LIMIT: usize = 1_000_000;

/// Raw magnitude that every reachable state stays within:
/// `INIT_LIMIT + 2 * INPUT_LIMIT * STEP_LIMIT`.
pub const STATE_LIMIT: i64 = 2_000_001_000_000_000_000;

/// The plant's own affine dynamics `next = alpha * current + input + beta`.
/// These may differ from the model coefficients used to formulate the
/// optimization problem; the mismatch is deliberate and must stay
/// configurable.
#[derive(Clone, Copy, PartialEq, Eq, Structural, Debug)]
pub struct PlantParams {
    pub alpha: Scalar,
    pub beta: Scalar,
}

impl Default for PlantParams {
    /// The shipped plant: `next = 0.99 * current + input + 0.01`.
    fn default() -> (p: PlantParams)
        ensures
            p.alpha.raw == 990_000,
            p.beta.raw == 10_000,
    {
        PlantParams { alpha: Scalar { raw: 990_000 }, beta: Scalar { raw: 10_000 } }
    }
}

/// The plant update on raw values: the fixed-point product `alpha * x`
/// (truncated toward zero) plus the applied input plus the offset.
pub open spec fn advance_raw(p: PlantParams, x: int, u: int) -> int {
    mul_raw(p.alpha.raw as int, x) + u + p.beta.raw
}

/// Plant parameters the driver accepts: a decay of magnitude at most one
/// (so states cannot blow up past `STATE_LIMIT` within `STEP_LIMIT` steps)
/// and an offset within the input cap.
pub open spec fn plant_ok(p: PlantParams) -> bool {
    &&& p.alpha.bounded(SCALE as int)
    &&& p.beta.bounded(INPUT_LIMIT as int)
}

/// Advances the true system state one step.  A pure function of the current
/// state and the applied input; called once per simulated step regardless of
/// the re-solve cadence.
pub fn advance(p: &PlantParams, current_state: Scalar, applied_input: Scalar) -> (next: Scalar)
    requires
        plant_ok(*p),
        current_state.bounded(STATE_LIMIT as int),
        applied_input.bounded(INPUT_LIMIT as int),
    ensures
        next.raw == advance_raw(*p, current_state.raw as int, applied_input.raw as int),
{
    proof {
        lemma_mul_raw_contracts(p.alpha.raw as int, current_state.raw as int, STATE_LIMIT as int);
    }
    let m = p.alpha.mul(current_state);
    m.add(applied_input).add(p.beta)
}

/// One plant step grows a state bound by at most twice the input cap.
pub proof fn lemma_advance_bound(p: PlantParams, x: int, u: int, m: int)
    requires
        plant_ok(p),
        0 <= m,
        -m <= x <= m,
        -INPUT_LIMIT <= u <= INPUT_LIMIT,
    ensures
        -(m + 2 * INPUT_LIMIT) <= advance_raw(p, x, u) <= m + 2 * INPUT_LIMIT,
{
    lemma_mul_raw_contracts(p.alpha.raw as int, x, m);
}

/// A step-indexed diagnostic: at re-solve step `step` the solver ended with
/// the non-optimal status `status`, and the fail-safe neutral action was
/// selected in place of a planned one.
#[derive(Clone, Copy, PartialEq, Eq, Structural, Debug)]
pub struct Diagnostic {
    pub step: usize,
    pub status: SolveStatus,
}

/// The fallback policy's selected action: the first planned control action
/// when the solve was optimal, the neutral action zero otherwise.
pub open spec fn selected_action(sol: &Solution) -> int {
    if sol.status is Optimal {
        sol.u_trajectory@[0].raw as int
    } else {
        0
    }
}

/// A re-solve is due exactly at steps that are whole multiples of the period.
pub open spec fn resolve_due(t: int, period: int) -> bool {
    t % period == 0
}

/// Number of re-solve events among steps `0 .. t`: one per period block
/// begun, i.e. the ceiling of `t / period`.
pub open spec fn resolves_before(t: int, period: int) -> int
    recommends
        period >= 1,
{
    if t <= 0 {
        0
    } else {
        (t - 1) / period + 1
    }
}

/// The controller's single fallback decision point: the first planned action
/// for an optimal solve, the neutral zero action plus a step-indexed
/// diagnostic for every other terminal status.  A non-optimal status is a
/// normal outcome here, never a failure.
pub fn select_action(step: usize, sol: &Solution) -> (r: (Scalar, Option<Diagnostic>))
    requires
        sol.status is Optimal ==> sol.u_trajectory@.len() >= 1,
    ensures
        r.0.raw == selected_action(sol),
        r.1 is Some <==> !(sol.status is Optimal),
        r.1 matches Some(d) ==> d.step == step && d.status == sol.status,
{
    match sol.status {
        SolveStatus::Optimal => (sol.u_trajectory[0], None),
        _ => (Scalar::zero(), Some(Diagnostic { step, status: sol.status })),
    }
}

/// Stepping past a step that is not a multiple of the period begins no new
/// block: the block index is unchanged.
proof fn lemma_block_of_non_multiple(t: int, p: int)
    requires
        p >= 1,
        t >= 1,
        t % p != 0,
    ensures
        t / p == (t - 1) / p,
{
    vstd::arithmetic::div_mod::lemma_fundamental_div_mod(t, p);
    vstd::arithmetic::div_mod::lemma_mod_bound(t, p);
    let q = t / p;
    let r = t % p;
    assert(t - 1 == q * p + (r - 1)) by (nonlinear_arith)
        requires
            t == p * q + r,
    ;
    vstd::arithmetic::div_mod::lemma_fundamental_div_mod_converse(t - 1, p, q, r - 1);
}

/// At a whole multiple of the period a new block begins: the block index is
/// one more than the previous step's.
proof fn lemma_block_of_multiple(t: int, p: int)
    requires
        p >= 1,
        t >= 1,
        t % p == 0,
    ensures
        (t - 1) / p == t / p - 1,
{
    vstd::arithmetic::div_mod::lemma_fundamental_div_mod(t, p);
    vstd::arithmetic::div_mod::lemma_mod_bound(t, p);
    let q = t / p;
    assert(t - 1 == (q - 1) * p + (p - 1)) by (nonlinear_arith)
        requires
            t == p * q,
            p >= 1,
    ;
    vstd::arithmetic::div_mod::lemma_fundamental_div_mod_converse(t - 1, p, q - 1, p - 1);
}

/// Within the step cap, the per-step growth bound stays under `STATE_LIMIT`.
proof fn lemma_state_bound_le_limit(t: int)
    requires
        0 <= t <= STEP_LIMIT,
    ensures
        INIT_LIMIT + 2 * INPUT_LIMIT * t <= STATE_LIMIT,
{
    assert(INIT_LIMIT + 2 * INPUT_LIMIT * t <= STATE_LIMIT) by (nonlinear_arith)
        requires
            0 <= t <= 1_000_000,
            INIT_LIMIT == 1_000_000_000_000,
            INPUT_LIMIT == 1_000_000_000_000,
            STATE_LIMIT == 2_000_001_000_000_000_000,
    ;
}

/// The growth bound advances by exactly twice the input cap per step.
proof fn lemma_state_bound_step(t: int)
    ensures
        INIT_LIMIT + 2 * INPUT_LIMIT * t + 2 * INPUT_LIMIT == INIT_LIMIT + 2 * INPUT_LIMIT * (t
            + 1),
{
    assert(2 * INPUT_LIMIT * (t + 1) == 2 * INPUT_LIMIT * t + 2 * INPUT_LIMIT)
        by (nonlinear_arith);
}

/// The control-loop driver.  It owns the state history (seeded with the
/// initial state) and the control history (one entry per re-solve event) and
/// is the only component that writes them.
pub struct Simulation {
    pub plant: PlantParams,
    /// The fixed re-solve period `P >= 1`.
    pub period: usize,
    /// Total number of steps this run simulates.
    pub total_steps: usize,
    /// Steps simulated so far.
    pub t: usize,
    /// The state history: the seed plus one entry per simulated step.
    pub states: Vec<Scalar>,
    /// The control history: one entry per re-solve event, held between them.
    pub inputs: Vec<Scalar>,
}

impl Simulation {
    /// The driver's invariant: history lengths match the step count and the
    /// re-solve cadence, every recorded action is within the input cap, every
    /// reachable state is within its growth bound, and each recorded state is
    /// exactly the plant update of its predecessor under the control decision
    /// of its block — the control signal is piecewise-constant over blocks of
    /// `period` consecutive steps.
    pub open spec fn wf(&self) -> bool {
        &&& 1 <= self.period
        &&& self.total_steps <= STEP_LIMIT
        &&& self.t <= self.total_steps
        &&& plant_ok(self.plant)
        &&& self.states@.len() == self.t + 1
        &&& self.inputs@.len() == resolves_before(self.t as int, self.period as int)
        &&& forall|i: int|
            0 <= i < self.inputs@.len() ==> (#[trigger] self.inputs@[i]).bounded(
                INPUT_LIMIT as int,
            )
        &&& forall|i: int|
            0 <= i < self.states@.len() ==> (#[trigger] self.states@[i]).bounded(
                INIT_LIMIT + 2 * INPUT_LIMIT * i,
            )
        &&& forall|i: int|
            #![trigger self.states@[i]]
            0 <= i < self.t ==> self.states@[i + 1].raw == advance_raw(
                self.plant,
                self.states@[i].raw as int,
                self.inputs@[i / self.period as int].raw as int,
            )
    }

    /// Starts a run: the state history is seeded with the initial state, the
    /// control history is empty, no step has been simulated.
    pub fn new(plant: PlantParams, initial_state: Scalar, period: usize, total_steps: usize) -> (s:
        Simulation)
        requires
            plant_ok(plant),
            initial_state.bounded(INIT_LIMIT as int),
            1 <= period,
            total_steps <= STEP_LIMIT,
        ensures
            s.wf(),
            s.plant == plant,
            s.period == period,
            s.total_steps == total_steps,
            s.t == 0,
            s.states@ == seq![initial_state],
            s.inputs@ == Seq::<Scalar>::empty(),
    {
        let mut states: Vec<Scalar> = Vec::new();
        states.push(initial_state);
        let s = Simulation { plant, period, total_steps, t: 0, states, inputs: Vec::new() };
        proof {
            assert(s.states@ =~= seq![initial_state]);
            assert(s.inputs@ =~= Seq::<Scalar>::empty());
        }
        s
    }

    /// The last recorded state: what a re-solve must use as its measured
    /// initial state (the true trajectory, not the model's own rollout).
    pub fn current_state(&self) -> (x: Scalar)
        requires
            self.wf(),
        ensures
            x == self.states@.last(),
    {
        self.states[self.states.len() - 1]
    }

    /// Whether the next step is a re-solve step.
    pub fn needs_resolve(&self) -> (b: bool)
        requires
            self.wf(),
        ensures
            b == resolve_due(self.t as int, self.period as int),
    {
        self.t % self.period == 0
    }

    /// Whether the run is complete.
    pub fn done(&self) -> (b: bool)
        requires
            self.wf(),
        ensures
            b == (self.t == self.total_steps),
    {
        self.t == self.total_steps
    }

    /// One simulated step at a re-solve event: record the policy's selected
    /// action for this block, then advance the plant with it.  Returns the
    /// diagnostic when the terminal status was not optimal (the loop goes on
    /// with the neutral action; only a solver-invocation failure, which never
    /// reaches this function, would abort the run).
    pub fn step_with_solution(&mut self, sol: &Solution) -> (d: Option<Diagnostic>)
        requires
            old(self).wf(),
            old(self).t < old(self).total_steps,
            resolve_due(old(self).t as int, old(self).period as int),
            sol.status is Optimal ==> sol.u_trajectory@.len() >= 1 && sol.u_trajectory@[0].bounded(
                INPUT_LIMIT as int,
            ),
        ensures
            final(self).wf(),
            final(self).plant == old(self).plant,
            final(self).period == old(self).period,
            final(self).total_steps == old(self).total_steps,
            final(self).t == old(self).t + 1,
            final(self).inputs@ == old(self).inputs@.push(
                Scalar { raw: selected_action(sol) as i64 },
            ),
            final(self).states@ == old(self).states@.push(
                Scalar {
                    raw: advance_raw(
                        old(self).plant,
                        old(self).states@.last().raw as int,
                        selected_action(sol),
                    ) as i64,
                },
            ),
            d is Some <==> !(sol.status is Optimal),
            d matches Some(dg) ==> dg.step == old(self).t && dg.status == sol.status,
    {
        let (action, diag) = select_action(self.t, sol);
        self.inputs.push(action);
        let x = self.states[self.states.len() - 1];
        proof {
            let t = self.t as int;
            let p = self.period as int;
            if t >= 1 {
                lemma_block_of_multiple(t, p);
            }
            assert(self.inputs@.len() - 1 == t / p);
            assert(x.bounded(INIT_LIMIT + 2 * INPUT_LIMIT * t));
            lemma_state_bound_le_limit(t);
        }
        let next = advance(&self.plant, x, action);
        self.states.push(next);
        self.t = self.t + 1;
        proof {
            lemma_advance_bound(
                self.plant,
                x.raw as int,
                action.raw as int,
                INIT_LIMIT + 2 * INPUT_LIMIT * (old(self).t as int),
            );
            lemma_state_bound_step(old(self).t as int);
            let p = self.period as int;
            let told = old(self).t as int;
            assert(self.inputs@[told / p] == action);
            assert forall|i: int| #![trigger self.states@[i]] 0 <= i < told + 1 implies self.states@[
                i + 1
            ].raw == advance_raw(
                self.plant,
                self.states@[i].raw as int,
                self.inputs@[i / p].raw as int,
            ) by {
                if i < told {
                    vstd::arithmetic::div_mod::lemma_div_is_ordered(i, told - 1, p);
                    assert(i / p < old(self).inputs@.len());
                    assert(self.states@[i] == old(self).states@[i]);
                    assert(self.states@[i + 1] == old(self).states@[i + 1]);
                    assert(self.inputs@[i / p] == old(self).inputs@[i / p]);
                }
            }
            assert(final(self).wf());
        }
        diag
    }

    /// One simulated step between re-solves: the most recent control decision
    /// is held (zero-order hold) and the plant advances with it.
    pub fn step_held(&mut self)
        requires
            old(self).wf(),
            old(self).t < old(self).total_steps,
            !resolve_due(old(self).t as int, old(self).period as int),
        ensures
            final(self).wf(),
            final(self).plant == old(self).plant,
            final(self).period == old(self).period,
            final(self).total_steps == old(self).total_steps,
            final(self).t == old(self).t + 1,
            final(self).inputs@ == old(self).inputs@,
            final(self).states@ == old(self).states@.push(
                Scalar {
                    raw: advance_raw(
                        old(self).plant,
                        old(self).states@.last().raw as int,
                        old(self).inputs@.last().raw as int,
                    ) as i64,
                },
            ),
    {
        proof {
            let t = self.t as int;
            let p = self.period as int;
            // t % p != 0 rules out t == 0, so a decision is on record.
            if t == 0 {
                vstd::arithmetic::div_mod::lemma_small_mod(0nat, p as nat);
            }
            lemma_block_of_non_multiple(t, p);
            assert(self.inputs@.len() - 1 == t / p);
        }
        let u = self.inputs[self.inputs.len() - 1];
        let x = self.states[self.states.len() - 1];
        proof {
            let t = self.t as int;
            assert(x.bounded(INIT_LIMIT + 2 * INPUT_LIMIT * t));
            lemma_state_bound_le_limit(t);
        }
        let next = advance(&self.plant, x, u);
        self.states.push(next);
        self.t = self.t + 1;
        proof {
            lemma_advance_bound(
                self.plant,
                x.raw as int,
                u.raw as int,
                INIT_LIMIT + 2 * INPUT_LIMIT * (old(self).t as int),
            );
            lemma_state_bound_step(old(self).t as int);
            let p = self.period as int;
            let told = old(self).t as int;
            assert(self.inputs@[told / p] == u);
            assert forall|i: int| #![trigger self.states@[i]] 0 <= i < told + 1 implies self.states@[
                i + 1
            ].raw == advance_raw(
                self.plant,
                self.states@[i].raw as int,
                self.inputs@[i / p].raw as int,
            ) by {
                if i < told {
                    vstd::arithmetic::div_mod::lemma_div_is_ordered(i, told - 1, p);
                    assert(i / p < old(self).inputs@.len());
                    assert(self.states@[i] == old(self).states@[i]);
                    assert(self.states@[i + 1] == old(self).states@[i + 1]);
                }
            }
            assert(final(self).wf());
        }
    }
}

/// For positive arguments the two usual ceiling forms agree:
/// `(t - 1) / p + 1 == (t + p - 1) / p`.
proof fn lemma_ceil_form(t: int, p: int)
    requires
        t >= 1,
        p >= 1,
    ensures
        (t - 1) / p + 1 == (t + p - 1) / p,
{
    let a = t - 1;
    vstd::arithmetic::div_mod::lemma_fundamental_div_mod(a, p);
    vstd::arithmetic::div_mod::lemma_mod_bound(a, p);
    let q = a / p;
    let r = a % p;
    assert(a + p == (q + 1) * p + r) by (nonlinear_arith)
        requires
            a == p * q + r,
    ;
    vstd::arithmetic::div_mod::lemma_fundamental_div_mod_converse(a + p, p, q + 1, r);
}

/// Re-solve cadence: a completed run has recorded exactly one control
/// decision per period block begun — the ceiling of `total_steps / period` —
/// and the input applied to the plant at step `i` is the recorded decision of
/// block `i / period`, so the applied-input sequence is piecewise-constant
/// over each block of `period` consecutive steps.
pub proof fn lemma_resolve_cadence(s: &Simulation)
    requires
        s.wf(),
        s.t == s.total_steps,
    ensures
        s.inputs@.len() == resolves_before(s.total_steps as int, s.period as int),
        s.total_steps >= 1 ==> s.inputs@.len() == (s.total_steps + s.period - 1) as int
            / s.period as int,
        forall|i: int|
            #![trigger s.states@[i]]
            0 <= i < s.total_steps ==> s.states@[i + 1].raw == advance_raw(
                s.plant,
                s.states@[i].raw as int,
                s.inputs@[i / s.period as int].raw as int,
            ),
        forall|i: int, j: int|
            0 <= i <= j < s.total_steps && i / s.period as int == j / s.period as int
                ==> #[trigger] s.inputs@[i / s.period as int] == #[trigger] s.inputs@[
                j / s.period as int
            ],
{
    if s.total_steps >= 1 {
        lemma_ceil_form(s.total_steps as int, s.period as int);
    }
}

/// The plant's pure free response: the state reached after `i` steps with the
/// neutral zero action applied at every one of them.
pub open spec fn free_state(p: PlantParams, x0: int, i: int) -> int
    decreases i,
{
    if i <= 0 {
        x0
    } else {
        advance_raw(p, free_state(p, x0, i - 1), 0)
    }
}

proof fn lemma_free_response_at(s: &Simulation, i: int)
    requires
        s.wf(),
        forall|j: int| 0 <= j < s.inputs@.len() ==> (#[trigger] s.inputs@[j]).raw == 0,
        0 <= i <= s.t,
    ensures
        s.states@[i].raw == free_state(s.plant, s.states@[0].raw as int, i),
    decreases i,
{
    if i > 0 {
        lemma_free_response_at(s, i - 1);
        let p = s.period as int;
        vstd::arithmetic::div_mod::lemma_div_pos_is_pos(i - 1, p);
        vstd::arithmetic::div_mod::lemma_div_is_ordered(i - 1, s.t - 1, p);
        assert((i - 1) / p < s.inputs@.len());
        assert(s.inputs@[(i - 1) / p].raw == 0);
    }
}

/// Fallback idempotence: when every recorded control decision is the neutral
/// zero action — which is what the fallback policy records at every re-solve
/// event whose terminal status is not optimal, by `select_action`'s contract —
/// the simulated state history is exactly the plant's pure free response from
/// the seed state: the controller exerts no authority.
pub proof fn lemma_zero_inputs_free_response(s: &Simulation)
    requires
        s.wf(),
        forall|j: int| 0 <= j < s.inputs@.len() ==> (#[trigger] s.inputs@[j]).raw == 0,
    ensures
        forall|i: int|
            0 <= i <= s.t ==> (#[trigger] s.states@[i]).raw == free_state(
                s.plant,
                s.states@[0].raw as int,
                i,
            ),
{
    assert forall|i: int| 0 <= i <= s.t implies (#[trigger] s.states@[i]).raw == free_state(
        s.plant,
        s.states@[0].raw as int,
        i,
    ) by {
        lemma_free_response_at(s, i);
    }
}

} // verus!
