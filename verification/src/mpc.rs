//! Finite-horizon problem formulation and solution extraction.
//!
//! `formulate` builds one `HorizonProblem` for one re-solve event: `horizon`
//! control variables with the configured box bound, `horizon + 2` state
//! variables (step -1, the fixed initial condition, through the terminal
//! step), one initial-condition equality constraint, one dynamics-consistency
//! equality constraint per step pair, and the quadratic stage/terminal cost.
//! `extract` reads the control and state trajectories back out of a solver's
//! per-variable values, or returns empty trajectories for any non-optimal
//! terminal status.

use vstd::prelude::*;

use crate::model::CmpSense;
use crate::model::Domain;
use crate::model::Error;
use crate::model::LinConstraint;
use crate::model::LinTerm;
use crate::model::ObjSense;
use crate::model::Objective;
use crate::model::OptModel;
use crate::model::QuadTerm;
use crate::model::Series;
use crate::model::VarDecl;
use crate::model::VarName;
use crate::model::terms_value;
use crate::model::constraint_holds;
use crate::model::domain_holds;
use crate::scalar::Scalar;
use crate::scalar::SCALE;

verus! {

/// The model's linear recurrence `x_{k+1} = a * x_k + b * u_k + c`, used for
/// the dynamics-consistency constraints.  These are the *model* coefficients;
/// the simulated plant may use different ones, and that mismatch is part of
/// the design.
#[derive(Clone, Copy, PartialEq, Eq, Structural, Debug)]
pub struct ModelDynamics {
    pub a: Scalar,
    pub b: Scalar,
    pub c: Scalar,
}

impl Default for ModelDynamics {
    /// The model dynamics of the shipped problem: `a = 0.9`, `b = 1`, `c = 0`.
    fn default() -> (d: ModelDynamics)
        ensures
            d.a.raw == 900_000,
            d.b.raw == SCALE,
            d.c.raw == 0,
    {
        ModelDynamics { a: Scalar { raw: 900_000 }, b: Scalar { raw: SCALE }, c: Scalar { raw: 0 } }
    }
}

/// Stage cost weights `q` (state) and `r` (control), and the terminal cost
/// weight `s`.
#[derive(Clone, Copy, PartialEq, Eq, Structural, Debug)]
pub struct CostWeights {
    pub q: Scalar,
    pub r: Scalar,
    pub s: Scalar,
}

impl Default for CostWeights {
    /// The weights of the shipped problem: `q = 100`, `r = 0.42`, `s = 0.01`.
    fn default() -> (w: CostWeights)
        ensures
            w.q.raw == 100_000_000,
            w.r.raw == 420_000,
            w.s.raw == 10_000,
    {
        CostWeights {
            q: Scalar { raw: 100_000_000 },
            r: Scalar { raw: 420_000 },
            s: Scalar { raw: 10_000 },
        }
    }
}

/// The symmetric box bound applied to every control variable.
#[derive(Clone, Copy, PartialEq, Eq, Structural, Debug)]
pub struct ControlBounds {
    pub lb: Scalar,
    pub ub: Scalar,
}

impl Default for ControlBounds {
    /// The default control box bound `[-1, 1]`.
    fn default() -> (b: ControlBounds)
        ensures
            b.lb.raw == -SCALE,
            b.ub.raw == SCALE,
    {
        ControlBounds { lb: Scalar { raw: -SCALE }, ub: Scalar { raw: SCALE } }
    }
}

/// One optimization instance for one decision step.  Created fresh per
/// re-solve event, handed to the solver, discarded after extraction.  The
/// control variables sit at positions `0 .. horizon` of the model and the
/// state variables at positions `horizon .. 2 * horizon + 2`, in step order.
pub struct HorizonProblem {
    pub model: OptModel,
    pub horizon: usize,
    pub initial_state: Scalar,
    /// Position of the first control variable in `model.vars`.
    pub u_base: usize,
    /// Position of the first state variable (the initial condition).
    pub x_base: usize,
}

/// The solver's reported outcome classification for one solve attempt.
#[derive(Clone, Copy, PartialEq, Eq, Structural, Debug)]
pub enum SolveStatus {
    Optimal,
    Infeasible,
    Unbounded,
    /// Any other terminal status (time limit, numerical failure, ...).
    Other,
}

/// The result of solving a `HorizonProblem`: the terminal status, and the
/// control and state trajectories, both empty unless the status is optimal.
pub struct Solution {
    pub status: SolveStatus,
    pub u_trajectory: Vec<Scalar>,
    pub x_trajectory: Vec<Scalar>,
}

impl HorizonProblem {
    /// Structural validity: the variable layout matches the horizon.
    pub open spec fn wf(&self) -> bool {
        &&& self.horizon >= 1
        &&& self.u_base == 0
        &&& self.x_base == self.horizon
        &&& self.model.vars@.len() == 2 * self.horizon + 2
    }
}

/// The declaration of control variable `u_t`.
pub open spec fn control_var(scope: i64, t: int, bounds: ControlBounds) -> VarDecl {
    VarDecl {
        name: VarName { scope, series: Series::Control, i: t as i64, j: 0, k: 0 },
        domain: Domain::Boxed { lb: bounds.lb, ub: bounds.ub },
    }
}

/// The declaration of state variable `x_t` (`t` runs from -1, the fixed
/// initial condition, to `horizon`, the terminal step).
pub open spec fn state_var(scope: i64, t: int) -> VarDecl {
    VarDecl {
        name: VarName { scope, series: Series::State, i: t as i64, j: 0, k: 0 },
        domain: Domain::Free,
    }
}

/// The formulated variable layout: `horizon` bounded control variables
/// followed by `horizon + 2` free state variables, named in step order and
/// scoped by the re-solve step index.
pub open spec fn mpc_vars(m: &OptModel, scope: i64, horizon: int, bounds: ControlBounds) -> bool {
    &&& m.vars@.len() == 2 * horizon + 2
    &&& forall|t: int|
        0 <= t < horizon ==> #[trigger] m.vars@[t] == control_var(scope, t, bounds)
    &&& forall|t: int|
        horizon <= t < 2 * horizon + 2 ==> #[trigger] m.vars@[t] == state_var(
            scope,
            t - horizon - 1,
        )
}

/// The initial-condition constraint: `1 * x_{-1} == initial_state`, pinning
/// the first state variable (position `horizon`) to the measured state.
pub open spec fn initial_constraint_ok(
    c: &LinConstraint,
    initial_state: Scalar,
    horizon: int,
) -> bool {
    &&& c.terms@.len() == 1
    &&& c.terms@[0].var as int == horizon
    &&& c.terms@[0].coeff.raw == SCALE
    &&& c.sense == CmpSense::Equal
    &&& c.rhs == initial_state
}

/// The dynamics-consistency constraint for step pair `k`:
/// `x_{k+1} - a * x_k - b * u_k == c`, over the state variables at positions
/// `horizon + k` and `horizon + k + 1` and the control variable at `k`.
pub open spec fn dynamics_constraint_ok(
    c: &LinConstraint,
    dynamics: ModelDynamics,
    horizon: int,
    k: int,
) -> bool {
    &&& c.terms@.len() == 3
    &&& c.terms@[0].var as int == horizon + k + 1
    &&& c.terms@[0].coeff.raw == SCALE
    &&& c.terms@[1].var as int == horizon + k
    &&& c.terms@[1].coeff.raw == -dynamics.a.raw
    &&& c.terms@[2].var as int == k
    &&& c.terms@[2].coeff.raw == -dynamics.b.raw
    &&& c.sense == CmpSense::Equal
    &&& c.rhs == dynamics.c
}

/// The formulated constraint list: the initial condition first, then exactly
/// one dynamics constraint per step pair.
pub open spec fn mpc_constrs(
    m: &OptModel,
    initial_state: Scalar,
    dynamics: ModelDynamics,
    horizon: int,
) -> bool {
    &&& m.constrs@.len() == horizon + 1
    &&& initial_constraint_ok(&m.constrs@[0], initial_state, horizon)
    &&& forall|k: int|
        1 <= k < horizon + 1 ==> dynamics_constraint_ok(
            #[trigger] &m.constrs@[k],
            dynamics,
            horizon,
            k - 1,
        )
}

/// The formulated objective: minimize
/// `sum over k of (q * x_k^2 + r * u_k^2) + s * x_terminal^2`, the stage
/// terms interleaved in step order and the terminal term last.
pub open spec fn mpc_objective(m: &OptModel, weights: CostWeights, horizon: int) -> bool {
    m.objective matches Some(o) && {
        &&& o.sense == ObjSense::Minimize
        &&& o.quad@.len() == 2 * horizon + 1
        &&& forall|j: int|
            0 <= j < 2 * horizon ==> #[trigger] o.quad@[j] == (if j % 2 == 0 {
                QuadTerm { var: (horizon + 1 + j / 2) as usize, coeff: weights.q }
            } else {
                QuadTerm { var: ((j - 1) / 2) as usize, coeff: weights.r }
            })
        &&& o.quad@[2 * horizon] == QuadTerm {
            var: (2 * horizon + 1) as usize,
            coeff: weights.s,
        }
    }
}

/// Everything `formulate` promises of a successfully built problem.
pub open spec fn formulated(
    p: &HorizonProblem,
    initial_state: Scalar,
    scope: i64,
    horizon: int,
    dynamics: ModelDynamics,
    weights: CostWeights,
    bounds: ControlBounds,
) -> bool {
    &&& p.horizon == horizon
    &&& p.initial_state == initial_state
    &&& p.u_base == 0
    &&& p.x_base == horizon
    &&& p.wf()
    &&& mpc_vars(&p.model, scope, horizon, bounds)
    &&& mpc_constrs(&p.model, initial_state, dynamics, horizon)
    &&& mpc_objective(&p.model, weights, horizon)
    &&& p.model.wf()
    &&& p.model.names_unique()
}

/// Builds one finite-horizon problem from the measured state.  A horizon of
/// zero is a dimension inconsistency, rejected before any solver is involved.
pub fn formulate(
    initial_state: Scalar,
    step_index: usize,
    horizon: usize,
    dynamics: ModelDynamics,
    weights: CostWeights,
    bounds: ControlBounds,
) -> (r: Result<HorizonProblem, Error>)
    requires
        step_index <= i64::MAX,
        horizon + 4 <= i64::MAX,
        2 * horizon + 2 <= usize::MAX,
        dynamics.a.raw != i64::MIN,
        dynamics.b.raw != i64::MIN,
    ensures
        r is Ok <==> horizon >= 1,
        r matches Err(e) ==> e == Error::InconsistentDims,
        r matches Ok(p) ==> formulated(
            &p,
            initial_state,
            step_index as i64,
            horizon as int,
            dynamics,
            weights,
            bounds,
        ),
{
    if horizon == 0 {
        return Err(Error::InconsistentDims);
    }
    let scope: i64 = step_index as i64;
    let mut model = OptModel::new();

    // Declare the control series u_0 .. u_{horizon-1}, box-bounded, and the
    // state series x_{-1} .. x_{horizon}, free.
    let u_base = model.add_var_series(
        scope,
        Series::Control,
        0,
        horizon,
        Domain::Boxed { lb: bounds.lb, ub: bounds.ub },
    );
    let x_base = model.add_var_series(scope, Series::State, -1, horizon + 2, Domain::Free);

    proof {
        assert forall|t: int| 0 <= t < horizon implies #[trigger] model.vars@[t] == control_var(
            scope,
            t,
            bounds,
        ) by {
            assert(model.vars@[t] == Seq::new(
                horizon as nat,
                |s: int| VarDecl {
                    name: VarName { scope, series: Series::Control, i: (0 + s) as i64, j: 0, k: 0 },
                    domain: Domain::Boxed { lb: bounds.lb, ub: bounds.ub },
                },
            )[t]);
        }
        assert forall|t: int|
            horizon <= t < 2 * horizon + 2 implies #[trigger] model.vars@[t] == state_var(
            scope,
            t - horizon - 1,
        ) by {
            assert(model.vars@[t] == Seq::new(
                (horizon + 2) as nat,
                |s: int| VarDecl {
                    name: VarName { scope, series: Series::State, i: (-1 + s) as i64, j: 0, k: 0 },
                    domain: Domain::Free,
                },
            )[t - horizon]);
        }
        assert(mpc_vars(&model, scope, horizon as int, bounds));
    }

    // The initial-condition equality: ties the first state variable to the
    // externally measured state, the coupling point of the receding-horizon
    // loop.
    let mut init_terms: Vec<LinTerm> = Vec::new();
    init_terms.push(LinTerm { var: x_base, coeff: Scalar::one() });
    model.add_constr(LinConstraint { terms: init_terms, sense: CmpSense::Equal, rhs: initial_state });

    // One dynamics-consistency equality per step pair.
    let neg_a = dynamics.a.neg();
    let neg_b = dynamics.b.neg();
    let mut k: usize = 0;
    while k < horizon
        invariant
            k <= horizon,
            1 <= horizon,
            horizon + 4 <= i64::MAX,
            2 * horizon + 2 <= usize::MAX,
            u_base == 0,
            x_base == horizon,
            neg_a.raw == -dynamics.a.raw,
            neg_b.raw == -dynamics.b.raw,
            mpc_vars(&model, scope, horizon as int, bounds),
            model.objective is None,
            model.constrs@.len() == k + 1,
            initial_constraint_ok(&model.constrs@[0], initial_state, horizon as int),
            forall|j: int|
                1 <= j < k + 1 ==> dynamics_constraint_ok(
                    #[trigger] &model.constrs@[j],
                    dynamics,
                    horizon as int,
                    j - 1,
                ),
        decreases horizon - k,
    {
        let mut terms: Vec<LinTerm> = Vec::new();
        terms.push(LinTerm { var: x_base + k + 1, coeff: Scalar::one() });
        terms.push(LinTerm { var: x_base + k, coeff: neg_a });
        terms.push(LinTerm { var: u_base + k, coeff: neg_b });
        model.add_constr(LinConstraint { terms, sense: CmpSense::Equal, rhs: dynamics.c });
        k = k + 1;
    }

    // The quadratic objective: stage terms in step order, terminal term last.
    let mut quad: Vec<QuadTerm> = Vec::new();
    let mut k: usize = 0;
    while k < horizon
        invariant
            k <= horizon,
            1 <= horizon,
            horizon + 4 <= i64::MAX,
            2 * horizon + 2 <= usize::MAX,
            x_base == horizon,
            u_base == 0,
            quad@.len() == 2 * k,
            forall|j: int|
                0 <= j < 2 * k ==> #[trigger] quad@[j] == (if j % 2 == 0 {
                    QuadTerm { var: (horizon + 1 + j / 2) as usize, coeff: weights.q }
                } else {
                    QuadTerm { var: ((j - 1) / 2) as usize, coeff: weights.r }
                }),
        decreases horizon - k,
    {
        quad.push(QuadTerm { var: x_base + 1 + k, coeff: weights.q });
        quad.push(QuadTerm { var: u_base + k, coeff: weights.r });
        k = k + 1;
        proof {
            assert forall|j: int|
                0 <= j < 2 * k implies #[trigger] quad@[j] == (if j % 2 == 0 {
                QuadTerm { var: (horizon + 1 + j / 2) as usize, coeff: weights.q }
            } else {
                QuadTerm { var: ((j - 1) / 2) as usize, coeff: weights.r }
            }) by {
                if j == 2 * (k - 1) {
                    assert(j % 2 == 0 && j / 2 == k - 1);
                } else if j == 2 * (k - 1) + 1 {
                    assert(j % 2 == 1 && (j - 1) / 2 == k - 1);
                }
            }
        }
    }
    quad.push(QuadTerm { var: x_base + 1 + horizon, coeff: weights.s });
    model.set_objective(Objective { quad, sense: ObjSense::Minimize });

    let p = HorizonProblem { model, horizon, initial_state, u_base, x_base };

    proof {
        let h = horizon as int;
        // Every constraint and objective term points at a declared variable.
        assert forall|c: int, t: int|
            0 <= c < p.model.constrs@.len() && 0 <= t < p.model.constrs@[c].terms@.len() implies (
        #[trigger] p.model.constrs@[c].terms@[t]).var < p.model.vars@.len() by {
            if c == 0 {
                assert(initial_constraint_ok(&p.model.constrs@[0], initial_state, h));
            } else {
                assert(dynamics_constraint_ok(&p.model.constrs@[c], dynamics, h, c - 1));
            }
        }
        assert(p.model.wf());
        // Names are unique: the two series differ, and within a series the
        // step index is injective.
        assert forall|a: int, b: int|
            0 <= a < b < p.model.vars@.len() implies (#[trigger] p.model.vars@[a]).name != (
        #[trigger] p.model.vars@[b]).name by {
            if a < h {
                assert(p.model.vars@[a] == control_var(scope, a, bounds));
            } else {
                assert(p.model.vars@[a] == state_var(scope, a - h - 1));
            }
            if b < h {
                assert(p.model.vars@[b] == control_var(scope, b, bounds));
            } else {
                assert(p.model.vars@[b] == state_var(scope, b - h - 1));
            }
        }
        assert(p.model.names_unique());
    }
    Ok(p)
}

/// Reads the trajectories back out of a solved problem.
///
/// For the optimal status, every control and state variable's value is read
/// in declaration order; a value vector of the wrong length is a hard
/// failure, distinct from "solved but not optimal".  For any non-optimal
/// status the result is a normal `Solution` with that status and empty
/// trajectories — callers must branch on the status before indexing.
pub fn extract(problem: &HorizonProblem, status: SolveStatus, values: &Vec<Scalar>) -> (r: Result<
    Solution,
    Error,
>)
    requires
        problem.wf(),
    ensures
        !(status is Optimal) ==> (r matches Ok(sol) && sol.status == status
            && sol.u_trajectory@.len() == 0 && sol.x_trajectory@.len() == 0),
        status is Optimal && values@.len() != problem.model.vars@.len() ==> (r matches Err(e) && e
            == Error::InconsistentDims),
        status is Optimal && values@.len() == problem.model.vars@.len() ==> (r matches Ok(sol) && {
            &&& sol.status is Optimal
            &&& sol.u_trajectory@ == values@.subrange(0, problem.horizon as int)
            &&& sol.x_trajectory@ == values@.subrange(
                problem.horizon as int,
                2 * problem.horizon + 2,
            )
            &&& sol.x_trajectory@.len() == sol.u_trajectory@.len() + 2
        }),
{
    if !matches!(status, SolveStatus::Optimal) {
        return Ok(Solution { status, u_trajectory: Vec::new(), x_trajectory: Vec::new() });
    }
    if values.len() != problem.model.num_vars() {
        return Err(Error::InconsistentDims);
    }
    let mut u_trajectory: Vec<Scalar> = Vec::new();
    let mut k: usize = 0;
    while k < problem.horizon
        invariant
            problem.wf(),
            values@.len() == problem.model.vars@.len(),
            k <= problem.horizon,
            u_trajectory@ == values@.subrange(0, k as int),
        decreases problem.horizon - k,
    {
        u_trajectory.push(values[k]);
        k = k + 1;
        proof {
            assert(u_trajectory@ =~= values@.subrange(0, k as int));
        }
    }
    let mut x_trajectory: Vec<Scalar> = Vec::new();
    let mut k: usize = problem.horizon;
    let end: usize = 2 * problem.horizon + 2;
    while k < end
        invariant
            problem.wf(),
            values@.len() == problem.model.vars@.len(),
            end == 2 * problem.horizon + 2,
            problem.horizon <= k <= end,
            x_trajectory@ == values@.subrange(problem.horizon as int, k as int),
        decreases end - k,
    {
        x_trajectory.push(values[k]);
        k = k + 1;
        proof {
            assert(x_trajectory@ =~= values@.subrange(problem.horizon as int, k as int));
        }
    }
    Ok(Solution { status: SolveStatus::Optimal, u_trajectory, x_trajectory })
}

/// Dynamics consistency: under any assignment that satisfies a formulated
/// problem's model, every consecutive state pair obeys the model recurrence
/// exactly, in scaled integer form:
/// `SCALE * x_{k+1} == a * x_k + b * u_k + SCALE * c`.
pub proof fn lemma_dynamics_consistency(
    p: &HorizonProblem,
    initial_state: Scalar,
    scope: i64,
    horizon: int,
    dynamics: ModelDynamics,
    weights: CostWeights,
    bounds: ControlBounds,
    vals: Seq<int>,
    k: int,
)
    requires
        formulated(p, initial_state, scope, horizon, dynamics, weights, bounds),
        p.model.satisfies(vals),
        0 <= k < horizon,
    ensures
        SCALE * vals[horizon + k + 1] == dynamics.a.raw * vals[horizon + k] + dynamics.b.raw
            * vals[k] + dynamics.c.raw * SCALE,
{
    let c = &p.model.constrs@[k + 1];
    assert(constraint_holds(&p.model.constrs@[k + 1], vals));
    assert(dynamics_constraint_ok(&p.model.constrs@[k + 1], dynamics, horizon, k));
    let t2 = c.terms@;
    let t1 = t2.drop_last();
    let t0 = t1.drop_last();
    assert(t1.len() == 2 && t0.len() == 1);
    assert(t0.last() == t2[0] && t1.last() == t2[1] && t2.last() == t2[2]);
    assert(terms_value(t0.drop_last(), vals) == 0);
    assert(terms_value(t0, vals) == terms_value(t0.drop_last(), vals) + t2[0].coeff.raw * vals[
        t2[0].var as int
    ]);
    assert(terms_value(t1, vals) == terms_value(t0, vals) + t2[1].coeff.raw * vals[
        t2[1].var as int
    ]);
    assert(terms_value(t2, vals) == terms_value(t1, vals) + t2[2].coeff.raw * vals[
        t2[2].var as int
    ]);
    assert(terms_value(t2, vals) == SCALE * vals[horizon + k + 1] + (-dynamics.a.raw) * vals[
        horizon + k
    ] + (-dynamics.b.raw) * vals[k]);
    assert((-dynamics.a.raw) * vals[horizon + k] == -(dynamics.a.raw * vals[horizon + k]))
        by (nonlinear_arith);
    assert((-dynamics.b.raw) * vals[k] == -(dynamics.b.raw * vals[k])) by (nonlinear_arith);
}

/// Bounded controls: under any assignment that satisfies a formulated
/// problem's model, every control value lies within the configured box bound.
pub proof fn lemma_controls_within_bounds(
    p: &HorizonProblem,
    initial_state: Scalar,
    scope: i64,
    horizon: int,
    dynamics: ModelDynamics,
    weights: CostWeights,
    bounds: ControlBounds,
    vals: Seq<int>,
    k: int,
)
    requires
        formulated(p, initial_state, scope, horizon, dynamics, weights, bounds),
        p.model.satisfies(vals),
        0 <= k < horizon,
    ensures
        bounds.lb.raw <= vals[k] <= bounds.ub.raw,
{
    assert(p.model.vars@[k] == control_var(scope, k, bounds));
    assert(domain_holds(p.model.vars@[k].domain, vals[k]));
}

/// Round trip: under any assignment that satisfies a formulated problem's
/// model, the first state variable carries exactly the `initial_state` that
/// was handed to `formulate` — the initial condition is an equality
/// constraint, not a bound, so no tolerance is involved.
pub proof fn lemma_initial_state_round_trip(
    p: &HorizonProblem,
    initial_state: Scalar,
    scope: i64,
    horizon: int,
    dynamics: ModelDynamics,
    weights: CostWeights,
    bounds: ControlBounds,
    vals: Seq<int>,
)
    requires
        formulated(p, initial_state, scope, horizon, dynamics, weights, bounds),
        p.model.satisfies(vals),
    ensures
        vals[p.x_base as int] == initial_state.raw,
{
    let c = &p.model.constrs@[0];
    assert(constraint_holds(&p.model.constrs@[0], vals));
    assert(c.terms@.drop_last().len() == 0);
    assert(terms_value(c.terms@.drop_last(), vals) == 0);
    assert(terms_value(c.terms@, vals) == SCALE * vals[p.x_base as int]);
    assert(SCALE * vals[p.x_base as int] == initial_state.raw * SCALE);
}

} // verus!
