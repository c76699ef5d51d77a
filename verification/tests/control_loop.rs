use receding_horizon::mpc::{SolveStatus, Solution};
use receding_horizon::scalar::{Scalar, SCALE};
use receding_horizon::sim::{advance, select_action, PlantParams, Simulation};

const TOTAL: usize = 100;
const PERIOD: usize = 10;

fn plant() -> PlantParams {
    PlantParams::default()
}

/// The plant update recomputed independently: truncated fixed-point product
/// plus input plus offset.
fn expected_next(p: &PlantParams, x: i64, u: i64) -> i64 {
    let prod = (p.alpha.raw as i128) * (x as i128);
    let q = if prod >= 0 {
        prod / (SCALE as i128)
    } else {
        -((-prod) / (SCALE as i128))
    };
    q as i64 + u + p.beta.raw
}

fn optimal_solution(first_action: i64) -> Solution {
    Solution {
        status: SolveStatus::Optimal,
        u_trajectory: vec![Scalar::new(first_action); 10],
        x_trajectory: vec![Scalar::new(0); 12],
    }
}

fn failed_solution() -> Solution {
    Solution {
        status: SolveStatus::Infeasible,
        u_trajectory: Vec::new(),
        x_trajectory: Vec::new(),
    }
}

#[test]
fn plant_advance_is_exact() {
    // 0.99 * 1.0 + 0.2 + 0.01 == 1.2 exactly
    let next = advance(&plant(), Scalar::new(SCALE), Scalar::new(200_000));
    assert_eq!(next.raw, 1_200_000);
    // truncation rounds toward zero on the negative side too
    let p = PlantParams {
        alpha: Scalar::new(990_000),
        beta: Scalar::new(0),
    };
    let next = advance(&p, Scalar::new(-1), Scalar::new(0));
    assert_eq!(next.raw, 0);
}

#[test]
fn select_action_takes_first_planned_action_when_optimal() {
    let sol = optimal_solution(123);
    let (a, d) = select_action(7, &sol);
    assert_eq!(a.raw, 123);
    assert!(d.is_none());
}

#[test]
fn select_action_degrades_to_zero_with_diagnostic() {
    let sol = failed_solution();
    let (a, d) = select_action(40, &sol);
    assert_eq!(a.raw, 0);
    let d = d.unwrap();
    assert_eq!(d.step, 40);
    assert!(matches!(d.status, SolveStatus::Infeasible));
}

#[test]
fn resolve_cadence_and_zero_order_hold() {
    // 100 steps at period 10: exactly 10 control decisions, the control
    // signal piecewise-constant over each block of 10 consecutive steps
    let mut sim = Simulation::new(plant(), Scalar::new(SCALE), PERIOD, TOTAL);
    let mut resolves = 0usize;
    while !sim.done() {
        if sim.needs_resolve() {
            let sol = optimal_solution(-(sim.t as i64));
            let d = sim.step_with_solution(&sol);
            assert!(d.is_none());
            resolves += 1;
        } else {
            sim.step_held();
        }
    }
    assert_eq!(resolves, 10);
    assert_eq!(sim.inputs.len(), 10);
    assert_eq!(sim.states.len(), TOTAL + 1);
    // the decision of block k is the one made at step 10 * k
    for k in 0..10 {
        assert_eq!(sim.inputs[k].raw, -((10 * k) as i64));
    }
    // every recorded state follows the plant update under the block decision
    for i in 0..TOTAL {
        let expected = expected_next(&plant(), sim.states[i].raw, sim.inputs[i / PERIOD].raw);
        assert_eq!(sim.states[i + 1].raw, expected);
    }
}

#[test]
fn fallback_is_idempotent_under_permanent_failure() {
    // an optimizer that never returns an optimal status leaves an all-zero
    // control history and a pure plant free response
    let x0 = Scalar::new(SCALE);
    let mut sim = Simulation::new(plant(), x0, PERIOD, TOTAL);
    while !sim.done() {
        if sim.needs_resolve() {
            sim.step_with_solution(&failed_solution());
        } else {
            sim.step_held();
        }
    }
    assert!(sim.inputs.iter().all(|u| u.raw == 0));
    let mut free = x0.raw;
    for i in 0..TOTAL {
        assert_eq!(sim.states[i].raw, free);
        free = expected_next(&plant(), free, 0);
    }
    assert_eq!(sim.states[TOTAL].raw, free);
}

#[test]
fn end_to_end_scenario() {
    // initial state 1.0, horizon 10, plant 0.99 / 0.01, period 10, 100 steps,
    // control bound [-1, 1]: ten decisions, each within the bound, and a
    // state history of length 101 starting at 1.0
    let x0 = Scalar::new(SCALE);
    let mut sim = Simulation::new(plant(), x0, PERIOD, TOTAL);
    while !sim.done() {
        if sim.needs_resolve() {
            // a bounded feedback-style action, as the optimizer would return
            let x = sim.current_state();
            let a = (-x.raw / 2).clamp(-SCALE, SCALE);
            sim.step_with_solution(&optimal_solution(a));
        } else {
            sim.step_held();
        }
    }
    assert_eq!(sim.inputs.len(), 10);
    assert_eq!(sim.states.len(), 101);
    assert_eq!(sim.states[0].raw, SCALE);
    for u in sim.inputs.iter() {
        assert!(-SCALE <= u.raw && u.raw <= SCALE);
    }
}

#[test]
fn diagnostics_name_the_failing_step() {
    let mut sim = Simulation::new(plant(), Scalar::new(0), 5, 12);
    let mut diags = Vec::new();
    while !sim.done() {
        if sim.needs_resolve() {
            if let Some(d) = sim.step_with_solution(&failed_solution()) {
                diags.push(d);
            }
        } else {
            sim.step_held();
        }
    }
    let steps: Vec<usize> = diags.iter().map(|d| d.step).collect();
    assert_eq!(steps, vec![0, 5, 10]);
}
