use receding_horizon::model::{CmpSense, Domain, Error, ObjSense, Series};
use receding_horizon::mpc::{
    extract, formulate, ControlBounds, CostWeights, ModelDynamics, SolveStatus,
};
use receding_horizon::scalar::{Scalar, SCALE};

fn shipped() -> (ModelDynamics, CostWeights, ControlBounds) {
    (
        ModelDynamics::default(),
        CostWeights::default(),
        ControlBounds::default(),
    )
}

#[test]
fn horizon_problem_has_expected_counts() {
    let (dynamics, weights, bounds) = shipped();
    let p = formulate(Scalar::new(SCALE), 0, 10, dynamics, weights, bounds).unwrap();
    // exactly `horizon` control variables and `horizon + 2` state variables
    assert_eq!(p.model.vars.len(), 22);
    let controls = p
        .model
        .vars
        .iter()
        .filter(|v| matches!(v.name.series, Series::Control))
        .count();
    let states = p
        .model
        .vars
        .iter()
        .filter(|v| matches!(v.name.series, Series::State))
        .count();
    assert_eq!(controls, 10);
    assert_eq!(states, 12);
    // exactly `horizon` dynamics constraints plus one initial condition
    assert_eq!(p.model.constrs.len(), 11);
    assert_eq!(p.u_base, 0);
    assert_eq!(p.x_base, 10);
}

#[test]
fn horizon_problem_details() {
    let (dynamics, weights, bounds) = shipped();
    let p = formulate(Scalar::new(500_000), 30, 3, dynamics, weights, bounds).unwrap();
    // control variables carry the box bound and are scoped by the step index
    for k in 0..3 {
        let v = &p.model.vars[k];
        assert_eq!(v.name.scope, 30);
        assert_eq!(v.name.i, k as i64);
        assert!(matches!(
            v.domain,
            Domain::Boxed { lb, ub } if lb.raw == -SCALE && ub.raw == SCALE
        ));
    }
    // state variables are free and run from step -1 to the terminal step
    for k in 0..5 {
        let v = &p.model.vars[3 + k];
        assert_eq!(v.name.i, k as i64 - 1);
        assert!(matches!(v.domain, Domain::Free));
    }
    // the initial condition pins the first state variable exactly
    let init = &p.model.constrs[0];
    assert!(matches!(init.sense, CmpSense::Equal));
    assert_eq!(init.rhs.raw, 500_000);
    assert_eq!(init.terms.len(), 1);
    assert_eq!(init.terms[0].var, 3);
    assert_eq!(init.terms[0].coeff.raw, SCALE);
    // dynamics constraint 1: x_2 - 0.9 x_1 - 1 u_1 == 0
    let dyn1 = &p.model.constrs[2];
    assert_eq!(dyn1.terms.len(), 3);
    assert_eq!(dyn1.terms[0].var, 5);
    assert_eq!(dyn1.terms[0].coeff.raw, SCALE);
    assert_eq!(dyn1.terms[1].var, 4);
    assert_eq!(dyn1.terms[1].coeff.raw, -900_000);
    assert_eq!(dyn1.terms[2].var, 1);
    assert_eq!(dyn1.terms[2].coeff.raw, -SCALE);
    assert_eq!(dyn1.rhs.raw, 0);
    // objective: q/r stage pairs then the terminal s term, minimized
    let obj = p.model.objective.as_ref().unwrap();
    assert!(matches!(obj.sense, ObjSense::Minimize));
    assert_eq!(obj.quad.len(), 7);
    assert_eq!(obj.quad[0].var, 4);
    assert_eq!(obj.quad[0].coeff.raw, 100_000_000);
    assert_eq!(obj.quad[1].var, 0);
    assert_eq!(obj.quad[1].coeff.raw, 420_000);
    assert_eq!(obj.quad[6].var, 7);
    assert_eq!(obj.quad[6].coeff.raw, 10_000);
}

#[test]
fn zero_horizon_fails_formulation() {
    let (dynamics, weights, bounds) = shipped();
    let r = formulate(Scalar::new(SCALE), 0, 0, dynamics, weights, bounds);
    assert!(matches!(r, Err(Error::InconsistentDims)));
}

#[test]
fn extract_optimal_reads_trajectories_in_order() {
    let (dynamics, weights, bounds) = shipped();
    let p = formulate(Scalar::new(SCALE), 0, 2, dynamics, weights, bounds).unwrap();
    // 2 controls then 4 states
    let values: Vec<Scalar> = (0..6).map(|i| Scalar::new(i * 10)).collect();
    let sol = extract(&p, SolveStatus::Optimal, &values).unwrap();
    assert!(matches!(sol.status, SolveStatus::Optimal));
    assert_eq!(
        sol.u_trajectory.iter().map(|s| s.raw).collect::<Vec<_>>(),
        vec![0, 10]
    );
    assert_eq!(
        sol.x_trajectory.iter().map(|s| s.raw).collect::<Vec<_>>(),
        vec![20, 30, 40, 50]
    );
    // shape invariant for the optimal status
    assert_eq!(sol.x_trajectory.len(), sol.u_trajectory.len() + 2);
}

#[test]
fn extract_non_optimal_gives_empty_trajectories() {
    let (dynamics, weights, bounds) = shipped();
    let p = formulate(Scalar::new(SCALE), 0, 2, dynamics, weights, bounds).unwrap();
    let values: Vec<Scalar> = Vec::new();
    for status in [
        SolveStatus::Infeasible,
        SolveStatus::Unbounded,
        SolveStatus::Other,
    ] {
        let sol = extract(&p, status, &values).unwrap();
        assert!(sol.u_trajectory.is_empty());
        assert!(sol.x_trajectory.is_empty());
    }
}

#[test]
fn extract_optimal_with_wrong_length_is_hard_failure() {
    let (dynamics, weights, bounds) = shipped();
    let p = formulate(Scalar::new(SCALE), 0, 2, dynamics, weights, bounds).unwrap();
    let values = vec![Scalar::new(0); 5];
    let r = extract(&p, SolveStatus::Optimal, &values);
    assert!(matches!(r, Err(Error::InconsistentDims)));
}

#[test]
fn round_trip_initial_state() {
    // a model with a = 1, b = 1, c = 0 admits the all-one state trajectory
    // under zero control; extraction hands the initial state back exactly
    let dynamics = ModelDynamics {
        a: Scalar::new(SCALE),
        b: Scalar::new(SCALE),
        c: Scalar::new(0),
    };
    let p = formulate(
        Scalar::new(SCALE),
        0,
        2,
        dynamics,
        CostWeights::default(),
        ControlBounds::default(),
    )
    .unwrap();
    // values satisfying every constraint: u = 0, every x = 1
    let mut values = vec![Scalar::new(0); 2];
    values.extend(vec![Scalar::new(SCALE); 4]);
    let sol = extract(&p, SolveStatus::Optimal, &values).unwrap();
    assert_eq!(sol.x_trajectory[0].raw, SCALE);
    assert_eq!(sol.x_trajectory[0].raw, p.initial_state.raw);
}
