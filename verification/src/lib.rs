//! Receding-horizon model-predictive control of a scalar plant, together with
//! the constraint-model builders that share its variable/constraint assembly
//! pattern (an N-queens placement model and a Sudoku cell-assignment model).
//!
//! The library formulates finite-horizon constrained linear-quadratic
//! optimization problems as plain data, extracts trajectories from solver
//! outcomes, and drives the simulated plant under a zero-order-hold control
//! policy.  The numerical optimizer itself is an outside capability: callers
//! hand each formulated model to a solver and feed the reported status and
//! per-variable values back in.

pub mod matrix;
pub mod model;
pub mod mpc;
pub mod queens;
pub mod scalar;
pub mod sim;
pub mod sudoku;
