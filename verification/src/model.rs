//! Optimization models as plain data.
//!
//! An `OptModel` is one optimization instance: an ordered list of decision
//! variables (continuous or binary, each with a structured unique name and a
//! domain), an ordered list of linear equality/inequality constraints, and an
//! optional quadratic objective.  The model is pure data; a caller hands it to
//! an outside solver and feeds the reported status and per-variable values
//! back into the extraction functions of this library.
//!
//! The meaning of a model is fixed by `satisfies`: an assignment of raw
//! fixed-point values to the variables, in declaration order, satisfies the
//! model when every value lies in its variable's domain and every constraint
//! holds.  A linear term `coeff * v` is evaluated as the integer product of
//! the two raw values, so a constraint's left-hand side carries the scale
//! `SCALE * SCALE` and is compared against `rhs.raw * SCALE`.

use vstd::prelude::*;

use crate::scalar::Scalar;
use crate::scalar::SCALE;

verus! {

/// What went wrong while building a model or reading a solution back.
///
/// A non-optimal solver status is not an error (it is a normal outcome,
/// carried in `Solution::status`); these variants are for construction-time
/// shape inconsistencies and for the places where a caller demands a
/// solution and a terminal status withholds one.
#[derive(Clone, Copy, PartialEq, Eq, Structural, Debug)]
pub enum Error {
    /// A dimension inconsistency detected before the solver is invoked,
    /// or a value vector whose length does not match the declared variables.
    InconsistentDims,
    /// A flat value vector that cannot be reshaped to the requested matrix.
    ShapeMismatch,
    /// The solver reported the model infeasible where a solution was demanded.
    Infeasible,
    /// The solver ended with any other non-optimal status where a solution
    /// was demanded.
    SolveFailed,
}

/// Which indexed family a decision variable belongs to.
#[derive(Clone, Copy, PartialEq, Eq, Structural, Debug)]
pub enum Series {
    /// A control action `u_i` of the horizon problem.
    Control,
    /// A state `x_i` of the horizon problem.
    State,
    /// A 0/1 cell-assignment variable of a constraint-satisfaction model.
    Cell,
}

/// A structured variable name: a scope (the step index of the re-solve event
/// that created the problem, or zero), a series, and up to three indices.
/// Names are unique within one model, which is all that the outside solver's
/// bookkeeping needs.
#[derive(Clone, Copy, PartialEq, Eq, Structural, Debug)]
pub struct VarName {
    pub scope: i64,
    pub series: Series,
    pub i: i64,
    pub j: i64,
    pub k: i64,
}

/// The admissible values of one decision variable.
#[derive(Clone, Copy, PartialEq, Eq, Structural, Debug)]
pub enum Domain {
    /// A continuous variable with no bound.
    Free,
    /// A continuous variable with the box bound `lb <= v <= ub`.
    Boxed { lb: Scalar, ub: Scalar },
    /// A 0/1 variable.
    Binary,
    /// A 0/1 variable whose lower bound was pinned to one.
    BinaryPinnedOne,
}

/// One declared decision variable.
#[derive(Clone, Copy, PartialEq, Eq, Structural, Debug)]
pub struct VarDecl {
    pub name: VarName,
    pub domain: Domain,
}

/// One linear term `coeff * v`, where `var` is the position of `v` in the
/// model's variable list.
#[derive(Clone, Copy, PartialEq, Eq, Structural, Debug)]
pub struct LinTerm {
    pub var: usize,
    pub coeff: Scalar,
}

/// The comparison sense of a linear constraint.
#[derive(Clone, Copy, PartialEq, Eq, Structural, Debug)]
pub enum CmpSense {
    Equal,
    LessEq,
}

/// One linear constraint: `sum of terms (sense) rhs`.
pub struct LinConstraint {
    pub terms: Vec<LinTerm>,
    pub sense: CmpSense,
    pub rhs: Scalar,
}

/// One diagonal quadratic objective term `coeff * v * v`.
#[derive(Clone, Copy, PartialEq, Eq, Structural, Debug)]
pub struct QuadTerm {
    pub var: usize,
    pub coeff: Scalar,
}

/// The optimization sense of the objective.
#[derive(Clone, Copy, PartialEq, Eq, Structural, Debug)]
pub enum ObjSense {
    Minimize,
    Maximize,
}

/// A quadratic objective: a sum of squared-variable terms and a sense.
pub struct Objective {
    pub quad: Vec<QuadTerm>,
    pub sense: ObjSense,
}

/// One optimization instance, ready to be handed to a solver.
pub struct OptModel {
    pub vars: Vec<VarDecl>,
    pub constrs: Vec<LinConstraint>,
    pub objective: Option<Objective>,
}

/// The value of a sum of linear terms under an assignment of raw values.
pub open spec fn terms_value(terms: Seq<LinTerm>, vals: Seq<int>) -> int
    decreases terms.len(),
{
    if terms.len() == 0 {
        0
    } else {
        terms_value(terms.drop_last(), vals) + terms.last().coeff.raw * vals[terms.last().var as int]
    }
}

/// Whether one constraint holds under an assignment of raw values.
pub open spec fn constraint_holds(c: &LinConstraint, vals: Seq<int>) -> bool {
    match c.sense {
        CmpSense::Equal => terms_value(c.terms@, vals) == c.rhs.raw * SCALE,
        CmpSense::LessEq => terms_value(c.terms@, vals) <= c.rhs.raw * SCALE,
    }
}

/// Whether a raw value lies in a variable's domain.
pub open spec fn domain_holds(d: Domain, v: int) -> bool {
    match d {
        Domain::Free => true,
        Domain::Boxed { lb, ub } => lb.raw <= v <= ub.raw,
        Domain::Binary => v == 0 || v == SCALE,
        Domain::BinaryPinnedOne => v == SCALE,
    }
}

impl OptModel {
    /// Every variable position mentioned by a constraint or by the objective
    /// refers to a declared variable.
    pub open spec fn wf(&self) -> bool {
        &&& forall|c: int, t: int|
            0 <= c < self.constrs@.len() && 0 <= t < self.constrs@[c].terms@.len()
                ==> #[trigger] self.constrs@[c].terms@[t].var < self.vars@.len()
        &&& match self.objective {
            Some(ref o) => forall|t: int|
                0 <= t < o.quad@.len() ==> #[trigger] o.quad@[t].var < self.vars@.len(),
            None => true,
        }
    }

    /// No two declared variables share a name.
    pub open spec fn names_unique(&self) -> bool {
        forall|p: int, q: int|
            0 <= p < q < self.vars@.len()
                ==> #[trigger] self.vars@[p].name != #[trigger] self.vars@[q].name
    }

    /// An assignment of raw values, one per declared variable in declaration
    /// order, satisfies the model: every value is in its domain and every
    /// constraint holds.
    pub open spec fn satisfies(&self, vals: Seq<int>) -> bool {
        &&& vals.len() == self.vars@.len()
        &&& forall|i: int|
            0 <= i < self.vars@.len() ==> #[trigger] domain_holds(self.vars@[i].domain, vals[i])
        &&& forall|c: int|
            0 <= c < self.constrs@.len() ==> constraint_holds(#[trigger] &self.constrs@[c], vals)
    }

    pub fn new() -> (m: OptModel)
        ensures
            m.vars@ == Seq::<VarDecl>::empty(),
            m.constrs@ == Seq::<LinConstraint>::empty(),
            m.objective is None,
    {
        let m = OptModel { vars: Vec::new(), constrs: Vec::new(), objective: None };
        proof {
            assert(m.vars@ =~= Seq::<VarDecl>::empty());
            assert(m.constrs@ =~= Seq::<LinConstraint>::empty());
        }
        m
    }

    pub fn num_vars(&self) -> (n: usize)
        ensures
            n == self.vars@.len(),
    {
        self.vars.len()
    }

    /// Declares one variable; its position in the model is returned.
    pub fn add_var(&mut self, name: VarName, domain: Domain) -> (id: usize)
        ensures
            id == old(self).vars@.len(),
            final(self).vars@ == old(self).vars@.push(VarDecl { name, domain }),
            final(self).constrs == old(self).constrs,
            final(self).objective == old(self).objective,
    {
        let id = self.vars.len();
        self.vars.push(VarDecl { name, domain });
        id
    }

    /// Declares an indexed family of `len` variables sharing one scope,
    /// series and domain, with indices `start, start + 1, ..`, in order.
    /// The position of the first is returned.
    pub fn add_var_series(
        &mut self,
        scope: i64,
        series: Series,
        start: i64,
        len: usize,
        domain: Domain,
    ) -> (base: usize)
        requires
            len <= i64::MAX,
            start + len <= i64::MAX,
        ensures
            base == old(self).vars@.len(),
            final(self).vars@ == old(self).vars@ + Seq::new(
                len as nat,
                |t: int| VarDecl {
                    name: VarName { scope, series, i: (start + t) as i64, j: 0, k: 0 },
                    domain,
                },
            ),
            final(self).constrs == old(self).constrs,
            final(self).objective == old(self).objective,
    {
        let base = self.vars.len();
        let mut t: usize = 0;
        while t < len
            invariant
                t <= len,
                len <= i64::MAX,
                start + len <= i64::MAX,
                base == old(self).vars@.len(),
                self.vars@ == old(self).vars@ + Seq::new(
                    t as nat,
                    |s: int| VarDecl {
                        name: VarName { scope, series, i: (start + s) as i64, j: 0, k: 0 },
                        domain,
                    },
                ),
                self.constrs == old(self).constrs,
                self.objective == old(self).objective,
            decreases len - t,
        {
            let name = VarName { scope, series, i: start + (t as i64), j: 0, k: 0 };
            self.vars.push(VarDecl { name, domain });
            t = t + 1;
            proof {
                assert(self.vars@ =~= old(self).vars@ + Seq::new(
                    t as nat,
                    |s: int| VarDecl {
                        name: VarName { scope, series, i: (start + s) as i64, j: 0, k: 0 },
                        domain,
                    },
                ));
            }
        }
        proof {
            assert(self.vars@ =~= old(self).vars@ + Seq::new(
                len as nat,
                |s: int| VarDecl {
                    name: VarName { scope, series, i: (start + s) as i64, j: 0, k: 0 },
                    domain,
                },
            ));
        }
        base
    }

    /// Appends one linear constraint.
    pub fn add_constr(&mut self, c: LinConstraint)
        ensures
            final(self).constrs@ == old(self).constrs@.push(c),
            final(self).vars == old(self).vars,
            final(self).objective == old(self).objective,
    {
        self.constrs.push(c);
    }

    /// Installs the objective, replacing any earlier one.
    pub fn set_objective(&mut self, o: Objective)
        ensures
            final(self).objective == Some(o),
            final(self).vars == old(self).vars,
            final(self).constrs == old(self).constrs,
    {
        self.objective = Some(o);
    }

    /// Pins the lower bound of a declared binary variable to one, as a fixed
    /// cell assignment of a constraint-satisfaction model does.
    pub fn pin_binary_one(&mut self, id: usize)
        requires
            id < old(self).vars@.len(),
            old(self).vars@[id as int].domain is Binary,
        ensures
            final(self).vars@ == old(self).vars@.update(
                id as int,
                VarDecl { name: old(self).vars@[id as int].name, domain: Domain::BinaryPinnedOne },
            ),
            final(self).constrs == old(self).constrs,
            final(self).objective == old(self).objective,
    {
        let name = self.vars[id].name;
        self.vars.set(id, VarDecl { name, domain: Domain::BinaryPinnedOne });
    }
}

} // verus!
