//! The N-queens placement model.
//!
//! A restatement of the same variable/constraint assembly pattern the horizon
//! problem uses: an `n`-by-`n` family of 0/1 cell variables (queen at row
//! `r`, column `c`), an exactly-one constraint per row and per column, and an
//! at-most-one constraint per diagonal of each direction.  The model is plain
//! data for an outside solver; `n_queen_solution` turns the reported status
//! and per-variable values back into the placement matrix.

use vstd::prelude::*;

use crate::matrix::Matrix;
use crate::model::CmpSense;
use crate::model::Domain;
use crate::model::Error;
use crate::model::LinConstraint;
use crate::model::LinTerm;
use crate::model::OptModel;
use crate::model::Series;
use crate::model::VarDecl;
use crate::model::VarName;
use crate::mpc::SolveStatus;
use crate::scalar::Scalar;
use crate::scalar::SCALE;

verus! {

/// The 0/1 cell variable for board position `(r, c)`.
pub open spec fn cell_var(r: int, c: int) -> VarDecl {
    VarDecl {
        name: VarName { scope: 0, series: Series::Cell, i: r as i64, j: c as i64, k: 0 },
        domain: Domain::Binary,
    }
}

/// A row-major cell index stays inside the board's variable range.
proof fn lemma_cell_index_bound(r: int, c: int, n: int)
    requires
        0 <= r < n,
        0 <= c < n,
    ensures
        0 <= r * n + c < n * n,
{
    assert(0 <= r * n + c < n * n) by (nonlinear_arith)
        requires
            0 <= r < n,
            0 <= c < n,
    ;
}

/// Declares a `rows`-by-`cols` family of binary cell variables in row-major
/// order, each named by its indices; the position of the first is returned.
pub fn make_matrix_variable(m: &mut OptModel, rows: usize, cols: usize) -> (base: usize)
    requires
        rows * cols <= i64::MAX,
        rows * cols <= usize::MAX,
        old(m).vars@.len() + rows * cols <= usize::MAX,
    ensures
        base == old(m).vars@.len(),
        final(m).vars@ == old(m).vars@ + Seq::new(
            (rows * cols) as nat,
            |t: int| cell_var(t / cols as int, t % cols as int),
        ),
        final(m).constrs == old(m).constrs,
        final(m).objective == old(m).objective,
{
    let base = m.num_vars();
    let total = rows * cols;
    let mut t: usize = 0;
    while t < total
        invariant
            total == rows * cols,
            total <= i64::MAX,
            t <= total,
            base == old(m).vars@.len(),
            base + total <= usize::MAX,
            m.vars@ == old(m).vars@ + Seq::new(
                t as nat,
                |s: int| cell_var(s / cols as int, s % cols as int),
            ),
            m.constrs == old(m).constrs,
            m.objective == old(m).objective,
        decreases total - t,
    {
        proof {
            assert(cols > 0) by (nonlinear_arith)
                requires
                    t < total,
                    total == rows * cols,
                    0 <= t,
            ;
            vstd::arithmetic::div_mod::lemma_div_pos_is_pos(t as int, cols as int);
            vstd::arithmetic::div_mod::lemma_div_nonincreasing(t as int, cols as int);
            vstd::arithmetic::div_mod::lemma_mod_bound(t as int, cols as int);
        }
        let r = t / cols;
        let c = t % cols;
        m.add_var(
            VarName { scope: 0, series: Series::Cell, i: r as i64, j: c as i64, k: 0 },
            Domain::Binary,
        );
        t = t + 1;
        proof {
            assert(m.vars@ =~= old(m).vars@ + Seq::new(
                t as nat,
                |s: int| cell_var(s / cols as int, s % cols as int),
            ));
        }
    }
    proof {
        assert(m.vars@ =~= old(m).vars@ + Seq::new(
            (rows * cols) as nat,
            |s: int| cell_var(s / cols as int, s % cols as int),
        ));
    }
    base
}

/// Row `r` holds exactly one queen: the cells of row `r` sum to one.
pub open spec fn row_constraint_ok(c: &LinConstraint, n: int, r: int) -> bool {
    &&& c.sense == CmpSense::Equal
    &&& c.rhs.raw == SCALE
    &&& c.terms@.len() == n
    &&& forall|q: int|
        0 <= q < n ==> (#[trigger] c.terms@[q]).var as int == r * n + q && c.terms@[q].coeff.raw
            == SCALE
}

/// Column `cc` holds exactly one queen: the cells of column `cc` sum to one.
pub open spec fn col_constraint_ok(c: &LinConstraint, n: int, cc: int) -> bool {
    &&& c.sense == CmpSense::Equal
    &&& c.rhs.raw == SCALE
    &&& c.terms@.len() == n
    &&& forall|q: int|
        0 <= q < n ==> (#[trigger] c.terms@[q]).var as int == q * n + cc && c.terms@[q].coeff.raw
            == SCALE
}

/// The down-right diagonal starting at row `rr` of the first column holds at
/// most one queen: the cells `(rr + i, i)` sum to at most one.
pub open spec fn diag_down_row_ok(c: &LinConstraint, n: int, rr: int) -> bool {
    &&& c.sense == CmpSense::LessEq
    &&& c.rhs.raw == SCALE
    &&& c.terms@.len() == n - rr
    &&& forall|q: int|
        0 <= q < n - rr ==> (#[trigger] c.terms@[q]).var as int == (rr + q) * n + q
            && c.terms@[q].coeff.raw == SCALE
}

/// The down-right diagonal starting at column `cc` of the first row holds at
/// most one queen: the cells `(i, cc + i)` sum to at most one.
pub open spec fn diag_down_col_ok(c: &LinConstraint, n: int, cc: int) -> bool {
    &&& c.sense == CmpSense::LessEq
    &&& c.rhs.raw == SCALE
    &&& c.terms@.len() == n - cc
    &&& forall|q: int|
        0 <= q < n - cc ==> (#[trigger] c.terms@[q]).var as int == q * n + (cc + q)
            && c.terms@[q].coeff.raw == SCALE
}

/// The up-right diagonal starting at row `rr` of the first column holds at
/// most one queen: the cells `(rr - i, i)` sum to at most one.
pub open spec fn diag_up_row_ok(c: &LinConstraint, n: int, rr: int) -> bool {
    &&& c.sense == CmpSense::LessEq
    &&& c.rhs.raw == SCALE
    &&& c.terms@.len() == rr + 1
    &&& forall|q: int|
        0 <= q < rr + 1 ==> (#[trigger] c.terms@[q]).var as int == (rr - q) * n + q
            && c.terms@[q].coeff.raw == SCALE
}

/// The up-right diagonal ending at column `cc` of the last row holds at most
/// one queen: the cells `(n - 1 - i, cc + i)` sum to at most one.
pub open spec fn diag_up_col_ok(c: &LinConstraint, n: int, cc: int) -> bool {
    &&& c.sense == CmpSense::LessEq
    &&& c.rhs.raw == SCALE
    &&& c.terms@.len() == n - cc
    &&& forall|q: int|
        0 <= q < n - cc ==> (#[trigger] c.terms@[q]).var as int == (n - 1 - q) * n + (cc + q)
            && c.terms@[q].coeff.raw == SCALE
}

/// Number of constraints of the N-queens model of size `n`: rows, columns,
/// and the four diagonal families.
pub open spec fn n_queen_constr_count(n: int) -> int {
    2 * n + 2 * (n - 1) + 2 * (if n >= 2 {
        n - 2
    } else {
        0
    })
}

/// Everything `n_queen_model` promises: the cell variables in row-major
/// order, no objective, and the six constraint families in order.
pub open spec fn n_queen_model_ok(m: &OptModel, n: int) -> bool {
    let len3 = if n >= 2 {
        n - 2
    } else {
        0
    };
    &&& m.vars@ == Seq::new((n * n) as nat, |t: int| cell_var(t / n, t % n))
    &&& m.objective is None
    &&& m.constrs@.len() == n_queen_constr_count(n)
    &&& forall|k: int| 0 <= k < n ==> row_constraint_ok(#[trigger] &m.constrs@[k], n, k)
    &&& forall|k: int| n <= k < 2 * n ==> col_constraint_ok(#[trigger] &m.constrs@[k], n, k - n)
    &&& forall|k: int|
        2 * n <= k < 3 * n - 1 ==> diag_down_row_ok(#[trigger] &m.constrs@[k], n, k - 2 * n)
    &&& forall|k: int|
        3 * n - 1 <= k < 3 * n - 1 + len3 ==> diag_down_col_ok(
            #[trigger] &m.constrs@[k],
            n,
            k - (3 * n - 1) + 1,
        )
    &&& forall|k: int|
        3 * n - 1 + len3 <= k < 4 * n - 2 + len3 ==> diag_up_row_ok(
            #[trigger] &m.constrs@[k],
            n,
            k - (3 * n - 1 + len3) + 1,
        )
    &&& forall|k: int|
        4 * n - 2 + len3 <= k < 4 * n - 2 + 2 * len3 ==> diag_up_col_ok(
            #[trigger] &m.constrs@[k],
            n,
            k - (4 * n - 2 + len3) + 1,
        )
    &&& m.wf()
    &&& m.names_unique()
}

/// One exactly-one constraint over the cells of row `r`.
fn row_constraint(n: usize, r: usize) -> (c: LinConstraint)
    requires
        r < n,
        n * n <= i64::MAX,
        n * n <= usize::MAX,
    ensures
        row_constraint_ok(&c, n as int, r as int),
{
    let mut terms: Vec<LinTerm> = Vec::new();
    let mut q: usize = 0;
    while q < n
        invariant
            r < n,
            q <= n,
            n * n <= usize::MAX,
            terms@.len() == q,
            forall|s: int|
                0 <= s < q ==> (#[trigger] terms@[s]).var as int == r * n + s
                    && terms@[s].coeff.raw == SCALE,
        decreases n - q,
    {
        proof {
            lemma_cell_index_bound(r as int, q as int, n as int);
        }
        terms.push(LinTerm { var: r * n + q, coeff: Scalar { raw: SCALE } });
        q = q + 1;
    }
    LinConstraint { terms, sense: CmpSense::Equal, rhs: Scalar { raw: SCALE } }
}

/// One exactly-one constraint over the cells of column `cc`.
fn col_constraint(n: usize, cc: usize) -> (c: LinConstraint)
    requires
        cc < n,
        n * n <= i64::MAX,
        n * n <= usize::MAX,
    ensures
        col_constraint_ok(&c, n as int, cc as int),
{
    let mut terms: Vec<LinTerm> = Vec::new();
    let mut q: usize = 0;
    while q < n
        invariant
            cc < n,
            q <= n,
            n * n <= usize::MAX,
            terms@.len() == q,
            forall|s: int|
                0 <= s < q ==> (#[trigger] terms@[s]).var as int == s * n + cc
                    && terms@[s].coeff.raw == SCALE,
        decreases n - q,
    {
        proof {
            lemma_cell_index_bound(q as int, cc as int, n as int);
        }
        terms.push(LinTerm { var: q * n + cc, coeff: Scalar { raw: SCALE } });
        q = q + 1;
    }
    LinConstraint { terms, sense: CmpSense::Equal, rhs: Scalar { raw: SCALE } }
}

/// One at-most-one constraint over the down-right diagonal from `(rr, 0)`.
fn diag_down_row_constraint(n: usize, rr: usize) -> (c: LinConstraint)
    requires
        rr < n,
        n * n <= i64::MAX,
        n * n <= usize::MAX,
    ensures
        diag_down_row_ok(&c, n as int, rr as int),
{
    let mut terms: Vec<LinTerm> = Vec::new();
    let mut q: usize = 0;
    while q < n - rr
        invariant
            rr < n,
            q <= n - rr,
            n * n <= usize::MAX,
            terms@.len() == q,
            forall|s: int|
                0 <= s < q ==> (#[trigger] terms@[s]).var as int == (rr + s) * n + s
                    && terms@[s].coeff.raw == SCALE,
        decreases n - rr - q,
    {
        proof {
            lemma_cell_index_bound((rr + q) as int, q as int, n as int);
        }
        terms.push(LinTerm { var: (rr + q) * n + q, coeff: Scalar { raw: SCALE } });
        q = q + 1;
    }
    LinConstraint { terms, sense: CmpSense::LessEq, rhs: Scalar { raw: SCALE } }
}

/// One at-most-one constraint over the down-right diagonal from `(0, cc)`.
fn diag_down_col_constraint(n: usize, cc: usize) -> (c: LinConstraint)
    requires
        cc < n,
        n * n <= i64::MAX,
        n * n <= usize::MAX,
    ensures
        diag_down_col_ok(&c, n as int, cc as int),
{
    let mut terms: Vec<LinTerm> = Vec::new();
    let mut q: usize = 0;
    while q < n - cc
        invariant
            cc < n,
            q <= n - cc,
            n * n <= usize::MAX,
            terms@.len() == q,
            forall|s: int|
                0 <= s < q ==> (#[trigger] terms@[s]).var as int == s * n + (cc + s)
                    && terms@[s].coeff.raw == SCALE,
        decreases n - cc - q,
    {
        proof {
            lemma_cell_index_bound(q as int, (cc + q) as int, n as int);
        }
        terms.push(LinTerm { var: q * n + (cc + q), coeff: Scalar { raw: SCALE } });
        q = q + 1;
    }
    LinConstraint { terms, sense: CmpSense::LessEq, rhs: Scalar { raw: SCALE } }
}

/// One at-most-one constraint over the up-right diagonal from `(rr, 0)`.
fn diag_up_row_constraint(n: usize, rr: usize) -> (c: LinConstraint)
    requires
        rr < n,
        n * n <= i64::MAX,
        n * n <= usize::MAX,
    ensures
        diag_up_row_ok(&c, n as int, rr as int),
{
    let mut terms: Vec<LinTerm> = Vec::new();
    let mut q: usize = 0;
    while q < rr + 1
        invariant
            rr < n,
            q <= rr + 1,
            n * n <= usize::MAX,
            terms@.len() == q,
            forall|s: int|
                0 <= s < q ==> (#[trigger] terms@[s]).var as int == (rr - s) * n + s
                    && terms@[s].coeff.raw == SCALE,
        decreases rr + 1 - q,
    {
        proof {
            lemma_cell_index_bound((rr - q) as int, q as int, n as int);
        }
        terms.push(LinTerm { var: (rr - q) * n + q, coeff: Scalar { raw: SCALE } });
        q = q + 1;
    }
    LinConstraint { terms, sense: CmpSense::LessEq, rhs: Scalar { raw: SCALE } }
}

/// One at-most-one constraint over the up-right diagonal through `(n-1, cc)`.
fn diag_up_col_constraint(n: usize, cc: usize) -> (c: LinConstraint)
    requires
        cc < n,
        n * n <= i64::MAX,
        n * n <= usize::MAX,
    ensures
        diag_up_col_ok(&c, n as int, cc as int),
{
    let mut terms: Vec<LinTerm> = Vec::new();
    let mut q: usize = 0;
    while q < n - cc
        invariant
            cc < n,
            q <= n - cc,
            n * n <= usize::MAX,
            terms@.len() == q,
            forall|s: int|
                0 <= s < q ==> (#[trigger] terms@[s]).var as int == (n - 1 - s) * n + (cc + s)
                    && terms@[s].coeff.raw == SCALE,
        decreases n - cc - q,
    {
        proof {
            lemma_cell_index_bound((n - 1 - q) as int, (cc + q) as int, n as int);
        }
        terms.push(LinTerm { var: (n - 1 - q) * n + (cc + q), coeff: Scalar { raw: SCALE } });
        q = q + 1;
    }
    LinConstraint { terms, sense: CmpSense::LessEq, rhs: Scalar { raw: SCALE } }
}

/// Builds the N-queens placement model for an `n`-by-`n` board.
pub fn n_queen_model(n: usize) -> (m: OptModel)
    requires
        1 <= n,
        n * n <= i64::MAX,
        n * n <= usize::MAX,
    ensures
        n_queen_model_ok(&m, n as int),
{
    let ghost len3: int = if n >= 2 { n - 2 } else { 0int };
    let mut m = OptModel::new();
    let base = make_matrix_variable(&mut m, n, n);
    proof {
        assert(m.vars@ =~= Seq::new((n * n) as nat, |t: int| cell_var(t / n as int, t % n as int)));
    }

    // Each row holds exactly one queen.
    let mut k: usize = 0;
    while k < n
        invariant
            1 <= n,
            n * n <= i64::MAX,
            n * n <= usize::MAX,
            k <= n,
            m.vars@ == Seq::new((n * n) as nat, |t: int| cell_var(t / n as int, t % n as int)),
            m.objective is None,
            m.constrs@.len() == k,
            forall|j: int| 0 <= j < k ==> row_constraint_ok(#[trigger] &m.constrs@[j], n as int, j),
        decreases n - k,
    {
        let c = row_constraint(n, k);
        m.add_constr(c);
        k = k + 1;
    }

    // Each column holds exactly one queen.
    let mut k: usize = 0;
    while k < n
        invariant
            1 <= n,
            n * n <= i64::MAX,
            n * n <= usize::MAX,
            k <= n,
            m.vars@ == Seq::new((n * n) as nat, |t: int| cell_var(t / n as int, t % n as int)),
            m.objective is None,
            m.constrs@.len() == n + k,
            forall|j: int| 0 <= j < n ==> row_constraint_ok(#[trigger] &m.constrs@[j], n as int, j),
            forall|j: int|
                n <= j < n + k ==> col_constraint_ok(#[trigger] &m.constrs@[j], n as int, j - n),
        decreases n - k,
    {
        let c = col_constraint(n, k);
        m.add_constr(c);
        k = k + 1;
    }

    // Down-right diagonals starting in the first column.
    let mut k: usize = 0;
    while k < n - 1
        invariant
            1 <= n,
            n * n <= i64::MAX,
            n * n <= usize::MAX,
            k <= n - 1,
            m.vars@ == Seq::new((n * n) as nat, |t: int| cell_var(t / n as int, t % n as int)),
            m.objective is None,
            m.constrs@.len() == 2 * n + k,
            forall|j: int| 0 <= j < n ==> row_constraint_ok(#[trigger] &m.constrs@[j], n as int, j),
            forall|j: int|
                n <= j < 2 * n ==> col_constraint_ok(#[trigger] &m.constrs@[j], n as int, j - n),
            forall|j: int|
                2 * n <= j < 2 * n + k ==> diag_down_row_ok(
                    #[trigger] &m.constrs@[j],
                    n as int,
                    j - 2 * n,
                ),
        decreases n - 1 - k,
    {
        let c = diag_down_row_constraint(n, k);
        m.add_constr(c);
        k = k + 1;
    }

    // Down-right diagonals starting in the first row.
    let mut k: usize = 1;
    while k < n - 1
        invariant
            1 <= n,
            n * n <= i64::MAX,
            n * n <= usize::MAX,
            1 <= k <= n - 1 || (n == 1 && k == 1),
            m.vars@ == Seq::new((n * n) as nat, |t: int| cell_var(t / n as int, t % n as int)),
            m.objective is None,
            m.constrs@.len() == 3 * n - 1 + (k - 1),
            forall|j: int| 0 <= j < n ==> row_constraint_ok(#[trigger] &m.constrs@[j], n as int, j),
            forall|j: int|
                n <= j < 2 * n ==> col_constraint_ok(#[trigger] &m.constrs@[j], n as int, j - n),
            forall|j: int|
                2 * n <= j < 3 * n - 1 ==> diag_down_row_ok(
                    #[trigger] &m.constrs@[j],
                    n as int,
                    j - 2 * n,
                ),
            forall|j: int|
                3 * n - 1 <= j < 3 * n - 1 + (k - 1) ==> diag_down_col_ok(
                    #[trigger] &m.constrs@[j],
                    n as int,
                    j - (3 * n - 1) + 1,
                ),
        decreases n - 1 - k,
    {
        let c = diag_down_col_constraint(n, k);
        m.add_constr(c);
        k = k + 1;
    }

    // Up-right diagonals starting in the first column.
    let mut k: usize = 1;
    while k < n
        invariant
            1 <= n,
            n * n <= i64::MAX,
            n * n <= usize::MAX,
            1 <= k <= n,
            len3 == (if n >= 2 { n - 2 } else { 0int }),
            m.vars@ == Seq::new((n * n) as nat, |t: int| cell_var(t / n as int, t % n as int)),
            m.objective is None,
            m.constrs@.len() == 3 * n - 1 + len3 + (k - 1),
            forall|j: int| 0 <= j < n ==> row_constraint_ok(#[trigger] &m.constrs@[j], n as int, j),
            forall|j: int|
                n <= j < 2 * n ==> col_constraint_ok(#[trigger] &m.constrs@[j], n as int, j - n),
            forall|j: int|
                2 * n <= j < 3 * n - 1 ==> diag_down_row_ok(
                    #[trigger] &m.constrs@[j],
                    n as int,
                    j - 2 * n,
                ),
            forall|j: int|
                3 * n - 1 <= j < 3 * n - 1 + len3 ==> diag_down_col_ok(
                    #[trigger] &m.constrs@[j],
                    n as int,
                    j - (3 * n - 1) + 1,
                ),
            forall|j: int|
                3 * n - 1 + len3 <= j < 3 * n - 1 + len3 + (k - 1) ==> diag_up_row_ok(
                    #[trigger] &m.constrs@[j],
                    n as int,
                    j - (3 * n - 1 + len3) + 1,
                ),
        decreases n - k,
    {
        let c = diag_up_row_constraint(n, k);
        m.add_constr(c);
        k = k + 1;
    }

    // Up-right diagonals through the last row.
    let mut k: usize = 1;
    while k < n - 1
        invariant
            1 <= n,
            n * n <= i64::MAX,
            n * n <= usize::MAX,
            1 <= k <= n - 1 || (n == 1 && k == 1),
            len3 == (if n >= 2 { n - 2 } else { 0int }),
            m.vars@ == Seq::new((n * n) as nat, |t: int| cell_var(t / n as int, t % n as int)),
            m.objective is None,
            m.constrs@.len() == 4 * n - 2 + len3 + (k - 1),
            forall|j: int| 0 <= j < n ==> row_constraint_ok(#[trigger] &m.constrs@[j], n as int, j),
            forall|j: int|
                n <= j < 2 * n ==> col_constraint_ok(#[trigger] &m.constrs@[j], n as int, j - n),
            forall|j: int|
                2 * n <= j < 3 * n - 1 ==> diag_down_row_ok(
                    #[trigger] &m.constrs@[j],
                    n as int,
                    j - 2 * n,
                ),
            forall|j: int|
                3 * n - 1 <= j < 3 * n - 1 + len3 ==> diag_down_col_ok(
                    #[trigger] &m.constrs@[j],
                    n as int,
                    j - (3 * n - 1) + 1,
                ),
            forall|j: int|
                3 * n - 1 + len3 <= j < 4 * n - 2 + len3 ==> diag_up_row_ok(
                    #[trigger] &m.constrs@[j],
                    n as int,
                    j - (3 * n - 1 + len3) + 1,
                ),
            forall|j: int|
                4 * n - 2 + len3 <= j < 4 * n - 2 + len3 + (k - 1) ==> diag_up_col_ok(
                    #[trigger] &m.constrs@[j],
                    n as int,
                    j - (4 * n - 2 + len3) + 1,
                ),
        decreases n - 1 - k,
    {
        let c = diag_up_col_constraint(n, k);
        m.add_constr(c);
        k = k + 1;
    }

    proof {
        let ni = n as int;
        // Every constraint's terms point inside the board's variable range.
        assert forall|c: int, t: int|
            0 <= c < m.constrs@.len() && 0 <= t < m.constrs@[c].terms@.len() implies (
        #[trigger] m.constrs@[c].terms@[t]).var < m.vars@.len() by {
            if c < ni {
                assert(row_constraint_ok(&m.constrs@[c], ni, c));
                lemma_cell_index_bound(c, t, ni);
            } else if c < 2 * ni {
                assert(col_constraint_ok(&m.constrs@[c], ni, c - ni));
                lemma_cell_index_bound(t, c - ni, ni);
            } else if c < 3 * ni - 1 {
                assert(diag_down_row_ok(&m.constrs@[c], ni, c - 2 * ni));
                lemma_cell_index_bound(c - 2 * ni + t, t, ni);
            } else if c < 3 * ni - 1 + len3 {
                assert(diag_down_col_ok(&m.constrs@[c], ni, c - (3 * ni - 1) + 1));
                lemma_cell_index_bound(t, c - (3 * ni - 1) + 1 + t, ni);
            } else if c < 4 * ni - 2 + len3 {
                assert(diag_up_row_ok(&m.constrs@[c], ni, c - (3 * ni - 1 + len3) + 1));
                lemma_cell_index_bound(c - (3 * ni - 1 + len3) + 1 - t, t, ni);
            } else {
                assert(diag_up_col_ok(&m.constrs@[c], ni, c - (4 * ni - 2 + len3) + 1));
                lemma_cell_index_bound(ni - 1 - t, c - (4 * ni - 2 + len3) + 1 + t, ni);
            }
        }
        assert(m.wf());
        // Names are unique: the board coordinates recover the position.
        assert forall|a: int, b: int|
            0 <= a < b < m.vars@.len() implies (#[trigger] m.vars@[a]).name != (
        #[trigger] m.vars@[b]).name by {
            assert(m.vars@[a] == cell_var(a / ni, a % ni));
            assert(m.vars@[b] == cell_var(b / ni, b % ni));
            vstd::arithmetic::div_mod::lemma_fundamental_div_mod(a, ni);
            vstd::arithmetic::div_mod::lemma_fundamental_div_mod(b, ni);
            vstd::arithmetic::div_mod::lemma_div_nonincreasing(a, ni);
            vstd::arithmetic::div_mod::lemma_div_nonincreasing(b, ni);
            vstd::arithmetic::div_mod::lemma_div_pos_is_pos(a, ni);
            vstd::arithmetic::div_mod::lemma_div_pos_is_pos(b, ni);
            if a / ni == b / ni && a % ni == b % ni {
                assert(ni * (a / ni) == ni * (b / ni)) by (nonlinear_arith)
                    requires
                        a / ni == b / ni,
                ;
                assert(a == b);
            }
        }
        assert(m.names_unique());
    }
    m
}

/// Turns a terminal status and the model's per-variable values into the
/// solved placement matrix.  Where a placement is demanded, an infeasible
/// model is its own failure, any other non-optimal status is an unknown
/// solve failure, and an optimal status with a value vector of the wrong
/// length is a shape error.
pub fn n_queen_solution(n: usize, status: SolveStatus, values: Vec<Scalar>) -> (r: Result<
    Matrix,
    Error,
>)
    requires
        n * n <= usize::MAX,
    ensures
        status is Optimal && values@.len() == n * n ==> (r matches Ok(m) && m.rows == n && m.cols
            == n && m.data@ == values@ && m.wf()),
        status is Optimal && values@.len() != n * n ==> (r matches Err(e) && e
            == Error::ShapeMismatch),
        status is Infeasible ==> (r matches Err(e) && e == Error::Infeasible),
        !(status is Optimal) && !(status is Infeasible) ==> (r matches Err(e) && e
            == Error::SolveFailed),
{
    match status {
        SolveStatus::Optimal => Matrix::from_vec(n, n, values),
        SolveStatus::Infeasible => Err(Error::Infeasible),
        _ => Err(Error::SolveFailed),
    }
}

} // verus!
