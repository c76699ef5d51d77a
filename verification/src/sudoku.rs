//! The Sudoku cell-assignment model.
//!
//! Another restatement of the horizon problem's assembly pattern, over a
//! three-dimensional family of 0/1 variables: `x[i, j, v]` says that cell
//! `(i, j)` of the 9-by-9 grid takes value `v + 1`.  Four exactly-one
//! constraint families (per cell, per row and value, per column and value,
//! per subgrid and value) and a lower-bound pin on one binary variable per
//! pre-specified cell.  `parse_grid` reads the given cells out of a grid
//! text, and `decode_solution` folds a solved 0/1 assignment back into the
//! 81 digits.

use vstd::prelude::*;

use crate::model::CmpSense;
use crate::model::Domain;
use crate::model::Error;
use crate::model::LinConstraint;
use crate::model::LinTerm;
use crate::model::OptModel;
use crate::model::Series;
use crate::model::VarDecl;
use crate::model::VarName;
use crate::scalar::Scalar;
use crate::scalar::SCALE;
use crate::scalar::div_trunc;
use crate::scalar::raw_seq;
use crate::scalar::scale_trunc;
use crate::scalar::lemma_div_trunc_bounded;

verus! {

/// Whether the given cells pin variable `t` to one: its cell is inside the
/// given grid and carries the digit `t % 9 + 1`.
pub open spec fn pin_at(grid: Seq<u8>, t: int) -> bool {
    let cell = t / 9;
    let v = t % 9;
    &&& cell < grid.len()
    &&& 1 <= grid[cell] <= 9
    &&& v == grid[cell] - 1
}

/// The declaration of variable `t` (cell `t / 81 , (t / 9) % 9`, value
/// `t % 9`): a 0/1 variable, with its lower bound pinned to one when the
/// given cells fix it.
pub open spec fn sudoku_var(grid: Seq<u8>, t: int) -> VarDecl {
    VarDecl {
        name: VarName {
            scope: 0,
            series: Series::Cell,
            i: (t / 81) as i64,
            j: ((t / 9) % 9) as i64,
            k: (t % 9) as i64,
        },
        domain: if pin_at(grid, t) {
            Domain::BinaryPinnedOne
        } else {
            Domain::Binary
        },
    }
}

/// The declaration of variable `t` before any pin is applied.
pub open spec fn unpinned_var(t: int) -> VarDecl {
    VarDecl {
        name: VarName {
            scope: 0,
            series: Series::Cell,
            i: (t / 81) as i64,
            j: ((t / 9) % 9) as i64,
            k: (t % 9) as i64,
        },
        domain: Domain::Binary,
    }
}

/// The declaration of variable `t` once the pins of the first `q` cells have
/// been applied.
pub open spec fn partly_pinned_var(grid: Seq<u8>, t: int, q: int) -> VarDecl {
    VarDecl {
        name: VarName {
            scope: 0,
            series: Series::Cell,
            i: (t / 81) as i64,
            j: ((t / 9) % 9) as i64,
            k: (t % 9) as i64,
        },
        domain: if pin_at(grid, t) && t / 9 < q {
            Domain::BinaryPinnedOne
        } else {
            Domain::Binary
        },
    }
}

/// Cell `b / 9, b % 9` takes exactly one value: its nine variables sum to
/// one.
pub open spec fn cell_value_ok(c: &LinConstraint, b: int) -> bool {
    let i = b / 9;
    let j = b % 9;
    &&& c.sense == CmpSense::Equal
    &&& c.rhs.raw == SCALE
    &&& c.terms@.len() == 9
    &&& forall|v: int|
        0 <= v < 9 ==> (#[trigger] c.terms@[v]).var as int == i * 81 + j * 9 + v
            && c.terms@[v].coeff.raw == SCALE
}

/// Value `b % 9` appears exactly once in row `b / 9`.
pub open spec fn row_value_ok(c: &LinConstraint, b: int) -> bool {
    let i = b / 9;
    let v = b % 9;
    &&& c.sense == CmpSense::Equal
    &&& c.rhs.raw == SCALE
    &&& c.terms@.len() == 9
    &&& forall|j: int|
        0 <= j < 9 ==> (#[trigger] c.terms@[j]).var as int == i * 81 + j * 9 + v
            && c.terms@[j].coeff.raw == SCALE
}

/// Value `b % 9` appears exactly once in column `b / 9`.
pub open spec fn col_value_ok(c: &LinConstraint, b: int) -> bool {
    let j = b / 9;
    let v = b % 9;
    &&& c.sense == CmpSense::Equal
    &&& c.rhs.raw == SCALE
    &&& c.terms@.len() == 9
    &&& forall|i: int|
        0 <= i < 9 ==> (#[trigger] c.terms@[i]).var as int == i * 81 + j * 9 + v
            && c.terms@[i].coeff.raw == SCALE
}

/// Value `b % 9` appears exactly once in the 3-by-3 subgrid at block row
/// `b / 27` and block column `(b / 9) % 3`.
pub open spec fn subgrid_value_ok(c: &LinConstraint, b: int) -> bool {
    let i0 = b / 27;
    let j0 = (b / 9) % 3;
    let v = b % 9;
    &&& c.sense == CmpSense::Equal
    &&& c.rhs.raw == SCALE
    &&& c.terms@.len() == 9
    &&& forall|s: int|
        0 <= s < 9 ==> (#[trigger] c.terms@[s]).var as int == (3 * i0 + s / 3) * 81 + (3 * j0 + s
            % 3) * 9 + v && c.terms@[s].coeff.raw == SCALE
}

/// Everything `sudoku_model` promises: the 729 cell-value variables in
/// lexicographic order with the given cells pinned, no objective, and the
/// four constraint families in order.
pub open spec fn sudoku_model_ok(m: &OptModel, grid: Seq<u8>) -> bool {
    &&& m.vars@.len() == 729
    &&& forall|t: int| 0 <= t < 729 ==> #[trigger] m.vars@[t] == sudoku_var(grid, t)
    &&& m.objective is None
    &&& m.constrs@.len() == 324
    &&& forall|k: int| 0 <= k < 81 ==> cell_value_ok(#[trigger] &m.constrs@[k], k)
    &&& forall|k: int| 81 <= k < 162 ==> row_value_ok(#[trigger] &m.constrs@[k], k - 81)
    &&& forall|k: int| 162 <= k < 243 ==> col_value_ok(#[trigger] &m.constrs@[k], k - 162)
    &&& forall|k: int| 243 <= k < 324 ==> subgrid_value_ok(#[trigger] &m.constrs@[k], k - 243)
    &&& m.wf()
    &&& m.names_unique()
}

/// One exactly-one constraint over the nine values of cell `b`.
fn cell_value_constraint(b: usize) -> (c: LinConstraint)
    requires
        b < 81,
    ensures
        cell_value_ok(&c, b as int),
{
    let i = b / 9;
    let j = b % 9;
    let mut terms: Vec<LinTerm> = Vec::new();
    let mut v: usize = 0;
    while v < 9
        invariant
            b < 81,
            i == b / 9,
            j == b % 9,
            v <= 9,
            terms@.len() == v,
            forall|s: int|
                0 <= s < v ==> (#[trigger] terms@[s]).var as int == (b / 9) * 81 + (b % 9) * 9 + s
                    && terms@[s].coeff.raw == SCALE,
        decreases 9 - v,
    {
        terms.push(LinTerm { var: i * 81 + j * 9 + v, coeff: Scalar { raw: SCALE } });
        v = v + 1;
    }
    LinConstraint { terms, sense: CmpSense::Equal, rhs: Scalar { raw: SCALE } }
}

/// One exactly-one constraint for value `b % 9` over row `b / 9`.
fn row_value_constraint(b: usize) -> (c: LinConstraint)
    requires
        b < 81,
    ensures
        row_value_ok(&c, b as int),
{
    let i = b / 9;
    let v = b % 9;
    let mut terms: Vec<LinTerm> = Vec::new();
    let mut j: usize = 0;
    while j < 9
        invariant
            b < 81,
            i == b / 9,
            v == b % 9,
            j <= 9,
            terms@.len() == j,
            forall|s: int|
                0 <= s < j ==> (#[trigger] terms@[s]).var as int == (b / 9) * 81 + s * 9 + (b % 9)
                    && terms@[s].coeff.raw == SCALE,
        decreases 9 - j,
    {
        terms.push(LinTerm { var: i * 81 + j * 9 + v, coeff: Scalar { raw: SCALE } });
        j = j + 1;
    }
    LinConstraint { terms, sense: CmpSense::Equal, rhs: Scalar { raw: SCALE } }
}

/// One exactly-one constraint for value `b % 9` over column `b / 9`.
fn col_value_constraint(b: usize) -> (c: LinConstraint)
    requires
        b < 81,
    ensures
        col_value_ok(&c, b as int),
{
    let j = b / 9;
    let v = b % 9;
    let mut terms: Vec<LinTerm> = Vec::new();
    let mut i: usize = 0;
    while i < 9
        invariant
            b < 81,
            j == b / 9,
            v == b % 9,
            i <= 9,
            terms@.len() == i,
            forall|s: int|
                0 <= s < i ==> (#[trigger] terms@[s]).var as int == s * 81 + (b / 9) * 9 + (b % 9)
                    && terms@[s].coeff.raw == SCALE,
        decreases 9 - i,
    {
        terms.push(LinTerm { var: i * 81 + j * 9 + v, coeff: Scalar { raw: SCALE } });
        i = i + 1;
    }
    LinConstraint { terms, sense: CmpSense::Equal, rhs: Scalar { raw: SCALE } }
}

/// One exactly-one constraint for value `b % 9` over the subgrid at block
/// row `b / 27`, block column `(b / 9) % 3`.
fn subgrid_value_constraint(b: usize) -> (c: LinConstraint)
    requires
        b < 81,
    ensures
        subgrid_value_ok(&c, b as int),
{
    let i0 = b / 27;
    let j0 = (b / 9) % 3;
    let v = b % 9;
    let mut terms: Vec<LinTerm> = Vec::new();
    let mut s: usize = 0;
    while s < 9
        invariant
            b < 81,
            i0 == b / 27,
            j0 == (b / 9) % 3,
            v == b % 9,
            s <= 9,
            terms@.len() == s,
            forall|q: int|
                0 <= q < s ==> (#[trigger] terms@[q]).var as int == (3 * (b / 27) + q / 3) * 81 + (
                3 * ((b / 9) % 3) + q % 3) * 9 + (b % 9) && terms@[q].coeff.raw == SCALE,
        decreases 9 - s,
    {
        let i1 = s / 3;
        let j1 = s % 3;
        terms.push(
            LinTerm { var: (3 * i0 + i1) * 81 + (3 * j0 + j1) * 9 + v, coeff: Scalar { raw: SCALE } },
        );
        s = s + 1;
    }
    LinConstraint { terms, sense: CmpSense::Equal, rhs: Scalar { raw: SCALE } }
}

/// Builds the Sudoku cell-assignment model from the given cells (one entry
/// per cell in row-major order, a digit 1 to 9 for a pre-specified cell,
/// anything else for an empty one; cells past the end of the vector are
/// empty, entries past the 81st are ignored).
pub fn sudoku_model(grid: &Vec<u8>) -> (m: OptModel)
    ensures
        sudoku_model_ok(&m, grid@),
{
    let mut m = OptModel::new();

    // The 729 cell-value variables, in lexicographic (i, j, v) order.
    let mut t: usize = 0;
    while t < 729
        invariant
            t <= 729,
            m.vars@.len() == t,
            forall|s: int|
                0 <= s < t ==> #[trigger] m.vars@[s] == unpinned_var(s),
            m.constrs@.len() == 0,
            m.objective is None,
        decreases 729 - t,
    {
        let i = t / 81;
        let j = (t / 9) % 9;
        let v = t % 9;
        m.add_var(
            VarName { scope: 0, series: Series::Cell, i: i as i64, j: j as i64, k: v as i64 },
            Domain::Binary,
        );
        t = t + 1;
    }

    // Each cell takes exactly one value.
    let mut b: usize = 0;
    while b < 81
        invariant
            b <= 81,
            m.vars@.len() == 729,
            forall|s: int|
                0 <= s < 729 ==> #[trigger] m.vars@[s] == unpinned_var(s),
            m.objective is None,
            m.constrs@.len() == b,
            forall|k: int| 0 <= k < b ==> cell_value_ok(#[trigger] &m.constrs@[k], k),
        decreases 81 - b,
    {
        let c = cell_value_constraint(b);
        m.add_constr(c);
        b = b + 1;
    }

    // Each value appears once per row.
    let mut b: usize = 0;
    while b < 81
        invariant
            b <= 81,
            m.vars@.len() == 729,
            forall|s: int|
                0 <= s < 729 ==> #[trigger] m.vars@[s] == unpinned_var(s),
            m.objective is None,
            m.constrs@.len() == 81 + b,
            forall|k: int| 0 <= k < 81 ==> cell_value_ok(#[trigger] &m.constrs@[k], k),
            forall|k: int| 81 <= k < 81 + b ==> row_value_ok(#[trigger] &m.constrs@[k], k - 81),
        decreases 81 - b,
    {
        let c = row_value_constraint(b);
        m.add_constr(c);
        b = b + 1;
    }

    // Each value appears once per column.
    let mut b: usize = 0;
    while b < 81
        invariant
            b <= 81,
            m.vars@.len() == 729,
            forall|s: int|
                0 <= s < 729 ==> #[trigger] m.vars@[s] == unpinned_var(s),
            m.objective is None,
            m.constrs@.len() == 162 + b,
            forall|k: int| 0 <= k < 81 ==> cell_value_ok(#[trigger] &m.constrs@[k], k),
            forall|k: int| 81 <= k < 162 ==> row_value_ok(#[trigger] &m.constrs@[k], k - 81),
            forall|k: int| 162 <= k < 162 + b ==> col_value_ok(#[trigger] &m.constrs@[k], k - 162),
        decreases 81 - b,
    {
        let c = col_value_constraint(b);
        m.add_constr(c);
        b = b + 1;
    }

    // Each value appears once per subgrid.
    let mut b: usize = 0;
    while b < 81
        invariant
            b <= 81,
            m.vars@.len() == 729,
            forall|s: int|
                0 <= s < 729 ==> #[trigger] m.vars@[s] == unpinned_var(s),
            m.objective is None,
            m.constrs@.len() == 243 + b,
            forall|k: int| 0 <= k < 81 ==> cell_value_ok(#[trigger] &m.constrs@[k], k),
            forall|k: int| 81 <= k < 162 ==> row_value_ok(#[trigger] &m.constrs@[k], k - 81),
            forall|k: int| 162 <= k < 243 ==> col_value_ok(#[trigger] &m.constrs@[k], k - 162),
            forall|k: int|
                243 <= k < 243 + b ==> subgrid_value_ok(#[trigger] &m.constrs@[k], k - 243),
        decreases 81 - b,
    {
        let c = subgrid_value_constraint(b);
        m.add_constr(c);
        b = b + 1;
    }

    // Pin the variables of the pre-specified cells.
    let mut q: usize = 0;
    let given = if grid.len() < 81 {
        grid.len()
    } else {
        81
    };
    while q < given
        invariant
            q <= given,
            given == (if grid@.len() < 81 {
                grid@.len() as int
            } else {
                81int
            }),
            m.vars@.len() == 729,
            forall|s: int|
                0 <= s < 729 ==> #[trigger] m.vars@[s] == partly_pinned_var(grid@, s, q as int),
            m.objective is None,
            m.constrs@.len() == 324,
            forall|k: int| 0 <= k < 81 ==> cell_value_ok(#[trigger] &m.constrs@[k], k),
            forall|k: int| 81 <= k < 162 ==> row_value_ok(#[trigger] &m.constrs@[k], k - 81),
            forall|k: int| 162 <= k < 243 ==> col_value_ok(#[trigger] &m.constrs@[k], k - 162),
            forall|k: int| 243 <= k < 324 ==> subgrid_value_ok(#[trigger] &m.constrs@[k], k - 243),
        decreases given - q,
    {
        let val = grid[q];
        if 1 <= val && val <= 9 {
            let t = q * 9 + (val as usize - 1);
            proof {
                assert(t as int / 9 == q && t as int % 9 == val - 1) by (nonlinear_arith)
                    requires
                        t == q * 9 + (val - 1),
                        0 <= q,
                        1 <= val <= 9,
                ;
                assert(pin_at(grid@, t as int));
            }
            m.pin_binary_one(t);
            proof {
                assert forall|s: int| 0 <= s < 729 implies #[trigger] m.vars@[s] == partly_pinned_var(grid@, s, q + 1) by {
                    if s != t {
                        if s / 9 == q {
                            // Two distinct variables of one cell pin distinct
                            // values, and this cell pins exactly one.
                            assert(s == (s / 9) * 9 + s % 9);
                            if pin_at(grid@, s) {
                                assert(s % 9 == val - 1);
                                assert(s == t);
                            }
                        }
                    }
                }
            }
        } else {
            proof {
                assert forall|s: int| 0 <= s < 729 && s / 9 == q implies !pin_at(grid@, s) by {
                }
            }
        }
        q = q + 1;
    }
    proof {
        assert forall|s: int| 0 <= s < 729 implies #[trigger] m.vars@[s] == sudoku_var(grid@, s) by {
            vstd::arithmetic::div_mod::lemma_div_pos_is_pos(s, 9);
            vstd::arithmetic::div_mod::lemma_div_is_ordered(s, 728, 9);
            if pin_at(grid@, s) {
                assert(s / 9 < given);
            }
        }
        // Every constraint's terms point at one of the 729 variables.
        assert forall|c: int, t: int|
            0 <= c < m.constrs@.len() && 0 <= t < m.constrs@[c].terms@.len() implies (
        #[trigger] m.constrs@[c].terms@[t]).var < m.vars@.len() by {
            if c < 81 {
                assert(cell_value_ok(&m.constrs@[c], c));
                lemma_sudoku_index_bound(c / 9, c % 9, t);
            } else if c < 162 {
                assert(row_value_ok(&m.constrs@[c], c - 81));
                lemma_sudoku_index_bound((c - 81) / 9, t, (c - 81) % 9);
            } else if c < 243 {
                assert(col_value_ok(&m.constrs@[c], c - 162));
                lemma_sudoku_index_bound(t, (c - 162) / 9, (c - 162) % 9);
            } else {
                assert(subgrid_value_ok(&m.constrs@[c], c - 243));
                let b = c - 243;
                lemma_sudoku_index_bound(3 * (b / 27) + t / 3, 3 * ((b / 9) % 3) + t % 3, b % 9);
            }
        }
        assert(m.wf());
        // Names are unique: the three coordinates recover the position.
        assert forall|a: int, b: int|
            0 <= a < b < m.vars@.len() implies (#[trigger] m.vars@[a]).name != (
        #[trigger] m.vars@[b]).name by {
            lemma_sudoku_name_recovers(a);
            lemma_sudoku_name_recovers(b);
        }
        assert(m.names_unique());
    }
    m
}

/// A cell-value coordinate triple stays inside the 729 variable positions.
proof fn lemma_sudoku_index_bound(i: int, j: int, v: int)
    requires
        0 <= i < 9,
        0 <= j < 9,
        0 <= v < 9,
    ensures
        0 <= i * 81 + j * 9 + v < 729,
{
}

/// The three name coordinates of a variable position recover the position:
/// `t == 81 * (t / 81) + 9 * ((t / 9) % 9) + t % 9`.
proof fn lemma_sudoku_name_recovers(t: int)
    requires
        0 <= t < 729,
    ensures
        t == 81 * (t / 81) + 9 * ((t / 9) % 9) + t % 9,
        0 <= t / 81 < 9,
        0 <= (t / 9) % 9 < 9,
        0 <= t % 9 < 9,
{
    vstd::arithmetic::div_mod::lemma_fundamental_div_mod(t, 9);
    vstd::arithmetic::div_mod::lemma_fundamental_div_mod(t / 9, 9);
    vstd::arithmetic::div_mod::lemma_mod_bound(t, 9);
    vstd::arithmetic::div_mod::lemma_mod_bound(t / 9, 9);
    vstd::arithmetic::div_mod::lemma_div_pos_is_pos(t, 9);
    vstd::arithmetic::div_mod::lemma_div_is_ordered(t, 728, 9);
    vstd::arithmetic::div_mod::lemma_div_denominator(t, 9, 9);
    vstd::arithmetic::div_mod::lemma_div_pos_is_pos(t / 9, 9);
    vstd::arithmetic::div_mod::lemma_div_is_ordered(t / 9, 80, 9);
}


/// Whether a byte is grid-layout whitespace (line break, blank, tab), which
/// separates rows in a grid text and marks no cell.
pub open spec fn is_layout(b: u8) -> bool {
    b == 10 || b == 13 || b == 32 || b == 9
}

/// The digit a grid-text byte gives its cell: `1` to `9` for the digit
/// characters, `0` (an empty cell) for anything else.
pub open spec fn cell_of(b: u8) -> u8 {
    if 49 <= b <= 57 {
        (b - 48) as u8
    } else {
        0
    }
}

/// The cells a grid text denotes, in reading order: layout whitespace is
/// skipped, every other byte is one cell.
pub open spec fn parsed_cells(text: Seq<u8>) -> Seq<u8>
    decreases text.len(),
{
    if text.len() == 0 {
        Seq::empty()
    } else if is_layout(text.last()) {
        parsed_cells(text.drop_last())
    } else {
        parsed_cells(text.drop_last()).push(cell_of(text.last()))
    }
}

/// Reads a grid text into per-cell digits.
pub fn parse_grid(text: &Vec<u8>) -> (cells: Vec<u8>)
    ensures
        cells@ == parsed_cells(text@),
        forall|i: int| 0 <= i < cells@.len() ==> #[trigger] cells@[i] <= 9,
{
    let mut cells: Vec<u8> = Vec::new();
    let mut t: usize = 0;
    while t < text.len()
        invariant
            t <= text@.len(),
            cells@ == parsed_cells(text@.subrange(0, t as int)),
            forall|i: int| 0 <= i < cells@.len() ==> #[trigger] cells@[i] <= 9,
        decreases text@.len() - t,
    {
        let b = text[t];
        if !(b == 10 || b == 13 || b == 32 || b == 9) {
            if 49 <= b && b <= 57 {
                cells.push(b - 48);
            } else {
                cells.push(0);
            }
        }
        t = t + 1;
        proof {
            let prefix = text@.subrange(0, t as int);
            assert(prefix.drop_last() =~= text@.subrange(0, t - 1));
            assert(prefix.last() == text@[t - 1]);
        }
    }
    proof {
        assert(text@.subrange(0, text@.len() as int) =~= text@);
    }
    cells
}

/// The digit the solved assignment encodes for cell `b` after folding its
/// first `v` values: the sum over those values of the value times the
/// truncated whole-unit part of its 0/1 variable.
pub open spec fn cell_digit(vals: Seq<int>, b: int, v: int) -> int
    decreases v,
{
    if v <= 0 {
        0
    } else {
        cell_digit(vals, b, v - 1) + v * div_trunc(vals[b * 9 + (v - 1)], SCALE as int)
    }
}

/// Folds a solved per-variable assignment back into the 81 cell digits, in
/// reading order: each variable's value is truncated to its whole-unit part
/// and weighted by the value it stands for (for a solved model the parts are
/// 0 or 1, so each cell's sum is its digit).  A value vector of the wrong
/// length is a hard failure.
pub fn decode_solution(values: &Vec<Scalar>) -> (r: Result<Vec<i64>, Error>)
    ensures
        values@.len() != 729 ==> (r matches Err(e) && e == Error::InconsistentDims),
        values@.len() == 729 ==> (r matches Ok(d) && d@.len() == 81 && forall|b: int|
            0 <= b < 81 ==> #[trigger] d@[b] == cell_digit(raw_seq(values@), b, 9)),
{
    if values.len() != 729 {
        return Err(Error::InconsistentDims);
    }
    let mut digits: Vec<i64> = Vec::new();
    let mut b: usize = 0;
    while b < 81
        invariant
            values@.len() == 729,
            b <= 81,
            digits@.len() == b,
            forall|q: int|
                0 <= q < b ==> #[trigger] digits@[q] == cell_digit(raw_seq(values@), q, 9),
        decreases 81 - b,
    {
        let mut acc: i64 = 0;
        let mut v: usize = 0;
        while v < 9
            invariant
                values@.len() == 729,
                b < 81,
                v <= 9,
                acc == cell_digit(raw_seq(values@), b as int, v as int),
                -83_010_348_331_695 * v <= acc <= 83_010_348_331_695 * v,
            decreases 9 - v,
        {
            let q = scale_trunc(values[b * 9 + v].raw);
            proof {
                lemma_div_trunc_bounded(
                    values@[b * 9 + v].raw as int,
                    SCALE as int,
                    9_223_372_036_855,
                );
                assert(raw_seq(values@)[b * 9 + v] == values@[b * 9 + v].raw as int);
                assert(-83_010_348_331_695 <= (v + 1) * (q as int) <= 83_010_348_331_695)
                    by (nonlinear_arith)
                    requires
                        0 <= v < 9,
                        -9_223_372_036_855 <= q <= 9_223_372_036_855,
                ;
            }
            acc = acc + ((v as i64) + 1) * q;
            v = v + 1;
        }
        digits.push(acc);
        b = b + 1;
    }
    Ok(digits)
}

} // verus!
