//! A two-dimensional view over a flat value vector.
//!
//! The constraint-model builders flatten an `n`-by-`n` (or deeper) index
//! space into a linear variable store; this type is the explicit, bounds-
//! checked reshape of the flat per-variable value vector a solver hands back.

use vstd::prelude::*;

use crate::model::Error;
use crate::scalar::Scalar;

verus! {

/// A `rows`-by-`cols` matrix of scalars held as one flat row-major vector.
pub struct Matrix {
    pub rows: usize,
    pub cols: usize,
    pub data: Vec<Scalar>,
}

impl Matrix {
    /// The flat store holds exactly one entry per position.
    pub open spec fn wf(&self) -> bool {
        self.data@.len() == self.rows * self.cols
    }

    /// Reshapes a flat vector into a `rows`-by-`cols` matrix; a vector of any
    /// other length is a shape error.
    pub fn from_vec(rows: usize, cols: usize, data: Vec<Scalar>) -> (r: Result<Matrix, Error>)
        requires
            rows * cols <= usize::MAX,
        ensures
            data@.len() == rows * cols ==> (r matches Ok(m) && m.rows == rows && m.cols == cols
                && m.data@ == data@ && m.wf()),
            data@.len() != rows * cols ==> (r matches Err(e) && e == Error::ShapeMismatch),
    {
        if data.len() != rows * cols {
            return Err(Error::ShapeMismatch);
        }
        Ok(Matrix { rows, cols, data })
    }

    /// Bounds-checked access by row and column.
    pub fn at(&self, r: usize, c: usize) -> (v: Scalar)
        requires
            self.wf(),
            r < self.rows,
            c < self.cols,
        ensures
            v == self.data@[r * self.cols + c],
    {
        let len = self.data.len();
        proof {
            assert(r * self.cols + c < self.rows * self.cols) by (nonlinear_arith)
                requires
                    r < self.rows,
                    c < self.cols,
            ;
            assert(self.rows * self.cols == len);
        }
        self.data[r * self.cols + c]
    }
}

} // verus!
