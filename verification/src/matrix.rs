//! A dense, row-major weight matrix whose entries are raw fixed-point
//! values kept inside the representable band.

use vstd::prelude::*;
use vstd::arithmetic::div_mod::lemma_fundamental_div_mod_converse;
use crate::errors::Error;
use crate::fixed::in_cap;

verus! {

/// One dense matrix of connection weights. Row 0 and column 0 belong to
/// the bias units of the two layers it joins.
#[derive(Debug)]
pub struct Matrix {
    pub rows: usize,
    pub cols: usize,
    pub data: Vec<i64>,
}

impl Matrix {
    /// The storage matches the declared shape and every entry is a
    /// representable fixed-point value.
    pub open spec fn wf(self) -> bool {
        &&& self.data.len() == self.rows * self.cols
        &&& forall|k: int| 0 <= k < self.data.len() ==> in_cap(#[trigger] self.data[k] as int)
    }

    /// The entry at row `i`, column `j`.
    pub open spec fn at(self, i: int, j: int) -> i64 {
        self.data[i * self.cols + j]
    }

    /// The degenerate placeholder for the transition into layer 0.
    pub fn empty() -> (m: Matrix)
        ensures
            m.wf(),
            m.rows == 0,
            m.cols == 0,
            m.data@ == Seq::<i64>::empty(),
    {
        let m = Matrix { rows: 0, cols: 0, data: Vec::new() };
        proof {
            assert(m.data@ =~= Seq::<i64>::empty());
        }
        m
    }

    /// Bounds-checked read of one weight.
    pub fn get(&self, i: usize, j: usize) -> (r: Result<i64, Error>)
        requires
            self.wf(),
        ensures
            match r {
                Ok(v) => i < self.rows && j < self.cols && v == self.at(i as int, j as int),
                Err(e) => e == Error::IndexOutOfBounds && (i >= self.rows || j >= self.cols),
            },
    {
        if i < self.rows && j < self.cols {
            Ok(self.entry(i, j))
        } else {
            Err(Error::IndexOutOfBounds)
        }
    }

    /// Bounds-checked write of one weight.
    pub fn put(&mut self, i: usize, j: usize, value: i64) -> (r: Result<(), Error>)
        requires
            old(self).wf(),
            in_cap(value as int),
        ensures
            final(self).rows == old(self).rows,
            final(self).cols == old(self).cols,
            final(self).wf(),
            match r {
                Ok(()) => i < old(self).rows && j < old(self).cols && final(self).data@
                    == old(self).data@.update(i * old(self).cols + j, value),
                Err(e) => e == Error::IndexOutOfBounds && (i >= old(self).rows || j
                    >= old(self).cols) && *final(self) == *old(self),
            },
    {
        if i < self.rows && j < self.cols {
            proof {
                lemma_flat_index(i as int, j as int, self.rows as int, self.cols as int);
            }
            let k: usize = i * self.cols + j;
            self.data[k] = value;
            Ok(())
        } else {
            Err(Error::IndexOutOfBounds)
        }
    }

    /// Unchecked read used by the verified engine, whose loops already
    /// stay inside the shape.
    pub fn entry(&self, i: usize, j: usize) -> (v: i64)
        requires
            self.wf(),
            i < self.rows,
            j < self.cols,
        ensures
            v == self.at(i as int, j as int),
            in_cap(v as int),
    {
        proof {
            lemma_flat_index(i as int, j as int, self.rows as int, self.cols as int);
        }
        let k: usize = i * self.cols + j;
        self.data[k]
    }
}

/// Row-major flattening keeps in-shape indices inside the storage.
pub proof fn lemma_flat_index(i: int, j: int, rows: int, cols: int)
    requires
        0 <= i < rows,
        0 <= j < cols,
    ensures
        0 <= i * cols + j < rows * cols,
        (i * cols + j) / cols == i,
        (i * cols + j) % cols == j,
{
    assert(0 <= i * cols + j < rows * cols) by (nonlinear_arith)
        requires
            0 <= i < rows,
            0 <= j < cols,
    ;
    lemma_fundamental_div_mod_converse(i * cols + j, cols, i, j);
}

} // verus!
