use vstd::prelude::*;
use vstd::slice::slice_subrange;

use crate::error::Error;

verus! {

broadcast use vstd::std_specs::vec::group_vec_axioms;

/// A fixed-size dense two-dimensional container over a single contiguous
/// buffer, laid out row-major: logical cell `(r, c)` lives at offset
/// `r * cols + c`. The shape is fixed at construction and the buffer always
/// holds exactly `rows * cols` elements; a construction that cannot satisfy
/// that fails with [`Error::ShapeMismatch`] rather than deferring the fault.
#[derive(Clone, Debug)]
pub struct Vec2d<T> {
    vec: Vec<T>,
    row: usize,
    col: usize,
}

impl<T> View for Vec2d<T> {
    type V = Seq<T>;

    closed spec fn view(&self) -> Seq<T> {
        self.vec@
    }
}

/// The row-major offset of cell `(r, c)` in a buffer of `cols`-wide rows:
/// for in-range `r` and `c` it lies strictly below `rows * cols`, and the
/// two factor orders agree.
pub proof fn lemma_cell_offset(rows: int, cols: int, r: int, c: int) by (nonlinear_arith)
    requires
        0 <= r < rows,
        0 <= c < cols,
    ensures
        0 <= r * cols + c,
        r * cols + c < rows * cols,
        cols * r == r * cols,
{
}

/// The end of row `r` in a buffer of `cols`-wide rows stays within the
/// buffer: `cols * r + cols <= rows * cols` whenever `r` is in range.
pub proof fn lemma_row_end(rows: int, cols: int, r: int) by (nonlinear_arith)
    requires
        0 <= r < rows,
        0 <= cols,
    ensures
        0 <= cols * r,
        cols * r + cols <= rows * cols,
        cols * r == r * cols,
{
}

impl<T> Vec2d<T> {
    /// The fixed number of rows.
    pub closed spec fn rows(&self) -> usize {
        self.row
    }

    /// The fixed number of columns.
    pub closed spec fn cols(&self) -> usize {
        self.col
    }

    /// The shape invariant: the buffer holds exactly `rows * cols` elements.
    /// Every constructor establishes it and every method preserves it.
    pub open spec fn wf(&self) -> bool {
        self@.len() == self.rows() * self.cols()
    }

    /// The element stored for logical cell `(row, col)`.
    pub open spec fn cell(&self, row: int, col: int) -> T {
        self@[row * self.cols() + col]
    }

    /// The element count of the backing buffer, `rows * cols`.
    pub(crate) fn len(&self) -> (n: usize)
        ensures
            n == self@.len(),
    {
        self.vec.len()
    }

    /// Wraps a buffer whose length is already known to match the shape.
    pub(crate) fn from_parts(vec: Vec<T>, row: usize, col: usize) -> (m: Vec2d<T>)
        requires
            vec@.len() == row * col,
        ensures
            m.wf(),
            m.rows() == row,
            m.cols() == col,
            m@ == vec@,
    {
        Vec2d { vec, row, col }
    }

    /// Wraps `vec` as a matrix of `row` rows and `col` columns. Succeeds
    /// exactly when the element count matches the requested shape; any other
    /// length is rejected with [`Error::ShapeMismatch`] at construction time.
    pub fn new(vec: Vec<T>, row: usize, col: usize) -> (r: Result<Vec2d<T>, Error>)
        ensures
            match r {
                Ok(m) => {
                    &&& vec@.len() == row * col
                    &&& m.wf()
                    &&& m.rows() == row
                    &&& m.cols() == col
                    &&& m@ == vec@
                },
                Err(e) => {
                    &&& e == Error::ShapeMismatch
                    &&& vec@.len() != row * col
                },
            },
    {
        let len = vec.len();
        match row.checked_mul(col) {
            Some(n) => {
                if n == len {
                    Ok(Vec2d::from_parts(vec, row, col))
                } else {
                    Err(Error::ShapeMismatch)
                }
            },
            None => Err(Error::ShapeMismatch),
        }
    }

    /// The contiguous slice of length `cols` holding row `row`; rejects an
    /// out-of-range row index with [`Error::IndexOutOfBounds`].
    pub fn row(&self, row: usize) -> (r: Result<&[T], Error>)
        requires
            self.wf(),
        ensures
            match r {
                Ok(s) => {
                    &&& row < self.rows()
                    &&& s@ == self@.subrange(
                        row * self.cols(),
                        row * self.cols() + self.cols(),
                    )
                },
                Err(e) => {
                    &&& e == Error::IndexOutOfBounds
                    &&& row >= self.rows()
                },
            },
    {
        if row < self.row {
            let _n = self.vec.len();
            proof {
                lemma_row_end(self.row as int, self.col as int, row as int);
            }
            let i = self.col * row;
            Ok(slice_subrange(self.vec.as_slice(), i, i + self.col))
        } else {
            Err(Error::IndexOutOfBounds)
        }
    }

    /// A borrow of the element at `(row, col)`, with the index bounds as a
    /// precondition; the checked public access goes through [`Self::index`].
    pub(crate) fn at(&self, row: usize, col: usize) -> (v: &T)
        requires
            self.wf(),
            row < self.rows(),
            col < self.cols(),
        ensures
            *v == self.cell(row as int, col as int),
    {
        let _n = self.vec.len();
        proof {
            lemma_cell_offset(self.row as int, self.col as int, row as int, col as int);
        }
        let i = self.col * row;
        &self.vec[i + col]
    }

    /// The element at `(row, col)`; a row or column index outside the shape
    /// is rejected with [`Error::IndexOutOfBounds`]. For every in-range pair
    /// the result is the buffer element at offset `row * cols + col`.
    pub fn index(&self, row: usize, col: usize) -> (r: Result<&T, Error>)
        requires
            self.wf(),
        ensures
            match r {
                Ok(v) => {
                    &&& row < self.rows()
                    &&& col < self.cols()
                    &&& *v == self.cell(row as int, col as int)
                },
                Err(e) => {
                    &&& e == Error::IndexOutOfBounds
                    &&& (row >= self.rows() || col >= self.cols())
                },
            },
    {
        if row < self.row && col < self.col {
            Ok(self.at(row, col))
        } else {
            Err(Error::IndexOutOfBounds)
        }
    }

    /// A mutable borrow of the element at `(row, col)`, with the index bounds
    /// as a precondition. Whatever the caller writes through the borrow lands
    /// at offset `row * cols + col`; the shape never changes.
    pub fn index_mut(&mut self, row: usize, col: usize) -> (v: &mut T)
        requires
            old(self).wf(),
            row < old(self).rows(),
            col < old(self).cols(),
        ensures
            *v == old(self).cell(row as int, col as int),
            final(self).rows() == old(self).rows(),
            final(self).cols() == old(self).cols(),
            final(self)@ == old(self)@.update(
                row * old(self).cols() + col,
                *final(v),
            ),
            final(self).wf(),
    {
        let _n = self.vec.len();
        proof {
            lemma_cell_offset(self.row as int, self.col as int, row as int, col as int);
        }
        let i = self.col * row;
        &mut self.vec[i + col]
    }

    /// Overwrites the element at `(row, col)` with `value`; rejects an
    /// out-of-range index with [`Error::IndexOutOfBounds`] and then leaves
    /// the matrix untouched. No other cell changes either way.
    pub fn set(&mut self, row: usize, col: usize, value: T) -> (r: Result<(), Error>)
        requires
            old(self).wf(),
        ensures
            final(self).rows() == old(self).rows(),
            final(self).cols() == old(self).cols(),
            final(self).wf(),
            match r {
                Ok(()) => {
                    &&& row < old(self).rows()
                    &&& col < old(self).cols()
                    &&& final(self)@ == old(self)@.update(
                        row * old(self).cols() + col,
                        value,
                    )
                },
                Err(e) => {
                    &&& e == Error::IndexOutOfBounds
                    &&& (row >= old(self).rows() || col >= old(self).cols())
                    &&& final(self)@ == old(self)@
                },
            },
    {
        if row < self.row && col < self.col {
            let _n = self.vec.len();
            proof {
                lemma_cell_offset(self.row as int, self.col as int, row as int, col as int);
            }
            let i = self.col * row;
            self.vec[i + col] = value;
            Ok(())
        } else {
            Err(Error::IndexOutOfBounds)
        }
    }
}

} // verus!

