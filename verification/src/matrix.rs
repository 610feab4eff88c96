//! Dense row-major matrix of 64-bit scalar bit patterns.

use vstd::prelude::*;

verus! {

/// Error raised when the dimensions of an input do not agree.
#[derive(Clone, Copy, Debug, PartialEq, Eq, Structural)]
pub enum ShapeError {
    /// A flat buffer's length is not `rows * cols`.
    FlatLength { rows: usize, cols: usize, found: usize },
    /// A row's length differs from the expected number of columns.
    RowLength { row: usize, expected: usize, found: usize },
    /// The number of rows differs from the expected count.
    RowCount { expected: usize, found: usize },
}

/// A dense matrix stored row-major in one flat buffer, with its shape
/// recorded beside it. Each element is the bit pattern of a double-precision
/// value; the matrix itself never interprets the bits.
#[derive(Debug)]
pub struct Matrix {
    data: Vec<u64>,
    rows: usize,
    cols: usize,
}

impl View for Matrix {
    type V = Seq<Seq<u64>>;

    closed spec fn view(&self) -> Seq<Seq<u64>> {
        Seq::new(
            self.rows as nat,
            |i: int| Seq::new(self.cols as nat, |j: int| self.data@[i * self.cols + j]),
        )
    }
}

/// Row-major index arithmetic: an in-range pair lands strictly inside the
/// buffer, and a full row advances the write position by exactly one row
/// length.
proof fn lemma_row_major_index(a: int, b: int, c: int, n: int) by (nonlinear_arith)
    requires
        0 <= a < c,
        0 <= b < n,
    ensures
        0 <= a * n + b < c * n,
        (a + 1) * n == a * n + n,
{
}

impl Matrix {
    #[verifier::type_invariant]
    spec fn wf(self) -> bool {
        self.data@.len() == self.rows * self.cols
    }

    /// The recorded number of columns; visible even when the matrix has no
    /// rows, where the view alone could not tell.
    pub closed spec fn spec_cols(self) -> nat {
        self.cols as nat
    }

    pub fn nrows(&self) -> (r: usize)
        ensures
            r == self@.len(),
    {
        self.rows
    }

    pub fn ncols(&self) -> (r: usize)
        ensures
            r == self.spec_cols(),
    {
        self.cols
    }

    /// Read the element at row `i`, column `j`.
    pub fn entry(&self, i: usize, j: usize) -> (r: u64)
        requires
            i < self@.len(),
            j < self.spec_cols(),
        ensures
            r == self@[i as int][j as int],
    {
        proof {
            use_type_invariant(self);
            lemma_row_major_index(i as int, j as int, self.rows as int, self.cols as int);
            assert(self.data.len() == self.data@.len());
        }
        self.data[i * self.cols + j]
    }

    /// Build a matrix from a flat row-major buffer and its intended shape,
    /// failing fast when the buffer's length is not `rows * cols`.
    pub fn from_flat(data: Vec<u64>, nrows: usize, ncols: usize) -> (r: Result<Matrix, ShapeError>)
        ensures
            match r {
                Ok(m) => {
                    &&& data@.len() == nrows * ncols
                    &&& m@.len() == nrows
                    &&& m.spec_cols() == ncols
                    &&& forall|i: int| 0 <= i < nrows ==> (#[trigger] m@[i]).len() == ncols
                    &&& forall|i: int, j: int|
                        0 <= i < nrows && 0 <= j < ncols ==> m@[i][j] == data@[i * ncols + j]
                },
                Err(ShapeError::FlatLength { rows, cols, found }) => {
                    &&& data@.len() != nrows * ncols
                    &&& rows == nrows
                    &&& cols == ncols
                    &&& found == data@.len()
                },
                Err(_) => false,
            },
    {
        proof {
            assert((nrows as int) * (ncols as int) < 0x1_0000_0000_0000_0000_0000_0000_0000_0000)
                by (nonlinear_arith)
                requires
                    0 <= nrows < 0x1_0000_0000_0000_0000,
                    0 <= ncols < 0x1_0000_0000_0000_0000,
            ;
        }
        let expected: u128 = (nrows as u128) * (ncols as u128);
        if expected != data.len() as u128 {
            return Err(ShapeError::FlatLength { rows: nrows, cols: ncols, found: data.len() });
        }
        Ok(Matrix { data, rows: nrows, cols: ncols })
    }

    /// Assemble a matrix from independently produced rows, in index order:
    /// row `i` of the input lands at row `i` of the result, whatever order
    /// the rows were produced in. Fails fast at the first row whose length
    /// is not `ncols`.
    pub fn from_rows(rs: Vec<Vec<u64>>, ncols: usize) -> (r: Result<Matrix, ShapeError>)
        ensures
            match r {
                Ok(m) => {
                    &&& forall|i: int| 0 <= i < rs@.len() ==> (#[trigger] rs@[i])@.len() == ncols
                    &&& m@.len() == rs@.len()
                    &&& m.spec_cols() == ncols
                    &&& forall|i: int| 0 <= i < rs@.len() ==> (#[trigger] m@[i]).len() == ncols
                    &&& forall|i: int, j: int|
                        0 <= i < rs@.len() && 0 <= j < ncols ==> m@[i][j] == rs@[i]@[j]
                },
                Err(ShapeError::RowLength { row, expected, found }) => {
                    &&& row < rs@.len()
                    &&& rs@[row as int]@.len() != ncols
                    &&& forall|k: int| 0 <= k < row ==> (#[trigger] rs@[k])@.len() == ncols
                    &&& expected == ncols
                    &&& found == rs@[row as int]@.len()
                },
                Err(_) => false,
            },
    {
        let nrows: usize = rs.len();
        let mut data: Vec<u64> = Vec::new();
        let mut i: usize = 0;
        while i < nrows
            invariant
                nrows == rs@.len(),
                i <= nrows,
                data@.len() == i * ncols,
                forall|k: int| 0 <= k < i ==> (#[trigger] rs@[k])@.len() == ncols,
                forall|a: int, b: int|
                    0 <= a < i && 0 <= b < ncols ==> #[trigger] data@[a * ncols + b] == rs@[a]@[b],
            decreases nrows - i,
        {
            let row = &rs[i];
            if row.len() != ncols {
                return Err(ShapeError::RowLength { row: i, expected: ncols, found: row.len() });
            }
            let mut j: usize = 0;
            while j < ncols
                invariant
                    nrows == rs@.len(),
                    i < nrows,
                    j <= ncols,
                    row@ == rs@[i as int]@,
                    rs@[i as int]@.len() == ncols,
                    data@.len() == i * ncols + j,
                    forall|k: int| 0 <= k < i ==> (#[trigger] rs@[k])@.len() == ncols,
                    forall|a: int, b: int|
                        0 <= a < i && 0 <= b < ncols
                            ==> #[trigger] data@[a * ncols + b] == rs@[a]@[b],
                    forall|b: int|
                        0 <= b < j ==> #[trigger] data@[i * ncols + b] == rs@[i as int]@[b],
                decreases ncols - j,
            {
                data.push(row[j]);
                proof {
                    assert(data@[i * ncols + j as int] == rs@[i as int]@[j as int]);
                    assert forall|a: int, b: int|
                        0 <= a < i && 0 <= b < ncols
                            implies #[trigger] data@[a * ncols + b] == rs@[a]@[b] by {
                        lemma_row_major_index(a, b, i as int, ncols as int);
                    }
                }
                j += 1;
            }
            proof {
                assert((i + 1) * ncols == i * ncols + ncols) by (nonlinear_arith);
                assert forall|a: int, b: int|
                    0 <= a < i + 1 && 0 <= b < ncols
                        implies #[trigger] data@[a * ncols + b] == rs@[a]@[b] by {
                    if a == i {
                        assert(data@[i * ncols + b] == rs@[i as int]@[b]);
                    }
                }
            }
            i += 1;
        }
        let ghost gdata = data@;
        let m = Matrix { data, rows: nrows, cols: ncols };
        proof {
            assert(m.data@ == gdata);
            assert forall|a: int, b: int|
                0 <= a < rs@.len() && 0 <= b < ncols implies m@[a][b] == rs@[a]@[b] by {
                lemma_row_major_index(a, b, nrows as int, ncols as int);
                assert(m@[a][b] == gdata[a * ncols + b]);
            }
        }
        Ok(m)
    }
}

} // verus!
