//! The similarity engine: assembles the pairwise cosine-similarity matrix
//! from an off-diagonal grid of already-normalized dot products.
//!
//! The engine fixes everything that does not depend on floating-point
//! arithmetic: the output shape, the diagonal convention (exactly one,
//! whatever the corresponding row held), the placement of every off-diagonal
//! value, and the fan-out/fan-in over rows. The caller supplies, for every
//! pair of distinct row indices `i` and `j`, the bit pattern of
//! `dot(row_i, row_j) / (norm_i * norm_j)`.

use vstd::prelude::*;

use rayon::iter::{IntoParallelIterator, ParallelIterator};

use crate::matrix::{Matrix, ShapeError};

verus! {

/// Bit pattern of the double-precision value one, the diagonal entry of
/// every similarity matrix.
pub const ONE_BITS: u64 = 0x3FF0000000000000;

/// The grid of caller-supplied values is square of order `n`.
pub open spec fn grid_wf(g: Seq<Vec<u64>>, n: int) -> bool {
    &&& g.len() == n
    &&& forall|i: int| 0 <= i < n ==> (#[trigger] g[i])@.len() == n
}

/// The entry the engine owes at position `(i, j)`: exactly one on the
/// diagonal, the caller's value everywhere else.
pub open spec fn sim_entry(g: Seq<Vec<u64>>, i: int, j: int) -> u64 {
    if i == j {
        ONE_BITS
    } else {
        g[i]@[j]
    }
}

/// Compute output row `i`: the unit of parallel work.
fn build_row(i: usize, vals: &Vec<Vec<u64>>) -> (r: Vec<u64>)
    requires
        grid_wf(vals@, vals@.len() as int),
        i < vals@.len(),
    ensures
        r@.len() == vals@.len(),
        forall|j: int| 0 <= j < vals@.len() ==> #[trigger] r@[j] == sim_entry(vals@, i as int, j),
{
    let n: usize = vals.len();
    let mut out: Vec<u64> = Vec::new();
    let row = &vals[i];
    let mut j: usize = 0;
    while j < n
        invariant
            n == vals@.len(),
            i < n,
            row@ == vals@[i as int]@,
            row@.len() == n,
            j <= n,
            out@.len() == j,
            forall|t: int| 0 <= t < j ==> #[trigger] out@[t] == sim_entry(vals@, i as int, t),
        decreases n - j,
    {
        if j == i {
            out.push(ONE_BITS);
        } else {
            out.push(row[j]);
        }
        j += 1;
    }
    out
}

/// Fan out one `build_row` task per row index and fan the finished rows back
/// in, in index order.
///
/// Relies on rayon: `into_par_iter` on a range of `usize` is an indexed
/// parallel iterator, `map` keeps it indexed, and collecting an indexed
/// parallel iterator into a `Vec` writes the item produced from index `i` at
/// position `i`, whatever order the workers finish in. Each item itself is
/// whatever `build_row` returns, stated here as its verified contract says.
#[verifier::external_body]
fn par_build_rows(n: usize, vals: &Vec<Vec<u64>>) -> (r: Vec<Vec<u64>>)
    requires
        grid_wf(vals@, n as int),
    ensures
        r@.len() == n,
        forall|i: int| 0 <= i < n ==> (#[trigger] r@[i])@.len() == n,
        forall|i: int, j: int|
            0 <= i < n && 0 <= j < n ==> r@[i]@[j] == #[trigger] sim_entry(vals@, i, j),
{
    (0..n).into_par_iter().map(|i| build_row(i, vals)).collect()
}

/// Compute the pairwise cosine-similarity matrix of order `n` from the
/// caller's grid of normalized off-diagonal dot products.
///
/// The grid must be square of order `n`; anything else is rejected with the
/// exact mismatch found, before any row is assembled. On success the result
/// is the `n` by `n` matrix whose diagonal is exactly one and whose entry
/// `(i, j)`, for `i != j`, is the caller's value `vals[i][j]`, bit for bit.
/// An order of zero yields the empty matrix.
pub fn similarity_matrix(n: usize, vals: &Vec<Vec<u64>>) -> (r: Result<Matrix, ShapeError>)
    ensures
        match r {
            Ok(m) => {
                &&& grid_wf(vals@, n as int)
                &&& m@.len() == n
                &&& m.spec_cols() == n
                &&& forall|i: int| 0 <= i < n ==> (#[trigger] m@[i]).len() == n
                &&& forall|i: int| 0 <= i < n ==> #[trigger] m@[i][i] == ONE_BITS
                &&& forall|i: int, j: int|
                    0 <= i < n && 0 <= j < n ==> #[trigger] m@[i][j] == sim_entry(vals@, i, j)
            },
            Err(ShapeError::RowCount { expected, found }) => {
                &&& vals@.len() != n
                &&& expected == n
                &&& found == vals@.len()
            },
            Err(ShapeError::RowLength { row, expected, found }) => {
                &&& vals@.len() == n
                &&& row < n
                &&& vals@[row as int]@.len() != n
                &&& forall|k: int| 0 <= k < row ==> (#[trigger] vals@[k])@.len() == n
                &&& expected == n
                &&& found == vals@[row as int]@.len()
            },
            Err(_) => false,
        },
{
    if vals.len() != n {
        return Err(ShapeError::RowCount { expected: n, found: vals.len() });
    }
    let mut k: usize = 0;
    while k < n
        invariant
            n == vals@.len(),
            k <= n,
            forall|t: int| 0 <= t < k ==> (#[trigger] vals@[t])@.len() == n,
        decreases n - k,
    {
        let rk = &vals[k];
        if rk.len() != n {
            return Err(ShapeError::RowLength { row: k, expected: n, found: rk.len() });
        }
        k += 1;
    }
    let built = par_build_rows(n, vals);
    let ghost gbuilt = built@;
    match Matrix::from_rows(built, n) {
        Ok(m) => {
            proof {
                assert forall|i: int, j: int|
                    0 <= i < n && 0 <= j < n implies m@[i][j] == sim_entry(vals@, i, j) by {
                    assert(m@[i][j] == gbuilt[i]@[j]);
                    assert(gbuilt[i]@[j] == sim_entry(vals@, i, j));
                }
                assert forall|i: int| 0 <= i < n implies m@[i][i] == ONE_BITS by {
                    assert(m@[i][i] == sim_entry(vals@, i, i));
                }
            }
            Ok(m)
        },
        Err(e) => {
            proof {
                assert(false);
            }
            Err(e)
        },
    }
}

/// Law: the assembled matrix is symmetric whenever the supplied grid is.
/// Swapping the two indices of an entry the engine owes gives the same
/// value, provided the grid itself agrees at swapped off-diagonal positions;
/// the diagonal needs nothing of the grid.
pub proof fn lemma_similarity_symmetric(g: Seq<Vec<u64>>, n: int, i: int, j: int)
    requires
        grid_wf(g, n),
        0 <= i < n,
        0 <= j < n,
        forall|a: int, b: int|
            0 <= a < n && 0 <= b < n && a != b ==> #[trigger] g[a]@[b] == g[b]@[a],
    ensures
        sim_entry(g, i, j) == sim_entry(g, j, i),
{
}

/// Law: the engine's contract determines its output. Any two matrices that
/// both have the shape and entries its postcondition states, for one and the
/// same grid, are equal row for row and bit for bit.
pub proof fn lemma_similarity_deterministic(
    g: Seq<Vec<u64>>,
    n: int,
    m1: Seq<Seq<u64>>,
    m2: Seq<Seq<u64>>,
)
    requires
        m1.len() == n,
        m2.len() == n,
        forall|i: int| 0 <= i < n ==> (#[trigger] m1[i]).len() == n,
        forall|i: int| 0 <= i < n ==> (#[trigger] m2[i]).len() == n,
        forall|i: int, j: int|
            0 <= i < n && 0 <= j < n ==> m1[i][j] == #[trigger] sim_entry(g, i, j),
        forall|i: int, j: int|
            0 <= i < n && 0 <= j < n ==> m2[i][j] == #[trigger] sim_entry(g, i, j),
    ensures
        m1 == m2,
{
    assert forall|i: int| 0 <= i < n implies m1[i] == m2[i] by {
        assert forall|j: int| 0 <= j < n implies m1[i][j] == m2[i][j] by {
            assert(m1[i][j] == sim_entry(g, i, j));
            assert(m2[i][j] == sim_entry(g, i, j));
        }
        assert(m1[i] =~= m2[i]);
    }
    assert(m1 =~= m2);
}

} // verus!
