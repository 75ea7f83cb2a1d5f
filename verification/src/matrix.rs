//! The `Matrix` wrapper: an owned, dense, row-major grid of doubles
//! (carried as IEEE-754 bit patterns), with bounds-checked element
//! access, a shape-checked multiply, and a textual layout.

use vstd::prelude::*;
use crate::scalar::add_bits;
use crate::scalar::add_double;
use crate::scalar::mul_bits;
use crate::scalar::mul_double;

verus! {

/// The recoverable failures of the `Matrix` operations.
#[derive(Clone, Copy, Debug, PartialEq, Eq, Structural)]
pub enum MatrixError {
    /// The storage for the requested shape could not be allocated
    /// (the element count does not fit the machine's word).
    AllocationError,
    /// The operands of a multiply are not conformable
    /// (the left operand's column count differs from the right
    /// operand's row count).
    DimensionMismatch,
    /// An element index lies outside the grid's shape.
    IndexOutOfBounds,
}

/// A dense, row-major grid of doubles, each carried as its IEEE-754 bit
/// pattern. The wrapper is the sole owner of its storage and reports
/// exactly the shape it was allocated with; it is move-only, so the
/// storage is released exactly once, when the owning value is dropped.
pub struct Matrix {
    rows: usize,
    cols: usize,
    data: Vec<u64>,
}

impl Matrix {
    /// The storage holds exactly one word per cell of the declared shape.
    #[verifier::type_invariant]
    pub closed spec fn wf(&self) -> bool {
        self.data@.len() == self.rows * self.cols
    }

    /// The number of rows, as given at allocation time.
    pub closed spec fn spec_rows(&self) -> int {
        self.rows as int
    }

    /// The number of columns, as given at allocation time.
    pub closed spec fn spec_cols(&self) -> int {
        self.cols as int
    }

    /// The bit pattern held at row `i`, column `j`.
    pub closed spec fn cell(&self, i: int, j: int) -> u64 {
        self.data@[i * self.spec_cols() + j]
    }

    /// Allocate a grid of the given shape with every cell zero (the bit
    /// pattern of `0.0`). A shape with zero rows or zero columns is
    /// accepted and yields a grid with no cells. The allocation fails
    /// exactly when the element count overflows the machine's word.
    pub fn new(rows: usize, cols: usize) -> (r: Result<Matrix, MatrixError>)
        ensures
            r is Ok <==> rows * cols <= usize::MAX,
            r is Err ==> r == Err::<Matrix, MatrixError>(MatrixError::AllocationError),
            r is Ok ==> {
                let m = r->Ok_0;
                &&& m.spec_rows() == rows
                &&& m.spec_cols() == cols
                &&& forall|i: int, j: int|
                    0 <= i < rows && 0 <= j < cols ==> m.cell(i, j) == 0u64
            },
    {
        let n = match rows.checked_mul(cols) {
            Some(n) => n,
            None => {
                return Err(MatrixError::AllocationError);
            },
        };
        let mut data: Vec<u64> = Vec::new();
        let mut t: usize = 0;
        while t < n
            invariant
                t <= n,
                data@.len() == t,
                forall|k: int| 0 <= k < t ==> data@[k] == 0u64,
            decreases n - t,
        {
            data.push(0u64);
            t = t + 1;
        }
        let m = Matrix { rows, cols, data };
        proof {
            lemma_flat_index_bijective(rows as int, cols as int);
        }
        Ok(m)
    }

    /// The number of rows, as given at allocation time.
    pub fn row(&self) -> (r: usize)
        ensures
            r == self.spec_rows(),
    {
        self.rows
    }

    /// The number of columns, as given at allocation time.
    pub fn col(&self) -> (r: usize)
        ensures
            r == self.spec_cols(),
    {
        self.cols
    }

    /// Read the element at row `i`, column `j`. An index outside the
    /// grid's shape is rejected, never read.
    pub fn get(&self, i: usize, j: usize) -> (r: Result<u64, MatrixError>)
        ensures
            r is Ok <==> (i < self.spec_rows() && j < self.spec_cols()),
            r is Ok ==> r->Ok_0 == self.cell(i as int, j as int),
            r is Err ==> r == Err::<u64, MatrixError>(MatrixError::IndexOutOfBounds),
    {
        proof {
            use_type_invariant(self);
        }
        if i >= self.rows || j >= self.cols {
            return Err(MatrixError::IndexOutOfBounds);
        }
        let n = self.data.len();
        proof {
            lemma_flat_index(i as int, j as int, self.rows as int, self.cols as int);
            assert((i as int) * (self.cols as int) + (j as int) < (n as int));
        }
        Ok(self.data[i * self.cols + j])
    }

    /// Write `x` to the element at row `i`, column `j`, leaving the
    /// shape and every other element unchanged. An index outside the
    /// grid's shape is rejected, and the grid is left as it was.
    pub fn set(&mut self, i: usize, j: usize, x: u64) -> (r: Result<(), MatrixError>)
        ensures
            final(self).spec_rows() == old(self).spec_rows(),
            final(self).spec_cols() == old(self).spec_cols(),
            r is Ok <==> (i < old(self).spec_rows() && j < old(self).spec_cols()),
            r is Ok ==> final(self).cell(i as int, j as int) == x,
            r is Ok ==> forall|p: int, q: int|
                0 <= p < old(self).spec_rows() && 0 <= q < old(self).spec_cols()
                    && !(p == i && q == j) ==> final(self).cell(p, q) == old(self).cell(p, q),
            r is Err ==> r == Err::<(), MatrixError>(MatrixError::IndexOutOfBounds)
                && *final(self) == *old(self),
    {
        proof {
            use_type_invariant(&*self);
        }
        if i >= self.rows || j >= self.cols {
            return Err(MatrixError::IndexOutOfBounds);
        }
        let n = self.data.len();
        proof {
            lemma_flat_index(i as int, j as int, self.rows as int, self.cols as int);
            assert((i as int) * (self.cols as int) + (j as int) < (n as int));
        }
        self.data[i * self.cols + j] = x;
        proof {
            lemma_flat_index_bijective(self.rows as int, self.cols as int);
            assert forall|p: int, q: int|
                0 <= p < old(self).spec_rows() && 0 <= q < old(self).spec_cols()
                    && !(p == i && q == j) implies self.cell(p, q) == old(self).cell(p, q) by {
                lemma_flat_index_distinct(p, q, i as int, j as int, self.cols as int);
            }
        }
        Ok(())
    }

    /// Multiply `a` by `b`, allocating one fresh grid for the product;
    /// the operands are read, never changed, and the result shares
    /// nothing with them. Non-conformable shapes are rejected before
    /// anything is allocated; with conformable shapes the allocation
    /// fails exactly when the product's element count overflows the
    /// machine's word. Cell `(i, j)` of the product is the IEEE-754 dot
    /// product of row `i` of `a` and column `j` of `b`.
    pub fn dot(a: &Matrix, b: &Matrix) -> (r: Result<Matrix, MatrixError>)
        ensures
            a.spec_cols() != b.spec_rows()
                ==> r == Err::<Matrix, MatrixError>(MatrixError::DimensionMismatch),
            a.spec_cols() == b.spec_rows()
                ==> (r is Ok <==> a.spec_rows() * b.spec_cols() <= usize::MAX),
            a.spec_cols() == b.spec_rows() && a.spec_rows() * b.spec_cols() > usize::MAX
                ==> r == Err::<Matrix, MatrixError>(MatrixError::AllocationError),
            r is Ok ==> {
                let m = r->Ok_0;
                &&& m.spec_rows() == a.spec_rows()
                &&& m.spec_cols() == b.spec_cols()
                &&& forall|i: int, j: int|
                    0 <= i < a.spec_rows() && 0 <= j < b.spec_cols()
                        ==> m.cell(i, j) == dot_cell(*a, *b, i, j)
            },
    {
        proof {
            use_type_invariant(a);
            use_type_invariant(b);
        }
        if a.cols != b.rows {
            return Err(MatrixError::DimensionMismatch);
        }
        let n = match a.rows.checked_mul(b.cols) {
            Some(n) => n,
            None => {
                return Err(MatrixError::AllocationError);
            },
        };
        let rows = a.rows;
        let cols = b.cols;
        let inner = a.cols;
        let mut data: Vec<u64> = Vec::new();
        let mut i: usize = 0;
        while i < rows
            invariant
                a.wf(),
                b.wf(),
                rows == a.spec_rows(),
                cols == b.spec_cols(),
                inner == a.spec_cols(),
                inner == b.spec_rows(),
                n == rows * cols,
                i <= rows,
                data@.len() == i * cols,
                forall|t: int|
                    0 <= t < data@.len()
                        ==> data@[t] == dot_cell(*a, *b, t / (cols as int), t % (cols as int)),
            decreases rows - i,
        {
            let mut j: usize = 0;
            while j < cols
                invariant
                    a.wf(),
                    b.wf(),
                    rows == a.spec_rows(),
                    cols == b.spec_cols(),
                    inner == a.spec_cols(),
                    inner == b.spec_rows(),
                    i < rows,
                    j <= cols,
                    data@.len() == i * (cols as int) + j,
                    forall|t: int|
                        0 <= t < data@.len()
                            ==> data@[t] == dot_cell(*a, *b, t / (cols as int), t % (cols as int)),
                decreases cols - j,
            {
                let mut acc: u64 = 0;
                let mut k: usize = 0;
                while k < inner
                    invariant
                        a.wf(),
                        b.wf(),
                        rows == a.spec_rows(),
                        cols == b.spec_cols(),
                        inner == a.spec_cols(),
                        inner == b.spec_rows(),
                        i < rows,
                        j < cols,
                        k <= inner,
                        acc == dot_partial(*a, *b, i as int, j as int, k as int),
                    decreases inner - k,
                {
                    let na = a.data.len();
                    let nb = b.data.len();
                    proof {
                        lemma_flat_index(i as int, k as int, rows as int, inner as int);
                        lemma_flat_index(k as int, j as int, inner as int, cols as int);
                        assert((i as int) * (inner as int) + (k as int) < (na as int));
                        assert((k as int) * (cols as int) + (j as int) < (nb as int));
                    }
                    let av = a.data[i * inner + k];
                    let bv = b.data[k * cols + j];
                    acc = add_double(acc, mul_double(av, bv));
                    k = k + 1;
                }
                proof {
                    let t0 = (i as int) * (cols as int) + (j as int);
                    vstd::arithmetic::div_mod::lemma_fundamental_div_mod_converse(
                        t0,
                        cols as int,
                        i as int,
                        j as int,
                    );
                    assert(acc == dot_cell(*a, *b, i as int, j as int));
                }
                data.push(acc);
                j = j + 1;
            }
            proof {
                assert(((i as int) + 1) * (cols as int) == (i as int) * (cols as int) + (cols
                    as int)) by (nonlinear_arith);
            }
            i = i + 1;
        }
        let m = Matrix { rows, cols, data };
        proof {
            assert forall|p: int, q: int|
                0 <= p < rows && 0 <= q < cols implies m.cell(p, q) == dot_cell(*a, *b, p, q) by {
                lemma_flat_index(p, q, rows as int, cols as int);
                vstd::arithmetic::div_mod::lemma_fundamental_div_mod_converse(
                    p * (cols as int) + q,
                    cols as int,
                    p,
                    q,
                );
            }
        }
        Ok(m)
    }
}

/// The IEEE-754 dot product of the first `k` entries of row `i` of `a`
/// and column `j` of `b`: a left-to-right sum of products starting from
/// a zero accumulator, each partial result rounded to the nearest
/// double.
pub open spec fn dot_partial(a: Matrix, b: Matrix, i: int, j: int, k: int) -> u64
    decreases k,
{
    if k <= 0 {
        0u64
    } else {
        add_bits(dot_partial(a, b, i, j, k - 1), mul_bits(a.cell(i, k - 1), b.cell(k - 1, j)))
    }
}

/// The IEEE-754 dot product of row `i` of `a` and column `j` of `b`,
/// over the full inner dimension: the value of cell `(i, j)` of the
/// product `a` times `b`.
pub open spec fn dot_cell(a: Matrix, b: Matrix, i: int, j: int) -> u64 {
    dot_partial(a, b, i, j, a.spec_cols())
}

/// Distinct index pairs of one shape occupy distinct row-major
/// positions.
pub(crate) proof fn lemma_flat_index_distinct(p: int, q: int, i: int, j: int, c: int)
    requires
        0 <= q < c,
        0 <= j < c,
        !(p == i && q == j),
    ensures
        p * c + q != i * c + j,
{
    assert(p * c + q != i * c + j) by (nonlinear_arith)
        requires
            0 <= q < c,
            0 <= j < c,
            !(p == i && q == j),
    ;
}

/// For every row index `i < r` and column index `j < c`, the row-major
/// position `i * c + j` lies inside a storage of `r * c` cells.
pub(crate) proof fn lemma_flat_index(i: int, j: int, r: int, c: int)
    requires
        0 <= i < r,
        0 <= j < c,
    ensures
        0 <= i * c + j < r * c,
{
    assert(0 <= i * c + j < r * c) by (nonlinear_arith)
        requires
            0 <= i < r,
            0 <= j < c,
    ;
}

/// Row-major positions are in range for every valid index pair of an
/// `r` by `c` shape.
pub(crate) proof fn lemma_flat_index_bijective(r: int, c: int)
    ensures
        forall|i: int, j: int|
            0 <= i < r && 0 <= j < c ==> 0 <= #[trigger] (i * c + j) < r * c,
{
    assert forall|i: int, j: int|
        0 <= i < r && 0 <= j < c implies 0 <= #[trigger] (i * c + j) < r * c by {
        lemma_flat_index(i, j, r, c);
    }
}

} // verus!
