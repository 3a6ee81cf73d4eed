//! The dense rank-2 matrix: a flat row-major vector of binary64 bit patterns
//! together with a (rows, cols) shape, with `length == rows * cols` as the
//! structural invariant. Every operation that is not documented as in-place
//! returns a newly owned matrix; shape violations are reported as typed
//! errors, never as panics.

use vstd::prelude::*;
use vstd::pervasive::unreached;
use vstd::arithmetic::div_mod::lemma_fundamental_div_mod_converse;
use crate::scalar::add_bits;
use crate::scalar::div_bits;
use crate::scalar::is_nan_bits;
use crate::scalar::is_zero_bits;
use crate::scalar::ln_bits;
use crate::scalar::ln_spec;
use crate::scalar::mul_bits;
use crate::scalar::neg_bits;
use crate::scalar::neg_bits_spec;
use crate::scalar::real_add;
use crate::scalar::real_div;
use crate::scalar::real_mul;
use crate::scalar::real_of_u64;
use crate::scalar::real_sub;
use crate::scalar::sub_bits;
use crate::scalar::u64_to_bits;
use crate::scalar::ZERO_BITS;

verus! {

/// The typed failures of the matrix engine. All of them mark misuse of the
/// engine, not transient conditions.
#[derive(Clone, Copy, Debug, PartialEq, Eq, Structural)]
pub enum MatrixError {
    /// The flat value count does not match the shape, or two operands of an
    /// elementwise operation differ in shape.
    ShapeMismatch,
    /// The inner dimensions of a matrix product do not agree.
    DimensionMismatch,
    /// A flat or two-dimensional index lies outside the matrix.
    IndexOutOfBounds,
    /// A reduction axis other than 0 or 1 was requested.
    InvalidAxis,
}

/// A dense matrix of binary64 bit patterns in row-major order.
pub struct Vector2D {
    /// The flat values; entry (i, j) sits at index `i * cols + j`.
    pub values: Vec<u64>,
    /// Number of rows.
    pub rows: usize,
    /// Number of columns.
    pub cols: usize,
}

/// Flat index bounds: a (row, column) pair addresses one place in the flat
/// storage of a rows-by-cols matrix.
pub proof fn lemma_flat_index(i: int, j: int, rows: int, cols: int)
    by (nonlinear_arith)
    requires
        0 <= i < rows,
        0 <= j < cols,
    ensures
        0 <= i * cols + j < rows * cols,
        i * cols + j < rows * cols,
{
}

/// Recovers row and column from a flat index laid down as `i * cols + j`.
pub proof fn lemma_flat_index_inverse(i: int, j: int, cols: int)
    requires
        0 <= i,
        0 <= j < cols,
    ensures
        (i * cols + j) / cols == i,
        (i * cols + j) % cols == j,
{
    lemma_fundamental_div_mod_converse(i * cols + j, cols, i, j);
}

/// The values of the transpose: entry (i, j) of the result, flat at
/// `i * rows + j` in a cols-by-rows layout, is entry (j, i) of the source.
pub open spec fn transpose_vals(a: Seq<u64>, rows: int, cols: int) -> Seq<u64> {
    Seq::new((rows * cols) as nat, |n: int| a[(n % rows) * cols + n / rows])
}


/// The elementwise sum of two equally long flat value sequences.
pub open spec fn add_vals(a: Seq<u64>, b: Seq<u64>) -> Seq<u64> {
    Seq::new(a.len(), |n: int| add_bits(a[n], b[n]))
}

/// The elementwise difference of two equally long flat value sequences.
pub open spec fn sub_vals(a: Seq<u64>, b: Seq<u64>) -> Seq<u64> {
    Seq::new(a.len(), |n: int| sub_bits(a[n], b[n]))
}

/// The elementwise product of two equally long flat value sequences.
pub open spec fn mul_vals(a: Seq<u64>, b: Seq<u64>) -> Seq<u64> {
    Seq::new(a.len(), |n: int| mul_bits(a[n], b[n]))
}

/// The elementwise quotient of two equally long flat value sequences.
pub open spec fn div_vals(a: Seq<u64>, b: Seq<u64>) -> Seq<u64> {
    Seq::new(a.len(), |n: int| div_bits(a[n], b[n]))
}

/// The flat values with the scalar added to each entry.
pub open spec fn add_scalar_vals(a: Seq<u64>, s: u64) -> Seq<u64> {
    Seq::new(a.len(), |n: int| add_bits(a[n], s))
}

/// The flat values with the scalar subtracted from each entry.
pub open spec fn sub_scalar_vals(a: Seq<u64>, s: u64) -> Seq<u64> {
    Seq::new(a.len(), |n: int| sub_bits(a[n], s))
}

/// The scalar minus each entry of the flat values.
pub open spec fn scalar_sub_vals(s: u64, a: Seq<u64>) -> Seq<u64> {
    Seq::new(a.len(), |n: int| sub_bits(s, a[n]))
}

/// The flat values with each entry multiplied by the scalar.
pub open spec fn mul_scalar_vals(a: Seq<u64>, s: u64) -> Seq<u64> {
    Seq::new(a.len(), |n: int| mul_bits(a[n], s))
}

/// The flat values with each entry divided by the scalar.
pub open spec fn div_scalar_vals(a: Seq<u64>, s: u64) -> Seq<u64> {
    Seq::new(a.len(), |n: int| div_bits(a[n], s))
}

/// The scalar divided by each entry of the flat values.
pub open spec fn scalar_div_vals(s: u64, a: Seq<u64>) -> Seq<u64> {
    Seq::new(a.len(), |n: int| div_bits(s, a[n]))
}

/// The flat values with every sign flipped.
pub open spec fn neg_vals(a: Seq<u64>) -> Seq<u64> {
    Seq::new(a.len(), |n: int| neg_bits_spec(a[n]))
}

/// The elementwise natural logarithm of the flat values.
pub open spec fn ln_vals(a: Seq<u64>) -> Seq<u64> {
    Seq::new(a.len(), |n: int| ln_spec(a[n]))
}

/// Every row of the flat values with the single broadcast row added: entry n
/// gains the broadcast entry of its column, n modulo cols.
pub open spec fn row_add_vals(a: Seq<u64>, b: Seq<u64>, cols: int) -> Seq<u64> {
    Seq::new(a.len(), |n: int| add_bits(a[n], b[n % cols]))
}

/// One term-by-term product sum of the matrix product: entry (i, j) summed
/// over the first k places of the shared dimension, in ascending order,
/// starting from +0.0. A term either of whose factors encodes zero is
/// skipped rather than added, exactly as the engine computes it; see `dot`.
pub open spec fn sum_prod(a: Seq<u64>, b: Seq<u64>, ac: int, bc: int, i: int, j: int, k: nat) -> u64
    decreases k,
{
    if k == 0 {
        ZERO_BITS
    } else {
        let prev: u64 = sum_prod(a, b, ac, bc, i, j, (k - 1) as nat);
        let x: u64 = a[i * ac + (k - 1)];
        let y: u64 = b[(k - 1) * bc + j];
        if is_zero_bits(x) || is_zero_bits(y) {
            prev
        } else {
            add_bits(prev, mul_bits(x, y))
        }
    }
}

/// The values of the matrix product of an ar-by-ac matrix with an ac-by-bc
/// matrix, flat in row-major order.
pub open spec fn dot_vals(a: Seq<u64>, b: Seq<u64>, ar: int, ac: int, bc: int) -> Seq<u64> {
    Seq::new((ar * bc) as nat, |n: int| sum_prod(a, b, ac, bc, n / bc, n % bc, ac as nat))
}

/// The sum of the first k entries of column j, in ascending row order,
/// starting from +0.0.
pub open spec fn col_sum(a: Seq<u64>, cols: int, j: int, k: nat) -> u64
    decreases k,
{
    if k == 0 {
        ZERO_BITS
    } else {
        add_bits(col_sum(a, cols, j, (k - 1) as nat), a[(k - 1) * cols + j])
    }
}

/// The sum of the first k entries of row i, in ascending column order,
/// starting from +0.0.
pub open spec fn row_sum(a: Seq<u64>, cols: int, i: int, k: nat) -> u64
    decreases k,
{
    if k == 0 {
        ZERO_BITS
    } else {
        add_bits(row_sum(a, cols, i, (k - 1) as nat), a[i * cols + (k - 1)])
    }
}

/// The column means: each column summed over all rows and divided by the
/// converted row count.
pub open spec fn mean0_vals(a: Seq<u64>, rows: int, cols: int) -> Seq<u64> {
    Seq::new(cols as nat, |j: int| div_bits(col_sum(a, cols, j, rows as nat), u64_to_bits(rows as u64)))
}

/// The row means: each row summed over all columns and divided by the
/// converted column count.
pub open spec fn mean1_vals(a: Seq<u64>, rows: int, cols: int) -> Seq<u64> {
    Seq::new(rows as nat, |i: int| div_bits(row_sum(a, cols, i, cols as nat), u64_to_bits(cols as u64)))
}

/// The mean of all entries: the column means reduced once more along their
/// single row.
pub open spec fn overall_mean_spec(a: Seq<u64>, rows: int, cols: int) -> u64 {
    mean1_vals(mean0_vals(a, rows, cols), 1, cols)[0]
}

impl Vector2D {
    /// The structural invariant: the flat storage has exactly rows * cols
    /// entries.
    pub open spec fn wf(self) -> bool {
        self.values@.len() == self.rows * self.cols
    }

    /// Builds a matrix from flat values and a shape. Fails with a shape
    /// mismatch exactly when the value count differs from rows * cols.
    pub fn new(values: Vec<u64>, rows: usize, cols: usize) -> (r: Result<Vector2D, MatrixError>)
        ensures
            r is Ok <==> values@.len() == rows * cols,
            r matches Ok(m) ==> m.values@ == values@ && m.rows == rows && m.cols == cols
                && m.wf(),
            r matches Err(e) ==> e == MatrixError::ShapeMismatch,
    {
        let l: usize = values.len();
        match rows.checked_mul(cols) {
            Some(n) => {
                if l == n {
                    Ok(Vector2D { values, rows, cols })
                } else {
                    Err(MatrixError::ShapeMismatch)
                }
            },
            None => Err(MatrixError::ShapeMismatch),
        }
    }

    /// The number of stored values.
    pub fn len(&self) -> (n: usize)
        ensures
            n == self.values@.len(),
    {
        self.values.len()
    }

    /// The shape as a (rows, cols) pair.
    pub fn shape(&self) -> (s: (usize, usize))
        ensures
            s.0 == self.rows,
            s.1 == self.cols,
    {
        (self.rows, self.cols)
    }

    /// An owned copy with the same values and shape.
    pub fn duplicate(&self) -> (r: Vector2D)
        ensures
            r.values@ == self.values@,
            r.rows == self.rows,
            r.cols == self.cols,
    {
        let mut vals: Vec<u64> = Vec::new();
        let mut n: usize = 0;
        while n < self.values.len()
            invariant
                n <= self.values@.len(),
                vals@ == self.values@.subrange(0, n as int),
            decreases self.values@.len() - n,
        {
            vals.push(self.values[n]);
            n += 1;
        }
        assert(vals@ =~= self.values@);
        Vector2D { values: vals, rows: self.rows, cols: self.cols }
    }

    /// Reads the value at a flat index; out of bounds exactly when the index
    /// is not below the value count.
    pub fn get_value(&self, i: usize) -> (r: Result<u64, MatrixError>)
        ensures
            r is Ok <==> i < self.values@.len(),
            r matches Ok(v) ==> v == self.values@[i as int],
            r matches Err(e) ==> e == MatrixError::IndexOutOfBounds,
    {
        if i < self.values.len() {
            Ok(self.values[i])
        } else {
            Err(MatrixError::IndexOutOfBounds)
        }
    }

    /// Mutable access to the value at a flat index, which must be in bounds.
    pub fn get_value_mut(&mut self, i: usize) -> (element: &mut u64)
        requires
            i < old(self).values@.len(),
        ensures
            *element == old(self).values@[i as int],
            final(self).values@ == old(self).values@.update(i as int, *final(element)),
            final(self).rows == old(self).rows,
            final(self).cols == old(self).cols,
    {
        &mut self.values[i]
    }

    /// Reads one entry by (row, column), with the bounds already known.
    fn read_at(&self, i: usize, j: usize) -> (v: u64)
        requires
            self.wf(),
            i < self.rows,
            j < self.cols,
        ensures
            v == self.values@[i * self.cols + j],
    {
        let l: usize = self.values.len();
        proof {
            lemma_flat_index(i as int, j as int, self.rows as int, self.cols as int);
            assert(i * self.cols + j < l);
        }
        self.values[i * self.cols + j]
    }

    /// Reads the value at (row, column); out of bounds exactly when either
    /// coordinate leaves the shape.
    pub fn get_mat_value(&self, i: usize, j: usize) -> (r: Result<u64, MatrixError>)
        requires
            self.wf(),
        ensures
            r is Ok <==> i < self.rows && j < self.cols,
            r matches Ok(v) ==> v == self.values@[i * self.cols + j],
            r matches Err(e) ==> e == MatrixError::IndexOutOfBounds,
    {
        if i < self.rows && j < self.cols {
            Ok(self.read_at(i, j))
        } else {
            Err(MatrixError::IndexOutOfBounds)
        }
    }

    /// Mutable access to the value at (row, column), which must be in bounds.
    pub fn get_mat_value_mut(&mut self, i: usize, j: usize) -> (element: &mut u64)
        requires
            old(self).wf(),
            i < old(self).rows,
            j < old(self).cols,
        ensures
            *element == old(self).values@[i * old(self).cols + j],
            final(self).values@ == old(self).values@.update(
                i * old(self).cols + j,
                *final(element),
            ),
            final(self).rows == old(self).rows,
            final(self).cols == old(self).cols,
    {
        let l: usize = self.values.len();
        proof {
            lemma_flat_index(i as int, j as int, self.rows as int, self.cols as int);
            assert(i * self.cols + j < l);
        }
        &mut self.values[i * self.cols + j]
    }

    /// Copies row i out as a 1-by-cols matrix; out of bounds exactly when i
    /// is not below the row count.
    pub fn get_mat_row_values(&self, i: usize) -> (r: Result<Vector2D, MatrixError>)
        requires
            self.wf(),
        ensures
            r is Ok <==> i < self.rows,
            r matches Ok(m) ==> m.wf() && m.rows == 1 && m.cols == self.cols
                && m.values@ == self.values@.subrange(
                    i * self.cols,
                    i * self.cols + self.cols,
                ),
            r matches Err(e) ==> e == MatrixError::IndexOutOfBounds,
    {
        if i < self.rows {
            let mut vals: Vec<u64> = Vec::new();
            let mut j: usize = 0;
            proof {
                assert(i * self.cols + self.cols <= self.rows * self.cols) by (nonlinear_arith)
                    requires
                        i < self.rows,
                        0 <= i,
                        0 <= self.cols,
                ;
                assert(vals@ =~= self.values@.subrange(
                    i * self.cols,
                    i * self.cols + 0,
                ));
            }
            while j < self.cols
                invariant
                    j <= self.cols,
                    i < self.rows,
                    self.wf(),
                    i * self.cols + self.cols <= self.values@.len(),
                    vals@ == self.values@.subrange(i * self.cols, i * self.cols + j),
                decreases self.cols - j,
            {
                vals.push(self.read_at(i, j));
                proof {
                    assert(vals@ =~= self.values@.subrange(
                        i * self.cols,
                        i * self.cols + j + 1,
                    ));
                }
                j += 1;
            }
            Ok(Vector2D { values: vals, rows: 1, cols: self.cols })
        } else {
            Err(MatrixError::IndexOutOfBounds)
        }
    }

    /// The transpose: a cols-by-rows matrix holding (j, i) where the source
    /// holds (i, j). Transposing never fails.
    pub fn transpose(&self) -> (r: Vector2D)
        requires
            self.wf(),
        ensures
            r.wf(),
            r.rows == self.cols,
            r.cols == self.rows,
            r.values@ == transpose_vals(self.values@, self.rows as int, self.cols as int),
    {
        let mut vals: Vec<u64> = Vec::new();
        let mut i: usize = 0;
        while i < self.cols
            invariant
                i <= self.cols,
                self.wf(),
                vals@.len() == i * self.rows,
                forall|n: int|
                    0 <= n < vals@.len() ==> vals@[n] == self.values@[
                        (n % (self.rows as int)) * self.cols + n / (self.rows as int)
                    ],
            decreases self.cols - i,
        {
            let mut j: usize = 0;
            while j < self.rows
                invariant
                    i < self.cols,
                    j <= self.rows,
                    self.wf(),
                    vals@.len() == i * self.rows + j,
                    forall|n: int|
                        0 <= n < vals@.len() ==> vals@[n] == self.values@[
                            (n % (self.rows as int)) * self.cols + n / (self.rows as int)
                        ],
                decreases self.rows - j,
            {
                proof {
                    lemma_flat_index_inverse(i as int, j as int, self.rows as int);
                }
                vals.push(self.read_at(j, i));
                j += 1;
            }
            proof {
                assert((i + 1) * self.rows == i * self.rows + self.rows) by (nonlinear_arith);
            }
            i += 1;
        }
        proof {
            assert(vals@.len() == self.cols * self.rows);
            assert(self.cols * self.rows == self.rows * self.cols) by (nonlinear_arith);
            assert(vals@ =~= transpose_vals(self.values@, self.rows as int, self.cols as int));
        }
        Vector2D { values: vals, rows: self.cols, cols: self.rows }
    }

    /// The elementwise sum; the operands must agree in shape, and a shape
    /// mismatch is the one failure.
    pub fn add(&self, other: &Vector2D) -> (r: Result<Vector2D, MatrixError>)
        requires
            self.wf(),
            other.wf(),
        ensures
            r is Ok <==> self.rows == other.rows && self.cols == other.cols,
            r matches Ok(m) ==> m.wf() && m.rows == self.rows && m.cols == self.cols
                && m.values@ == add_vals(self.values@, other.values@),
            r matches Err(e) ==> e == MatrixError::ShapeMismatch,
    {
        if self.rows == other.rows && self.cols == other.cols {
            let mut vals: Vec<u64> = Vec::new();
            let mut n: usize = 0;
            let l: usize = self.values.len();
            while n < l
                invariant
                    n <= l,
                    l == self.values@.len(),
                    self.values@.len() == other.values@.len(),
                    vals@.len() == n,
                    forall|q: int|
                        0 <= q < n ==> vals@[q] == add_bits(self.values@[q], other.values@[q]),
                decreases l - n,
            {
                vals.push(real_add(self.values[n], other.values[n]));
                n += 1;
            }
            proof {
                assert(vals@ =~= add_vals(self.values@, other.values@));
            }
            Ok(Vector2D { values: vals, rows: self.rows, cols: self.cols })
        } else {
            Err(MatrixError::ShapeMismatch)
        }
    }

    /// The elementwise difference; the operands must agree in shape, and a shape
    /// mismatch is the one failure.
    pub fn sub(&self, other: &Vector2D) -> (r: Result<Vector2D, MatrixError>)
        requires
            self.wf(),
            other.wf(),
        ensures
            r is Ok <==> self.rows == other.rows && self.cols == other.cols,
            r matches Ok(m) ==> m.wf() && m.rows == self.rows && m.cols == self.cols
                && m.values@ == sub_vals(self.values@, other.values@),
            r matches Err(e) ==> e == MatrixError::ShapeMismatch,
    {
        if self.rows == other.rows && self.cols == other.cols {
            let mut vals: Vec<u64> = Vec::new();
            let mut n: usize = 0;
            let l: usize = self.values.len();
            while n < l
                invariant
                    n <= l,
                    l == self.values@.len(),
                    self.values@.len() == other.values@.len(),
                    vals@.len() == n,
                    forall|q: int|
                        0 <= q < n ==> vals@[q] == sub_bits(self.values@[q], other.values@[q]),
                decreases l - n,
            {
                vals.push(real_sub(self.values[n], other.values[n]));
                n += 1;
            }
            proof {
                assert(vals@ =~= sub_vals(self.values@, other.values@));
            }
            Ok(Vector2D { values: vals, rows: self.rows, cols: self.cols })
        } else {
            Err(MatrixError::ShapeMismatch)
        }
    }

    /// The elementwise product; the operands must agree in shape, and a shape
    /// mismatch is the one failure.
    pub fn mul(&self, other: &Vector2D) -> (r: Result<Vector2D, MatrixError>)
        requires
            self.wf(),
            other.wf(),
        ensures
            r is Ok <==> self.rows == other.rows && self.cols == other.cols,
            r matches Ok(m) ==> m.wf() && m.rows == self.rows && m.cols == self.cols
                && m.values@ == mul_vals(self.values@, other.values@),
            r matches Err(e) ==> e == MatrixError::ShapeMismatch,
    {
        if self.rows == other.rows && self.cols == other.cols {
            let mut vals: Vec<u64> = Vec::new();
            let mut n: usize = 0;
            let l: usize = self.values.len();
            while n < l
                invariant
                    n <= l,
                    l == self.values@.len(),
                    self.values@.len() == other.values@.len(),
                    vals@.len() == n,
                    forall|q: int|
                        0 <= q < n ==> vals@[q] == mul_bits(self.values@[q], other.values@[q]),
                decreases l - n,
            {
                vals.push(real_mul(self.values[n], other.values[n]));
                n += 1;
            }
            proof {
                assert(vals@ =~= mul_vals(self.values@, other.values@));
            }
            Ok(Vector2D { values: vals, rows: self.rows, cols: self.cols })
        } else {
            Err(MatrixError::ShapeMismatch)
        }
    }

    /// The elementwise quotient; the operands must agree in shape, and a shape
    /// mismatch is the one failure.
    pub fn div(&self, other: &Vector2D) -> (r: Result<Vector2D, MatrixError>)
        requires
            self.wf(),
            other.wf(),
        ensures
            r is Ok <==> self.rows == other.rows && self.cols == other.cols,
            r matches Ok(m) ==> m.wf() && m.rows == self.rows && m.cols == self.cols
                && m.values@ == div_vals(self.values@, other.values@),
            r matches Err(e) ==> e == MatrixError::ShapeMismatch,
    {
        if self.rows == other.rows && self.cols == other.cols {
            let mut vals: Vec<u64> = Vec::new();
            let mut n: usize = 0;
            let l: usize = self.values.len();
            while n < l
                invariant
                    n <= l,
                    l == self.values@.len(),
                    self.values@.len() == other.values@.len(),
                    vals@.len() == n,
                    forall|q: int|
                        0 <= q < n ==> vals@[q] == div_bits(self.values@[q], other.values@[q]),
                decreases l - n,
            {
                vals.push(real_div(self.values[n], other.values[n]));
                n += 1;
            }
            proof {
                assert(vals@ =~= div_vals(self.values@, other.values@));
            }
            Ok(Vector2D { values: vals, rows: self.rows, cols: self.cols })
        } else {
            Err(MatrixError::ShapeMismatch)
        }
    }

    /// Adds the scalar to every entry, elementwise over the whole matrix.
    pub fn add_scalar(&self, s: u64) -> (r: Vector2D)
        requires
            self.wf(),
        ensures
            r.wf(),
            r.rows == self.rows,
            r.cols == self.cols,
            r.values@ == add_scalar_vals(self.values@, s),
    {
        let mut vals: Vec<u64> = Vec::new();
        let mut n: usize = 0;
        let l: usize = self.values.len();
        while n < l
            invariant
                n <= l,
                l == self.values@.len(),
                vals@.len() == n,
                forall|q: int| 0 <= q < n ==> vals@[q] == add_bits(self.values@[q], s),
            decreases l - n,
        {
            vals.push(real_add(self.values[n], s));
            n += 1;
        }
        proof {
            assert(vals@ =~= add_scalar_vals(self.values@, s));
        }
        Vector2D { values: vals, rows: self.rows, cols: self.cols }
    }

    /// Subtracts the scalar from every entry, elementwise over the whole matrix.
    pub fn sub_scalar(&self, s: u64) -> (r: Vector2D)
        requires
            self.wf(),
        ensures
            r.wf(),
            r.rows == self.rows,
            r.cols == self.cols,
            r.values@ == sub_scalar_vals(self.values@, s),
    {
        let mut vals: Vec<u64> = Vec::new();
        let mut n: usize = 0;
        let l: usize = self.values.len();
        while n < l
            invariant
                n <= l,
                l == self.values@.len(),
                vals@.len() == n,
                forall|q: int| 0 <= q < n ==> vals@[q] == sub_bits(self.values@[q], s),
            decreases l - n,
        {
            vals.push(real_sub(self.values[n], s));
            n += 1;
        }
        proof {
            assert(vals@ =~= sub_scalar_vals(self.values@, s));
        }
        Vector2D { values: vals, rows: self.rows, cols: self.cols }
    }

    /// Subtracts every entry from the scalar, elementwise over the whole matrix.
    pub fn scalar_sub(&self, s: u64) -> (r: Vector2D)
        requires
            self.wf(),
        ensures
            r.wf(),
            r.rows == self.rows,
            r.cols == self.cols,
            r.values@ == scalar_sub_vals(s, self.values@),
    {
        let mut vals: Vec<u64> = Vec::new();
        let mut n: usize = 0;
        let l: usize = self.values.len();
        while n < l
            invariant
                n <= l,
                l == self.values@.len(),
                vals@.len() == n,
                forall|q: int| 0 <= q < n ==> vals@[q] == sub_bits(s, self.values@[q]),
            decreases l - n,
        {
            vals.push(real_sub(s, self.values[n]));
            n += 1;
        }
        proof {
            assert(vals@ =~= scalar_sub_vals(s, self.values@));
        }
        Vector2D { values: vals, rows: self.rows, cols: self.cols }
    }

    /// Multiplies every entry by the scalar, elementwise over the whole matrix.
    pub fn mul_scalar(&self, s: u64) -> (r: Vector2D)
        requires
            self.wf(),
        ensures
            r.wf(),
            r.rows == self.rows,
            r.cols == self.cols,
            r.values@ == mul_scalar_vals(self.values@, s),
    {
        let mut vals: Vec<u64> = Vec::new();
        let mut n: usize = 0;
        let l: usize = self.values.len();
        while n < l
            invariant
                n <= l,
                l == self.values@.len(),
                vals@.len() == n,
                forall|q: int| 0 <= q < n ==> vals@[q] == mul_bits(self.values@[q], s),
            decreases l - n,
        {
            vals.push(real_mul(self.values[n], s));
            n += 1;
        }
        proof {
            assert(vals@ =~= mul_scalar_vals(self.values@, s));
        }
        Vector2D { values: vals, rows: self.rows, cols: self.cols }
    }

    /// Divides every entry by the scalar, elementwise over the whole matrix.
    pub fn div_scalar(&self, s: u64) -> (r: Vector2D)
        requires
            self.wf(),
        ensures
            r.wf(),
            r.rows == self.rows,
            r.cols == self.cols,
            r.values@ == div_scalar_vals(self.values@, s),
    {
        let mut vals: Vec<u64> = Vec::new();
        let mut n: usize = 0;
        let l: usize = self.values.len();
        while n < l
            invariant
                n <= l,
                l == self.values@.len(),
                vals@.len() == n,
                forall|q: int| 0 <= q < n ==> vals@[q] == div_bits(self.values@[q], s),
            decreases l - n,
        {
            vals.push(real_div(self.values[n], s));
            n += 1;
        }
        proof {
            assert(vals@ =~= div_scalar_vals(self.values@, s));
        }
        Vector2D { values: vals, rows: self.rows, cols: self.cols }
    }

    /// Divides the scalar by every entry, elementwise over the whole matrix.
    pub fn scalar_div(&self, s: u64) -> (r: Vector2D)
        requires
            self.wf(),
        ensures
            r.wf(),
            r.rows == self.rows,
            r.cols == self.cols,
            r.values@ == scalar_div_vals(s, self.values@),
    {
        let mut vals: Vec<u64> = Vec::new();
        let mut n: usize = 0;
        let l: usize = self.values.len();
        while n < l
            invariant
                n <= l,
                l == self.values@.len(),
                vals@.len() == n,
                forall|q: int| 0 <= q < n ==> vals@[q] == div_bits(s, self.values@[q]),
            decreases l - n,
        {
            vals.push(real_div(s, self.values[n]));
            n += 1;
        }
        proof {
            assert(vals@ =~= scalar_div_vals(s, self.values@));
        }
        Vector2D { values: vals, rows: self.rows, cols: self.cols }
    }

    /// Flips the sign of every entry.
    pub fn negate(&self) -> (r: Vector2D)
        requires
            self.wf(),
        ensures
            r.wf(),
            r.rows == self.rows,
            r.cols == self.cols,
            r.values@ == neg_vals(self.values@),
    {
        let mut vals: Vec<u64> = Vec::new();
        let mut n: usize = 0;
        let l: usize = self.values.len();
        while n < l
            invariant
                n <= l,
                l == self.values@.len(),
                vals@.len() == n,
                forall|q: int| 0 <= q < n ==> vals@[q] == neg_bits_spec(self.values@[q]),
            decreases l - n,
        {
            vals.push(neg_bits(self.values[n]));
            n += 1;
        }
        proof {
            assert(vals@ =~= neg_vals(self.values@));
        }
        Vector2D { values: vals, rows: self.rows, cols: self.cols }
    }

    /// The elementwise natural logarithm; zeros give -infinity and negative
    /// entries a NaN, as `ln_spec` lays down, never an error.
    pub fn ln(&self) -> (r: Vector2D)
        requires
            self.wf(),
        ensures
            r.wf(),
            r.rows == self.rows,
            r.cols == self.cols,
            r.values@ == ln_vals(self.values@),
    {
        let mut vals: Vec<u64> = Vec::new();
        let mut n: usize = 0;
        let l: usize = self.values.len();
        while n < l
            invariant
                n <= l,
                l == self.values@.len(),
                vals@.len() == n,
                forall|q: int| 0 <= q < n ==> vals@[q] == ln_spec(self.values@[q]),
            decreases l - n,
        {
            vals.push(ln_bits(self.values[n]));
            n += 1;
        }
        proof {
            assert(vals@ =~= ln_vals(self.values@));
        }
        Vector2D { values: vals, rows: self.rows, cols: self.cols }
    }

    /// Adds the single-row matrix to every row; the one requirement is that
    /// the broadcast operand is one row of matching width.
    pub fn row_add(&self, other: &Vector2D) -> (r: Result<Vector2D, MatrixError>)
        requires
            self.wf(),
            other.wf(),
        ensures
            r is Ok <==> other.rows == 1 && other.cols == self.cols,
            r matches Ok(m) ==> m.wf() && m.rows == self.rows && m.cols == self.cols
                && m.values@ == row_add_vals(self.values@, other.values@, self.cols as int),
            r matches Err(e) ==> e == MatrixError::ShapeMismatch,
    {
        if other.rows == 1 && other.cols == self.cols {
            let mut vals: Vec<u64> = Vec::new();
            let mut i: usize = 0;
            while i < self.rows
                invariant
                    i <= self.rows,
                    self.wf(),
                    other.wf(),
                    other.rows == 1,
                    other.cols == self.cols,
                    vals@.len() == i * self.cols,
                    forall|n: int|
                        0 <= n < vals@.len() ==> vals@[n] == add_bits(
                            self.values@[n],
                            other.values@[n % (self.cols as int)],
                        ),
                decreases self.rows - i,
            {
                let mut j: usize = 0;
                while j < self.cols
                    invariant
                        i < self.rows,
                        j <= self.cols,
                        self.wf(),
                        other.wf(),
                        other.rows == 1,
                        other.cols == self.cols,
                        vals@.len() == i * self.cols + j,
                        forall|n: int|
                            0 <= n < vals@.len() ==> vals@[n] == add_bits(
                                self.values@[n],
                                other.values@[n % (self.cols as int)],
                            ),
                    decreases self.cols - j,
                {
                    proof {
                        lemma_flat_index(i as int, j as int, self.rows as int, self.cols as int);
                        lemma_flat_index_inverse(i as int, j as int, self.cols as int);
                    }
                    vals.push(real_add(self.read_at(i, j), other.values[j]));
                    j += 1;
                }
                proof {
                    assert((i + 1) * self.cols == i * self.cols + self.cols)
                        by (nonlinear_arith);
                }
                i += 1;
            }
            proof {
                assert(vals@ =~= row_add_vals(
                    self.values@,
                    other.values@,
                    self.cols as int,
                ));
            }
            Ok(Vector2D { values: vals, rows: self.rows, cols: self.cols })
        } else {
            Err(MatrixError::ShapeMismatch)
        }
    }

    /// The matrix product. The shared dimension must agree, and a dimension
    /// mismatch is the one failure; the result is rows-by-other.cols, each
    /// entry the ascending sum over the shared dimension of the pairwise
    /// products, where a term with a zero factor contributes nothing at all.
    /// Skipping a zero-factor term outright differs from strict IEEE-754
    /// summation only when the other factor is an infinity or a NaN, whose
    /// product with zero would otherwise poison the sum; the cross-entropy
    /// loss leans on exactly this to keep a zero label from amplifying an
    /// infinite logarithm.
    pub fn dot(&self, other: &Vector2D) -> (r: Result<Vector2D, MatrixError>)
        requires
            self.wf(),
            other.wf(),
        ensures
            r is Ok <==> self.cols == other.rows,
            r matches Ok(m) ==> m.wf() && m.rows == self.rows && m.cols == other.cols
                && m.values@ == dot_vals(
                    self.values@,
                    other.values@,
                    self.rows as int,
                    self.cols as int,
                    other.cols as int,
                ),
            r matches Err(e) ==> e == MatrixError::DimensionMismatch,
    {
        if self.cols == other.rows {
            let mut vals: Vec<u64> = Vec::new();
            let mut i: usize = 0;
            let bc: usize = other.cols;
            while i < self.rows
                invariant
                    i <= self.rows,
                    self.wf(),
                    other.wf(),
                    self.cols == other.rows,
                    bc == other.cols,
                    vals@.len() == i * bc,
                    forall|n: int|
                        0 <= n < vals@.len() ==> vals@[n] == sum_prod(
                            self.values@,
                            other.values@,
                            self.cols as int,
                            bc as int,
                            n / (bc as int),
                            n % (bc as int),
                            self.cols as nat,
                        ),
                decreases self.rows - i,
            {
                let mut j: usize = 0;
                while j < bc
                    invariant
                        i < self.rows,
                        j <= bc,
                        self.wf(),
                        other.wf(),
                        self.cols == other.rows,
                        bc == other.cols,
                        vals@.len() == i * bc + j,
                        forall|n: int|
                            0 <= n < vals@.len() ==> vals@[n] == sum_prod(
                                self.values@,
                                other.values@,
                                self.cols as int,
                                bc as int,
                                n / (bc as int),
                                n % (bc as int),
                                self.cols as nat,
                            ),
                    decreases bc - j,
                {
                    let mut acc: u64 = ZERO_BITS;
                    let mut k: usize = 0;
                    while k < self.cols
                        invariant
                            i < self.rows,
                            j < bc,
                            k <= self.cols,
                            self.wf(),
                            other.wf(),
                            self.cols == other.rows,
                            bc == other.cols,
                            acc == sum_prod(
                                self.values@,
                                other.values@,
                                self.cols as int,
                                bc as int,
                                i as int,
                                j as int,
                                k as nat,
                            ),
                        decreases self.cols - k,
                    {
                        let x: u64 = self.read_at(i, k);
                        let y: u64 = other.read_at(k, j);
                        if !(x & 0x7FFF_FFFF_FFFF_FFFF == 0 || y & 0x7FFF_FFFF_FFFF_FFFF == 0) {
                            acc = real_add(acc, real_mul(x, y));
                        }
                        k += 1;
                    }
                    proof {
                        lemma_flat_index_inverse(i as int, j as int, bc as int);
                    }
                    vals.push(acc);
                    j += 1;
                }
                proof {
                    assert((i + 1) * bc == i * bc + bc) by (nonlinear_arith);
                }
                i += 1;
            }
            proof {
                assert(vals@ =~= dot_vals(
                    self.values@,
                    other.values@,
                    self.rows as int,
                    self.cols as int,
                    other.cols as int,
                ));
            }
            Ok(Vector2D { values: vals, rows: self.rows, cols: other.cols })
        } else {
            Err(MatrixError::DimensionMismatch)
        }
    }

    /// The axis reduction to means. Axis 0 collapses the rows into a single
    /// row of column means; axis 1 collapses the columns into a single
    /// column of row means; every other axis is invalid.
    pub fn mean(&self, axis: usize) -> (r: Result<Vector2D, MatrixError>)
        requires
            self.wf(),
        ensures
            r is Ok <==> axis == 0 || axis == 1,
            axis == 0 ==> (r matches Ok(m) && m.wf() && m.rows == 1 && m.cols == self.cols
                && m.values@ == mean0_vals(self.values@, self.rows as int, self.cols as int)),
            axis == 1 ==> (r matches Ok(m) && m.wf() && m.rows == self.rows && m.cols == 1
                && m.values@ == mean1_vals(self.values@, self.rows as int, self.cols as int)),
            r matches Err(e) ==> e == MatrixError::InvalidAxis,
    {
        if axis == 0 {
            let divisor: u64 = real_of_u64(self.rows as u64);
            let mut vals: Vec<u64> = Vec::new();
            let mut j: usize = 0;
            while j < self.cols
                invariant
                    j <= self.cols,
                    self.wf(),
                    divisor == u64_to_bits(self.rows as u64),
                    vals@.len() == j,
                    forall|q: int|
                        0 <= q < j ==> vals@[q] == div_bits(
                            col_sum(self.values@, self.cols as int, q, self.rows as nat),
                            u64_to_bits(self.rows as u64),
                        ),
                decreases self.cols - j,
            {
                let mut acc: u64 = ZERO_BITS;
                let mut k: usize = 0;
                while k < self.rows
                    invariant
                        j < self.cols,
                        k <= self.rows,
                        self.wf(),
                        acc == col_sum(self.values@, self.cols as int, j as int, k as nat),
                    decreases self.rows - k,
                {
                    acc = real_add(acc, self.read_at(k, j));
                    k += 1;
                }
                vals.push(real_div(acc, divisor));
                j += 1;
            }
            proof {
                assert(vals@ =~= mean0_vals(self.values@, self.rows as int, self.cols as int));
            }
            Ok(Vector2D { values: vals, rows: 1, cols: self.cols })
        } else if axis == 1 {
            let divisor: u64 = real_of_u64(self.cols as u64);
            let mut vals: Vec<u64> = Vec::new();
            let mut i: usize = 0;
            while i < self.rows
                invariant
                    i <= self.rows,
                    self.wf(),
                    divisor == u64_to_bits(self.cols as u64),
                    vals@.len() == i,
                    forall|q: int|
                        0 <= q < i ==> vals@[q] == div_bits(
                            row_sum(self.values@, self.cols as int, q, self.cols as nat),
                            u64_to_bits(self.cols as u64),
                        ),
                decreases self.rows - i,
            {
                let mut acc: u64 = ZERO_BITS;
                let mut k: usize = 0;
                while k < self.cols
                    invariant
                        i < self.rows,
                        k <= self.cols,
                        self.wf(),
                        acc == row_sum(self.values@, self.cols as int, i as int, k as nat),
                    decreases self.cols - k,
                {
                    acc = real_add(acc, self.read_at(i, k));
                    k += 1;
                }
                vals.push(real_div(acc, divisor));
                i += 1;
            }
            proof {
                assert(vals@ =~= mean1_vals(self.values@, self.rows as int, self.cols as int));
            }
            Ok(Vector2D { values: vals, rows: self.rows, cols: 1 })
        } else {
            Err(MatrixError::InvalidAxis)
        }
    }

    /// The mean of all entries: the column means averaged once more, exactly
    /// as `mean(0)` followed by `mean(1)` computes it.
    pub fn overall_mean(&self) -> (r: u64)
        requires
            self.wf(),
        ensures
            r == overall_mean_spec(self.values@, self.rows as int, self.cols as int),
    {
        let m0: Vector2D = match self.mean(0) {
            Ok(m) => m,
            Err(_) => unreached(),
        };
        let m1: Vector2D = match m0.mean(1) {
            Ok(m) => m,
            Err(_) => unreached(),
        };
        m1.values[0]
    }
}

impl Default for Vector2D {
    /// The empty 0-by-0 matrix.
    fn default() -> (r: Vector2D)
        ensures
            r.wf(),
            r.values@.len() == 0,
            r.rows == 0,
            r.cols == 0,
    {
        Vector2D { values: Vec::new(), rows: 0, cols: 0 }
    }
}

/// Transposing is an involution: transposing a rows-by-cols value sequence
/// twice gives back exactly the original values (and the shape returns to
/// rows by cols with it). This holds for every matrix.
pub proof fn lemma_transpose_transpose(a: Seq<u64>, rows: int, cols: int)
    requires
        0 <= rows,
        0 <= cols,
        a.len() == rows * cols,
    ensures
        transpose_vals(transpose_vals(a, rows, cols), cols, rows) == a,
{
    let t: Seq<u64> = transpose_vals(a, rows, cols);
    let tt: Seq<u64> = transpose_vals(t, cols, rows);
    assert(rows * cols == cols * rows) by (nonlinear_arith);
    assert forall|n: int| 0 <= n < a.len() implies tt[n] == a[n] by {
        assert(cols > 0) by (nonlinear_arith)
            requires
                0 <= n < rows * cols,
                0 <= cols,
        ;
        let i: int = n / cols;
        let j: int = n % cols;
        vstd::arithmetic::div_mod::lemma_fundamental_div_mod(n, cols);
        assert(0 <= i < rows) by (nonlinear_arith)
            requires
                0 <= n < rows * cols,
                cols > 0,
                i == n / cols,
        ;
        assert(0 <= j < cols);
        lemma_flat_index(j, i, cols, rows);
        lemma_flat_index_inverse(j, i, rows);
        assert(tt[n] == t[j * rows + i]);
        assert(t[j * rows + i] == a[i * cols + j]);
        assert(n == i * cols + j) by (nonlinear_arith)
            requires
                n == cols * i + j,
        ;
    };
    assert(tt =~= a);
}

/// One product sum of the matrix product, read through the transposes with
/// the roles of the operands swapped: term by term the same factors meet,
/// only in the opposite order, so the skip test agrees and — with no NaN
/// among the entries — so does every product.
proof fn lemma_sum_prod_swap(
    a: Seq<u64>,
    b: Seq<u64>,
    ar: int,
    ac: int,
    bc: int,
    i: int,
    j: int,
    k: nat,
)
    requires
        0 <= ar,
        0 <= ac,
        0 <= bc,
        k <= ac,
        a.len() == ar * ac,
        b.len() == ac * bc,
        0 <= i < ar,
        0 <= j < bc,
        forall|n: int| 0 <= n < a.len() ==> !is_nan_bits(#[trigger] a[n]),
        forall|n: int| 0 <= n < b.len() ==> !is_nan_bits(#[trigger] b[n]),
    ensures
        sum_prod(a, b, ac, bc, i, j, k) == sum_prod(
            transpose_vals(b, ac, bc),
            transpose_vals(a, ar, ac),
            ac,
            ar,
            j,
            i,
            k,
        ),
    decreases k,
{
    if k > 0 {
        let kk: int = k - 1;
        lemma_sum_prod_swap(a, b, ar, ac, bc, i, j, (k - 1) as nat);
        lemma_flat_index(i, kk, ar, ac);
        lemma_flat_index(kk, j, ac, bc);
        lemma_flat_index(j, kk, bc, ac);
        lemma_flat_index_inverse(j, kk, ac);
        lemma_flat_index(kk, i, ac, ar);
        lemma_flat_index_inverse(kk, i, ar);
        assert(ac * bc == bc * ac) by (nonlinear_arith);
        assert(ar * ac == ac * ar) by (nonlinear_arith);
        assert(transpose_vals(b, ac, bc)[j * ac + kk] == b[kk * bc + j]);
        assert(transpose_vals(a, ar, ac)[kk * ar + i] == a[i * ac + kk]);
        assert(!is_nan_bits(a[i * ac + kk]));
        assert(!is_nan_bits(b[kk * bc + j]));
    }
}

/// The transpose of a matrix product is the product of the transposes in the
/// opposite order, value for value: with M of shape ar-by-ac and N of shape
/// ac-by-bc, `transpose(dot(M, N))` and `dot(transpose(N), transpose(M))`
/// hold the same flat values (and both have shape bc-by-ar). The law is
/// stated for matrices without NaN entries: a NaN product term may carry a
/// different payload on the two sides, so inputs holding NaNs are left out.
pub proof fn lemma_dot_transpose(a: Seq<u64>, b: Seq<u64>, ar: int, ac: int, bc: int)
    requires
        0 <= ar,
        0 <= ac,
        0 <= bc,
        a.len() == ar * ac,
        b.len() == ac * bc,
        forall|n: int| 0 <= n < a.len() ==> !is_nan_bits(#[trigger] a[n]),
        forall|n: int| 0 <= n < b.len() ==> !is_nan_bits(#[trigger] b[n]),
    ensures
        transpose_vals(dot_vals(a, b, ar, ac, bc), ar, bc) == dot_vals(
            transpose_vals(b, ac, bc),
            transpose_vals(a, ar, ac),
            bc,
            ac,
            ar,
        ),
{
    let d: Seq<u64> = dot_vals(a, b, ar, ac, bc);
    let lt: Seq<u64> = transpose_vals(d, ar, bc);
    let rd: Seq<u64> = dot_vals(
        transpose_vals(b, ac, bc),
        transpose_vals(a, ar, ac),
        bc,
        ac,
        ar,
    );
    assert(ar * bc == bc * ar) by (nonlinear_arith);
    assert forall|n: int| 0 <= n < lt.len() implies lt[n] == rd[n] by {
        assert(ar > 0) by (nonlinear_arith)
            requires
                0 <= n < ar * bc,
                0 <= ar,
        ;
        let j: int = n / ar;
        let i: int = n % ar;
        vstd::arithmetic::div_mod::lemma_fundamental_div_mod(n, ar);
        assert(0 <= j < bc) by (nonlinear_arith)
            requires
                0 <= n < ar * bc,
                ar > 0,
                j == n / ar,
        ;
        assert(0 <= i < ar);
        lemma_flat_index(i, j, ar, bc);
        lemma_flat_index_inverse(i, j, bc);
        assert(lt[n] == d[i * bc + j]);
        assert(d[i * bc + j] == sum_prod(a, b, ac, bc, i, j, ac as nat));
        assert(rd[n] == sum_prod(
            transpose_vals(b, ac, bc),
            transpose_vals(a, ar, ac),
            ac,
            ar,
            j,
            i,
            ac as nat,
        ));
        lemma_sum_prod_swap(a, b, ar, ac, bc, i, j, ac as nat);
    };
    assert(lt =~= rd);
}


} // verus!
