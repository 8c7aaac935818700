//! Matrix multiplication, by three strategies that compute the same product:
//!
//! * `simple_product_matrix`: each column of the right operand is multiplied
//!   by the left operand through the row, column and dot-product primitives;
//! * `trivial_product_matrix`: the right operand is transposed once, then a
//!   triple loop scans both flat buffers sequentially;
//! * `simd_product_matrix`: the right operand is transposed once, and every
//!   output cell is an independent unit of work on a worker pool, computed
//!   with fixed-width lanes.
//!
//! `product_matrix` is the parallel strategy with a sequential inner loop.
use vstd::prelude::*;

use crate::error::MathError;
use crate::lanes::lane_dot;
use crate::layout::{lemma_cell, lemma_split};
use crate::matrix::Matrix;
use crate::numlib::Numeric;
use crate::parallel::par_map_indices;
use crate::summation::{dot_of, dot_range};

verus! {

/// The row-major buffer of the product `a * b`: the cell in row `i` and
/// column `j` is row `i` of `a` dotted with column `j` of `b`.
pub open spec fn product_of<T: Numeric>(a: &Matrix<T>, b: &Matrix<T>) -> Seq<T> {
    Seq::new(
        a.num_rows() * b.num_cols(),
        |k: int| dot_of(a.row(k / b.num_cols() as int), b.col(k % b.num_cols() as int)),
    )
}

/// `r` is the product `a * b`: `a`'s height, `b`'s width, and the cells of
/// `product_of(a, b)`.
pub open spec fn is_product<T: Numeric>(r: &Matrix<T>, a: &Matrix<T>, b: &Matrix<T>) -> bool {
    &&& r.well_formed()
    &&& r.num_rows() == a.num_rows()
    &&& r.num_cols() == b.num_cols()
    &&& r@ == product_of(a, b)
}

/// `t` is the transpose of `b`.
pub open spec fn is_transpose<T>(t: &Matrix<T>, b: &Matrix<T>) -> bool {
    &&& t.well_formed()
    &&& t.num_rows() == b.num_cols()
    &&& t.num_cols() == b.num_rows()
    &&& forall|i: int, j: int|
        0 <= i < b.num_rows() && 0 <= j < b.num_cols() ==> #[trigger] t.at(j, i) == b.at(i, j)
}

/// The rows of a transpose are the columns of the original.
proof fn lemma_transpose_rows<T>(t: &Matrix<T>, b: &Matrix<T>, j: int)
    requires
        is_transpose(t, b),
        0 <= j < b.num_cols(),
    ensures
        t.row(j) == b.col(j),
{
    assert(t.row(j) =~= b.col(j));
}

/// Entry `index` of `product_of(a, b)` is row `index / w` of `a` dotted
/// with row `index % w` of `b`'s transpose, where `w` is `b`'s width.
proof fn lemma_product_entry<T: Numeric>(a: &Matrix<T>, b: &Matrix<T>, t: &Matrix<T>, index: int)
    requires
        is_transpose(t, b),
        0 <= index < a.num_rows() * b.num_cols(),
    ensures
        0 <= index / (b.num_cols() as int) < a.num_rows(),
        0 <= index % (b.num_cols() as int) < b.num_cols(),
        product_of(a, b)[index] == dot_of(
            a.row(index / b.num_cols() as int),
            t.row(index % b.num_cols() as int),
        ),
{
    lemma_split(index, b.num_cols() as int, a.num_rows() as int);
    lemma_transpose_rows(t, b, index % b.num_cols() as int);
}

/// Cell `index` of `a * b`, where `t` is the transpose of `b`: a row of `a`
/// dotted with a row of `t`, accumulated sequentially.
fn cell_sequential<T: Numeric>(a: &Matrix<T>, t: &Matrix<T>, index: usize) -> (r: T)
    requires
        a.well_formed(),
        t.well_formed(),
        a.num_cols() == t.num_cols(),
        index < a.num_rows() * t.num_rows(),
    ensures
        r == dot_of(a.row(index as int / t.num_rows() as int), t.row(index as int % t.num_rows() as int)),
{
    let n = a.width();
    let w = t.height();
    let a_len = a.as_vec().len();
    let t_len = t.as_vec().len();
    proof {
        lemma_split(index as int, w as int, a.num_rows() as int);
    }
    let row = index / w;
    let col = index % w;
    proof {
        a.lemma_row_slice(row as int);
        t.lemma_row_slice(col as int);
    }
    dot_range(a.as_vec(), row * n, t.as_vec(), col * n, n)
}

/// Cell `index` of `a * b`, where `t` is the transpose of `b`: a row of `a`
/// dotted with a row of `t`, accumulated in fixed-width lanes.
fn cell_lanes<T: Numeric>(a: &Matrix<T>, t: &Matrix<T>, index: usize) -> (r: T)
    requires
        a.well_formed(),
        t.well_formed(),
        a.num_cols() == t.num_cols(),
        index < a.num_rows() * t.num_rows(),
    ensures
        r == dot_of(a.row(index as int / t.num_rows() as int), t.row(index as int % t.num_rows() as int)),
{
    let n = a.width();
    let w = t.height();
    let a_len = a.as_vec().len();
    let t_len = t.as_vec().len();
    proof {
        lemma_split(index as int, w as int, a.num_rows() as int);
    }
    let row = index / w;
    let col = index % w;
    proof {
        a.lemma_row_slice(row as int);
        t.lemma_row_slice(col as int);
    }
    lane_dot(a.as_vec(), row * n, t.as_vec(), col * n, n)
}

/// Wraps a buffer that holds exactly the product's cells as the product.
fn assemble<T: Numeric>(a: &Matrix<T>, b: &Matrix<T>, cells: Vec<T>) -> (r: Result<
    Matrix<T>,
    MathError,
>)
    requires
        cells@ == product_of(a, b),
    ensures
        r.is_ok(),
        is_product(&r.unwrap(), a, b),
{
    let ghost cells_view = cells@;
    let h = a.height();
    let w = b.width();
    proof {
        vstd::arithmetic::mul::lemma_mul_is_commutative(w as int, h as int);
    }
    Matrix::new(w, h, cells)
}

/// A matrix whose every cell is the matching cell of the product is the product.
proof fn lemma_product_by_cells<T: Numeric>(r: &Matrix<T>, a: &Matrix<T>, b: &Matrix<T>)
    requires
        r.well_formed(),
        r.num_rows() == a.num_rows(),
        r.num_cols() == b.num_cols(),
        forall|i: int, j: int|
            0 <= i < a.num_rows() && 0 <= j < b.num_cols() ==> #[trigger] r.at(i, j) == dot_of(
                a.row(i),
                b.col(j),
            ),
    ensures
        is_product(r, a, b),
{
    r.lemma_layout();
    assert forall|k: int| 0 <= k < r@.len() implies r@[k] == #[trigger] product_of(a, b)[k] by {
        lemma_split(k, b.num_cols() as int, a.num_rows() as int);
        assert(r.at(k / b.num_cols() as int, k % b.num_cols() as int) == dot_of(
            a.row(k / b.num_cols() as int),
            b.col(k % b.num_cols() as int),
        ));
    }
    assert(r@ =~= product_of(a, b));
}

impl<T: Numeric> Matrix<T> {
    /// The product `self * other` built from the primitives: each column of
    /// `other` is multiplied by `self` with `product_vector`, and the results,
    /// which are the columns of the product, are assembled and transposed.
    /// Refused with `DimensionMismatch` unless `self`'s width is `other`'s
    /// height.
    pub fn simple_product_matrix(&self, other: &Matrix<T>) -> (r: Result<Matrix<T>, MathError>)
        requires
            self.well_formed(),
            other.well_formed(),
            self.num_rows() * other.num_cols() <= usize::MAX,
        ensures
            self.num_cols() != other.num_rows() ==> r == Err::<Matrix<T>, MathError>(
                MathError::DimensionMismatch,
            ),
            self.num_cols() == other.num_rows() ==> r.is_ok() && is_product(&r.unwrap(), self, other),
    {
        if self.width() != other.height() {
            return Err(MathError::DimensionMismatch);
        }
        let h = self.height();
        let w = other.width();
        let columns = other.get_cols();
        let mut res: Vec<T> = Vec::with_capacity(h * w);
        let mut j: usize = 0;
        while j < w
            invariant
                self.well_formed(),
                other.well_formed(),
                self.num_cols() == other.num_rows(),
                h == self.num_rows(),
                w == other.num_cols(),
                h * w <= usize::MAX,
                columns@.len() == w,
                forall|q: int| 0 <= q < w ==> (#[trigger] columns@[q])@ == other.col(q),
                j <= w,
                res@.len() == j * h,
                forall|q: int, p: int|
                    0 <= q < j && 0 <= p < h ==> res@[q * h + p] == #[trigger] dot_of(self.row(p), other.col(q)),
            decreases w - j,
        {
            let product = self.product_vector(&columns[j]);
            match product {
                Ok(v) => {
                    let values = v.as_vec();
                    let mut i: usize = 0;
                    while i < values.len()
                        invariant
                            j < w,
                            values@.len() == h,
                            forall|p: int|
                                0 <= p < h ==> values@[p] == dot_of(
                                    #[trigger] self.row(p),
                                    other.col(j as int),
                                ),
                            i <= h,
                            res@.len() == j * h + i,
                            forall|q: int, p: int|
                                0 <= q < j && 0 <= p < h ==> res@[q * h + p] == #[trigger] dot_of(self.row(p), other.col(q)),
                            forall|p: int|
                                0 <= p < i ==> res@[j * h + p] == dot_of(
                                    #[trigger] self.row(p),
                                    other.col(j as int),
                                ),
                        decreases h - i,
                    {
                        res.push(values[i]);
                        assert forall|q: int, p: int| 0 <= q < j && 0 <= p < h implies res@[q * h + p] == #[trigger] dot_of(self.row(p), other.col(q)) by {
                            lemma_cell(q, p, h as int, j as int);
                        }
                        i = i + 1;
                    }
                },
                Err(_) => {},
            }
            proof {
                assert((j + 1) * h == j * h + h) by (nonlinear_arith);
            }
            j = j + 1;
        }
        proof {
            assert(res@.len() == w * h) by (nonlinear_arith)
                requires
                    res@.len() == j * h,
                    j == w,
            ;
        }
        match Matrix::new(h, w, res) {
            Ok(by_columns) => {
                let r = by_columns.transpose();
                proof {
                    assert forall|i: int, j: int|
                        0 <= i < self.num_rows() && 0 <= j < other.num_cols() implies #[trigger] r.at(
                        i,
                        j,
                    ) == dot_of(self.row(i), other.col(j)) by {
                        lemma_cell(j, i, h as int, w as int);
                        assert(r.at(i, j) == by_columns.at(j, i));
                    }
                    lemma_product_by_cells(&r, self, other);
                }
                Ok(r)
            },
            Err(e) => Err(e),
        }
    }

    /// The product `self * other` by the classic triple loop: `other` is
    /// transposed once, so that both operands are read row by row from their
    /// flat buffers in the innermost loop. Refused with `DimensionMismatch`
    /// unless `self`'s width is `other`'s height.
    pub fn trivial_product_matrix(&self, other: &Matrix<T>) -> (r: Result<Matrix<T>, MathError>)
        requires
            self.well_formed(),
            other.well_formed(),
            self.num_rows() * other.num_cols() <= usize::MAX,
        ensures
            self.num_cols() != other.num_rows() ==> r == Err::<Matrix<T>, MathError>(
                MathError::DimensionMismatch,
            ),
            self.num_cols() == other.num_rows() ==> r.is_ok() && is_product(&r.unwrap(), self, other),
    {
        if self.width() != other.height() {
            return Err(MathError::DimensionMismatch);
        }
        let h = self.height();
        let w = other.width();
        let n = self.width();
        let t = other.transpose();
        let a = self.as_vec();
        let bt = t.as_vec();
        let a_len = a.len();
        let bt_len = bt.len();
        let mut res: Vec<T> = Vec::with_capacity(h * w);
        let mut row: usize = 0;
        while row < h
            invariant
                self.well_formed(),
                is_transpose(&t, other),
                a@ == self@,
                bt@ == t@,
                a_len == a@.len(),
                bt_len == bt@.len(),
                n == self.num_cols(),
                n == other.num_rows(),
                h == self.num_rows(),
                w == other.num_cols(),
                h * w <= usize::MAX,
                row <= h,
                res@.len() == row * w,
                forall|k: int| 0 <= k < res@.len() ==> res@[k] == #[trigger] product_of(self, other)[k],
            decreases h - row,
        {
            let mut col: usize = 0;
            while col < w
                invariant
                    self.well_formed(),
                    is_transpose(&t, other),
                    a@ == self@,
                    bt@ == t@,
                    a_len == a@.len(),
                    bt_len == bt@.len(),
                    n == self.num_cols(),
                    n == other.num_rows(),
                    h == self.num_rows(),
                    w == other.num_cols(),
                    h * w <= usize::MAX,
                    row < h,
                    col <= w,
                    res@.len() == row * w + col,
                    forall|k: int|
                        0 <= k < res@.len() ==> res@[k] == #[trigger] product_of(self, other)[k],
                decreases w - col,
            {
                proof {
                    lemma_cell(row as int, col as int, w as int, h as int);
                    lemma_product_entry(self, other, &t, row * w + col);
                    self.lemma_row_slice(row as int);
                    t.lemma_row_slice(col as int);
                }
                let entry = dot_range(a, row * n, bt, col * n, n);
                res.push(entry);
                col = col + 1;
            }
            proof {
                assert((row + 1) * w == row * w + w) by (nonlinear_arith);
            }
            row = row + 1;
        }
        proof {
            assert(res@.len() == h * w) by (nonlinear_arith)
                requires
                    res@.len() == row * w,
                    row == h,
            ;
        }
        assert(res@ =~= product_of(self, other));
        assemble(self, other, res)
    }
}

impl<T: Numeric + Send + Sync> Matrix<T> {
    /// The product `self * other`, one output cell per unit of work on a
    /// worker pool, each a sequential dot product over the transposed right
    /// operand. Refused with `DimensionMismatch` unless `self`'s width is
    /// `other`'s height.
    pub fn product_matrix(&self, other: &Matrix<T>) -> (r: Result<Matrix<T>, MathError>)
        requires
            self.well_formed(),
            other.well_formed(),
            self.num_rows() * other.num_cols() <= usize::MAX,
        ensures
            self.num_cols() != other.num_rows() ==> r == Err::<Matrix<T>, MathError>(
                MathError::DimensionMismatch,
            ),
            self.num_cols() == other.num_rows() ==> r.is_ok() && is_product(&r.unwrap(), self, other),
    {
        if self.width() != other.height() {
            return Err(MathError::DimensionMismatch);
        }
        let t = other.transpose();
        let n_cells = self.height() * other.width();
        let t_ref = &t;
        let cell = |index: usize| -> (r: T)
            requires
                self.well_formed(),
                t_ref.well_formed(),
                self.num_cols() == t_ref.num_cols(),
                index < self.num_rows() * t_ref.num_rows(),
            ensures
                r == dot_of(
                    self.row(index as int / t_ref.num_rows() as int),
                    t_ref.row(index as int % t_ref.num_rows() as int),
                ),
            {
                cell_sequential(self, t_ref, index)
            };
        let cells = par_map_indices(n_cells, cell);
        assert forall|k: int| 0 <= k < n_cells implies cells@[k] == #[trigger] product_of(
            self,
            other,
        )[k] by {
            lemma_product_entry(self, other, &t, k);
        }
        assert(cells@ =~= product_of(self, other));
        assemble(self, other, cells)
    }

    /// The product `self * other` by lanes on a worker pool: the right
    /// operand is transposed once, and each output cell is computed
    /// independently with fixed-width lane arithmetic and written at its own
    /// index. Refused with `DimensionMismatch` unless `self`'s width is
    /// `other`'s height.
    pub fn simd_product_matrix(&self, other: &Matrix<T>) -> (r: Result<Matrix<T>, MathError>)
        requires
            self.well_formed(),
            other.well_formed(),
            self.num_rows() * other.num_cols() <= usize::MAX,
        ensures
            self.num_cols() != other.num_rows() ==> r == Err::<Matrix<T>, MathError>(
                MathError::DimensionMismatch,
            ),
            self.num_cols() == other.num_rows() ==> r.is_ok() && is_product(&r.unwrap(), self, other),
    {
        if self.width() != other.height() {
            return Err(MathError::DimensionMismatch);
        }
        let t = other.transpose();
        let n_cells = self.height() * other.width();
        let t_ref = &t;
        let cell = |index: usize| -> (r: T)
            requires
                self.well_formed(),
                t_ref.well_formed(),
                self.num_cols() == t_ref.num_cols(),
                index < self.num_rows() * t_ref.num_rows(),
            ensures
                r == dot_of(
                    self.row(index as int / t_ref.num_rows() as int),
                    t_ref.row(index as int % t_ref.num_rows() as int),
                ),
            {
                cell_lanes(self, t_ref, index)
            };
        let cells = par_map_indices(n_cells, cell);
        assert forall|k: int| 0 <= k < n_cells implies cells@[k] == #[trigger] product_of(
            self,
            other,
        )[k] by {
            lemma_product_entry(self, other, &t, k);
        }
        assert(cells@ =~= product_of(self, other));
        assemble(self, other, cells)
    }
}

} // verus!
