//! Dense matrices stored row-major in one flat buffer.
use vstd::prelude::*;

use crate::error::MathError;
use crate::layout::{lemma_cell, lemma_row_end, lemma_split};
use crate::numlib::{Numeric, Zero};
use crate::summation::{differences, dot_of, lemma_sum_take_step, scaled, sum_of, sums};
use crate::vector::{supplied, Vector};

verus! {

/// A `height`-by-`width` matrix whose element `(row, col)` is stored at
/// offset `row * width + col` of one flat buffer.
#[derive(Debug, Clone)]
pub struct Matrix<T> {
    width: usize,
    height: usize,
    data: Vec<T>,
}

impl<T> View for Matrix<T> {
    type V = Seq<T>;

    /// The flat row-major buffer.
    closed spec fn view(&self) -> Seq<T> {
        self.data@
    }
}

/// The row-major buffer of the transpose of the `h`-by-`w` row-major
/// buffer `s`: it is `w`-by-`h`, and its cell `(j, i)` is cell `(i, j)` of `s`.
pub open spec fn transposed<T>(s: Seq<T>, h: nat, w: nat) -> Seq<T> {
    Seq::new(w * h, |k: int| s[(k % h as int) * w + k / h as int])
}

impl<T> Matrix<T> {
    /// The buffer holds exactly `width * height` elements.
    pub closed spec fn well_formed(&self) -> bool {
        self.data@.len() == self.num_rows() * self.num_cols()
    }

    /// The number of columns.
    pub closed spec fn num_cols(&self) -> nat {
        self.width as nat
    }

    /// The number of rows.
    pub closed spec fn num_rows(&self) -> nat {
        self.height as nat
    }

    /// The element in row `i` and column `j`.
    pub open spec fn at(&self, i: int, j: int) -> T {
        self@[i * self.num_cols() + j]
    }

    /// Row `i`, left to right.
    pub open spec fn row(&self, i: int) -> Seq<T> {
        Seq::new(self.num_cols(), |j: int| self.at(i, j))
    }

    /// Column `j`, top to bottom.
    pub open spec fn col(&self, j: int) -> Seq<T> {
        Seq::new(self.num_rows(), |i: int| self.at(i, j))
    }

    /// Same shape and same elements.
    pub open spec fn same_as(&self, other: &Matrix<T>) -> bool {
        &&& self.num_rows() == other.num_rows()
        &&& self.num_cols() == other.num_cols()
        &&& self@ == other@
    }

    /// The buffer holds exactly `rows * cols` elements.
    pub proof fn lemma_layout(&self)
        requires
            self.well_formed(),
        ensures
            self@.len() == self.num_rows() * self.num_cols(),
            self.num_rows() <= usize::MAX,
            self.num_cols() <= usize::MAX,
    {
    }

    /// Row `i` is a contiguous slice of the buffer.
    pub proof fn lemma_row_slice(&self, i: int)
        requires
            self.well_formed(),
            0 <= i < self.num_rows(),
        ensures
            0 <= i * self.num_cols(),
            i * self.num_cols() + self.num_cols() <= self@.len(),
            self@.subrange(i * self.num_cols(), i * self.num_cols() + self.num_cols()) == self.row(i),
    {
        lemma_row_end(i, self.num_cols() as int, self.num_rows() as int);
        assert(self@.subrange(i * self.num_cols(), i * self.num_cols() + self.num_cols())
            =~= self.row(i));
    }

    /// A `width`-wide, `height`-high matrix over `data`; refused with
    /// `DimensionMismatch` unless `data` holds exactly `width * height` elements.
    pub fn new(width: usize, height: usize, data: Vec<T>) -> (r: Result<Matrix<T>, MathError>)
        ensures
            width * height != data@.len() ==> r == Err::<Matrix<T>, MathError>(
                MathError::DimensionMismatch,
            ),
            width * height == data@.len() ==> r.is_ok() && r.unwrap().well_formed()
                && r.unwrap().num_cols() == width
                && r.unwrap().num_rows() == height && r.unwrap()@ == data@,
    {
        proof {
            vstd::arithmetic::mul::lemma_mul_is_commutative(width as int, height as int);
        }
        let len = data.len();
        match width.checked_mul(height) {
            Some(n) => {
                if n == len {
                    Ok(Matrix { width, height, data })
                } else {
                    Err(MathError::DimensionMismatch)
                }
            },
            None => Err(MathError::DimensionMismatch),
        }
    }

    /// The flat row-major buffer.
    pub fn as_vec(&self) -> (r: &Vec<T>)
        ensures
            r@ == self@,
    {
        &self.data
    }

    /// The number of columns.
    pub fn width(&self) -> (r: usize)
        ensures
            r == self.num_cols(),
    {
        self.width
    }

    /// The number of rows.
    pub fn height(&self) -> (r: usize)
        ensures
            r == self.num_rows(),
    {
        self.height
    }

    /// `(height, width)`.
    pub fn shape(&self) -> (r: (usize, usize))
        ensures
            r.0 == self.num_rows(),
            r.1 == self.num_cols(),
    {
        (self.height, self.width)
    }
}


impl<T: Copy> Matrix<T> {
    /// A `width`-by-`height` matrix with every element equal to `element`.
    /// It always succeeds.
    pub fn new_of_element(width: usize, height: usize, element: T) -> (r: Result<
        Matrix<T>,
        MathError,
    >)
        requires
            width * height <= usize::MAX,
        ensures
            r.is_ok(),
            r.unwrap().well_formed(),
            r.unwrap().num_cols() == width,
            r.unwrap().num_rows() == height,
            r.unwrap()@ == Seq::new((width * height) as nat, |k: int| element),
    {
        let n = width * height;
        let mut data: Vec<T> = Vec::with_capacity(n);
        let mut k: usize = 0;
        while k < n
            invariant
                k <= n,
                data@ == Seq::new(k as nat, |p: int| element),
            decreases n - k,
        {
            data.push(element);
            k = k + 1;
            assert(data@ =~= Seq::new(k as nat, |p: int| element));
        }
        proof {
            vstd::arithmetic::mul::lemma_mul_is_commutative(width as int, height as int);
        }
        Ok(Matrix { width, height, data })
    }

    /// A `width`-by-`height` matrix filled in row-major order by repeated
    /// calls of `supplier`.
    pub fn new_of_supplier<F: FnMut() -> T>(width: usize, height: usize, mut supplier: F) -> (r:
        Matrix<T>)
        requires
            width * height <= usize::MAX,
            forall|s: F| #[trigger] s.requires(()),
        ensures
            r.well_formed(),
            r.num_cols() == width,
            r.num_rows() == height,
            forall|k: int| 0 <= k < r@.len() ==> supplied::<T, F>(#[trigger] r@[k]),
    {
        let n = width * height;
        let mut data: Vec<T> = Vec::with_capacity(n);
        let mut k: usize = 0;
        while k < n
            invariant
                k <= n,
                data@.len() == k,
                forall|s: F| #[trigger] s.requires(()),
                forall|p: int| 0 <= p < k ==> supplied::<T, F>(#[trigger] data@[p]),
            decreases n - k,
        {
            let ghost before = supplier;
            let ghost earlier = data@;
            let x = supplier();
            data.push(x);
            proof {
                assert forall|p: int| 0 <= p < k + 1 implies supplied::<T, F>(#[trigger] data@[p]) by {
                    if p == k {
                        assert(before.ensures((), data@[p]));
                    } else {
                        assert(data@[p] == earlier[p]);
                    }
                }
            }
            k = k + 1;
        }
        proof {
            vstd::arithmetic::mul::lemma_mul_is_commutative(width as int, height as int);
        }
        Matrix { width, height, data }
    }

    /// Applies `f` to every element in place; the shape is kept.
    pub fn apply<F: Fn(&T) -> T>(&mut self, f: F)
        requires
            old(self).well_formed(),
            forall|k: int| 0 <= k < old(self)@.len() ==> f.requires((&old(self)@[k],)),
        ensures
            final(self).well_formed(),
            final(self).num_rows() == old(self).num_rows(),
            final(self).num_cols() == old(self).num_cols(),
            final(self)@.len() == old(self)@.len(),
            forall|k: int|
                0 <= k < old(self)@.len() ==> f.ensures((&old(self)@[k],), #[trigger] final(self)@[k]),
    {
        let ghost before = self@;
        let mut k: usize = 0;
        while k < self.data.len()
            invariant
                self.well_formed(),
                self.num_rows() == old(self).num_rows(),
                self.num_cols() == old(self).num_cols(),
                self@.len() == before.len(),
                before == old(self)@,
                k <= before.len(),
                forall|p: int| k <= p < before.len() ==> self@[p] == before[p],
                forall|p: int| 0 <= p < before.len() ==> f.requires((&before[p],)),
                forall|p: int| 0 <= p < k ==> f.ensures((&before[p],), #[trigger] self@[p]),
            decreases before.len() - k,
        {
            assert(self@[k as int] == before[k as int]);
            let x = f(&self.data[k]);
            self.data.set(k, x);
            k = k + 1;
        }
    }

    /// A copy of column `number`; refused with `IndexOutOfRange` when
    /// `number` is not below the width.
    pub fn get_col(&self, number: usize) -> (r: Result<Vector<T>, MathError>)
        requires
            self.well_formed(),
        ensures
            number >= self.num_cols() ==> r == Err::<Vector<T>, MathError>(
                MathError::IndexOutOfRange,
            ),
            number < self.num_cols() ==> r.is_ok() && r.unwrap()@ == self.col(number as int),
    {
        if number >= self.width {
            return Err(MathError::IndexOutOfRange);
        }
        let total = self.data.len();
        let mut column: Vec<T> = Vec::with_capacity(self.height);
        let mut i: usize = 0;
        while i < self.height
            invariant
                self.well_formed(),
                total == self@.len(),
                number < self.num_cols(),
                i <= self.num_rows(),
                column@ =~= self.col(number as int).take(i as int),
            decreases self.num_rows() - i,
        {
            proof {
                lemma_cell(i as int, number as int, self.num_cols() as int, self.num_rows() as int);
            }
            column.push(self.data[i * self.width + number]);
            i = i + 1;
            assert(column@ =~= self.col(number as int).take(i as int));
        }
        assert(column@ =~= self.col(number as int));
        Ok(Vector::new(column))
    }

    /// A copy of row `number`; refused with `IndexOutOfRange` when `number`
    /// is not below the height.
    pub fn get_row(&self, number: usize) -> (r: Result<Vector<T>, MathError>)
        requires
            self.well_formed(),
        ensures
            number >= self.num_rows() ==> r == Err::<Vector<T>, MathError>(
                MathError::IndexOutOfRange,
            ),
            number < self.num_rows() ==> r.is_ok() && r.unwrap()@ == self.row(number as int),
    {
        if number >= self.height {
            return Err(MathError::IndexOutOfRange);
        }
        let total = self.data.len();
        proof {
            lemma_row_end(number as int, self.num_cols() as int, self.num_rows() as int);
        }
        let start = number * self.width;
        let mut line: Vec<T> = Vec::with_capacity(self.width);
        let mut j: usize = 0;
        while j < self.width
            invariant
                self.well_formed(),
                number < self.num_rows(),
                start == number * self.num_cols(),
                start + self.num_cols() <= self@.len(),
                total == self@.len(),
                j <= self.num_cols(),
                line@ =~= self.row(number as int).take(j as int),
            decreases self.num_cols() - j,
        {
            line.push(self.data[start + j]);
            j = j + 1;
            assert(line@ =~= self.row(number as int).take(j as int));
        }
        assert(line@ =~= self.row(number as int));
        Ok(Vector::new(line))
    }

    /// Every column, left to right.
    pub fn get_cols(&self) -> (r: Vec<Vector<T>>)
        requires
            self.well_formed(),
        ensures
            r@.len() == self.num_cols(),
            forall|j: int| 0 <= j < self.num_cols() ==> (#[trigger] r@[j])@ == self.col(j),
    {
        let mut res: Vec<Vector<T>> = Vec::with_capacity(self.width);
        let mut j: usize = 0;
        while j < self.width
            invariant
                self.well_formed(),
                j <= self.num_cols(),
                res@.len() == j,
                forall|p: int| 0 <= p < j ==> (#[trigger] res@[p])@ == self.col(p),
            decreases self.num_cols() - j,
        {
            match self.get_col(j) {
                Ok(column) => res.push(column),
                Err(_) => {},
            }
            j = j + 1;
        }
        res
    }

    /// Every row, top to bottom.
    pub fn get_rows(&self) -> (r: Vec<Vector<T>>)
        requires
            self.well_formed(),
        ensures
            r@.len() == self.num_rows(),
            forall|i: int| 0 <= i < self.num_rows() ==> (#[trigger] r@[i])@ == self.row(i),
    {
        let mut res: Vec<Vector<T>> = Vec::with_capacity(self.height);
        let mut i: usize = 0;
        while i < self.height
            invariant
                self.well_formed(),
                i <= self.num_rows(),
                res@.len() == i,
                forall|p: int| 0 <= p < i ==> (#[trigger] res@[p])@ == self.row(p),
            decreases self.num_rows() - i,
        {
            match self.get_row(i) {
                Ok(line) => res.push(line),
                Err(_) => {},
            }
            i = i + 1;
        }
        res
    }

    /// The transpose: a `height`-wide, `width`-high matrix whose row `j` is
    /// column `j` of `self`.
    pub fn transpose(&self) -> (r: Matrix<T>)
        requires
            self.well_formed(),
        ensures
            r.well_formed(),
            r.num_rows() == self.num_cols(),
            r.num_cols() == self.num_rows(),
            forall|i: int, j: int|
                0 <= i < self.num_rows() && 0 <= j < self.num_cols() ==> #[trigger] r.at(j, i)
                    == self.at(i, j),
            r@ == transposed(self@, self.num_rows(), self.num_cols()),
    {
        let w = self.width;
        let h = self.height;
        let total = self.data.len();
        let mut list: Vec<T> = Vec::with_capacity(total);
        let mut j: usize = 0;
        while j < w
            invariant
                self.well_formed(),
                total == self@.len(),
                w == self.num_cols(),
                h == self.num_rows(),
                j <= w,
                list@.len() == j * h,
                forall|q: int, p: int|
                    0 <= q < j && 0 <= p < h ==> list@[q * h + p] == #[trigger] self.at(p, q),
            decreases w - j,
        {
            let mut i: usize = 0;
            while i < h
                invariant
                    self.well_formed(),
                    total == self@.len(),
                    w == self.num_cols(),
                    h == self.num_rows(),
                    j < w,
                    i <= h,
                    list@.len() == j * h + i,
                    forall|q: int, p: int|
                        0 <= q < j && 0 <= p < h ==> list@[q * h + p] == #[trigger] self.at(p, q),
                    forall|p: int| 0 <= p < i ==> list@[j * h + p] == #[trigger] self.at(p, j as int),
                decreases h - i,
            {
                proof {
                    lemma_cell(i as int, j as int, w as int, h as int);
                }
                list.push(self.data[i * w + j]);
                assert forall|q: int, p: int| 0 <= q < j && 0 <= p < h implies list@[q * h + p]
                    == #[trigger] self.at(p, q) by {
                    lemma_cell(q, p, h as int, j as int);
                }
                i = i + 1;
            }
            proof {
                assert((j + 1) * h == j * h + h) by (nonlinear_arith);
            }
            j = j + 1;
        }
        proof {
            assert(list@.len() == h * w) by (nonlinear_arith)
                requires list@.len() == j * h, j == w;
        }
        let r = Matrix { width: h, height: w, data: list };
        assert forall|i: int, j: int|
            0 <= i < self.num_rows() && 0 <= j < self.num_cols() implies #[trigger] r.at(j, i) == self.at(i, j) by {
            lemma_cell(j, i, h as int, w as int);
        }
        assert forall|k: int| 0 <= k < r@.len() implies r@[k] == #[trigger] transposed(
            self@,
            h as nat,
            w as nat,
        )[k] by {
            lemma_split(k, h as int, w as int);
            lemma_cell(k % h as int, k / h as int, w as int, h as int);
            assert(r.at(k / h as int, k % h as int) == self.at(k % h as int, k / h as int));
        }
        assert(r@ =~= transposed(self@, h as nat, w as nat));
        r
    }
}


impl<T: Numeric> Matrix<T> {
    /// The largest element: one of the elements, and below none of them.
    pub fn max(&self) -> (r: T)
        requires
            self@.len() > 0,
        ensures
            exists|k: int| 0 <= k < self@.len() && self@[k] == r,
            forall|k: int| 0 <= k < self@.len() ==> !T::spec_lt(r, #[trigger] self@[k]),
    {
        let mut best = self.data[0];
        proof {
            T::lemma_lt_irrefl(best);
        }
        let ghost mut at: int = 0;
        let mut k: usize = 1;
        while k < self.data.len()
            invariant
                1 <= k <= self@.len(),
                0 <= at < self@.len(),
                self@[at] == best,
                forall|p: int| 0 <= p < k ==> !T::spec_lt(best, #[trigger] self@[p]),
            decreases self@.len() - k,
        {
            let x = self.data[k];
            proof {
                T::lemma_lt_irrefl(x);
            }
            if T::less(best, x) {
                proof {
                    assert forall|p: int| 0 <= p < k implies !T::spec_lt(x, #[trigger] self@[p]) by {
                        if T::spec_lt(x, self@[p]) {
                            T::lemma_lt_trans(best, x, self@[p]);
                        }
                    }
                    at = k as int;
                }
                best = x;
            }
            k = k + 1;
        }
        best
    }

    /// The smallest element: one of the elements, and above none of them.
    pub fn min(&self) -> (r: T)
        requires
            self@.len() > 0,
        ensures
            exists|k: int| 0 <= k < self@.len() && self@[k] == r,
            forall|k: int| 0 <= k < self@.len() ==> !T::spec_lt(#[trigger] self@[k], r),
    {
        let mut best = self.data[0];
        proof {
            T::lemma_lt_irrefl(best);
        }
        let ghost mut at: int = 0;
        let mut k: usize = 1;
        while k < self.data.len()
            invariant
                1 <= k <= self@.len(),
                0 <= at < self@.len(),
                self@[at] == best,
                forall|p: int| 0 <= p < k ==> !T::spec_lt(#[trigger] self@[p], best),
            decreases self@.len() - k,
        {
            let x = self.data[k];
            proof {
                T::lemma_lt_irrefl(x);
            }
            if T::less(x, best) {
                proof {
                    assert forall|p: int| 0 <= p < k implies !T::spec_lt(#[trigger] self@[p], x) by {
                        if T::spec_lt(self@[p], x) {
                            T::lemma_lt_trans(self@[p], x, best);
                        }
                    }
                    at = k as int;
                }
                best = x;
            }
            k = k + 1;
        }
        best
    }

    /// The matrix-vector product: entry `i` is row `i` dotted with `vector`.
    /// Refused with `DimensionMismatch` unless the vector is as long as a row.
    pub fn product_vector(&self, vector: &Vector<T>) -> (r: Result<Vector<T>, MathError>)
        requires
            self.well_formed(),
        ensures
            self.num_cols() != vector@.len() ==> r == Err::<Vector<T>, MathError>(
                MathError::DimensionMismatch,
            ),
            self.num_cols() == vector@.len() ==> r.is_ok() && r.unwrap()@ == Seq::new(
                self.num_rows(),
                |i: int| dot_of(self.row(i), vector@),
            ),
    {
        if self.width != vector.len() {
            return Err(MathError::DimensionMismatch);
        }
        let rows = self.get_rows();
        let mut res: Vec<T> = Vec::with_capacity(self.height);
        let mut i: usize = 0;
        while i < rows.len()
            invariant
                rows@.len() == self.num_rows(),
                forall|p: int| 0 <= p < self.num_rows() ==> (#[trigger] rows@[p])@ == self.row(p),
                self.num_cols() == vector@.len(),
                i <= rows@.len(),
                res@ =~= Seq::new(self.num_rows(), |p: int| dot_of(self.row(p), vector@)).take(
                    i as int,
                ),
            decreases rows@.len() - i,
        {
            match rows[i].dot(vector) {
                Ok(x) => res.push(x),
                Err(_) => {},
            }
            i = i + 1;
            assert(res@ =~= Seq::new(self.num_rows(), |p: int| dot_of(self.row(p), vector@)).take(
                i as int,
            ));
        }
        Ok(Vector::new(res))
    }

    /// The elementwise sum; matrices of different shapes are refused with
    /// `ShapeMismatch`.
    pub fn add(&self, other: &Matrix<T>) -> (r: Result<Matrix<T>, MathError>)
        requires
            self.well_formed(),
            other.well_formed(),
        ensures
            (self.num_rows() != other.num_rows() || self.num_cols() != other.num_cols()) ==> r
                == Err::<Matrix<T>, MathError>(MathError::ShapeMismatch),
            (self.num_rows() == other.num_rows() && self.num_cols() == other.num_cols()) ==> r.is_ok()
                && r.unwrap().well_formed() && r.unwrap().num_rows() == self.num_rows()
                && r.unwrap().num_cols() == self.num_cols() && r.unwrap()@ == sums(self@, other@),
    {
        if self.height != other.height || self.width != other.width {
            return Err(MathError::ShapeMismatch);
        }
        let mut res: Vec<T> = Vec::with_capacity(self.data.len());
        let mut k: usize = 0;
        while k < self.data.len()
            invariant
                self@.len() == other@.len(),
                k <= self@.len(),
                res@ =~= sums(self@, other@).take(k as int),
            decreases self@.len() - k,
        {
            res.push(T::plus(self.data[k], other.data[k]));
            k = k + 1;
            assert(res@ =~= sums(self@, other@).take(k as int));
        }
        assert(res@ =~= sums(self@, other@));
        Ok(Matrix { width: self.width, height: self.height, data: res })
    }

    /// The elementwise difference; matrices of different shapes are refused
    /// with `ShapeMismatch`.
    pub fn sub(&self, other: &Matrix<T>) -> (r: Result<Matrix<T>, MathError>)
        requires
            self.well_formed(),
            other.well_formed(),
        ensures
            (self.num_rows() != other.num_rows() || self.num_cols() != other.num_cols()) ==> r
                == Err::<Matrix<T>, MathError>(MathError::ShapeMismatch),
            (self.num_rows() == other.num_rows() && self.num_cols() == other.num_cols()) ==> r.is_ok()
                && r.unwrap().well_formed() && r.unwrap().num_rows() == self.num_rows()
                && r.unwrap().num_cols() == self.num_cols() && r.unwrap()@ == differences(
                self@,
                other@,
            ),
    {
        if self.height != other.height || self.width != other.width {
            return Err(MathError::ShapeMismatch);
        }
        let mut res: Vec<T> = Vec::with_capacity(self.data.len());
        let mut k: usize = 0;
        while k < self.data.len()
            invariant
                self@.len() == other@.len(),
                k <= self@.len(),
                res@ =~= differences(self@, other@).take(k as int),
            decreases self@.len() - k,
        {
            res.push(T::minus(self.data[k], other.data[k]));
            k = k + 1;
            assert(res@ =~= differences(self@, other@).take(k as int));
        }
        assert(res@ =~= differences(self@, other@));
        Ok(Matrix { width: self.width, height: self.height, data: res })
    }

    /// The total of all elements, in row-major order from the additive identity.
    pub fn sum(&self) -> (r: T)
        ensures
            r == sum_of(self@),
    {
        let mut acc = T::zero();
        let mut k: usize = 0;
        while k < self.data.len()
            invariant
                k <= self@.len(),
                acc == sum_of(self@.take(k as int)),
            decreases self@.len() - k,
        {
            proof {
                lemma_sum_take_step(self@, k as int);
            }
            acc = T::plus(acc, self.data[k]);
            k = k + 1;
        }
        assert(self@.take(self@.len() as int) =~= self@);
        acc
    }

    /// The per-column totals, as a one-row matrix as wide as `self`.
    pub fn sum_columns(&self) -> (r: Matrix<T>)
        requires
            self.well_formed(),
        ensures
            r.well_formed(),
            r.num_rows() == 1,
            r.num_cols() == self.num_cols(),
            r@ == Seq::new(self.num_cols(), |j: int| sum_of(self.col(j))),
    {
        let total = self.data.len();
        let mut res: Vec<T> = Vec::with_capacity(self.width);
        let mut j: usize = 0;
        while j < self.width
            invariant
                self.well_formed(),
                total == self@.len(),
                j <= self.num_cols(),
                res@ =~= Seq::new(self.num_cols(), |q: int| sum_of(self.col(q))).take(j as int),
            decreases self.num_cols() - j,
        {
            let mut acc = T::zero();
            let mut i: usize = 0;
            while i < self.height
                invariant
                    self.well_formed(),
                    total == self@.len(),
                    j < self.num_cols(),
                    i <= self.num_rows(),
                    acc == sum_of(self.col(j as int).take(i as int)),
                decreases self.num_rows() - i,
            {
                proof {
                    lemma_cell(i as int, j as int, self.num_cols() as int, self.num_rows() as int);
                    lemma_sum_take_step(self.col(j as int), i as int);
                }
                acc = T::plus(acc, self.data[i * self.width + j]);
                i = i + 1;
            }
            assert(self.col(j as int).take(self.num_rows() as int) =~= self.col(j as int));
            res.push(acc);
            j = j + 1;
            assert(res@ =~= Seq::new(self.num_cols(), |q: int| sum_of(self.col(q))).take(j as int));
        }
        assert(res@ =~= Seq::new(self.num_cols(), |q: int| sum_of(self.col(q))));
        Matrix { width: self.width, height: 1, data: res }
    }

    /// The per-row totals, top to bottom.
    pub fn sum_rows(&self) -> (r: Vector<T>)
        requires
            self.well_formed(),
        ensures
            r@ == Seq::new(self.num_rows(), |i: int| sum_of(self.row(i))),
    {
        let total = self.data.len();
        let mut res: Vec<T> = Vec::with_capacity(self.height);
        let mut i: usize = 0;
        while i < self.height
            invariant
                self.well_formed(),
                total == self@.len(),
                i <= self.num_rows(),
                res@ =~= Seq::new(self.num_rows(), |q: int| sum_of(self.row(q))).take(i as int),
            decreases self.num_rows() - i,
        {
            let mut acc = T::zero();
            let mut j: usize = 0;
            while j < self.width
                invariant
                    self.well_formed(),
                    total == self@.len(),
                    i < self.num_rows(),
                    j <= self.num_cols(),
                    acc == sum_of(self.row(i as int).take(j as int)),
                decreases self.num_cols() - j,
            {
                proof {
                    lemma_cell(i as int, j as int, self.num_cols() as int, self.num_rows() as int);
                    lemma_sum_take_step(self.row(i as int), j as int);
                }
                acc = T::plus(acc, self.data[i * self.width + j]);
                j = j + 1;
            }
            assert(self.row(i as int).take(self.num_cols() as int) =~= self.row(i as int));
            res.push(acc);
            i = i + 1;
            assert(res@ =~= Seq::new(self.num_rows(), |q: int| sum_of(self.row(q))).take(i as int));
        }
        assert(res@ =~= Seq::new(self.num_rows(), |q: int| sum_of(self.row(q))));
        Vector::new(res)
    }

    /// Every element multiplied by `scalar`, as a new matrix of the same shape.
    pub fn scale(&self, scalar: T) -> (r: Matrix<T>)
        requires
            self.well_formed(),
        ensures
            r.well_formed(),
            r.num_rows() == self.num_rows(),
            r.num_cols() == self.num_cols(),
            r@ == scaled(self@, scalar),
    {
        let mut res: Vec<T> = Vec::with_capacity(self.data.len());
        let mut k: usize = 0;
        while k < self.data.len()
            invariant
                k <= self@.len(),
                res@ =~= scaled(self@, scalar).take(k as int),
            decreases self@.len() - k,
        {
            res.push(T::times(self.data[k], scalar));
            k = k + 1;
            assert(res@ =~= scaled(self@, scalar).take(k as int));
        }
        assert(res@ =~= scaled(self@, scalar));
        Matrix { width: self.width, height: self.height, data: res }
    }
}


impl<T> Matrix<T> {
    /// The element in row `index.0` and column `index.1`. Out-of-range
    /// indices are the caller's error: they are excluded by the precondition.
    pub fn index(&self, index: (usize, usize)) -> (r: &T)
        requires
            self.well_formed(),
            index.0 < self.num_rows(),
            index.1 < self.num_cols(),
        ensures
            *r == self.at(index.0 as int, index.1 as int),
    {
        let total = self.data.len();
        proof {
            lemma_cell(index.0 as int, index.1 as int, self.num_cols() as int, self.num_rows() as int);
        }
        &self.data[index.0 * self.width + index.1]
    }

    /// A mutable reference to the element in row `index.0` and column
    /// `index.1`; writing through it changes that element alone.
    pub fn index_mut(&mut self, index: (usize, usize)) -> (r: &mut T)
        requires
            old(self).well_formed(),
            index.0 < old(self).num_rows(),
            index.1 < old(self).num_cols(),
        ensures
            *r == old(self).at(index.0 as int, index.1 as int),
            final(self).well_formed(),
            final(self).num_rows() == old(self).num_rows(),
            final(self).num_cols() == old(self).num_cols(),
            final(self)@ == old(self)@.update(
                index.0 * old(self).num_cols() + index.1,
                *final(r),
            ),
    {
        let total = self.data.len();
        proof {
            lemma_cell(index.0 as int, index.1 as int, self.num_cols() as int, self.num_rows() as int);
        }
        let k = index.0 * self.width + index.1;
        &mut self.data[k]
    }
}

} // verus!
