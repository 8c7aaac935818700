//! Fixed-length numeric vectors.
use vstd::prelude::*;

use crate::error::MathError;
use crate::layout::lemma_cell;
use crate::matrix::Matrix;
use crate::numlib::{Numeric, One, Zero};
use crate::summation::{differences, dot_of, dot_range, scaled, sums};

verus! {

/// The direction along which a vector is repeated by [`Vector::expand`].
#[derive(Debug, Clone, Copy, PartialEq, Eq, Structural)]
pub enum Axis {
    Column,
    Row,
}

/// An ordered sequence of elements. Its length is fixed by construction.
#[derive(Debug, Clone, PartialEq, Eq, Hash)]
pub struct Vector<T> {
    data: Vec<T>,
}

impl<T> View for Vector<T> {
    type V = Seq<T>;

    closed spec fn view(&self) -> Seq<T> {
        self.data@
    }
}

impl<T> Vector<T> {
    /// The vector holding `data`; its length is `data`'s.
    pub fn new(data: Vec<T>) -> (r: Vector<T>)
        ensures
            r@ == data@,
    {
        Vector { data }
    }

    /// The elements, in order.
    pub fn as_vec(&self) -> (r: &Vec<T>)
        ensures
            r@ == self@,
    {
        &self.data
    }

    /// Mutable access to the elements; what is written through it becomes
    /// the vector's contents.
    pub fn as_mut_vec(&mut self) -> (r: &mut Vec<T>)
        ensures
            r@ == old(self)@,
            final(self)@ == final(r)@,
    {
        &mut self.data
    }

    /// The number of elements.
    pub fn len(&self) -> (r: usize)
        ensures
            r == self@.len(),
    {
        self.data.len()
    }
}

/// `x` is a value that some state of the supplier type `F` returns.
pub open spec fn supplied<T, F: FnMut() -> T>(x: T) -> bool {
    exists|s: F| s.ensures((), x)
}

impl<T: Copy> Vector<T> {
    /// A vector of `size` elements, each drawn from one call of `supplier`.
    pub fn new_of_supplier<F: FnMut() -> T>(size: usize, mut supplier: F) -> (r: Vector<T>)
        requires
            forall|s: F| #[trigger] s.requires(()),
        ensures
            r@.len() == size,
            forall|k: int| 0 <= k < size ==> supplied::<T, F>(#[trigger] r@[k]),
    {
        let mut data: Vec<T> = Vec::with_capacity(size);
        let mut i: usize = 0;
        while i < size
            invariant
                i <= size,
                data@.len() == i,
                forall|s: F| #[trigger] s.requires(()),
                forall|k: int| 0 <= k < i ==> supplied::<T, F>(#[trigger] data@[k]),
            decreases size - i,
        {
            let ghost before = supplier;
            let ghost earlier = data@;
            let x = supplier();
            data.push(x);
            proof {
                assert forall|k: int| 0 <= k < i + 1 implies supplied::<T, F>(
                    #[trigger] data@[k],
                ) by {
                    if k == i {
                        assert(before.ensures((), data@[k]));
                    } else {
                        assert(data@[k] == earlier[k]);
                    }
                }
            }
            i = i + 1;
        }
        Vector { data }
    }

    /// Applies `f` to every element in place; the length is kept.
    pub fn apply<F: Fn(&T) -> T>(&mut self, f: F)
        requires
            forall|i: int| 0 <= i < old(self)@.len() ==> f.requires((&old(self)@[i],)),
        ensures
            final(self)@.len() == old(self)@.len(),
            forall|i: int|
                0 <= i < old(self)@.len() ==> f.ensures((&old(self)@[i],), #[trigger] final(self)@[i]),
    {
        let ghost before = self@;
        let mut i: usize = 0;
        while i < self.data.len()
            invariant
                self@.len() == before.len(),
                i <= before.len(),
                forall|j: int| i <= j < before.len() ==> self@[j] == before[j],
                forall|j: int| 0 <= j < before.len() ==> f.requires((&before[j],)),
                forall|j: int| 0 <= j < i ==> f.ensures((&before[j],), #[trigger] self@[j]),
            decreases before.len() - i,
        {
            assert(self@[i as int] == before[i as int]);
            let x = f(&self.data[i]);
            self.data.set(i, x);
            i = i + 1;
        }
    }
}

impl<T: Copy> Vector<T> {
    /// Broadcasts the vector into a matrix: along `Row` it is repeated as `n`
    /// identical rows (`n` by `len`); along `Column` as `n` identical columns
    /// (`len` by `n`), which is the transpose of the row broadcast.
    pub fn expand(&self, n: usize, axis: Axis) -> (r: Matrix<T>)
        requires
            self@.len() * n <= usize::MAX,
        ensures
            r.well_formed(),
            axis == Axis::Row ==> r.num_rows() == n && r.num_cols() == self@.len() && forall|
                i: int,
                j: int,
            |
                0 <= i < n && 0 <= j < self@.len() ==> #[trigger] r.at(i, j) == self@[j],
            axis == Axis::Column ==> r.num_rows() == self@.len() && r.num_cols() == n && forall|
                j: int,
                i: int,
            |
                0 <= j < self@.len() && 0 <= i < n ==> #[trigger] r.at(j, i) == self@[j],
    {
        let len = self.data.len();
        let mut repeated: Vec<T> = Vec::with_capacity(len * n);
        let mut i: usize = 0;
        while i < n
            invariant
                len == self@.len(),
                len * n <= usize::MAX,
                i <= n,
                repeated@.len() == i * len,
                forall|q: int, p: int|
                    0 <= q < i && 0 <= p < len ==> #[trigger] repeated@[q * len + p] == self@[p],
            decreases n - i,
        {
            let mut j: usize = 0;
            while j < len
                invariant
                    len == self@.len(),
                    i < n,
                    j <= len,
                    repeated@.len() == i * len + j,
                    forall|q: int, p: int|
                        0 <= q < i && 0 <= p < len ==> #[trigger] repeated@[q * len + p] == self@[p],
                    forall|p: int| 0 <= p < j ==> #[trigger] repeated@[i * len + p] == self@[p],
                decreases len - j,
            {
                repeated.push(self.data[j]);
                assert forall|q: int, p: int| 0 <= q < i && 0 <= p < len implies #[trigger] repeated@[q
                    * len + p] == self@[p] by {
                    lemma_cell(q, p, len as int, i as int);
                }
                j = j + 1;
            }
            proof {
                assert((i + 1) * len == i * len + len) by (nonlinear_arith);
            }
            i = i + 1;
        }
        proof {
            assert(repeated@.len() == len * n) by (nonlinear_arith)
                requires
                    repeated@.len() == i * len,
                    i == n,
            ;
        }
        let ghost rep = repeated@;
        match Matrix::new(len, n, repeated) {
            Ok(rows) => {
                match axis {
                    Axis::Column => rows.transpose(),
                    Axis::Row => rows,
                }
            },
            Err(_) => vstd::pervasive::unreached(),
        }
    }
}

impl<T: Zero + Copy> Vector<T> {
    /// The vector of `size` additive identities.
    pub fn zeroes(size: usize) -> (r: Vector<T>)
        ensures
            r@ == Seq::new(size as nat, |i: int| T::spec_zero()),
    {
        let z = T::zero();
        let mut data: Vec<T> = Vec::with_capacity(size);
        let mut i: usize = 0;
        while i < size
            invariant
                i <= size,
                z == T::spec_zero(),
                data@ == Seq::new(i as nat, |k: int| T::spec_zero()),
            decreases size - i,
        {
            data.push(z);
            i = i + 1;
            assert(data@ =~= Seq::new(i as nat, |k: int| T::spec_zero()));
        }
        Vector { data }
    }
}

impl<T: One + Copy> Vector<T> {
    /// The vector of `size` multiplicative identities.
    pub fn ones(size: usize) -> (r: Vector<T>)
        ensures
            r@ == Seq::new(size as nat, |i: int| T::spec_one()),
    {
        let o = T::one();
        let mut data: Vec<T> = Vec::with_capacity(size);
        let mut i: usize = 0;
        while i < size
            invariant
                i <= size,
                o == T::spec_one(),
                data@ == Seq::new(i as nat, |k: int| T::spec_one()),
            decreases size - i,
        {
            data.push(o);
            i = i + 1;
            assert(data@ =~= Seq::new(i as nat, |k: int| T::spec_one()));
        }
        Vector { data }
    }
}

/// The `number`-th (counted from 1) standard basis vector of length `dimensions`.
pub open spec fn unit_vector<T: Zero + One>(number: nat, dimensions: nat) -> Seq<T> {
    Seq::new(dimensions, |i: int| if i == number - 1 { T::spec_one() } else { T::spec_zero() })
}

impl<T: Zero + One + Copy> Vector<T> {
    /// The standard basis vector with a one at position `number` (counted
    /// from 1) and zeros elsewhere. Positions outside `1..=dimensions` are
    /// refused with `IndexOutOfRange`.
    pub fn cartesian_unit_vector(number: usize, dimensions: usize) -> (r: Result<
        Vector<T>,
        MathError,
    >)
        ensures
            number == 0 || number > dimensions ==> r == Err::<Vector<T>, MathError>(
                MathError::IndexOutOfRange,
            ),
            1 <= number <= dimensions ==> r.is_ok() && r.unwrap()@ == unit_vector::<T>(
                number as nat,
                dimensions as nat,
            ),
    {
        if number == 0 || number > dimensions {
            return Err(MathError::IndexOutOfRange);
        }
        let mut v: Vector<T> = Vector::zeroes(dimensions);
        v.data.set(number - 1, T::one());
        assert(v@ =~= unit_vector::<T>(number as nat, dimensions as nat));
        Ok(v)
    }
}

impl<T: Numeric> Vector<T> {
    /// Every element multiplied by `scalar`, as a new vector.
    pub fn scale(&self, scalar: T) -> (r: Vector<T>)
        ensures
            r@ == scaled(self@, scalar),
    {
        let mut res: Vec<T> = Vec::with_capacity(self.data.len());
        let mut i: usize = 0;
        while i < self.data.len()
            invariant
                i <= self@.len(),
                res@ =~= scaled(self@, scalar).take(i as int),
            decreases self@.len() - i,
        {
            res.push(T::times(self.data[i], scalar));
            i = i + 1;
            assert(res@ =~= scaled(self@, scalar).take(i as int));
        }
        assert(res@ =~= scaled(self@, scalar));
        Vector { data: res }
    }

    /// The elementwise sum; vectors of different lengths are refused with
    /// `SizeMismatch`.
    pub fn add(&self, other: &Vector<T>) -> (r: Result<Vector<T>, MathError>)
        ensures
            self@.len() != other@.len() ==> r == Err::<Vector<T>, MathError>(
                MathError::SizeMismatch,
            ),
            self@.len() == other@.len() ==> r.is_ok() && r.unwrap()@ == sums(self@, other@),
    {
        if self.data.len() != other.data.len() {
            return Err(MathError::SizeMismatch);
        }
        let mut res: Vec<T> = Vec::with_capacity(self.data.len());
        let mut i: usize = 0;
        while i < self.data.len()
            invariant
                i <= self@.len(),
                self@.len() == other@.len(),
                res@ =~= sums(self@, other@).take(i as int),
            decreases self@.len() - i,
        {
            res.push(T::plus(self.data[i], other.data[i]));
            i = i + 1;
            assert(res@ =~= sums(self@, other@).take(i as int));
        }
        assert(res@ =~= sums(self@, other@));
        Ok(Vector { data: res })
    }

    /// The elementwise difference; vectors of different lengths are refused
    /// with `SizeMismatch`.
    pub fn sub(&self, other: &Vector<T>) -> (r: Result<Vector<T>, MathError>)
        ensures
            self@.len() != other@.len() ==> r == Err::<Vector<T>, MathError>(
                MathError::SizeMismatch,
            ),
            self@.len() == other@.len() ==> r.is_ok() && r.unwrap()@ == differences(
                self@,
                other@,
            ),
    {
        if self.data.len() != other.data.len() {
            return Err(MathError::SizeMismatch);
        }
        let mut res: Vec<T> = Vec::with_capacity(self.data.len());
        let mut i: usize = 0;
        while i < self.data.len()
            invariant
                i <= self@.len(),
                self@.len() == other@.len(),
                res@ =~= differences(self@, other@).take(i as int),
            decreases self@.len() - i,
        {
            res.push(T::minus(self.data[i], other.data[i]));
            i = i + 1;
            assert(res@ =~= differences(self@, other@).take(i as int));
        }
        assert(res@ =~= differences(self@, other@));
        Ok(Vector { data: res })
    }

    /// The dot product, summed in index order from the additive identity;
    /// vectors of different lengths are refused with `SizeMismatch`.
    pub fn dot(&self, other: &Vector<T>) -> (r: Result<T, MathError>)
        ensures
            self@.len() != other@.len() ==> r == Err::<T, MathError>(MathError::SizeMismatch),
            self@.len() == other@.len() ==> r == Ok::<T, MathError>(dot_of(self@, other@)),
    {
        if self.data.len() != other.data.len() {
            return Err(MathError::SizeMismatch);
        }
        let r = dot_range(&self.data, 0, &other.data, 0, self.data.len());
        assert(self@.subrange(0, self@.len() as int) =~= self@);
        assert(other@.subrange(0, other@.len() as int) =~= other@);
        Ok(r)
    }
}

} // verus!
