//! Properties that relate several operations of the library, stated over the
//! same spec functions as the operations' own contracts and proved.
use vstd::prelude::*;

use crate::layout::{lemma_cell, lemma_split};
use crate::matrix::{transposed, Matrix};
use crate::multiply::{is_product, product_of};
use crate::numlib::{Numeric, One};
use crate::summation::{dot_of, lemma_sum_padded, products, sum_of, zeros};

verus! {

/// Transposing twice gives back the original matrix, for every shape,
/// including the empty `0`-by-`0` one: the buffer that `transpose` produces
/// from the buffer that `transpose` produced is the original buffer, and the
/// shape is swapped back.
pub proof fn law_transpose_round_trip<T>(m: &Matrix<T>)
    requires
        m.well_formed(),
    ensures
        transposed(transposed(m@, m.num_rows(), m.num_cols()), m.num_cols(), m.num_rows()) == m@,
{
    let h = m.num_rows();
    let w = m.num_cols();
    let t = transposed(m@, h, w);
    let tt = transposed(t, w, h);
    m.lemma_layout();
    assert forall|k: int| 0 <= k < m@.len() implies tt[k] == m@[k] by {
        lemma_split(k, w as int, h as int);
        let i = k / w as int;
        let j = k % w as int;
        lemma_cell(j, i, h as int, w as int);
        assert(tt[k] == t[j * h + i]);
        assert(t[j * h + i] == m@[i * w + j]);
    }
    assert(tt =~= m@);
}

/// The multiplication strategies agree cell for cell on exact element types:
/// any results of the naive, the transposed and the lane-parallel strategy
/// on the same operands are one and the same matrix.
pub proof fn law_strategies_agree<T: Numeric>(
    a: &Matrix<T>,
    b: &Matrix<T>,
    naive: &Matrix<T>,
    transposed_loop: &Matrix<T>,
    lanes: &Matrix<T>,
)
    requires
        is_product(naive, a, b),
        is_product(transposed_loop, a, b),
        is_product(lanes, a, b),
    ensures
        naive.same_as(transposed_loop),
        transposed_loop.same_as(lanes),
{
}

/// The sum of `n` additive identities is the additive identity.
proof fn lemma_sum_zeros<T: Numeric>(n: nat)
    ensures
        sum_of(zeros::<T>(n)) == T::spec_zero(),
{
    lemma_sum_padded(Seq::<T>::empty(), n);
    assert(Seq::<T>::empty() + zeros::<T>(n) =~= zeros::<T>(n));
}

/// Multiplying any matrix by a compatible all-zero matrix gives the all-zero
/// matrix of the product's shape.
pub proof fn law_product_with_zero<T: Numeric>(a: &Matrix<T>, z: &Matrix<T>)
    requires
        a.well_formed(),
        z.well_formed(),
        a.num_cols() == z.num_rows(),
        forall|k: int| 0 <= k < z@.len() ==> #[trigger] z@[k] == T::spec_zero(),
    ensures
        product_of(a, z) == Seq::new(a.num_rows() * z.num_cols(), |k: int| T::spec_zero()),
{
    let w = z.num_cols();
    assert forall|k: int| 0 <= k < a.num_rows() * w implies #[trigger] product_of(a, z)[k]
        == T::spec_zero() by {
        lemma_split(k, w as int, a.num_rows() as int);
        let i = k / w as int;
        let j = k % w as int;
        let n = a.num_cols();
        assert forall|p: int| 0 <= p < n implies #[trigger] z.col(j)[p] == T::spec_zero() by {
            lemma_cell(p, j, w as int, z.num_rows() as int);
            z.lemma_layout();
            assert(z@[p * w + j] == T::spec_zero());
        }
        assert forall|p: int| 0 <= p < n implies #[trigger] products(a.row(i), z.col(j))[p]
            == T::spec_zero() by {
            T::lemma_mul_zero(a.row(i)[p]);
        }
        assert(products(a.row(i), z.col(j)) =~= zeros::<T>(n));
        lemma_sum_zeros::<T>(n);
    }
    assert(product_of(a, z) =~= Seq::new(a.num_rows() * w, |k: int| T::spec_zero()));
}

/// The sum of `n` ones is `n`.
proof fn lemma_sum_of_ones(n: nat)
    requires
        n <= u64::MAX,
    ensures
        sum_of(Seq::new(n, |i: int| 1u64)) == n as u64,
    decreases n,
{
    if n > 0 {
        assert(Seq::new(n, |i: int| 1u64).drop_last() =~= Seq::new((n - 1) as nat, |i: int| 1u64));
        lemma_sum_of_ones((n - 1) as nat);
    }
}

/// The vector of `n` ones dotted with itself is `n`, for every length that a
/// vector of `u64` can have.
pub proof fn law_ones_dot_ones(n: nat)
    requires
        n <= usize::MAX,
    ensures
        dot_of(
            Seq::new(n, |i: int| <u64 as One>::spec_one()),
            Seq::new(n, |i: int| <u64 as One>::spec_one()),
        ) == n as u64,
{
    let ones = Seq::new(n, |i: int| <u64 as One>::spec_one());
    assert(products(ones, ones) =~= Seq::new(n, |i: int| 1u64));
    lemma_sum_of_ones(n);
}

} // verus!
