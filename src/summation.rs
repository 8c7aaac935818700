//! Mathematical sums and products over sequences of elements, and the
//! algebraic facts about them that the multiplication strategies rely on.
use vstd::prelude::*;

use crate::numlib::Numeric;

verus! {

/// Left fold of `spec_add` over `s`, seeded with the additive identity.
pub open spec fn sum_of<T: Numeric>(s: Seq<T>) -> T
    decreases s.len(),
{
    if s.len() == 0 {
        T::spec_zero()
    } else {
        T::spec_add(sum_of(s.drop_last()), s.last())
    }
}

/// The elementwise products `a[i] * b[i]`, as long as `a`.
pub open spec fn products<T: Numeric>(a: Seq<T>, b: Seq<T>) -> Seq<T> {
    Seq::new(a.len(), |i: int| T::spec_mul(a[i], b[i]))
}

/// The elementwise sums `a[i] + b[i]`, as long as `a`.
pub open spec fn sums<T: Numeric>(a: Seq<T>, b: Seq<T>) -> Seq<T> {
    Seq::new(a.len(), |i: int| T::spec_add(a[i], b[i]))
}

/// The elementwise differences `a[i] - b[i]`, as long as `a`.
pub open spec fn differences<T: Numeric>(a: Seq<T>, b: Seq<T>) -> Seq<T> {
    Seq::new(a.len(), |i: int| T::spec_sub(a[i], b[i]))
}

/// Every element of `s` multiplied by `k`.
pub open spec fn scaled<T: Numeric>(s: Seq<T>, k: T) -> Seq<T> {
    Seq::new(s.len(), |i: int| T::spec_mul(s[i], k))
}

/// The dot product: the sequential sum of the elementwise products.
pub open spec fn dot_of<T: Numeric>(a: Seq<T>, b: Seq<T>) -> T {
    sum_of(products(a, b))
}


/// `(a + b) + (c + d) == (a + c) + (b + d)`.
pub proof fn lemma_add_interchange<T: Numeric>(a: T, b: T, c: T, d: T)
    ensures
        T::spec_add(T::spec_add(a, b), T::spec_add(c, d)) == T::spec_add(
            T::spec_add(a, c),
            T::spec_add(b, d),
        ),
{
    T::lemma_add_assoc(a, b, T::spec_add(c, d));
    T::lemma_add_assoc(b, c, d);
    T::lemma_add_comm(b, c);
    T::lemma_add_assoc(c, b, d);
    T::lemma_add_assoc(a, c, T::spec_add(b, d));
}

/// The sum of a concatenation is the sum of the sums of its parts.
pub proof fn lemma_sum_concat<T: Numeric>(s: Seq<T>, t: Seq<T>)
    ensures
        sum_of(s + t) == T::spec_add(sum_of(s), sum_of(t)),
    decreases t.len(),
{
    if t.len() == 0 {
        assert(s + t =~= s);
        T::lemma_add_zero(sum_of(s));
    } else {
        assert((s + t).drop_last() =~= s + t.drop_last());
        lemma_sum_concat(s, t.drop_last());
        T::lemma_add_assoc(sum_of(s), sum_of(t.drop_last()), t.last());
    }
}

/// Summing two equally long sequences elementwise first, or each on its own
/// first, gives the same total.
pub proof fn lemma_sum_of_sums<T: Numeric>(x: Seq<T>, y: Seq<T>)
    requires
        x.len() == y.len(),
    ensures
        sum_of(sums(x, y)) == T::spec_add(sum_of(x), sum_of(y)),
    decreases x.len(),
{
    if x.len() == 0 {
        T::lemma_add_zero(T::spec_zero());
    } else {
        assert(sums(x, y).drop_last() =~= sums(x.drop_last(), y.drop_last()));
        lemma_sum_of_sums(x.drop_last(), y.drop_last());
        lemma_add_interchange(sum_of(x.drop_last()), sum_of(y.drop_last()), x.last(), y.last());
    }
}

/// `n` copies of the additive identity.
pub open spec fn zeros<T: Numeric>(n: nat) -> Seq<T> {
    Seq::new(n, |i: int| T::spec_zero())
}

/// Appending zeros leaves a sum unchanged.
pub proof fn lemma_sum_padded<T: Numeric>(s: Seq<T>, n: nat)
    ensures
        sum_of(s + zeros::<T>(n)) == sum_of(s),
    decreases n,
{
    if n == 0 {
        assert(s + zeros::<T>(n) =~= s);
    } else {
        assert((s + zeros::<T>(n)).drop_last() =~= s + zeros::<T>((n - 1) as nat));
        lemma_sum_padded(s, (n - 1) as nat);
        T::lemma_add_zero(sum_of(s));
    }
}

/// Extending a prefix by one element adds that element to its sum.
pub proof fn lemma_sum_take_step<T: Numeric>(s: Seq<T>, k: int)
    requires
        0 <= k < s.len(),
    ensures
        sum_of(s.take(k + 1)) == T::spec_add(sum_of(s.take(k)), s[k]),
{
    assert(s.take(k + 1).drop_last() =~= s.take(k));
}

/// The dot product of `a[a_start..a_start + n]` and `b[b_start..b_start + n]`,
/// accumulated one element at a time in index order.
pub fn dot_range<T: Numeric>(a: &Vec<T>, a_start: usize, b: &Vec<T>, b_start: usize, n: usize) -> (r: T)
    requires
        a_start + n <= a@.len(),
        b_start + n <= b@.len(),
    ensures
        r == dot_of(
            a@.subrange(a_start as int, a_start + n),
            b@.subrange(b_start as int, b_start + n),
        ),
{
    let a_len = a.len();
    let b_len = b.len();
    let mut acc = T::zero();
    let mut k: usize = 0;
    while k < n
        invariant
            k <= n,
            a_start + n <= a_len == a@.len(),
            b_start + n <= b_len == b@.len(),
            acc == dot_of(
                a@.subrange(a_start as int, a_start + k),
                b@.subrange(b_start as int, b_start + k),
            ),
        decreases n - k,
    {
        let ghost xs = a@.subrange(a_start as int, a_start + k + 1);
        let ghost ys = b@.subrange(b_start as int, b_start + k + 1);
        proof {
            assert(products(xs, ys).drop_last() =~= products(
                a@.subrange(a_start as int, a_start + k),
                b@.subrange(b_start as int, b_start + k),
            ));
        }
        acc = T::plus(acc, T::times(a[a_start + k], b[b_start + k]));
        k = k + 1;
    }
    acc
}

} // verus!
