//! Fixed-width lane arithmetic for dot products: elements are multiplied and
//! accumulated `LANES` at a time into independent lane accumulators, the
//! remainder that does not fill a lane is handled by one zero-padded lane
//! operation, and the lanes are collapsed to a scalar at the end.
use vstd::prelude::*;

use crate::numlib::Numeric;
use crate::summation::{
    dot_of, lemma_sum_concat, lemma_sum_of_sums, lemma_sum_padded, lemma_sum_take_step, products,
    sum_of, sums, zeros,
};

verus! {

/// The number of elements one lane operation processes.
pub const LANES: usize = 8;

/// A vector of `n` copies of `x`.
fn filled<T: Copy>(x: T, n: usize) -> (r: Vec<T>)
    ensures
        r@ == Seq::new(n as nat, |i: int| x),
{
    let mut v: Vec<T> = Vec::with_capacity(n);
    let mut i: usize = 0;
    while i < n
        invariant
            i <= n,
            v@ == Seq::new(i as nat, |k: int| x),
        decreases n - i,
    {
        v.push(x);
        i = i + 1;
        assert(v@ =~= Seq::new(i as nat, |k: int| x));
    }
    v
}

/// One lane operation: `acc[l] += a[a_off + l] * b[b_off + l]` for every lane `l`.
fn lanes_mul_add<T: Numeric>(acc: &mut Vec<T>, a: &Vec<T>, a_off: usize, b: &Vec<T>, b_off: usize)
    requires
        old(acc)@.len() == LANES,
        a_off + LANES <= a@.len(),
        b_off + LANES <= b@.len(),
    ensures
        final(acc)@ == sums(
            old(acc)@,
            products(
                a@.subrange(a_off as int, a_off + LANES),
                b@.subrange(b_off as int, b_off + LANES),
            ),
        ),
{
    let ghost before = acc@;
    let a_len = a.len();
    let b_len = b.len();
    let mut l: usize = 0;
    while l < LANES
        invariant
            a_len == a@.len(),
            b_len == b@.len(),
            acc@.len() == LANES,
            before == old(acc)@,
            a_off + LANES <= a@.len(),
            b_off + LANES <= b@.len(),
            l <= LANES,
            forall|p: int|
                0 <= p < l ==> #[trigger] acc@[p] == T::spec_add(
                    before[p],
                    T::spec_mul(a@[a_off + p], b@[b_off + p]),
                ),
            forall|p: int| l <= p < LANES ==> #[trigger] acc@[p] == before[p],
        decreases LANES - l,
    {
        let v = T::plus(acc[l], T::times(a[a_off + l], b[b_off + l]));
        acc.set(l, v);
        l = l + 1;
    }
    assert(acc@ =~= sums(
        before,
        products(
            a@.subrange(a_off as int, a_off + LANES),
            b@.subrange(b_off as int, b_off + LANES),
        ),
    ));
}

/// The dot product of `a[a_start..a_start + n]` and `b[b_start..b_start + n]`
/// computed lane-wise: it equals the sequential dot product exactly.
pub fn lane_dot<T: Numeric>(a: &Vec<T>, a_start: usize, b: &Vec<T>, b_start: usize, n: usize) -> (r: T)
    requires
        a_start + n <= a@.len(),
        b_start + n <= b@.len(),
    ensures
        r == dot_of(
            a@.subrange(a_start as int, a_start + n),
            b@.subrange(b_start as int, b_start + n),
        ),
{
    let ghost p = products(
        a@.subrange(a_start as int, a_start + n),
        b@.subrange(b_start as int, b_start + n),
    );
    let a_len = a.len();
    let b_len = b.len();
    let chunks = n / LANES;
    let left = chunks * LANES;
    assert(left <= n && n - left < LANES) by {
        vstd::arithmetic::div_mod::lemma_fundamental_div_mod(n as int, LANES as int);
    }
    let zero = T::zero();
    let mut acc = filled(zero, LANES);
    proof {
        lemma_sum_padded(Seq::<T>::empty(), LANES as nat);
        assert(Seq::<T>::empty() + zeros::<T>(LANES as nat) =~= acc@);
        assert(p.take(0) =~= Seq::<T>::empty());
    }
    let mut c: usize = 0;
    while c < chunks
        invariant
            a_len == a@.len(),
            b_len == b@.len(),
            a_start + n <= a@.len(),
            b_start + n <= b@.len(),
            p == products(
                a@.subrange(a_start as int, a_start + n),
                b@.subrange(b_start as int, b_start + n),
            ),
            chunks * LANES == left <= n,
            c <= chunks,
            acc@.len() == LANES,
            sum_of(acc@) == sum_of(p.take(c * LANES)),
        decreases chunks - c,
    {
        let off = c * LANES;
        let ghost prev = acc@;
        lanes_mul_add(&mut acc, a, a_start + off, b, b_start + off);
        proof {
            let chunk = products(
                a@.subrange(a_start + off, a_start + off + LANES),
                b@.subrange(b_start + off, b_start + off + LANES),
            );
            assert(chunk =~= p.subrange(off as int, off + LANES));
            lemma_sum_of_sums(prev, chunk);
            assert(p.take(off + LANES) =~= p.take(off as int) + chunk);
            lemma_sum_concat(p.take(off as int), chunk);
        }
        c = c + 1;
    }
    let rem = n - left;
    let mut a_pad = filled(zero, LANES);
    let mut b_pad = filled(zero, LANES);
    let mut l: usize = 0;
    while l < rem
        invariant
            a_len == a@.len(),
            b_len == b@.len(),
            a_start + n <= a@.len(),
            b_start + n <= b@.len(),
            left + rem == n,
            rem < LANES,
            l <= rem,
            a_pad@.len() == LANES,
            b_pad@.len() == LANES,
            forall|q: int| 0 <= q < l ==> #[trigger] a_pad@[q] == a@[a_start + left + q],
            forall|q: int| 0 <= q < l ==> #[trigger] b_pad@[q] == b@[b_start + left + q],
            forall|q: int| l <= q < LANES ==> #[trigger] a_pad@[q] == zero,
            forall|q: int| l <= q < LANES ==> #[trigger] b_pad@[q] == zero,
        decreases rem - l,
    {
        a_pad.set(l, a[a_start + left + l]);
        b_pad.set(l, b[b_start + left + l]);
        l = l + 1;
    }
    let ghost prev = acc@;
    lanes_mul_add(&mut acc, &a_pad, 0, &b_pad, 0);
    proof {
        let tail = p.subrange(left as int, n as int);
        let padded = products(a_pad@.subrange(0, LANES as int), b_pad@.subrange(0, LANES as int));
        T::lemma_mul_zero(zero);
        assert(padded =~= tail + zeros::<T>((LANES - rem) as nat));
        lemma_sum_padded(tail, (LANES - rem) as nat);
        lemma_sum_of_sums(prev, padded);
        assert(p =~= p.take(left as int) + tail);
        lemma_sum_concat(p.take(left as int), tail);
    }
    let mut total = T::zero();
    let mut k: usize = 0;
    while k < LANES
        invariant
            acc@.len() == LANES,
            k <= LANES,
            total == sum_of(acc@.take(k as int)),
        decreases LANES - k,
    {
        proof {
            lemma_sum_take_step(acc@, k as int);
        }
        total = T::plus(total, acc[k]);
        k = k + 1;
    }
    assert(acc@.take(LANES as int) =~= acc@);
    total
}

} // verus!
