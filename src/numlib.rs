//! Numeric capabilities that the containers are generic over: additive and
//! multiplicative identities, and ring arithmetic on the element type.
//!
//! Fixed-width integers use wrapping (two's complement) arithmetic, so every
//! operation is total and the algebraic laws below hold exactly.
use vstd::prelude::*;

verus! {

/// Types with an additive identity.
pub trait Zero: Sized {
    spec fn spec_zero() -> Self;

    fn zero() -> (r: Self)
        ensures
            r == Self::spec_zero(),
    ;
}

/// Types with a multiplicative identity.
pub trait One: Sized {
    spec fn spec_one() -> Self;

    fn one() -> (r: Self)
        ensures
            r == Self::spec_one(),
    ;
}

/// Element types with exact ring arithmetic: addition is associative and
/// commutative with identity `zero`, and `zero` annihilates multiplication.
/// They are also ordered by a transitive `<`.
pub trait Numeric: Zero + One + Copy {
    spec fn spec_lt(a: Self, b: Self) -> bool;

    spec fn spec_add(a: Self, b: Self) -> Self;

    spec fn spec_sub(a: Self, b: Self) -> Self;

    spec fn spec_mul(a: Self, b: Self) -> Self;

    fn plus(a: Self, b: Self) -> (r: Self)
        ensures
            r == Self::spec_add(a, b),
    ;

    fn minus(a: Self, b: Self) -> (r: Self)
        ensures
            r == Self::spec_sub(a, b),
    ;

    fn times(a: Self, b: Self) -> (r: Self)
        ensures
            r == Self::spec_mul(a, b),
    ;

    fn less(a: Self, b: Self) -> (r: bool)
        ensures
            r == Self::spec_lt(a, b),
    ;

    proof fn lemma_lt_irrefl(a: Self)
        ensures
            !Self::spec_lt(a, a),
    ;

    proof fn lemma_lt_trans(a: Self, b: Self, c: Self)
        requires
            Self::spec_lt(a, b),
            Self::spec_lt(b, c),
        ensures
            Self::spec_lt(a, c),
    ;

    proof fn lemma_add_assoc(a: Self, b: Self, c: Self)
        ensures
            Self::spec_add(Self::spec_add(a, b), c) == Self::spec_add(a, Self::spec_add(b, c)),
    ;

    proof fn lemma_add_comm(a: Self, b: Self)
        ensures
            Self::spec_add(a, b) == Self::spec_add(b, a),
    ;

    proof fn lemma_add_zero(a: Self)
        ensures
            Self::spec_add(a, Self::spec_zero()) == a,
    ;

    proof fn lemma_mul_zero(a: Self)
        ensures
            Self::spec_mul(a, Self::spec_zero()) == Self::spec_zero(),
            Self::spec_mul(Self::spec_zero(), a) == Self::spec_zero(),
    ;
}

impl Zero for u8 {
    open spec fn spec_zero() -> u8 {
        0
    }

    fn zero() -> (r: u8) {
        0
    }
}

impl One for u8 {
    open spec fn spec_one() -> u8 {
        1
    }

    fn one() -> (r: u8) {
        1
    }
}

impl Numeric for u8 {
    open spec fn spec_lt(a: u8, b: u8) -> bool {
        a < b
    }

    open spec fn spec_add(a: u8, b: u8) -> u8 {
        vstd::wrapping::u8_specs::wrapping_add(a, b)
    }

    open spec fn spec_sub(a: u8, b: u8) -> u8 {
        vstd::wrapping::u8_specs::wrapping_sub(a, b)
    }

    open spec fn spec_mul(a: u8, b: u8) -> u8 {
        vstd::wrapping::u8_specs::wrapping_mul(a, b)
    }

    fn less(a: u8, b: u8) -> (r: bool) {
        a < b
    }

    fn plus(a: u8, b: u8) -> (r: u8) {
        a.wrapping_add(b)
    }

    fn minus(a: u8, b: u8) -> (r: u8) {
        a.wrapping_sub(b)
    }

    fn times(a: u8, b: u8) -> (r: u8) {
        a.wrapping_mul(b)
    }

    proof fn lemma_lt_irrefl(a: u8) {
    }

    proof fn lemma_lt_trans(a: u8, b: u8, c: u8) {
    }

    proof fn lemma_add_assoc(a: u8, b: u8, c: u8) {
    }

    proof fn lemma_add_comm(a: u8, b: u8) {
    }

    proof fn lemma_add_zero(a: u8) {
    }

    proof fn lemma_mul_zero(a: u8) {
    }
}

impl Zero for u16 {
    open spec fn spec_zero() -> u16 {
        0
    }

    fn zero() -> (r: u16) {
        0
    }
}

impl One for u16 {
    open spec fn spec_one() -> u16 {
        1
    }

    fn one() -> (r: u16) {
        1
    }
}

impl Numeric for u16 {
    open spec fn spec_lt(a: u16, b: u16) -> bool {
        a < b
    }

    open spec fn spec_add(a: u16, b: u16) -> u16 {
        vstd::wrapping::u16_specs::wrapping_add(a, b)
    }

    open spec fn spec_sub(a: u16, b: u16) -> u16 {
        vstd::wrapping::u16_specs::wrapping_sub(a, b)
    }

    open spec fn spec_mul(a: u16, b: u16) -> u16 {
        vstd::wrapping::u16_specs::wrapping_mul(a, b)
    }

    fn less(a: u16, b: u16) -> (r: bool) {
        a < b
    }

    fn plus(a: u16, b: u16) -> (r: u16) {
        a.wrapping_add(b)
    }

    fn minus(a: u16, b: u16) -> (r: u16) {
        a.wrapping_sub(b)
    }

    fn times(a: u16, b: u16) -> (r: u16) {
        a.wrapping_mul(b)
    }

    proof fn lemma_lt_irrefl(a: u16) {
    }

    proof fn lemma_lt_trans(a: u16, b: u16, c: u16) {
    }

    proof fn lemma_add_assoc(a: u16, b: u16, c: u16) {
    }

    proof fn lemma_add_comm(a: u16, b: u16) {
    }

    proof fn lemma_add_zero(a: u16) {
    }

    proof fn lemma_mul_zero(a: u16) {
    }
}

impl Zero for u32 {
    open spec fn spec_zero() -> u32 {
        0
    }

    fn zero() -> (r: u32) {
        0
    }
}

impl One for u32 {
    open spec fn spec_one() -> u32 {
        1
    }

    fn one() -> (r: u32) {
        1
    }
}

impl Numeric for u32 {
    open spec fn spec_lt(a: u32, b: u32) -> bool {
        a < b
    }

    open spec fn spec_add(a: u32, b: u32) -> u32 {
        vstd::wrapping::u32_specs::wrapping_add(a, b)
    }

    open spec fn spec_sub(a: u32, b: u32) -> u32 {
        vstd::wrapping::u32_specs::wrapping_sub(a, b)
    }

    open spec fn spec_mul(a: u32, b: u32) -> u32 {
        vstd::wrapping::u32_specs::wrapping_mul(a, b)
    }

    fn less(a: u32, b: u32) -> (r: bool) {
        a < b
    }

    fn plus(a: u32, b: u32) -> (r: u32) {
        a.wrapping_add(b)
    }

    fn minus(a: u32, b: u32) -> (r: u32) {
        a.wrapping_sub(b)
    }

    fn times(a: u32, b: u32) -> (r: u32) {
        a.wrapping_mul(b)
    }

    proof fn lemma_lt_irrefl(a: u32) {
    }

    proof fn lemma_lt_trans(a: u32, b: u32, c: u32) {
    }

    proof fn lemma_add_assoc(a: u32, b: u32, c: u32) {
    }

    proof fn lemma_add_comm(a: u32, b: u32) {
    }

    proof fn lemma_add_zero(a: u32) {
    }

    proof fn lemma_mul_zero(a: u32) {
    }
}

impl Zero for u64 {
    open spec fn spec_zero() -> u64 {
        0
    }

    fn zero() -> (r: u64) {
        0
    }
}

impl One for u64 {
    open spec fn spec_one() -> u64 {
        1
    }

    fn one() -> (r: u64) {
        1
    }
}

impl Numeric for u64 {
    open spec fn spec_lt(a: u64, b: u64) -> bool {
        a < b
    }

    open spec fn spec_add(a: u64, b: u64) -> u64 {
        vstd::wrapping::u64_specs::wrapping_add(a, b)
    }

    open spec fn spec_sub(a: u64, b: u64) -> u64 {
        vstd::wrapping::u64_specs::wrapping_sub(a, b)
    }

    open spec fn spec_mul(a: u64, b: u64) -> u64 {
        vstd::wrapping::u64_specs::wrapping_mul(a, b)
    }

    fn less(a: u64, b: u64) -> (r: bool) {
        a < b
    }

    fn plus(a: u64, b: u64) -> (r: u64) {
        a.wrapping_add(b)
    }

    fn minus(a: u64, b: u64) -> (r: u64) {
        a.wrapping_sub(b)
    }

    fn times(a: u64, b: u64) -> (r: u64) {
        a.wrapping_mul(b)
    }

    proof fn lemma_lt_irrefl(a: u64) {
    }

    proof fn lemma_lt_trans(a: u64, b: u64, c: u64) {
    }

    proof fn lemma_add_assoc(a: u64, b: u64, c: u64) {
    }

    proof fn lemma_add_comm(a: u64, b: u64) {
    }

    proof fn lemma_add_zero(a: u64) {
    }

    proof fn lemma_mul_zero(a: u64) {
    }
}

impl Zero for u128 {
    open spec fn spec_zero() -> u128 {
        0
    }

    fn zero() -> (r: u128) {
        0
    }
}

impl One for u128 {
    open spec fn spec_one() -> u128 {
        1
    }

    fn one() -> (r: u128) {
        1
    }
}

impl Numeric for u128 {
    open spec fn spec_lt(a: u128, b: u128) -> bool {
        a < b
    }

    open spec fn spec_add(a: u128, b: u128) -> u128 {
        vstd::wrapping::u128_specs::wrapping_add(a, b)
    }

    open spec fn spec_sub(a: u128, b: u128) -> u128 {
        vstd::wrapping::u128_specs::wrapping_sub(a, b)
    }

    open spec fn spec_mul(a: u128, b: u128) -> u128 {
        vstd::wrapping::u128_specs::wrapping_mul(a, b)
    }

    fn less(a: u128, b: u128) -> (r: bool) {
        a < b
    }

    fn plus(a: u128, b: u128) -> (r: u128) {
        a.wrapping_add(b)
    }

    fn minus(a: u128, b: u128) -> (r: u128) {
        a.wrapping_sub(b)
    }

    fn times(a: u128, b: u128) -> (r: u128) {
        a.wrapping_mul(b)
    }

    proof fn lemma_lt_irrefl(a: u128) {
    }

    proof fn lemma_lt_trans(a: u128, b: u128, c: u128) {
    }

    proof fn lemma_add_assoc(a: u128, b: u128, c: u128) {
    }

    proof fn lemma_add_comm(a: u128, b: u128) {
    }

    proof fn lemma_add_zero(a: u128) {
    }

    proof fn lemma_mul_zero(a: u128) {
    }
}

impl Zero for usize {
    open spec fn spec_zero() -> usize {
        0
    }

    fn zero() -> (r: usize) {
        0
    }
}

impl One for usize {
    open spec fn spec_one() -> usize {
        1
    }

    fn one() -> (r: usize) {
        1
    }
}

impl Numeric for usize {
    open spec fn spec_lt(a: usize, b: usize) -> bool {
        a < b
    }

    open spec fn spec_add(a: usize, b: usize) -> usize {
        vstd::wrapping::usize_specs::wrapping_add(a, b)
    }

    open spec fn spec_sub(a: usize, b: usize) -> usize {
        vstd::wrapping::usize_specs::wrapping_sub(a, b)
    }

    open spec fn spec_mul(a: usize, b: usize) -> usize {
        vstd::wrapping::usize_specs::wrapping_mul(a, b)
    }

    fn less(a: usize, b: usize) -> (r: bool) {
        a < b
    }

    fn plus(a: usize, b: usize) -> (r: usize) {
        a.wrapping_add(b)
    }

    fn minus(a: usize, b: usize) -> (r: usize) {
        a.wrapping_sub(b)
    }

    fn times(a: usize, b: usize) -> (r: usize) {
        a.wrapping_mul(b)
    }

    proof fn lemma_lt_irrefl(a: usize) {
    }

    proof fn lemma_lt_trans(a: usize, b: usize, c: usize) {
    }

    proof fn lemma_add_assoc(a: usize, b: usize, c: usize) {
    }

    proof fn lemma_add_comm(a: usize, b: usize) {
    }

    proof fn lemma_add_zero(a: usize) {
    }

    proof fn lemma_mul_zero(a: usize) {
        vstd::arithmetic::div_mod::lemma_small_mod(0, (usize::MAX - usize::MIN + 1) as nat);
    }
}

impl Zero for i8 {
    open spec fn spec_zero() -> i8 {
        0
    }

    fn zero() -> (r: i8) {
        0
    }
}

impl One for i8 {
    open spec fn spec_one() -> i8 {
        1
    }

    fn one() -> (r: i8) {
        1
    }
}

impl Numeric for i8 {
    open spec fn spec_lt(a: i8, b: i8) -> bool {
        a < b
    }

    open spec fn spec_add(a: i8, b: i8) -> i8 {
        vstd::wrapping::i8_specs::wrapping_add(a, b)
    }

    open spec fn spec_sub(a: i8, b: i8) -> i8 {
        vstd::wrapping::i8_specs::wrapping_sub(a, b)
    }

    open spec fn spec_mul(a: i8, b: i8) -> i8 {
        vstd::wrapping::i8_specs::wrapping_mul(a, b)
    }

    fn less(a: i8, b: i8) -> (r: bool) {
        a < b
    }

    fn plus(a: i8, b: i8) -> (r: i8) {
        a.wrapping_add(b)
    }

    fn minus(a: i8, b: i8) -> (r: i8) {
        a.wrapping_sub(b)
    }

    fn times(a: i8, b: i8) -> (r: i8) {
        a.wrapping_mul(b)
    }

    proof fn lemma_lt_irrefl(a: i8) {
    }

    proof fn lemma_lt_trans(a: i8, b: i8, c: i8) {
    }

    proof fn lemma_add_assoc(a: i8, b: i8, c: i8) {
    }

    proof fn lemma_add_comm(a: i8, b: i8) {
    }

    proof fn lemma_add_zero(a: i8) {
    }

    proof fn lemma_mul_zero(a: i8) {
    }
}

impl Zero for i16 {
    open spec fn spec_zero() -> i16 {
        0
    }

    fn zero() -> (r: i16) {
        0
    }
}

impl One for i16 {
    open spec fn spec_one() -> i16 {
        1
    }

    fn one() -> (r: i16) {
        1
    }
}

impl Numeric for i16 {
    open spec fn spec_lt(a: i16, b: i16) -> bool {
        a < b
    }

    open spec fn spec_add(a: i16, b: i16) -> i16 {
        vstd::wrapping::i16_specs::wrapping_add(a, b)
    }

    open spec fn spec_sub(a: i16, b: i16) -> i16 {
        vstd::wrapping::i16_specs::wrapping_sub(a, b)
    }

    open spec fn spec_mul(a: i16, b: i16) -> i16 {
        vstd::wrapping::i16_specs::wrapping_mul(a, b)
    }

    fn less(a: i16, b: i16) -> (r: bool) {
        a < b
    }

    fn plus(a: i16, b: i16) -> (r: i16) {
        a.wrapping_add(b)
    }

    fn minus(a: i16, b: i16) -> (r: i16) {
        a.wrapping_sub(b)
    }

    fn times(a: i16, b: i16) -> (r: i16) {
        a.wrapping_mul(b)
    }

    proof fn lemma_lt_irrefl(a: i16) {
    }

    proof fn lemma_lt_trans(a: i16, b: i16, c: i16) {
    }

    proof fn lemma_add_assoc(a: i16, b: i16, c: i16) {
    }

    proof fn lemma_add_comm(a: i16, b: i16) {
    }

    proof fn lemma_add_zero(a: i16) {
    }

    proof fn lemma_mul_zero(a: i16) {
    }
}

impl Zero for i32 {
    open spec fn spec_zero() -> i32 {
        0
    }

    fn zero() -> (r: i32) {
        0
    }
}

impl One for i32 {
    open spec fn spec_one() -> i32 {
        1
    }

    fn one() -> (r: i32) {
        1
    }
}

impl Numeric for i32 {
    open spec fn spec_lt(a: i32, b: i32) -> bool {
        a < b
    }

    open spec fn spec_add(a: i32, b: i32) -> i32 {
        vstd::wrapping::i32_specs::wrapping_add(a, b)
    }

    open spec fn spec_sub(a: i32, b: i32) -> i32 {
        vstd::wrapping::i32_specs::wrapping_sub(a, b)
    }

    open spec fn spec_mul(a: i32, b: i32) -> i32 {
        vstd::wrapping::i32_specs::wrapping_mul(a, b)
    }

    fn less(a: i32, b: i32) -> (r: bool) {
        a < b
    }

    fn plus(a: i32, b: i32) -> (r: i32) {
        a.wrapping_add(b)
    }

    fn minus(a: i32, b: i32) -> (r: i32) {
        a.wrapping_sub(b)
    }

    fn times(a: i32, b: i32) -> (r: i32) {
        a.wrapping_mul(b)
    }

    proof fn lemma_lt_irrefl(a: i32) {
    }

    proof fn lemma_lt_trans(a: i32, b: i32, c: i32) {
    }

    proof fn lemma_add_assoc(a: i32, b: i32, c: i32) {
    }

    proof fn lemma_add_comm(a: i32, b: i32) {
    }

    proof fn lemma_add_zero(a: i32) {
    }

    proof fn lemma_mul_zero(a: i32) {
    }
}

impl Zero for i64 {
    open spec fn spec_zero() -> i64 {
        0
    }

    fn zero() -> (r: i64) {
        0
    }
}

impl One for i64 {
    open spec fn spec_one() -> i64 {
        1
    }

    fn one() -> (r: i64) {
        1
    }
}

impl Numeric for i64 {
    open spec fn spec_lt(a: i64, b: i64) -> bool {
        a < b
    }

    open spec fn spec_add(a: i64, b: i64) -> i64 {
        vstd::wrapping::i64_specs::wrapping_add(a, b)
    }

    open spec fn spec_sub(a: i64, b: i64) -> i64 {
        vstd::wrapping::i64_specs::wrapping_sub(a, b)
    }

    open spec fn spec_mul(a: i64, b: i64) -> i64 {
        vstd::wrapping::i64_specs::wrapping_mul(a, b)
    }

    fn less(a: i64, b: i64) -> (r: bool) {
        a < b
    }

    fn plus(a: i64, b: i64) -> (r: i64) {
        a.wrapping_add(b)
    }

    fn minus(a: i64, b: i64) -> (r: i64) {
        a.wrapping_sub(b)
    }

    fn times(a: i64, b: i64) -> (r: i64) {
        a.wrapping_mul(b)
    }

    proof fn lemma_lt_irrefl(a: i64) {
    }

    proof fn lemma_lt_trans(a: i64, b: i64, c: i64) {
    }

    proof fn lemma_add_assoc(a: i64, b: i64, c: i64) {
    }

    proof fn lemma_add_comm(a: i64, b: i64) {
    }

    proof fn lemma_add_zero(a: i64) {
    }

    proof fn lemma_mul_zero(a: i64) {
    }
}

impl Zero for i128 {
    open spec fn spec_zero() -> i128 {
        0
    }

    fn zero() -> (r: i128) {
        0
    }
}

impl One for i128 {
    open spec fn spec_one() -> i128 {
        1
    }

    fn one() -> (r: i128) {
        1
    }
}

impl Numeric for i128 {
    open spec fn spec_lt(a: i128, b: i128) -> bool {
        a < b
    }

    open spec fn spec_add(a: i128, b: i128) -> i128 {
        vstd::wrapping::i128_specs::wrapping_add(a, b)
    }

    open spec fn spec_sub(a: i128, b: i128) -> i128 {
        vstd::wrapping::i128_specs::wrapping_sub(a, b)
    }

    open spec fn spec_mul(a: i128, b: i128) -> i128 {
        vstd::wrapping::i128_specs::wrapping_mul(a, b)
    }

    fn less(a: i128, b: i128) -> (r: bool) {
        a < b
    }

    fn plus(a: i128, b: i128) -> (r: i128) {
        a.wrapping_add(b)
    }

    fn minus(a: i128, b: i128) -> (r: i128) {
        a.wrapping_sub(b)
    }

    fn times(a: i128, b: i128) -> (r: i128) {
        a.wrapping_mul(b)
    }

    proof fn lemma_lt_irrefl(a: i128) {
    }

    proof fn lemma_lt_trans(a: i128, b: i128, c: i128) {
    }

    proof fn lemma_add_assoc(a: i128, b: i128, c: i128) {
    }

    proof fn lemma_add_comm(a: i128, b: i128) {
    }

    proof fn lemma_add_zero(a: i128) {
    }

    proof fn lemma_mul_zero(a: i128) {
    }
}

impl Zero for isize {
    open spec fn spec_zero() -> isize {
        0
    }

    fn zero() -> (r: isize) {
        0
    }
}

impl One for isize {
    open spec fn spec_one() -> isize {
        1
    }

    fn one() -> (r: isize) {
        1
    }
}

impl Numeric for isize {
    open spec fn spec_lt(a: isize, b: isize) -> bool {
        a < b
    }

    open spec fn spec_add(a: isize, b: isize) -> isize {
        vstd::wrapping::isize_specs::wrapping_add(a, b)
    }

    open spec fn spec_sub(a: isize, b: isize) -> isize {
        vstd::wrapping::isize_specs::wrapping_sub(a, b)
    }

    open spec fn spec_mul(a: isize, b: isize) -> isize {
        vstd::wrapping::isize_specs::wrapping_mul(a, b)
    }

    fn less(a: isize, b: isize) -> (r: bool) {
        a < b
    }

    fn plus(a: isize, b: isize) -> (r: isize) {
        a.wrapping_add(b)
    }

    fn minus(a: isize, b: isize) -> (r: isize) {
        a.wrapping_sub(b)
    }

    fn times(a: isize, b: isize) -> (r: isize) {
        a.wrapping_mul(b)
    }

    proof fn lemma_lt_irrefl(a: isize) {
    }

    proof fn lemma_lt_trans(a: isize, b: isize, c: isize) {
    }

    proof fn lemma_add_assoc(a: isize, b: isize, c: isize) {
    }

    proof fn lemma_add_comm(a: isize, b: isize) {
    }

    proof fn lemma_add_zero(a: isize) {
    }

    proof fn lemma_mul_zero(a: isize) {
    }
}

} // verus!
