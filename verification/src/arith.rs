//! The arithmetic that point operations ask of their scalars.
use core::num::Wrapping;
use crate::num::{order_le, RTreeNum};
use vstd::prelude::*;

verus! {

/// Scalars with an additive identity, addition, subtraction and multiplication.
///
/// Each operation has a spec value and a condition under which it succeeds;
/// an operation whose condition fails (an integer overflow) is never called.
pub trait ScalarArith: RTreeNum {
    /// The additive identity.
    spec fn zero_value() -> Self;

    /// Whether `self + other` succeeds.
    spec fn plus_ok(self, other: Self) -> bool;

    /// The value of `self + other`.
    spec fn plus_value(self, other: Self) -> Self;

    /// Whether `self - other` succeeds.
    spec fn minus_ok(self, other: Self) -> bool;

    /// The value of `self - other`.
    spec fn minus_value(self, other: Self) -> Self;

    /// Whether `self * other` succeeds.
    spec fn times_ok(self, other: Self) -> bool;

    /// The value of `self * other`.
    spec fn times_value(self, other: Self) -> Self;

    /// Adding zero succeeds and changes nothing.
    proof fn lemma_plus_zero(a: Self)
        ensures
            a.plus_ok(Self::zero_value()),
            a.plus_value(Self::zero_value()) == a,
    ;

    /// Addition is commutative.
    proof fn lemma_plus_commutative(a: Self, b: Self)
        ensures
            a.plus_ok(b) == b.plus_ok(a),
            a.plus_value(b) == b.plus_value(a),
    ;

    /// Multiplication is commutative.
    proof fn lemma_times_commutative(a: Self, b: Self)
        ensures
            a.times_ok(b) == b.times_ok(a),
            a.times_value(b) == b.times_value(a),
    ;

    /// Subtracting what was added gives back the original value.
    proof fn lemma_plus_then_minus(a: Self, b: Self)
        requires
            a.plus_ok(b),
        ensures
            a.plus_value(b).minus_ok(b),
            a.plus_value(b).minus_value(b) == a,
    ;

    /// Subtracting a value from itself succeeds and gives zero.
    proof fn lemma_minus_self(a: Self)
        ensures
            a.minus_ok(a),
            a.minus_value(a) == Self::zero_value(),
    ;

    /// Squaring a difference does not depend on the order of its operands.
    proof fn lemma_square_of_difference_flip(a: Self, b: Self)
        requires
            a.minus_ok(b),
            b.minus_ok(a),
        ensures
            a.minus_value(b).times_ok(a.minus_value(b)) == b.minus_value(a).times_ok(
                b.minus_value(a),
            ),
            a.minus_value(b).times_value(a.minus_value(b)) == b.minus_value(a).times_value(
                b.minus_value(a),
            ),
    ;

    /// Returns the additive identity.
    fn scalar_zero() -> (r: Self)
        ensures
            r == Self::zero_value(),
    ;

    /// Returns `self + other`.
    fn plus(self, other: Self) -> (r: Self)
        requires
            self.plus_ok(other),
        ensures
            r == self.plus_value(other),
    ;

    /// Returns `self - other`.
    fn minus(self, other: Self) -> (r: Self)
        requires
            self.minus_ok(other),
        ensures
            r == self.minus_value(other),
    ;

    /// Returns `self * other`.
    fn times(self, other: Self) -> (r: Self)
        requires
            self.times_ok(other),
        ensures
            r == self.times_value(other),
    ;
}

/// `num_traits::Zero::zero` for `i8` returns `0`.
pub assume_specification[ <i8 as num_traits::Zero>::zero ]() -> (r: i8)
    ensures
        r == 0,
;

impl ScalarArith for i8 {
    open spec fn zero_value() -> Self {
        0
    }

    open spec fn plus_ok(self, other: Self) -> bool {
        i8::MIN <= self + other <= i8::MAX
    }

    open spec fn plus_value(self, other: Self) -> Self {
        (self + other) as i8
    }

    open spec fn minus_ok(self, other: Self) -> bool {
        i8::MIN <= self - other <= i8::MAX
    }

    open spec fn minus_value(self, other: Self) -> Self {
        (self - other) as i8
    }

    open spec fn times_ok(self, other: Self) -> bool {
        i8::MIN <= self * other <= i8::MAX
    }

    open spec fn times_value(self, other: Self) -> Self {
        (self * other) as i8
    }

    proof fn lemma_plus_zero(a: Self) {
    }

    proof fn lemma_plus_commutative(a: Self, b: Self) {
    }

    proof fn lemma_times_commutative(a: Self, b: Self) {
        assert(a * b == b * a) by (nonlinear_arith);
    }

    proof fn lemma_plus_then_minus(a: Self, b: Self) {
    }

    proof fn lemma_square_of_difference_flip(a: Self, b: Self) {
        let d: int = a - b;
        assert((-d) * (-d) == d * d) by (nonlinear_arith);
    }

    proof fn lemma_minus_self(a: Self) {
    }

    fn scalar_zero() -> (r: Self) {
        <i8 as num_traits::Zero>::zero()
    }

    fn plus(self, other: Self) -> (r: Self) {
        self + other
    }

    fn minus(self, other: Self) -> (r: Self) {
        self - other
    }

    fn times(self, other: Self) -> (r: Self) {
        self * other
    }
}

/// `num_traits::Zero::zero` for `i16` returns `0`.
pub assume_specification[ <i16 as num_traits::Zero>::zero ]() -> (r: i16)
    ensures
        r == 0,
;

impl ScalarArith for i16 {
    open spec fn zero_value() -> Self {
        0
    }

    open spec fn plus_ok(self, other: Self) -> bool {
        i16::MIN <= self + other <= i16::MAX
    }

    open spec fn plus_value(self, other: Self) -> Self {
        (self + other) as i16
    }

    open spec fn minus_ok(self, other: Self) -> bool {
        i16::MIN <= self - other <= i16::MAX
    }

    open spec fn minus_value(self, other: Self) -> Self {
        (self - other) as i16
    }

    open spec fn times_ok(self, other: Self) -> bool {
        i16::MIN <= self * other <= i16::MAX
    }

    open spec fn times_value(self, other: Self) -> Self {
        (self * other) as i16
    }

    proof fn lemma_plus_zero(a: Self) {
    }

    proof fn lemma_plus_commutative(a: Self, b: Self) {
    }

    proof fn lemma_times_commutative(a: Self, b: Self) {
        assert(a * b == b * a) by (nonlinear_arith);
    }

    proof fn lemma_plus_then_minus(a: Self, b: Self) {
    }

    proof fn lemma_square_of_difference_flip(a: Self, b: Self) {
        let d: int = a - b;
        assert((-d) * (-d) == d * d) by (nonlinear_arith);
    }

    proof fn lemma_minus_self(a: Self) {
    }

    fn scalar_zero() -> (r: Self) {
        <i16 as num_traits::Zero>::zero()
    }

    fn plus(self, other: Self) -> (r: Self) {
        self + other
    }

    fn minus(self, other: Self) -> (r: Self) {
        self - other
    }

    fn times(self, other: Self) -> (r: Self) {
        self * other
    }
}

/// `num_traits::Zero::zero` for `i32` returns `0`.
pub assume_specification[ <i32 as num_traits::Zero>::zero ]() -> (r: i32)
    ensures
        r == 0,
;

impl ScalarArith for i32 {
    open spec fn zero_value() -> Self {
        0
    }

    open spec fn plus_ok(self, other: Self) -> bool {
        i32::MIN <= self + other <= i32::MAX
    }

    open spec fn plus_value(self, other: Self) -> Self {
        (self + other) as i32
    }

    open spec fn minus_ok(self, other: Self) -> bool {
        i32::MIN <= self - other <= i32::MAX
    }

    open spec fn minus_value(self, other: Self) -> Self {
        (self - other) as i32
    }

    open spec fn times_ok(self, other: Self) -> bool {
        i32::MIN <= self * other <= i32::MAX
    }

    open spec fn times_value(self, other: Self) -> Self {
        (self * other) as i32
    }

    proof fn lemma_plus_zero(a: Self) {
    }

    proof fn lemma_plus_commutative(a: Self, b: Self) {
    }

    proof fn lemma_times_commutative(a: Self, b: Self) {
        assert(a * b == b * a) by (nonlinear_arith);
    }

    proof fn lemma_plus_then_minus(a: Self, b: Self) {
    }

    proof fn lemma_square_of_difference_flip(a: Self, b: Self) {
        let d: int = a - b;
        assert((-d) * (-d) == d * d) by (nonlinear_arith);
    }

    proof fn lemma_minus_self(a: Self) {
    }

    fn scalar_zero() -> (r: Self) {
        <i32 as num_traits::Zero>::zero()
    }

    fn plus(self, other: Self) -> (r: Self) {
        self + other
    }

    fn minus(self, other: Self) -> (r: Self) {
        self - other
    }

    fn times(self, other: Self) -> (r: Self) {
        self * other
    }
}

/// `num_traits::Zero::zero` for `i64` returns `0`.
pub assume_specification[ <i64 as num_traits::Zero>::zero ]() -> (r: i64)
    ensures
        r == 0,
;

impl ScalarArith for i64 {
    open spec fn zero_value() -> Self {
        0
    }

    open spec fn plus_ok(self, other: Self) -> bool {
        i64::MIN <= self + other <= i64::MAX
    }

    open spec fn plus_value(self, other: Self) -> Self {
        (self + other) as i64
    }

    open spec fn minus_ok(self, other: Self) -> bool {
        i64::MIN <= self - other <= i64::MAX
    }

    open spec fn minus_value(self, other: Self) -> Self {
        (self - other) as i64
    }

    open spec fn times_ok(self, other: Self) -> bool {
        i64::MIN <= self * other <= i64::MAX
    }

    open spec fn times_value(self, other: Self) -> Self {
        (self * other) as i64
    }

    proof fn lemma_plus_zero(a: Self) {
    }

    proof fn lemma_plus_commutative(a: Self, b: Self) {
    }

    proof fn lemma_times_commutative(a: Self, b: Self) {
        assert(a * b == b * a) by (nonlinear_arith);
    }

    proof fn lemma_plus_then_minus(a: Self, b: Self) {
    }

    proof fn lemma_square_of_difference_flip(a: Self, b: Self) {
        let d: int = a - b;
        assert((-d) * (-d) == d * d) by (nonlinear_arith);
    }

    proof fn lemma_minus_self(a: Self) {
    }

    fn scalar_zero() -> (r: Self) {
        <i64 as num_traits::Zero>::zero()
    }

    fn plus(self, other: Self) -> (r: Self) {
        self + other
    }

    fn minus(self, other: Self) -> (r: Self) {
        self - other
    }

    fn times(self, other: Self) -> (r: Self) {
        self * other
    }
}

/// `num_traits::Zero::zero` for `i128` returns `0`.
pub assume_specification[ <i128 as num_traits::Zero>::zero ]() -> (r: i128)
    ensures
        r == 0,
;

impl ScalarArith for i128 {
    open spec fn zero_value() -> Self {
        0
    }

    open spec fn plus_ok(self, other: Self) -> bool {
        i128::MIN <= self + other <= i128::MAX
    }

    open spec fn plus_value(self, other: Self) -> Self {
        (self + other) as i128
    }

    open spec fn minus_ok(self, other: Self) -> bool {
        i128::MIN <= self - other <= i128::MAX
    }

    open spec fn minus_value(self, other: Self) -> Self {
        (self - other) as i128
    }

    open spec fn times_ok(self, other: Self) -> bool {
        i128::MIN <= self * other <= i128::MAX
    }

    open spec fn times_value(self, other: Self) -> Self {
        (self * other) as i128
    }

    proof fn lemma_plus_zero(a: Self) {
    }

    proof fn lemma_plus_commutative(a: Self, b: Self) {
    }

    proof fn lemma_times_commutative(a: Self, b: Self) {
        assert(a * b == b * a) by (nonlinear_arith);
    }

    proof fn lemma_plus_then_minus(a: Self, b: Self) {
    }

    proof fn lemma_square_of_difference_flip(a: Self, b: Self) {
        let d: int = a - b;
        assert((-d) * (-d) == d * d) by (nonlinear_arith);
    }

    proof fn lemma_minus_self(a: Self) {
    }

    fn scalar_zero() -> (r: Self) {
        <i128 as num_traits::Zero>::zero()
    }

    fn plus(self, other: Self) -> (r: Self) {
        self + other
    }

    fn minus(self, other: Self) -> (r: Self) {
        self - other
    }

    fn times(self, other: Self) -> (r: Self) {
        self * other
    }
}

/// `num_traits::Zero::zero` for `isize` returns `0`.
pub assume_specification[ <isize as num_traits::Zero>::zero ]() -> (r: isize)
    ensures
        r == 0,
;

impl ScalarArith for isize {
    open spec fn zero_value() -> Self {
        0
    }

    open spec fn plus_ok(self, other: Self) -> bool {
        isize::MIN <= self + other <= isize::MAX
    }

    open spec fn plus_value(self, other: Self) -> Self {
        (self + other) as isize
    }

    open spec fn minus_ok(self, other: Self) -> bool {
        isize::MIN <= self - other <= isize::MAX
    }

    open spec fn minus_value(self, other: Self) -> Self {
        (self - other) as isize
    }

    open spec fn times_ok(self, other: Self) -> bool {
        isize::MIN <= self * other <= isize::MAX
    }

    open spec fn times_value(self, other: Self) -> Self {
        (self * other) as isize
    }

    proof fn lemma_plus_zero(a: Self) {
    }

    proof fn lemma_plus_commutative(a: Self, b: Self) {
    }

    proof fn lemma_times_commutative(a: Self, b: Self) {
        assert(a * b == b * a) by (nonlinear_arith);
    }

    proof fn lemma_plus_then_minus(a: Self, b: Self) {
    }

    proof fn lemma_square_of_difference_flip(a: Self, b: Self) {
        let d: int = a - b;
        assert((-d) * (-d) == d * d) by (nonlinear_arith);
    }

    proof fn lemma_minus_self(a: Self) {
    }

    fn scalar_zero() -> (r: Self) {
        <isize as num_traits::Zero>::zero()
    }

    fn plus(self, other: Self) -> (r: Self) {
        self + other
    }

    fn minus(self, other: Self) -> (r: Self) {
        self - other
    }

    fn times(self, other: Self) -> (r: Self) {
        self * other
    }
}

impl ScalarArith for Wrapping<i8> {
    open spec fn zero_value() -> Self {
        Wrapping(0)
    }

    open spec fn plus_ok(self, other: Self) -> bool {
        true
    }

    open spec fn plus_value(self, other: Self) -> Self {
        Wrapping(vstd::wrapping::i8_specs::wrapping_add(self.0, other.0))
    }

    open spec fn minus_ok(self, other: Self) -> bool {
        true
    }

    open spec fn minus_value(self, other: Self) -> Self {
        Wrapping(vstd::wrapping::i8_specs::wrapping_sub(self.0, other.0))
    }

    open spec fn times_ok(self, other: Self) -> bool {
        true
    }

    open spec fn times_value(self, other: Self) -> Self {
        Wrapping(vstd::wrapping::i8_specs::wrapping_mul(self.0, other.0))
    }

    proof fn lemma_plus_zero(a: Self) {
    }

    proof fn lemma_plus_commutative(a: Self, b: Self) {
    }

    proof fn lemma_times_commutative(a: Self, b: Self) {
        assert(a.0 * b.0 == b.0 * a.0) by (nonlinear_arith);
    }

    proof fn lemma_plus_then_minus(a: Self, b: Self) {
    }

    proof fn lemma_square_of_difference_flip(a: Self, b: Self) {
        let d = a.minus_value(b).0;
        let e = b.minus_value(a).0;
        assert(e == -d || e == d);
        assert((-(d as int)) * (-(d as int)) == (d as int) * (d as int)) by (nonlinear_arith);
    }

    proof fn lemma_minus_self(a: Self) {
    }

    fn scalar_zero() -> (r: Self) {
        Wrapping(<i8 as num_traits::Zero>::zero())
    }

    fn plus(self, other: Self) -> (r: Self) {
        Wrapping(self.0.wrapping_add(other.0))
    }

    fn minus(self, other: Self) -> (r: Self) {
        Wrapping(self.0.wrapping_sub(other.0))
    }

    fn times(self, other: Self) -> (r: Self) {
        Wrapping(self.0.wrapping_mul(other.0))
    }
}

impl ScalarArith for Wrapping<i16> {
    open spec fn zero_value() -> Self {
        Wrapping(0)
    }

    open spec fn plus_ok(self, other: Self) -> bool {
        true
    }

    open spec fn plus_value(self, other: Self) -> Self {
        Wrapping(vstd::wrapping::i16_specs::wrapping_add(self.0, other.0))
    }

    open spec fn minus_ok(self, other: Self) -> bool {
        true
    }

    open spec fn minus_value(self, other: Self) -> Self {
        Wrapping(vstd::wrapping::i16_specs::wrapping_sub(self.0, other.0))
    }

    open spec fn times_ok(self, other: Self) -> bool {
        true
    }

    open spec fn times_value(self, other: Self) -> Self {
        Wrapping(vstd::wrapping::i16_specs::wrapping_mul(self.0, other.0))
    }

    proof fn lemma_plus_zero(a: Self) {
    }

    proof fn lemma_plus_commutative(a: Self, b: Self) {
    }

    proof fn lemma_times_commutative(a: Self, b: Self) {
        assert(a.0 * b.0 == b.0 * a.0) by (nonlinear_arith);
    }

    proof fn lemma_plus_then_minus(a: Self, b: Self) {
    }

    proof fn lemma_square_of_difference_flip(a: Self, b: Self) {
        let d = a.minus_value(b).0;
        let e = b.minus_value(a).0;
        assert(e == -d || e == d);
        assert((-(d as int)) * (-(d as int)) == (d as int) * (d as int)) by (nonlinear_arith);
    }

    proof fn lemma_minus_self(a: Self) {
    }

    fn scalar_zero() -> (r: Self) {
        Wrapping(<i16 as num_traits::Zero>::zero())
    }

    fn plus(self, other: Self) -> (r: Self) {
        Wrapping(self.0.wrapping_add(other.0))
    }

    fn minus(self, other: Self) -> (r: Self) {
        Wrapping(self.0.wrapping_sub(other.0))
    }

    fn times(self, other: Self) -> (r: Self) {
        Wrapping(self.0.wrapping_mul(other.0))
    }
}

impl ScalarArith for Wrapping<i32> {
    open spec fn zero_value() -> Self {
        Wrapping(0)
    }

    open spec fn plus_ok(self, other: Self) -> bool {
        true
    }

    open spec fn plus_value(self, other: Self) -> Self {
        Wrapping(vstd::wrapping::i32_specs::wrapping_add(self.0, other.0))
    }

    open spec fn minus_ok(self, other: Self) -> bool {
        true
    }

    open spec fn minus_value(self, other: Self) -> Self {
        Wrapping(vstd::wrapping::i32_specs::wrapping_sub(self.0, other.0))
    }

    open spec fn times_ok(self, other: Self) -> bool {
        true
    }

    open spec fn times_value(self, other: Self) -> Self {
        Wrapping(vstd::wrapping::i32_specs::wrapping_mul(self.0, other.0))
    }

    proof fn lemma_plus_zero(a: Self) {
    }

    proof fn lemma_plus_commutative(a: Self, b: Self) {
    }

    proof fn lemma_times_commutative(a: Self, b: Self) {
        assert(a.0 * b.0 == b.0 * a.0) by (nonlinear_arith);
    }

    proof fn lemma_plus_then_minus(a: Self, b: Self) {
    }

    proof fn lemma_square_of_difference_flip(a: Self, b: Self) {
        let d = a.minus_value(b).0;
        let e = b.minus_value(a).0;
        assert(e == -d || e == d);
        assert((-(d as int)) * (-(d as int)) == (d as int) * (d as int)) by (nonlinear_arith);
    }

    proof fn lemma_minus_self(a: Self) {
    }

    fn scalar_zero() -> (r: Self) {
        Wrapping(<i32 as num_traits::Zero>::zero())
    }

    fn plus(self, other: Self) -> (r: Self) {
        Wrapping(self.0.wrapping_add(other.0))
    }

    fn minus(self, other: Self) -> (r: Self) {
        Wrapping(self.0.wrapping_sub(other.0))
    }

    fn times(self, other: Self) -> (r: Self) {
        Wrapping(self.0.wrapping_mul(other.0))
    }
}

impl ScalarArith for Wrapping<i64> {
    open spec fn zero_value() -> Self {
        Wrapping(0)
    }

    open spec fn plus_ok(self, other: Self) -> bool {
        true
    }

    open spec fn plus_value(self, other: Self) -> Self {
        Wrapping(vstd::wrapping::i64_specs::wrapping_add(self.0, other.0))
    }

    open spec fn minus_ok(self, other: Self) -> bool {
        true
    }

    open spec fn minus_value(self, other: Self) -> Self {
        Wrapping(vstd::wrapping::i64_specs::wrapping_sub(self.0, other.0))
    }

    open spec fn times_ok(self, other: Self) -> bool {
        true
    }

    open spec fn times_value(self, other: Self) -> Self {
        Wrapping(vstd::wrapping::i64_specs::wrapping_mul(self.0, other.0))
    }

    proof fn lemma_plus_zero(a: Self) {
    }

    proof fn lemma_plus_commutative(a: Self, b: Self) {
    }

    proof fn lemma_times_commutative(a: Self, b: Self) {
        assert(a.0 * b.0 == b.0 * a.0) by (nonlinear_arith);
    }

    proof fn lemma_plus_then_minus(a: Self, b: Self) {
    }

    proof fn lemma_square_of_difference_flip(a: Self, b: Self) {
        let d = a.minus_value(b).0;
        let e = b.minus_value(a).0;
        assert(e == -d || e == d);
        assert((-(d as int)) * (-(d as int)) == (d as int) * (d as int)) by (nonlinear_arith);
    }

    proof fn lemma_minus_self(a: Self) {
    }

    fn scalar_zero() -> (r: Self) {
        Wrapping(<i64 as num_traits::Zero>::zero())
    }

    fn plus(self, other: Self) -> (r: Self) {
        Wrapping(self.0.wrapping_add(other.0))
    }

    fn minus(self, other: Self) -> (r: Self) {
        Wrapping(self.0.wrapping_sub(other.0))
    }

    fn times(self, other: Self) -> (r: Self) {
        Wrapping(self.0.wrapping_mul(other.0))
    }
}

impl ScalarArith for Wrapping<i128> {
    open spec fn zero_value() -> Self {
        Wrapping(0)
    }

    open spec fn plus_ok(self, other: Self) -> bool {
        true
    }

    open spec fn plus_value(self, other: Self) -> Self {
        Wrapping(vstd::wrapping::i128_specs::wrapping_add(self.0, other.0))
    }

    open spec fn minus_ok(self, other: Self) -> bool {
        true
    }

    open spec fn minus_value(self, other: Self) -> Self {
        Wrapping(vstd::wrapping::i128_specs::wrapping_sub(self.0, other.0))
    }

    open spec fn times_ok(self, other: Self) -> bool {
        true
    }

    open spec fn times_value(self, other: Self) -> Self {
        Wrapping(vstd::wrapping::i128_specs::wrapping_mul(self.0, other.0))
    }

    proof fn lemma_plus_zero(a: Self) {
    }

    proof fn lemma_plus_commutative(a: Self, b: Self) {
    }

    proof fn lemma_times_commutative(a: Self, b: Self) {
        assert(a.0 * b.0 == b.0 * a.0) by (nonlinear_arith);
    }

    proof fn lemma_plus_then_minus(a: Self, b: Self) {
    }

    proof fn lemma_square_of_difference_flip(a: Self, b: Self) {
        let d = a.minus_value(b).0;
        let e = b.minus_value(a).0;
        assert(e == -d || e == d);
        assert((-(d as int)) * (-(d as int)) == (d as int) * (d as int)) by (nonlinear_arith);
    }

    proof fn lemma_minus_self(a: Self) {
    }

    fn scalar_zero() -> (r: Self) {
        Wrapping(<i128 as num_traits::Zero>::zero())
    }

    fn plus(self, other: Self) -> (r: Self) {
        Wrapping(self.0.wrapping_add(other.0))
    }

    fn minus(self, other: Self) -> (r: Self) {
        Wrapping(self.0.wrapping_sub(other.0))
    }

    fn times(self, other: Self) -> (r: Self) {
        Wrapping(self.0.wrapping_mul(other.0))
    }
}

impl ScalarArith for Wrapping<isize> {
    open spec fn zero_value() -> Self {
        Wrapping(0)
    }

    open spec fn plus_ok(self, other: Self) -> bool {
        true
    }

    open spec fn plus_value(self, other: Self) -> Self {
        Wrapping(vstd::wrapping::isize_specs::wrapping_add(self.0, other.0))
    }

    open spec fn minus_ok(self, other: Self) -> bool {
        true
    }

    open spec fn minus_value(self, other: Self) -> Self {
        Wrapping(vstd::wrapping::isize_specs::wrapping_sub(self.0, other.0))
    }

    open spec fn times_ok(self, other: Self) -> bool {
        true
    }

    open spec fn times_value(self, other: Self) -> Self {
        Wrapping(vstd::wrapping::isize_specs::wrapping_mul(self.0, other.0))
    }

    proof fn lemma_plus_zero(a: Self) {
    }

    proof fn lemma_plus_commutative(a: Self, b: Self) {
    }

    proof fn lemma_times_commutative(a: Self, b: Self) {
        assert(a.0 * b.0 == b.0 * a.0) by (nonlinear_arith);
    }

    proof fn lemma_plus_then_minus(a: Self, b: Self) {
    }

    proof fn lemma_square_of_difference_flip(a: Self, b: Self) {
        let d = a.minus_value(b).0;
        let e = b.minus_value(a).0;
        assert(e == -d || e == d);
        assert((-(d as int)) * (-(d as int)) == (d as int) * (d as int)) by (nonlinear_arith);
    }

    proof fn lemma_minus_self(a: Self) {
    }

    fn scalar_zero() -> (r: Self) {
        Wrapping(<isize as num_traits::Zero>::zero())
    }

    fn plus(self, other: Self) -> (r: Self) {
        Wrapping(self.0.wrapping_add(other.0))
    }

    fn minus(self, other: Self) -> (r: Self) {
        Wrapping(self.0.wrapping_sub(other.0))
    }

    fn times(self, other: Self) -> (r: Self) {
        Wrapping(self.0.wrapping_mul(other.0))
    }
}

/// `v` differs from `x` by a multiple of `r` when it is `x` reduced modulo
/// `r`, or that shifted down by `r`.
proof fn lemma_reduced_congruent(x: int, v: int, r: int)
    requires
        r > 0,
        v == x % r || v == x % r - r,
    ensures
        (v - x) % r == 0,
{
    vstd::arithmetic::div_mod::lemma_fundamental_div_mod(x, r);
    let q = x / r;
    let m = x % r;
    if v == m {
        assert(v - x == (-q) * r) by (nonlinear_arith)
            requires
                v == m,
                x == r * q + m,
        ;
        vstd::arithmetic::div_mod::lemma_mod_multiples_basic(-q, r);
    } else {
        assert(v - x == (-q - 1) * r) by (nonlinear_arith)
            requires
                v == m - r,
                x == r * q + m,
        ;
        vstd::arithmetic::div_mod::lemma_mod_multiples_basic(-q - 1, r);
    }
}

/// `v` differs from `x` by a multiple of `r` when it is `x`, `x - r` or `x + r`.
proof fn lemma_shift_congruent(x: int, v: int, r: int)
    requires
        r > 0,
        v == x || v == x - r || v == x + r,
    ensures
        (v - x) % r == 0,
{
    if v == x {
        vstd::arithmetic::div_mod::lemma_mod_multiples_basic(0, r);
    } else if v == x - r {
        vstd::arithmetic::div_mod::lemma_mod_multiples_basic(-1, r);
    } else {
        vstd::arithmetic::div_mod::lemma_mod_multiples_basic(1, r);
    }
}

/// The arithmetic of `i8` is integer arithmetic: zero is `0`, and each
/// operation succeeds exactly when the exact result fits in `i8`, which it
/// then gives.
pub proof fn lemma_i8_arith_is_integer_arith(a: i8, b: i8)
    ensures
        <i8 as ScalarArith>::zero_value() == 0,
        a.plus_ok(b) == (i8::MIN <= a + b <= i8::MAX),
        a.plus_ok(b) ==> a.plus_value(b) == a + b,
        a.minus_ok(b) == (i8::MIN <= a - b <= i8::MAX),
        a.minus_ok(b) ==> a.minus_value(b) == a - b,
        a.times_ok(b) == (i8::MIN <= a * b <= i8::MAX),
        a.times_ok(b) ==> a.times_value(b) == a * b,
{
}

/// The arithmetic of `Wrapping<i8>` is integer arithmetic modulo the width:
/// zero is `Wrapping(0)`, every operation succeeds, and each result differs
/// from the exact integer result by a multiple of `2^bits`.
pub proof fn lemma_wrapping_i8_arith_is_modular(a: Wrapping<i8>, b: Wrapping<i8>)
    ensures
        <Wrapping<i8> as ScalarArith>::zero_value() == Wrapping(0i8),
        a.plus_ok(b) && a.minus_ok(b) && a.times_ok(b),
        (a.plus_value(b).0 - (a.0 + b.0)) % 0x100int == 0,
        (a.minus_value(b).0 - (a.0 - b.0)) % 0x100int == 0,
        (a.times_value(b).0 - a.0 * b.0) % 0x100int == 0,
{
    let r: int = 0x100int;
    lemma_shift_congruent(a.0 + b.0, a.plus_value(b).0 as int, r);
    lemma_shift_congruent(a.0 - b.0, a.minus_value(b).0 as int, r);
    let x: int = a.0 * b.0;
    assert(0 <= x % r < r);
    lemma_reduced_congruent(x, a.times_value(b).0 as int, r);
}

/// The arithmetic of `i16` is integer arithmetic: zero is `0`, and each
/// operation succeeds exactly when the exact result fits in `i16`, which it
/// then gives.
pub proof fn lemma_i16_arith_is_integer_arith(a: i16, b: i16)
    ensures
        <i16 as ScalarArith>::zero_value() == 0,
        a.plus_ok(b) == (i16::MIN <= a + b <= i16::MAX),
        a.plus_ok(b) ==> a.plus_value(b) == a + b,
        a.minus_ok(b) == (i16::MIN <= a - b <= i16::MAX),
        a.minus_ok(b) ==> a.minus_value(b) == a - b,
        a.times_ok(b) == (i16::MIN <= a * b <= i16::MAX),
        a.times_ok(b) ==> a.times_value(b) == a * b,
{
}

/// The arithmetic of `Wrapping<i16>` is integer arithmetic modulo the width:
/// zero is `Wrapping(0)`, every operation succeeds, and each result differs
/// from the exact integer result by a multiple of `2^bits`.
pub proof fn lemma_wrapping_i16_arith_is_modular(a: Wrapping<i16>, b: Wrapping<i16>)
    ensures
        <Wrapping<i16> as ScalarArith>::zero_value() == Wrapping(0i16),
        a.plus_ok(b) && a.minus_ok(b) && a.times_ok(b),
        (a.plus_value(b).0 - (a.0 + b.0)) % 0x1_0000int == 0,
        (a.minus_value(b).0 - (a.0 - b.0)) % 0x1_0000int == 0,
        (a.times_value(b).0 - a.0 * b.0) % 0x1_0000int == 0,
{
    let r: int = 0x1_0000int;
    lemma_shift_congruent(a.0 + b.0, a.plus_value(b).0 as int, r);
    lemma_shift_congruent(a.0 - b.0, a.minus_value(b).0 as int, r);
    let x: int = a.0 * b.0;
    assert(0 <= x % r < r);
    lemma_reduced_congruent(x, a.times_value(b).0 as int, r);
}

/// The arithmetic of `i32` is integer arithmetic: zero is `0`, and each
/// operation succeeds exactly when the exact result fits in `i32`, which it
/// then gives.
pub proof fn lemma_i32_arith_is_integer_arith(a: i32, b: i32)
    ensures
        <i32 as ScalarArith>::zero_value() == 0,
        a.plus_ok(b) == (i32::MIN <= a + b <= i32::MAX),
        a.plus_ok(b) ==> a.plus_value(b) == a + b,
        a.minus_ok(b) == (i32::MIN <= a - b <= i32::MAX),
        a.minus_ok(b) ==> a.minus_value(b) == a - b,
        a.times_ok(b) == (i32::MIN <= a * b <= i32::MAX),
        a.times_ok(b) ==> a.times_value(b) == a * b,
{
}

/// The arithmetic of `Wrapping<i32>` is integer arithmetic modulo the width:
/// zero is `Wrapping(0)`, every operation succeeds, and each result differs
/// from the exact integer result by a multiple of `2^bits`.
pub proof fn lemma_wrapping_i32_arith_is_modular(a: Wrapping<i32>, b: Wrapping<i32>)
    ensures
        <Wrapping<i32> as ScalarArith>::zero_value() == Wrapping(0i32),
        a.plus_ok(b) && a.minus_ok(b) && a.times_ok(b),
        (a.plus_value(b).0 - (a.0 + b.0)) % 0x1_0000_0000int == 0,
        (a.minus_value(b).0 - (a.0 - b.0)) % 0x1_0000_0000int == 0,
        (a.times_value(b).0 - a.0 * b.0) % 0x1_0000_0000int == 0,
{
    let r: int = 0x1_0000_0000int;
    lemma_shift_congruent(a.0 + b.0, a.plus_value(b).0 as int, r);
    lemma_shift_congruent(a.0 - b.0, a.minus_value(b).0 as int, r);
    let x: int = a.0 * b.0;
    assert(0 <= x % r < r);
    lemma_reduced_congruent(x, a.times_value(b).0 as int, r);
}

/// The arithmetic of `i64` is integer arithmetic: zero is `0`, and each
/// operation succeeds exactly when the exact result fits in `i64`, which it
/// then gives.
pub proof fn lemma_i64_arith_is_integer_arith(a: i64, b: i64)
    ensures
        <i64 as ScalarArith>::zero_value() == 0,
        a.plus_ok(b) == (i64::MIN <= a + b <= i64::MAX),
        a.plus_ok(b) ==> a.plus_value(b) == a + b,
        a.minus_ok(b) == (i64::MIN <= a - b <= i64::MAX),
        a.minus_ok(b) ==> a.minus_value(b) == a - b,
        a.times_ok(b) == (i64::MIN <= a * b <= i64::MAX),
        a.times_ok(b) ==> a.times_value(b) == a * b,
{
}

/// The arithmetic of `Wrapping<i64>` is integer arithmetic modulo the width:
/// zero is `Wrapping(0)`, every operation succeeds, and each result differs
/// from the exact integer result by a multiple of `2^bits`.
pub proof fn lemma_wrapping_i64_arith_is_modular(a: Wrapping<i64>, b: Wrapping<i64>)
    ensures
        <Wrapping<i64> as ScalarArith>::zero_value() == Wrapping(0i64),
        a.plus_ok(b) && a.minus_ok(b) && a.times_ok(b),
        (a.plus_value(b).0 - (a.0 + b.0)) % 0x1_0000_0000_0000_0000int == 0,
        (a.minus_value(b).0 - (a.0 - b.0)) % 0x1_0000_0000_0000_0000int == 0,
        (a.times_value(b).0 - a.0 * b.0) % 0x1_0000_0000_0000_0000int == 0,
{
    let r: int = 0x1_0000_0000_0000_0000int;
    lemma_shift_congruent(a.0 + b.0, a.plus_value(b).0 as int, r);
    lemma_shift_congruent(a.0 - b.0, a.minus_value(b).0 as int, r);
    let x: int = a.0 * b.0;
    assert(0 <= x % r < r);
    lemma_reduced_congruent(x, a.times_value(b).0 as int, r);
}

/// The arithmetic of `i128` is integer arithmetic: zero is `0`, and each
/// operation succeeds exactly when the exact result fits in `i128`, which it
/// then gives.
pub proof fn lemma_i128_arith_is_integer_arith(a: i128, b: i128)
    ensures
        <i128 as ScalarArith>::zero_value() == 0,
        a.plus_ok(b) == (i128::MIN <= a + b <= i128::MAX),
        a.plus_ok(b) ==> a.plus_value(b) == a + b,
        a.minus_ok(b) == (i128::MIN <= a - b <= i128::MAX),
        a.minus_ok(b) ==> a.minus_value(b) == a - b,
        a.times_ok(b) == (i128::MIN <= a * b <= i128::MAX),
        a.times_ok(b) ==> a.times_value(b) == a * b,
{
}

/// The arithmetic of `Wrapping<i128>` is integer arithmetic modulo the width:
/// zero is `Wrapping(0)`, every operation succeeds, and each result differs
/// from the exact integer result by a multiple of `2^bits`.
pub proof fn lemma_wrapping_i128_arith_is_modular(a: Wrapping<i128>, b: Wrapping<i128>)
    ensures
        <Wrapping<i128> as ScalarArith>::zero_value() == Wrapping(0i128),
        a.plus_ok(b) && a.minus_ok(b) && a.times_ok(b),
        (a.plus_value(b).0 - (a.0 + b.0)) % 0x1_0000_0000_0000_0000_0000_0000_0000_0000int == 0,
        (a.minus_value(b).0 - (a.0 - b.0)) % 0x1_0000_0000_0000_0000_0000_0000_0000_0000int == 0,
        (a.times_value(b).0 - a.0 * b.0) % 0x1_0000_0000_0000_0000_0000_0000_0000_0000int == 0,
{
    let r: int = 0x1_0000_0000_0000_0000_0000_0000_0000_0000int;
    lemma_shift_congruent(a.0 + b.0, a.plus_value(b).0 as int, r);
    lemma_shift_congruent(a.0 - b.0, a.minus_value(b).0 as int, r);
    let x: int = a.0 * b.0;
    assert(0 <= x % r < r);
    lemma_reduced_congruent(x, a.times_value(b).0 as int, r);
}

/// The arithmetic of `isize` is integer arithmetic: zero is `0`, and each
/// operation succeeds exactly when the exact result fits in `isize`, which it
/// then gives.
pub proof fn lemma_isize_arith_is_integer_arith(a: isize, b: isize)
    ensures
        <isize as ScalarArith>::zero_value() == 0,
        a.plus_ok(b) == (isize::MIN <= a + b <= isize::MAX),
        a.plus_ok(b) ==> a.plus_value(b) == a + b,
        a.minus_ok(b) == (isize::MIN <= a - b <= isize::MAX),
        a.minus_ok(b) ==> a.minus_value(b) == a - b,
        a.times_ok(b) == (isize::MIN <= a * b <= isize::MAX),
        a.times_ok(b) ==> a.times_value(b) == a * b,
{
}

/// The arithmetic of `Wrapping<isize>` is integer arithmetic modulo the width:
/// zero is `Wrapping(0)`, every operation succeeds, and each result differs
/// from the exact integer result by a multiple of `2^bits`.
pub proof fn lemma_wrapping_isize_arith_is_modular(a: Wrapping<isize>, b: Wrapping<isize>)
    ensures
        <Wrapping<isize> as ScalarArith>::zero_value() == Wrapping(0isize),
        a.plus_ok(b) && a.minus_ok(b) && a.times_ok(b),
        (a.plus_value(b).0 - (a.0 + b.0)) % (usize::MAX as int + 1) == 0,
        (a.minus_value(b).0 - (a.0 - b.0)) % (usize::MAX as int + 1) == 0,
        (a.times_value(b).0 - a.0 * b.0) % (usize::MAX as int + 1) == 0,
{
    let r: int = (usize::MAX as int + 1);
    lemma_shift_congruent(a.0 + b.0, a.plus_value(b).0 as int, r);
    lemma_shift_congruent(a.0 - b.0, a.minus_value(b).0 as int, r);
    let x: int = a.0 * b.0;
    assert(0 <= x % r < r);
    lemma_reduced_congruent(x, a.times_value(b).0 as int, r);
}

/// Scalars that are bounded integers. Each has an integer value in
/// `[int_min(), int_max()]`, different values have different integers, zero
/// is `0`, and each operation succeeds exactly when the exact integer result
/// lies in that range, which it then gives.
pub trait IntegerScalar: ScalarArith {
    /// The integer this scalar stands for.
    spec fn int_value(self) -> int;

    /// The smallest integer of the type.
    spec fn int_min() -> int;

    /// The largest integer of the type.
    spec fn int_max() -> int;

    /// The integer model of the type and its operations.
    proof fn lemma_int_model(a: Self, b: Self)
        ensures
            Self::int_min() <= a.int_value() <= Self::int_max(),
            a.int_value() == b.int_value() ==> a == b,
            Self::zero_value().int_value() == 0,
            a.plus_ok(b) == (Self::int_min() <= a.int_value() + b.int_value() <= Self::int_max()),
            a.plus_ok(b) ==> a.plus_value(b).int_value() == a.int_value() + b.int_value(),
            a.minus_ok(b) == (Self::int_min() <= a.int_value() - b.int_value() <= Self::int_max()),
            a.minus_ok(b) ==> a.minus_value(b).int_value() == a.int_value() - b.int_value(),
            a.times_ok(b) == (Self::int_min() <= a.int_value() * b.int_value() <= Self::int_max()),
            a.times_ok(b) ==> a.times_value(b).int_value() == a.int_value() * b.int_value(),
            order_le(a, b) == (a.int_value() <= b.int_value()),
    ;
}

impl IntegerScalar for i8 {
    open spec fn int_value(self) -> int {
        self as int
    }

    open spec fn int_min() -> int {
        i8::MIN as int
    }

    open spec fn int_max() -> int {
        i8::MAX as int
    }

    proof fn lemma_int_model(a: Self, b: Self) {
    }
}

impl IntegerScalar for i16 {
    open spec fn int_value(self) -> int {
        self as int
    }

    open spec fn int_min() -> int {
        i16::MIN as int
    }

    open spec fn int_max() -> int {
        i16::MAX as int
    }

    proof fn lemma_int_model(a: Self, b: Self) {
    }
}

impl IntegerScalar for i32 {
    open spec fn int_value(self) -> int {
        self as int
    }

    open spec fn int_min() -> int {
        i32::MIN as int
    }

    open spec fn int_max() -> int {
        i32::MAX as int
    }

    proof fn lemma_int_model(a: Self, b: Self) {
    }
}

impl IntegerScalar for i64 {
    open spec fn int_value(self) -> int {
        self as int
    }

    open spec fn int_min() -> int {
        i64::MIN as int
    }

    open spec fn int_max() -> int {
        i64::MAX as int
    }

    proof fn lemma_int_model(a: Self, b: Self) {
    }
}

impl IntegerScalar for i128 {
    open spec fn int_value(self) -> int {
        self as int
    }

    open spec fn int_min() -> int {
        i128::MIN as int
    }

    open spec fn int_max() -> int {
        i128::MAX as int
    }

    proof fn lemma_int_model(a: Self, b: Self) {
    }
}

impl IntegerScalar for isize {
    open spec fn int_value(self) -> int {
        self as int
    }

    open spec fn int_min() -> int {
        isize::MIN as int
    }

    open spec fn int_max() -> int {
        isize::MAX as int
    }

    proof fn lemma_int_model(a: Self, b: Self) {
    }
}

} // verus!
