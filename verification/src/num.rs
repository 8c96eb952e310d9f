//! Scalars that can be used as coordinates, and their total ordering.
use core::cmp::Ordering;
use vstd::prelude::*;

verus! {

/// A number type that is compatible with rstar.
///
/// Every implementation orders its values totally: `total_cmp` agrees with
/// the spec relation `order`, which is antisymmetric, transitive and says
/// `Equal` exactly for equal values.
pub trait RTreeNum: Copy + PartialEq + core::fmt::Debug + Sized {
    /// The total order of the type.
    spec fn order(self, other: Self) -> Ordering;

    /// `a` before `b` exactly when `b` after `a`.
    proof fn lemma_order_flip(a: Self, b: Self)
        ensures
            (a.order(b) == Ordering::Less) == (b.order(a) == Ordering::Greater),
    ;

    /// Only equal values compare `Equal`.
    proof fn lemma_order_equal(a: Self, b: Self)
        ensures
            (a.order(b) == Ordering::Equal) == (a == b),
    ;

    /// `Less` is transitive.
    proof fn lemma_order_transitive(a: Self, b: Self, c: Self)
        requires
            a.order(b) == Ordering::Less,
            b.order(c) == Ordering::Less,
        ensures
            a.order(c) == Ordering::Less,
    ;

    /// Compares two values using a total ordering.
    fn total_cmp(self, other: Self) -> (r: Ordering)
        ensures
            r == self.order(other),
    ;
}

impl RTreeNum for i8 {
    open spec fn order(self, other: Self) -> Ordering {
        if self < other {
            Ordering::Less
        } else if self > other {
            Ordering::Greater
        } else {
            Ordering::Equal
        }
    }

    proof fn lemma_order_flip(a: Self, b: Self) {
    }

    proof fn lemma_order_equal(a: Self, b: Self) {
    }

    proof fn lemma_order_transitive(a: Self, b: Self, c: Self) {
    }

    fn total_cmp(self, other: Self) -> (r: Ordering)
        ensures
            (r == Ordering::Less) == (self < other),
            (r == Ordering::Greater) == (self > other),
            (r == Ordering::Equal) == (self == other),
    {
        self.cmp(&other)
    }
}

impl RTreeNum for i16 {
    open spec fn order(self, other: Self) -> Ordering {
        if self < other {
            Ordering::Less
        } else if self > other {
            Ordering::Greater
        } else {
            Ordering::Equal
        }
    }

    proof fn lemma_order_flip(a: Self, b: Self) {
    }

    proof fn lemma_order_equal(a: Self, b: Self) {
    }

    proof fn lemma_order_transitive(a: Self, b: Self, c: Self) {
    }

    fn total_cmp(self, other: Self) -> (r: Ordering)
        ensures
            (r == Ordering::Less) == (self < other),
            (r == Ordering::Greater) == (self > other),
            (r == Ordering::Equal) == (self == other),
    {
        self.cmp(&other)
    }
}

impl RTreeNum for i32 {
    open spec fn order(self, other: Self) -> Ordering {
        if self < other {
            Ordering::Less
        } else if self > other {
            Ordering::Greater
        } else {
            Ordering::Equal
        }
    }

    proof fn lemma_order_flip(a: Self, b: Self) {
    }

    proof fn lemma_order_equal(a: Self, b: Self) {
    }

    proof fn lemma_order_transitive(a: Self, b: Self, c: Self) {
    }

    fn total_cmp(self, other: Self) -> (r: Ordering)
        ensures
            (r == Ordering::Less) == (self < other),
            (r == Ordering::Greater) == (self > other),
            (r == Ordering::Equal) == (self == other),
    {
        self.cmp(&other)
    }
}

impl RTreeNum for i64 {
    open spec fn order(self, other: Self) -> Ordering {
        if self < other {
            Ordering::Less
        } else if self > other {
            Ordering::Greater
        } else {
            Ordering::Equal
        }
    }

    proof fn lemma_order_flip(a: Self, b: Self) {
    }

    proof fn lemma_order_equal(a: Self, b: Self) {
    }

    proof fn lemma_order_transitive(a: Self, b: Self, c: Self) {
    }

    fn total_cmp(self, other: Self) -> (r: Ordering)
        ensures
            (r == Ordering::Less) == (self < other),
            (r == Ordering::Greater) == (self > other),
            (r == Ordering::Equal) == (self == other),
    {
        self.cmp(&other)
    }
}

impl RTreeNum for i128 {
    open spec fn order(self, other: Self) -> Ordering {
        if self < other {
            Ordering::Less
        } else if self > other {
            Ordering::Greater
        } else {
            Ordering::Equal
        }
    }

    proof fn lemma_order_flip(a: Self, b: Self) {
    }

    proof fn lemma_order_equal(a: Self, b: Self) {
    }

    proof fn lemma_order_transitive(a: Self, b: Self, c: Self) {
    }

    fn total_cmp(self, other: Self) -> (r: Ordering)
        ensures
            (r == Ordering::Less) == (self < other),
            (r == Ordering::Greater) == (self > other),
            (r == Ordering::Equal) == (self == other),
    {
        self.cmp(&other)
    }
}

impl RTreeNum for isize {
    open spec fn order(self, other: Self) -> Ordering {
        if self < other {
            Ordering::Less
        } else if self > other {
            Ordering::Greater
        } else {
            Ordering::Equal
        }
    }

    proof fn lemma_order_flip(a: Self, b: Self) {
    }

    proof fn lemma_order_equal(a: Self, b: Self) {
    }

    proof fn lemma_order_transitive(a: Self, b: Self, c: Self) {
    }

    fn total_cmp(self, other: Self) -> (r: Ordering)
        ensures
            (r == Ordering::Less) == (self < other),
            (r == Ordering::Greater) == (self > other),
            (r == Ordering::Equal) == (self == other),
    {
        self.cmp(&other)
    }
}

/// An `f32` value held by its IEEE 754 bit pattern.
///
/// Its `total_cmp` is the IEEE 754 `totalOrder` predicate, the order of
/// `f32::total_cmp`: negative NaNs, negative infinity, negative numbers,
/// `-0.0`, `+0.0`, positive numbers, positive infinity, positive NaNs.
#[derive(Clone, Copy, PartialEq, Eq, Debug, Structural)]
pub struct F32Bits {
    pub bits: u32,
}

/// An `f64` value held by its IEEE 754 bit pattern, ordered like `F32Bits`.
#[derive(Clone, Copy, PartialEq, Eq, Debug, Structural)]
pub struct F64Bits {
    pub bits: u64,
}

/// The rank of an `f32` bit pattern in the total order: the bits themselves
/// when the sign bit is clear, else minus one minus the magnitude bits.
pub open spec fn f32_rank(bits: u32) -> int {
    if bits < 0x8000_0000 {
        bits as int
    } else {
        -1 - (bits - 0x8000_0000)
    }
}

/// The rank of an `f64` bit pattern in the total order, as for `f32_rank`.
pub open spec fn f64_rank(bits: u64) -> int {
    if bits < 0x8000_0000_0000_0000 {
        bits as int
    } else {
        -1 - (bits - 0x8000_0000_0000_0000)
    }
}

/// Computes `f32_rank`.
fn f32_rank_exec(bits: u32) -> (k: i64)
    ensures
        k == f32_rank(bits),
{
    if bits < 0x8000_0000 {
        bits as i64
    } else {
        -1 - ((bits - 0x8000_0000) as i64)
    }
}

/// Computes `f64_rank`.
fn f64_rank_exec(bits: u64) -> (k: i128)
    ensures
        k == f64_rank(bits),
{
    if bits < 0x8000_0000_0000_0000 {
        bits as i128
    } else {
        -1 - ((bits - 0x8000_0000_0000_0000) as i128)
    }
}

impl F32Bits {
    /// The value whose bit pattern is `bits`.
    pub fn from_bits(bits: u32) -> (r: Self)
        ensures
            r.bits == bits,
    {
        F32Bits { bits }
    }

    /// The bit pattern of this value.
    pub fn to_bits(self) -> (r: u32)
        ensures
            r == self.bits,
    {
        self.bits
    }
}

impl F64Bits {
    /// The value whose bit pattern is `bits`.
    pub fn from_bits(bits: u64) -> (r: Self)
        ensures
            r.bits == bits,
    {
        F64Bits { bits }
    }

    /// The bit pattern of this value.
    pub fn to_bits(self) -> (r: u64)
        ensures
            r == self.bits,
    {
        self.bits
    }
}

impl RTreeNum for F32Bits {
    open spec fn order(self, other: Self) -> Ordering {
        if f32_rank(self.bits) < f32_rank(other.bits) {
            Ordering::Less
        } else if f32_rank(self.bits) > f32_rank(other.bits) {
            Ordering::Greater
        } else {
            Ordering::Equal
        }
    }

    proof fn lemma_order_flip(a: Self, b: Self) {
    }

    proof fn lemma_order_equal(a: Self, b: Self) {
    }

    proof fn lemma_order_transitive(a: Self, b: Self, c: Self) {
    }

    fn total_cmp(self, other: Self) -> (r: Ordering) {
        let left = f32_rank_exec(self.bits);
        let right = f32_rank_exec(other.bits);
        if left < right {
            Ordering::Less
        } else if left > right {
            Ordering::Greater
        } else {
            Ordering::Equal
        }
    }
}

impl RTreeNum for F64Bits {
    open spec fn order(self, other: Self) -> Ordering {
        if f64_rank(self.bits) < f64_rank(other.bits) {
            Ordering::Less
        } else if f64_rank(self.bits) > f64_rank(other.bits) {
            Ordering::Greater
        } else {
            Ordering::Equal
        }
    }

    proof fn lemma_order_flip(a: Self, b: Self) {
    }

    proof fn lemma_order_equal(a: Self, b: Self) {
    }

    proof fn lemma_order_transitive(a: Self, b: Self, c: Self) {
    }

    fn total_cmp(self, other: Self) -> (r: Ordering) {
        let left = f64_rank_exec(self.bits);
        let right = f64_rank_exec(other.bits);
        if left < right {
            Ordering::Less
        } else if left > right {
            Ordering::Greater
        } else {
            Ordering::Equal
        }
    }
}

/// The total order of `i8` is its numeric order, and wrapped `i8` values
/// are ordered by the numbers inside.
pub proof fn lemma_i8_order_is_numeric(a: i8, b: i8)
    ensures
        (a.order(b) == Ordering::Less) == (a < b),
        (a.order(b) == Ordering::Greater) == (a > b),
        (a.order(b) == Ordering::Equal) == (a == b),
        (core::num::Wrapping(a).order(core::num::Wrapping(b)) == Ordering::Less) == (a < b),
        (core::num::Wrapping(a).order(core::num::Wrapping(b)) == Ordering::Greater) == (a > b),
        (core::num::Wrapping(a).order(core::num::Wrapping(b)) == Ordering::Equal) == (a == b),
{
}

/// The total order of `i16` is its numeric order, and wrapped `i16` values
/// are ordered by the numbers inside.
pub proof fn lemma_i16_order_is_numeric(a: i16, b: i16)
    ensures
        (a.order(b) == Ordering::Less) == (a < b),
        (a.order(b) == Ordering::Greater) == (a > b),
        (a.order(b) == Ordering::Equal) == (a == b),
        (core::num::Wrapping(a).order(core::num::Wrapping(b)) == Ordering::Less) == (a < b),
        (core::num::Wrapping(a).order(core::num::Wrapping(b)) == Ordering::Greater) == (a > b),
        (core::num::Wrapping(a).order(core::num::Wrapping(b)) == Ordering::Equal) == (a == b),
{
}

/// The total order of `i32` is its numeric order, and wrapped `i32` values
/// are ordered by the numbers inside.
pub proof fn lemma_i32_order_is_numeric(a: i32, b: i32)
    ensures
        (a.order(b) == Ordering::Less) == (a < b),
        (a.order(b) == Ordering::Greater) == (a > b),
        (a.order(b) == Ordering::Equal) == (a == b),
        (core::num::Wrapping(a).order(core::num::Wrapping(b)) == Ordering::Less) == (a < b),
        (core::num::Wrapping(a).order(core::num::Wrapping(b)) == Ordering::Greater) == (a > b),
        (core::num::Wrapping(a).order(core::num::Wrapping(b)) == Ordering::Equal) == (a == b),
{
}

/// The total order of `i64` is its numeric order, and wrapped `i64` values
/// are ordered by the numbers inside.
pub proof fn lemma_i64_order_is_numeric(a: i64, b: i64)
    ensures
        (a.order(b) == Ordering::Less) == (a < b),
        (a.order(b) == Ordering::Greater) == (a > b),
        (a.order(b) == Ordering::Equal) == (a == b),
        (core::num::Wrapping(a).order(core::num::Wrapping(b)) == Ordering::Less) == (a < b),
        (core::num::Wrapping(a).order(core::num::Wrapping(b)) == Ordering::Greater) == (a > b),
        (core::num::Wrapping(a).order(core::num::Wrapping(b)) == Ordering::Equal) == (a == b),
{
}

/// The total order of `i128` is its numeric order, and wrapped `i128` values
/// are ordered by the numbers inside.
pub proof fn lemma_i128_order_is_numeric(a: i128, b: i128)
    ensures
        (a.order(b) == Ordering::Less) == (a < b),
        (a.order(b) == Ordering::Greater) == (a > b),
        (a.order(b) == Ordering::Equal) == (a == b),
        (core::num::Wrapping(a).order(core::num::Wrapping(b)) == Ordering::Less) == (a < b),
        (core::num::Wrapping(a).order(core::num::Wrapping(b)) == Ordering::Greater) == (a > b),
        (core::num::Wrapping(a).order(core::num::Wrapping(b)) == Ordering::Equal) == (a == b),
{
}

/// The total order of `isize` is its numeric order, and wrapped `isize` values
/// are ordered by the numbers inside.
pub proof fn lemma_isize_order_is_numeric(a: isize, b: isize)
    ensures
        (a.order(b) == Ordering::Less) == (a < b),
        (a.order(b) == Ordering::Greater) == (a > b),
        (a.order(b) == Ordering::Equal) == (a == b),
        (core::num::Wrapping(a).order(core::num::Wrapping(b)) == Ordering::Less) == (a < b),
        (core::num::Wrapping(a).order(core::num::Wrapping(b)) == Ordering::Greater) == (a > b),
        (core::num::Wrapping(a).order(core::num::Wrapping(b)) == Ordering::Equal) == (a == b),
{
}

/// The order of `F32Bits` is the IEEE 754 `totalOrder` on bit patterns: values
/// whose sign bit is clear are ordered by their bits, values whose sign bit is
/// set are ordered by their bits reversed, and every value with the sign bit
/// set comes before every value with it clear.
pub proof fn lemma_f32bits_order_on_bits(a: F32Bits, b: F32Bits)
    ensures
        a.bits < 0x8000_0000 && b.bits < 0x8000_0000 ==> ((a.order(b) == Ordering::Less) == (a.bits < b.bits)),
        a.bits >= 0x8000_0000 && b.bits >= 0x8000_0000 ==> ((a.order(b) == Ordering::Less) == (a.bits > b.bits)),
        a.bits >= 0x8000_0000 && b.bits < 0x8000_0000 ==> a.order(b) == Ordering::Less,
        (a.order(b) == Ordering::Equal) == (a.bits == b.bits),
        (a.order(b) == Ordering::Greater) == (b.order(a) == Ordering::Less),
{
}

/// The order of `F64Bits` is the IEEE 754 `totalOrder` on bit patterns: values
/// whose sign bit is clear are ordered by their bits, values whose sign bit is
/// set are ordered by their bits reversed, and every value with the sign bit
/// set comes before every value with it clear.
pub proof fn lemma_f64bits_order_on_bits(a: F64Bits, b: F64Bits)
    ensures
        a.bits < 0x8000_0000_0000_0000 && b.bits < 0x8000_0000_0000_0000 ==> ((a.order(b) == Ordering::Less) == (a.bits < b.bits)),
        a.bits >= 0x8000_0000_0000_0000 && b.bits >= 0x8000_0000_0000_0000 ==> ((a.order(b) == Ordering::Less) == (a.bits > b.bits)),
        a.bits >= 0x8000_0000_0000_0000 && b.bits < 0x8000_0000_0000_0000 ==> a.order(b) == Ordering::Less,
        (a.order(b) == Ordering::Equal) == (a.bits == b.bits),
        (a.order(b) == Ordering::Greater) == (b.order(a) == Ordering::Less),
{
}

/// `a` is not after `b` in the total order.
pub open spec fn order_le<S: RTreeNum>(a: S, b: S) -> bool {
    a.order(b) != Ordering::Greater
}

/// The smaller of `a` and `b` in the total order; `b` when they compare equal.
pub open spec fn min_of<S: RTreeNum>(a: S, b: S) -> S {
    if a.order(b) == Ordering::Less {
        a
    } else {
        b
    }
}

/// The bigger of `a` and `b` in the total order; `b` when they compare equal.
pub open spec fn max_of<S: RTreeNum>(a: S, b: S) -> S {
    if a.order(b) == Ordering::Greater {
        a
    } else {
        b
    }
}

/// `order_le` is a total order: reflexive, antisymmetric, transitive and total.
pub proof fn lemma_order_le_total_order<S: RTreeNum>(a: S, b: S, c: S)
    ensures
        order_le(a, a),
        order_le(a, b) || order_le(b, a),
        order_le(a, b) && order_le(b, a) ==> a == b,
        order_le(a, b) && order_le(b, c) ==> order_le(a, c),
{
    S::lemma_order_equal(a, a);
    S::lemma_order_equal(a, b);
    S::lemma_order_equal(b, c);
    S::lemma_order_equal(a, c);
    S::lemma_order_flip(a, b);
    S::lemma_order_flip(b, a);
    S::lemma_order_flip(b, c);
    S::lemma_order_flip(c, b);
    S::lemma_order_flip(a, c);
    S::lemma_order_flip(c, a);
    if a.order(b) == Ordering::Less && b.order(c) == Ordering::Less {
        S::lemma_order_transitive(a, b, c);
    }
}

/// The minimum is one of its arguments and is not after either of them; the
/// maximum is one of its arguments and not before either; neither depends on
/// the order of the arguments; and the minimum is not after the maximum.
pub proof fn lemma_min_max<S: RTreeNum>(a: S, b: S)
    ensures
        min_of(a, b) == a || min_of(a, b) == b,
        max_of(a, b) == a || max_of(a, b) == b,
        order_le(min_of(a, b), a),
        order_le(min_of(a, b), b),
        order_le(a, max_of(a, b)),
        order_le(b, max_of(a, b)),
        min_of(a, b) == min_of(b, a),
        max_of(a, b) == max_of(b, a),
        order_le(min_of(a, b), max_of(a, b)),
{
    lemma_order_le_total_order(a, b, a);
    lemma_order_le_total_order(b, a, b);
    S::lemma_order_flip(a, b);
    S::lemma_order_flip(b, a);
    S::lemma_order_equal(a, b);
    S::lemma_order_equal(b, a);
}

/// Returns the smaller of `a` and `b` by `total_cmp`; `b` when they compare equal.
pub fn min_inline<S: RTreeNum>(a: S, b: S) -> (r: S)
    ensures
        r == min_of(a, b),
{
    match a.total_cmp(b) {
        Ordering::Less => a,
        _ => b,
    }
}

/// Returns the bigger of `a` and `b` by `total_cmp`; `b` when they compare equal.
pub fn max_inline<S: RTreeNum>(a: S, b: S) -> (r: S)
    ensures
        r == max_of(a, b),
{
    match a.total_cmp(b) {
        Ordering::Greater => a,
        _ => b,
    }
}

/// Makes `core::num::Wrapping` known to Verus with its one public field, so
/// that the order of a wrapped value can be stated through the value inside.
#[verifier::external_type_specification]
#[verifier::reject_recursive_types(T)]
pub struct ExWrapping<T>(core::num::Wrapping<T>);

/// Wrapped values are ordered by the values inside.
impl<T: RTreeNum> RTreeNum for core::num::Wrapping<T> {
    open spec fn order(self, other: Self) -> Ordering {
        self.0.order(other.0)
    }

    proof fn lemma_order_flip(a: Self, b: Self) {
        T::lemma_order_flip(a.0, b.0);
    }

    proof fn lemma_order_equal(a: Self, b: Self) {
        T::lemma_order_equal(a.0, b.0);
    }

    proof fn lemma_order_transitive(a: Self, b: Self, c: Self) {
        T::lemma_order_transitive(a.0, b.0, c.0);
    }

    fn total_cmp(self, other: Self) -> (r: Ordering) {
        self.0.total_cmp(other.0)
    }
}

} // verus!
