//! Point and scalar abstractions for r-trees, with verified contracts.
//!
//! - [`num`]: scalars ([`RTreeNum`]) and their total order;
//! - [`arith`]: the arithmetic that point operations ask of scalars ([`ScalarArith`]);
//! - [`point`]: points ([`Point`]) as arrays and tuples of scalars;
//! - [`ext`]: component-wise operations on points ([`PointExt`]).

pub mod arith;
pub mod ext;
pub mod num;
pub mod point;

pub use arith::{IntegerScalar, ScalarArith};
pub use ext::PointExt;
pub use num::{max_inline, min_inline, F32Bits, F64Bits, RTreeNum};
pub use point::Point;
