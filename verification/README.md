# rstar points, verified

The point and scalar layer of an r-tree library, written in Verus:

- `src/num.rs` — `RTreeNum`, the scalars with a total order (`total_cmp`),
  implemented for the signed integers, `Wrapping` of them, and `F32Bits` /
  `F64Bits` (floats held by their IEEE 754 bit patterns, ordered by the
  IEEE `totalOrder`); `min_inline` / `max_inline` and the order laws.
- `src/arith.rs` — `ScalarArith`, the zero, `+`, `-` and `*` that point
  operations use, with the conditions under which each succeeds, and
  `IntegerScalar`, the integer model of the bounded integer types.
- `src/point.rs` — `Point`, with implementations for arrays `[S; N]` and
  tuples of one to ten coordinates.
- `src/ext.rs` — `PointExt`, the component-wise operations (dot product,
  folds, minima and maxima, squared length and distance, ...) and their laws;
  the arithmetic ones are offered where the scalar has `ScalarArith`.

`tests/` runs the library on concrete values.
