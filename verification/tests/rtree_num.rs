use core::cmp::Ordering;
use core::num::Wrapping;
use rstar::{max_inline, min_inline, F32Bits, F64Bits, RTreeNum};

fn assert_impl_rtreenum<S: RTreeNum>() {}

#[test]
fn test_types() {
    assert_impl_rtreenum::<i8>();
    assert_impl_rtreenum::<i16>();
    assert_impl_rtreenum::<i32>();
    assert_impl_rtreenum::<i64>();
    assert_impl_rtreenum::<i128>();
    assert_impl_rtreenum::<isize>();
    assert_impl_rtreenum::<Wrapping<i8>>();
    assert_impl_rtreenum::<Wrapping<i16>>();
    assert_impl_rtreenum::<Wrapping<i32>>();
    assert_impl_rtreenum::<Wrapping<i64>>();
    assert_impl_rtreenum::<Wrapping<i128>>();
    assert_impl_rtreenum::<Wrapping<isize>>();
    assert_impl_rtreenum::<F32Bits>();
    assert_impl_rtreenum::<F64Bits>();
}

fn f32_value(x: f32) -> F32Bits {
    F32Bits::from_bits(x.to_bits())
}

fn f64_value(x: f64) -> F64Bits {
    F64Bits::from_bits(x.to_bits())
}

#[test]
fn total_cmp_matches_f32_intrinsic() {
    let values = [f32::NEG_INFINITY, -1.0, 0.0, 1.0, f32::INFINITY, f32::NAN];
    for left in values.iter() {
        for right in values.iter() {
            assert_eq!(
                RTreeNum::total_cmp(f32_value(*left), f32_value(*right)),
                f32::total_cmp(left, right),
                "unexpected ordering for {left:?} and {right:?}",
            );
        }
    }
}

#[test]
fn total_cmp_matches_f64_intrinsic() {
    let values = [f64::NEG_INFINITY, -1.0, 0.0, 1.0, f64::INFINITY, f64::NAN];
    for left in values.iter() {
        for right in values.iter() {
            assert_eq!(
                RTreeNum::total_cmp(f64_value(*left), f64_value(*right)),
                f64::total_cmp(left, right),
                "unexpected ordering for {left:?} and {right:?}",
            );
        }
    }
}

#[test]
fn total_cmp_matches_intrinsic_on_signed_zeros_and_nans() {
    let values32 = [
        -f32::NAN,
        f32::MIN,
        -0.0,
        0.0,
        f32::MIN_POSITIVE,
        f32::MAX,
        f32::NAN,
        f32::from_bits(0x7f80_0001),
        f32::from_bits(0xff80_0001),
    ];
    for left in values32.iter() {
        for right in values32.iter() {
            assert_eq!(
                f32_value(*left).total_cmp(f32_value(*right)),
                left.total_cmp(right)
            );
        }
    }
    let values64 = [-f64::NAN, f64::MIN, -0.0, 0.0, f64::MIN_POSITIVE, f64::MAX, f64::NAN];
    for left in values64.iter() {
        for right in values64.iter() {
            assert_eq!(
                f64_value(*left).total_cmp(f64_value(*right)),
                left.total_cmp(right)
            );
        }
    }
}

#[test]
fn total_cmp_of_integers_is_numeric_order() {
    assert_eq!(RTreeNum::total_cmp(-3i8, 2i8), Ordering::Less);
    assert_eq!(RTreeNum::total_cmp(7i16, 7i16), Ordering::Equal);
    assert_eq!(RTreeNum::total_cmp(9i32, -9i32), Ordering::Greater);
    assert_eq!(RTreeNum::total_cmp(i64::MIN, i64::MAX), Ordering::Less);
    assert_eq!(RTreeNum::total_cmp(i128::MAX, 0i128), Ordering::Greater);
    assert_eq!(RTreeNum::total_cmp(0isize, 1isize), Ordering::Less);
}

#[test]
fn total_cmp_of_wrapping_follows_inner_value() {
    assert_eq!(RTreeNum::total_cmp(Wrapping(-1i32), Wrapping(1i32)), Ordering::Less);
    assert_eq!(RTreeNum::total_cmp(Wrapping(5i64), Wrapping(5i64)), Ordering::Equal);
    assert_eq!(RTreeNum::total_cmp(Wrapping(100i8), Wrapping(-100i8)), Ordering::Greater);
}

#[test]
fn min_and_max_inline_pick_by_total_order() {
    assert_eq!(min_inline(3i32, -4i32), -4);
    assert_eq!(max_inline(3i32, -4i32), 3);
    assert_eq!(min_inline(-4i32, 3i32), -4);
    assert_eq!(max_inline(-4i32, 3i32), 3);
    assert_eq!(min_inline(5i64, 5i64), 5);
    assert_eq!(max_inline(Wrapping(2i16), Wrapping(9i16)), Wrapping(9i16));
}

#[test]
fn min_and_max_inline_order_floats_totally() {
    // -0.0 comes before +0.0, and a positive NaN after infinity.
    assert_eq!(min_inline(f32_value(0.0), f32_value(-0.0)), f32_value(-0.0));
    assert_eq!(max_inline(f32_value(0.0), f32_value(-0.0)), f32_value(0.0));
    assert_eq!(max_inline(f64_value(f64::INFINITY), f64_value(f64::NAN)).to_bits(), f64::NAN.to_bits());
    assert_eq!(min_inline(f64_value(-f64::NAN), f64_value(f64::NEG_INFINITY)).to_bits(), (-f64::NAN).to_bits());
    assert_eq!(min_inline(f64_value(1.5), f64_value(-2.5)), f64_value(-2.5));
}

#[test]
fn min_and_max_inline_laws_on_values() {
    let values = [-7i32, -1, 0, 3, 12];
    for a in values.iter() {
        for b in values.iter() {
            let lo = min_inline(*a, *b);
            let hi = max_inline(*a, *b);
            assert!(lo == *a || lo == *b);
            assert!(hi == *a || hi == *b);
            assert!(lo <= *a && lo <= *b);
            assert!(hi >= *a && hi >= *b);
            assert_eq!(lo, min_inline(*b, *a));
            assert_eq!(hi, max_inline(*b, *a));
        }
    }
}

#[test]
fn float_bits_round_trip() {
    let x = F32Bits::from_bits(0x4049_0fdb);
    assert_eq!(x.to_bits(), 0x4049_0fdb);
    let y = F64Bits::from_bits(1234.56f64.to_bits());
    assert_eq!(f64::from_bits(y.to_bits()), 1234.56);
}

#[test]
fn float_order_is_total() {
    let values = [
        f64_value(-f64::NAN),
        f64_value(f64::NEG_INFINITY),
        f64_value(-1.0),
        f64_value(-0.0),
        f64_value(0.0),
        f64_value(f64::MIN_POSITIVE),
        f64_value(f64::INFINITY),
        f64_value(f64::NAN),
    ];
    for (i, a) in values.iter().enumerate() {
        for (j, b) in values.iter().enumerate() {
            let ab = a.total_cmp(*b);
            assert_eq!(ab, b.total_cmp(*a).reverse());
            assert_eq!(ab == Ordering::Equal, a == b);
            assert_eq!(ab, i.cmp(&j));
        }
    }
}
