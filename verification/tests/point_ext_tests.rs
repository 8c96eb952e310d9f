use core::cell::Cell;
use core::num::Wrapping;
use rstar::{F64Bits, Point, PointExt, ScalarArith};

#[test]
fn new_is_all_zeros() {
    let p: [i32; 3] = PointExt::new();
    assert_eq!(p, [0, 0, 0]);
    let t: (i64, i64) = PointExt::new();
    assert_eq!(t, (0, 0));
    assert_eq!(<i128 as ScalarArith>::scalar_zero(), 0);
}

#[test]
fn from_value_fills_every_component() {
    let p: [i16; 4] = PointExt::from_value(-3);
    assert_eq!(p, [-3, -3, -3, -3]);
    let t: (i8, i8, i8) = PointExt::from_value(9);
    assert_eq!(t, (9, 9, 9));
}

#[test]
fn component_wise_pairs_components() {
    let a = [1i32, 2, 3];
    let b = [10i32, 20, 30];
    assert_eq!(a.component_wise(&b, |l, r| l * 100 + r), [110, 220, 330]);
}

#[test]
fn all_component_wise_tests_every_pair_and_stops_early() {
    let a = [1i32, 5, 3];
    let b = [2i32, 4, 6];
    assert!(!a.all_component_wise(&b, |l, r| l < r));
    assert!(a.all_component_wise(&b, |l, r| l != r));
    let calls = Cell::new(0);
    let result = a.all_component_wise(&b, |l, r| {
        calls.set(calls.get() + 1);
        l <= r
    });
    assert!(!result);
    assert_eq!(calls.get(), 2);
    let empty: [i32; 0] = [];
    assert!(empty.all_component_wise(&empty, |_, _| false));
}

#[test]
fn dot_is_sum_of_products() {
    let a = [1i32, 2, 3];
    let b = [4i32, -5, 6];
    assert_eq!(a.dot(&b), 12);
    assert_eq!(b.dot(&a), 12);
    let t = (2i64, 3i64);
    assert_eq!(t.dot(&t), 13);
}

#[test]
fn fold_runs_in_dimension_order() {
    let p = [1i32, 2, 3, 4];
    assert_eq!(p.fold(0i32, |acc, c| acc * 10 + c), 1234);
    let collected = p.fold(Vec::new(), |mut acc, c| {
        acc.push(c);
        acc
    });
    assert_eq!(collected, vec![1, 2, 3, 4]);
    assert_eq!(p.fold(String::from("x"), |acc, c| format!("{acc}{c}")), "x1234");
}

#[test]
fn min_and_max_point_are_component_wise() {
    let a = [1i32, 8, -3];
    let b = [4i32, 2, -3];
    assert_eq!(a.min_point(&b), [1, 2, -3]);
    assert_eq!(a.max_point(&b), [4, 8, -3]);
    assert_eq!(b.min_point(&a), a.min_point(&b));
    assert_eq!(b.max_point(&a), a.max_point(&b));
    assert_eq!(a.min_point(&a), a);
}

#[test]
fn length_2_is_sum_of_squares() {
    let p = [3i32, -4];
    assert_eq!(p.length_2(), 25);
    assert_eq!(p.length_2(), p.dot(&p));
    let z: (i32, i32, i32) = PointExt::new();
    assert_eq!(z.length_2(), 0);
}

#[test]
fn add_sub_mul_map() {
    let a = [1i32, 2, 3];
    let b = [10i32, 20, 30];
    assert_eq!(a.add(&b), [11, 22, 33]);
    assert_eq!(b.sub(&a), [9, 18, 27]);
    assert_eq!(a.add(&b).sub(&b), a);
    assert_eq!(a.add(&b), b.add(&a));
    let z: [i32; 3] = PointExt::new();
    assert_eq!(a.add(&z), a);
    assert_eq!(a.mul(-2), [-2, -4, -6]);
    assert_eq!(a.map(|c| c * c + 1), [2, 5, 10]);
}

#[test]
fn distance_2_is_squared_length_of_difference() {
    let a = (1i32, 1i32);
    let b = (4i32, 5i32);
    assert_eq!(a.distance_2(&b), 25);
    assert_eq!(b.distance_2(&a), 25);
    assert_eq!(a.distance_2(&b), a.sub(&b).length_2());
    assert_eq!(a.distance_2(&a), 0);
}

#[test]
fn scalar_arith_of_integers() {
    assert_eq!(7i8.plus(-3), 4);
    assert_eq!(7i16.minus(10), -3);
    assert_eq!((-6i64).times(7), -42);
    assert_eq!(<isize as ScalarArith>::scalar_zero(), 0);
    assert_eq!(i32::MAX.plus(0), i32::MAX);
}

#[test]
fn points_of_wrapping_and_dimensions() {
    assert_eq!(<[i32; 7] as Point>::DIMENSIONS, 7);
    let p: [Wrapping<i32>; 2] =
        Point::generate(|i| Wrapping(i as i32 - 1));
    assert_eq!(p.nth(0), Wrapping(-1));
    assert_eq!(p.nth(1), Wrapping(0));
}

#[test]
fn wrapping_scalars_wrap_around() {
    assert_eq!(Wrapping(i8::MAX).plus(Wrapping(1)), Wrapping(i8::MIN));
    assert_eq!(Wrapping(i16::MIN).minus(Wrapping(1)), Wrapping(i16::MAX));
    assert_eq!(Wrapping(0x4000_0000i32).times(Wrapping(4)), Wrapping(0));
    assert_eq!(<Wrapping<i64> as ScalarArith>::scalar_zero(), Wrapping(0));
    let a = [Wrapping(i32::MAX), Wrapping(1)];
    let b = [Wrapping(1i32), Wrapping(2)];
    let sum = a.add(&b);
    assert_eq!(sum, [Wrapping(i32::MIN), Wrapping(3)]);
    assert_eq!(sum.sub(&b), a);
    assert_eq!(b.length_2(), Wrapping(5));
}

#[test]
fn distance_2_is_symmetric_even_when_differences_wrap() {
    let a = [Wrapping(i32::MIN), Wrapping(3)];
    let b = [Wrapping(0i32), Wrapping(-4)];
    assert_eq!(a.distance_2(&b), b.distance_2(&a));
    let p = (2i64, -7i64, 5i64);
    let q = (-1i64, 4i64, 5i64);
    assert_eq!(p.distance_2(&q), 130);
    assert_eq!(q.distance_2(&p), 130);
}

fn f64_point(values: [f64; 2]) -> [F64Bits; 2] {
    [F64Bits::from_bits(values[0].to_bits()), F64Bits::from_bits(values[1].to_bits())]
}

#[test]
fn float_points_have_ordering_operations() {
    let nan = f64::from_bits(0x7ff8_0000_0000_0000);
    let a = f64_point([1.0, nan]);
    let b = f64_point([nan, 2.0]);
    assert_eq!(a.min_point(&b), f64_point([1.0, 2.0]));
    assert_eq!(a.max_point(&b), f64_point([nan, nan]));
    let c: [F64Bits; 2] = PointExt::from_value(F64Bits::from_bits(0.5f64.to_bits()));
    assert_eq!(c, f64_point([0.5, 0.5]));
    assert_eq!(c.map(|x| F64Bits::from_bits(x.to_bits() + 1)).nth(0).to_bits(), 0.5f64.to_bits() + 1);
    assert!(a.all_component_wise(&a, |l, r| l == r));
    assert_eq!(a.fold(0usize, |n, _| n + 1), 2);
    assert_eq!(a.component_wise(&b, |l, _| l), a);
}

#[test]
fn integer_point_laws_on_values() {
    let a = [3i32, -7, 11];
    let b = [-2i32, 5, 4];
    let zero: [i32; 3] = PointExt::new();
    assert_eq!(a.sub(&a), zero);
    assert_eq!(a.add(&b).mul(3), a.mul(3).add(&b.mul(3)));
    assert!(a.length_2() >= 0);
    assert_eq!(a.length_2(), a.dot(&a));
    assert_eq!(a.distance_2(&a), 0);
    assert_ne!(a.distance_2(&b), 0);
    assert_eq!(<[i32; 3] as Point>::generate(|i| a.nth(i)), a);
    let t = (4i16, -9i16);
    assert_eq!(<(i16, i16) as Point>::generate(|i| t.nth(i)), t);
}
