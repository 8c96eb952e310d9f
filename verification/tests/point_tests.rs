use rstar::{F64Bits, Point};

#[test]
fn test_tuples() {
    // Test a couple of simple cases
    let simple_int = (0, 1, 2);
    assert_eq!(simple_int.nth(2), 2);
    let simple_float = (
        F64Bits::from_bits(0.5f64.to_bits()),
        F64Bits::from_bits(0.67f64.to_bits()),
        F64Bits::from_bits(1234.56f64.to_bits()),
    );
    assert_eq!(simple_float.nth(2), F64Bits::from_bits(1234.56f64.to_bits()));
    assert_eq!(f64::from_bits(simple_float.nth(2).to_bits()), 1234.56);
    let long_int = (0, 1, 2, 3, 4, 5, 6, 7, 8);
    assert_eq!(long_int.nth(8), 8);

    // Every nth function for every tuple length
    let a = (0, 1);
    assert_eq!(a.nth(0), 0);
    assert_eq!(a.nth(1), 1);
    let a = (0, 1, 2);
    assert_eq!(a.nth(0), 0);
    assert_eq!(a.nth(1), 1);
    assert_eq!(a.nth(2), 2);
    let a = (0, 1, 2, 3);
    assert_eq!(a.nth(0), 0);
    assert_eq!(a.nth(1), 1);
    assert_eq!(a.nth(2), 2);
    assert_eq!(a.nth(3), 3);
    let a = (0, 1, 2, 3, 4);
    assert_eq!(a.nth(0), 0);
    assert_eq!(a.nth(1), 1);
    assert_eq!(a.nth(2), 2);
    assert_eq!(a.nth(3), 3);
    assert_eq!(a.nth(4), 4);
    let a = (0, 1, 2, 3, 4, 5);
    assert_eq!(a.nth(0), 0);
    assert_eq!(a.nth(1), 1);
    assert_eq!(a.nth(2), 2);
    assert_eq!(a.nth(3), 3);
    assert_eq!(a.nth(4), 4);
    assert_eq!(a.nth(5), 5);
    let a = (0, 1, 2, 3, 4, 5, 6);
    assert_eq!(a.nth(0), 0);
    assert_eq!(a.nth(1), 1);
    assert_eq!(a.nth(2), 2);
    assert_eq!(a.nth(3), 3);
    assert_eq!(a.nth(4), 4);
    assert_eq!(a.nth(5), 5);
    assert_eq!(a.nth(6), 6);
    let a = (0, 1, 2, 3, 4, 5, 6, 7);
    assert_eq!(a.nth(0), 0);
    assert_eq!(a.nth(1), 1);
    assert_eq!(a.nth(2), 2);
    assert_eq!(a.nth(3), 3);
    assert_eq!(a.nth(4), 4);
    assert_eq!(a.nth(5), 5);
    assert_eq!(a.nth(6), 6);
    assert_eq!(a.nth(7), 7);
    let a = (0, 1, 2, 3, 4, 5, 6, 7, 8);
    assert_eq!(a.nth(0), 0);
    assert_eq!(a.nth(1), 1);
    assert_eq!(a.nth(2), 2);
    assert_eq!(a.nth(3), 3);
    assert_eq!(a.nth(4), 4);
    assert_eq!(a.nth(5), 5);
    assert_eq!(a.nth(6), 6);
    assert_eq!(a.nth(7), 7);
    assert_eq!(a.nth(8), 8);
}

#[test]
fn tuple_of_one_and_ten() {
    let one = (7i64,);
    assert_eq!(one.nth(0), 7);
    assert_eq!(<(i64,) as Point>::DIMENSIONS, 1);
    let ten = (0i32, 1, 2, 3, 4, 5, 6, 7, 8, 9);
    assert_eq!(ten.nth(9), 9);
    assert_eq!(<(i32, i32, i32, i32, i32, i32, i32, i32, i32, i32) as Point>::DIMENSIONS, 10);
}

#[test]
fn generate_calls_generator_per_dimension_in_order() {
    let calls = std::cell::RefCell::new(Vec::new());
    let p: [i32; 4] = Point::generate(|i| {
        calls.borrow_mut().push(i);
        (i as i32) * 10 - 5
    });
    assert_eq!(p, [-5, 5, 15, 25]);
    assert_eq!(*calls.borrow(), vec![0, 1, 2, 3]);

    let calls = std::cell::RefCell::new(Vec::new());
    let t: (i16, i16, i16) = Point::generate(|i| {
        calls.borrow_mut().push(i);
        i as i16 + 1
    });
    assert_eq!(t, (1, 2, 3));
    assert_eq!(*calls.borrow(), vec![0, 1, 2]);

    let empty: [i8; 0] = Point::generate(|i| i as i8);
    assert_eq!(empty.len(), 0);
}

#[test]
fn nth_reads_back_generated_values() {
    let p: [i64; 5] = Point::generate(|i| (i * i) as i64);
    for i in 0..5 {
        assert_eq!(p.nth(i), (i * i) as i64);
    }
    assert_eq!(<[i64; 5] as Point>::DIMENSIONS, 5);
}

#[test]
fn nth_mut_writes_one_coordinate() {
    let mut p = [1i32, 2, 3];
    *p.nth_mut(1) = 20;
    assert_eq!(p, [1, 20, 3]);
    assert_eq!(p.nth(1), 20);

    let mut t = (1i32, 2, 3, 4);
    *t.nth_mut(3) = -4;
    *t.nth_mut(0) += 10;
    assert_eq!(t, (11, 2, 3, -4));
    assert_eq!(t.nth(3), -4);
}
