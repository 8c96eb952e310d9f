//! Component-wise operations on points.
use crate::arith::{IntegerScalar, ScalarArith};
use crate::num::{RTreeNum, lemma_min_max, max_inline, max_of, min_inline, min_of, order_le};
use crate::point::Point;
use vstd::prelude::*;

verus! {

/// The sequence of `n` copies of `v`.
pub open spec fn constant_seq<S>(n: nat, v: S) -> Seq<S> {
    Seq::new(n, |i: int| v)
}

/// Component-wise sums.
pub open spec fn plus_seq<S: ScalarArith>(s: Seq<S>, t: Seq<S>) -> Seq<S> {
    Seq::new(s.len(), |i: int| s[i].plus_value(t[i]))
}

/// Every component-wise sum succeeds.
pub open spec fn plus_seq_ok<S: ScalarArith>(s: Seq<S>, t: Seq<S>) -> bool {
    forall|i: int| 0 <= i < s.len() ==> #[trigger] s[i].plus_ok(t[i])
}

/// Component-wise differences.
pub open spec fn minus_seq<S: ScalarArith>(s: Seq<S>, t: Seq<S>) -> Seq<S> {
    Seq::new(s.len(), |i: int| s[i].minus_value(t[i]))
}

/// Every component-wise difference succeeds.
pub open spec fn minus_seq_ok<S: ScalarArith>(s: Seq<S>, t: Seq<S>) -> bool {
    forall|i: int| 0 <= i < s.len() ==> #[trigger] s[i].minus_ok(t[i])
}

/// Component-wise products.
pub open spec fn times_seq<S: ScalarArith>(s: Seq<S>, t: Seq<S>) -> Seq<S> {
    Seq::new(s.len(), |i: int| s[i].times_value(t[i]))
}

/// Every component-wise product succeeds.
pub open spec fn times_seq_ok<S: ScalarArith>(s: Seq<S>, t: Seq<S>) -> bool {
    forall|i: int| 0 <= i < s.len() ==> #[trigger] s[i].times_ok(t[i])
}

/// Every component multiplied by `k`.
pub open spec fn scale_seq<S: ScalarArith>(s: Seq<S>, k: S) -> Seq<S> {
    Seq::new(s.len(), |i: int| s[i].times_value(k))
}

/// Every multiplication by `k` succeeds.
pub open spec fn scale_seq_ok<S: ScalarArith>(s: Seq<S>, k: S) -> bool {
    forall|i: int| 0 <= i < s.len() ==> #[trigger] s[i].times_ok(k)
}

/// Component-wise minima.
pub open spec fn min_seq<S: RTreeNum>(s: Seq<S>, t: Seq<S>) -> Seq<S> {
    Seq::new(s.len(), |i: int| min_of(s[i], t[i]))
}

/// Component-wise maxima.
pub open spec fn max_seq<S: RTreeNum>(s: Seq<S>, t: Seq<S>) -> Seq<S> {
    Seq::new(s.len(), |i: int| max_of(s[i], t[i]))
}

/// The accumulator after folding `step` over the first `n` items of `s`, from `start`.
pub open spec fn fold_value<T, S>(step: spec_fn(T, S) -> T, s: Seq<S>, start: T, n: nat) -> T
    decreases n,
{
    if n == 0 {
        start
    } else {
        step(fold_value(step, s, start, (n - 1) as nat), s[n - 1])
    }
}

/// Every step of that fold over the first `n` items meets `pre`.
pub open spec fn fold_ok<T, S>(
    pre: spec_fn(T, S) -> bool,
    step: spec_fn(T, S) -> T,
    s: Seq<S>,
    start: T,
    n: nat,
) -> bool {
    forall|k: nat| k < n ==> pre(#[trigger] fold_value(step, s, start, k), s[k as int])
}

/// `accs` records a run of the closure `f` folded over the first `n` items
/// of `s` from `start`: `accs[0]` is `start`, and each `accs[k + 1]` is a value
/// that `f(accs[k], s[k])` may return.
pub open spec fn fold_trace<T, S, F: Fn(T, S) -> T>(f: F, s: Seq<S>, start: T, n: nat, accs: Seq<T>) -> bool {
    &&& accs.len() == n + 1
    &&& accs[0] == start
    &&& forall|k: int| 0 <= k < n ==> call_ensures(f, (#[trigger] accs[k], s[k]), accs[k + 1])
}

/// `acc` is a value that folding the closure `f` over the first `n` items of
/// `s`, from `start`, may produce.
pub open spec fn fold_reaches<T, S, F: Fn(T, S) -> T>(
    f: F,
    s: Seq<S>,
    start: T,
    n: nat,
    acc: T,
) -> bool {
    exists|accs: Seq<T>| #[trigger] fold_trace(f, s, start, n, accs) && accs[n as int] == acc
}

/// The step `acc + v`.
pub open spec fn plus_step<S: ScalarArith>() -> spec_fn(S, S) -> S {
    |acc: S, v: S| acc.plus_value(v)
}

/// Whether `acc + v` succeeds.
pub open spec fn plus_step_ok<S: ScalarArith>() -> spec_fn(S, S) -> bool {
    |acc: S, v: S| acc.plus_ok(v)
}

/// The step `c * c + acc`.
pub open spec fn square_plus_step<S: ScalarArith>() -> spec_fn(S, S) -> S {
    |acc: S, c: S| c.times_value(c).plus_value(acc)
}

/// Whether `c * c + acc` succeeds.
pub open spec fn square_plus_step_ok<S: ScalarArith>() -> spec_fn(S, S) -> bool {
    |acc: S, c: S| c.times_ok(c) && c.times_value(c).plus_ok(acc)
}

/// The dot product: the products of the components, summed from zero in order.
pub open spec fn dot_value<S: ScalarArith>(s: Seq<S>, t: Seq<S>) -> S {
    fold_value(plus_step(), times_seq(s, t), S::zero_value(), s.len())
}

/// Every multiplication and addition of the dot product succeeds.
pub open spec fn dot_ok<S: ScalarArith>(s: Seq<S>, t: Seq<S>) -> bool {
    &&& times_seq_ok(s, t)
    &&& fold_ok(plus_step_ok(), plus_step(), times_seq(s, t), S::zero_value(), s.len())
}

/// The squared length: each component squared and added to the running sum, from zero.
pub open spec fn length_2_value<S: ScalarArith>(s: Seq<S>) -> S {
    fold_value(square_plus_step(), s, S::zero_value(), s.len())
}

/// Every multiplication and addition of the squared length succeeds.
pub open spec fn length_2_ok<S: ScalarArith>(s: Seq<S>) -> bool {
    fold_ok(square_plus_step_ok(), square_plus_step(), s, S::zero_value(), s.len())
}

/// Every accumulator of a run of a closure that computes `step` is the
/// value of the fold of `step`.
pub proof fn lemma_fold_trace_values<T, S, F: Fn(T, S) -> T>(
    f: F,
    step: spec_fn(T, S) -> T,
    s: Seq<S>,
    start: T,
    n: nat,
    accs: Seq<T>,
    k: nat,
)
    requires
        forall|a: T, v: S, o: T| call_ensures(f, (a, v), o) ==> o == step(a, v),
        fold_trace(f, s, start, n, accs),
        k <= n,
    ensures
        accs[k as int] == fold_value(step, s, start, k),
    decreases k,
{
    if k > 0 {
        lemma_fold_trace_values(f, step, s, start, n, accs, (k - 1) as nat);
        assert(call_ensures(f, (accs[k - 1], s[k - 1]), accs[k as int]));
    }
}

/// A fold of a closure that computes `step` reaches only the value of the fold of `step`.
pub proof fn lemma_fold_reaches_value<T, S, F: Fn(T, S) -> T>(
    f: F,
    step: spec_fn(T, S) -> T,
    s: Seq<S>,
    start: T,
    n: nat,
    acc: T,
)
    requires
        forall|a: T, v: S, o: T| call_ensures(f, (a, v), o) ==> o == step(a, v),
        fold_reaches(f, s, start, n, acc),
    ensures
        acc == fold_value(step, s, start, n),
{
    let accs = choose|accs: Seq<T>| #[trigger] fold_trace(f, s, start, n, accs) && accs[n as int] == acc;
    lemma_fold_trace_values(f, step, s, start, n, accs, n);
}

/// Each prefix of the squared-length fold equals the same prefix of the fold
/// of the dot product of `s` with itself.
proof fn lemma_length_2_prefix_is_dot<S: ScalarArith>(s: Seq<S>, n: nat)
    requires
        n <= s.len(),
    ensures
        fold_value(square_plus_step(), s, S::zero_value(), n) == fold_value(
            plus_step(),
            times_seq(s, s),
            S::zero_value(),
            n,
        ),
    decreases n,
{
    if n > 0 {
        lemma_length_2_prefix_is_dot(s, (n - 1) as nat);
        let c = s[n - 1];
        S::lemma_plus_commutative(
            c.times_value(c),
            fold_value(square_plus_step(), s, S::zero_value(), (n - 1) as nat),
        );
    }
}

/// The squared length of a point is its dot product with itself, and one
/// succeeds exactly when the other does.
pub proof fn lemma_length_2_is_self_dot<S: ScalarArith>(s: Seq<S>)
    ensures
        length_2_value(s) == dot_value(s, s),
        length_2_ok(s) == dot_ok(s, s),
{
    let zero = S::zero_value();
    let ts = times_seq(s, s);
    assert forall|k: nat| k <= s.len() implies #[trigger] fold_value(square_plus_step(), s, zero, k)
        == fold_value(plus_step(), ts, zero, k) by {
        lemma_length_2_prefix_is_dot(s, k);
    }
    lemma_length_2_prefix_is_dot(s, s.len());
    if length_2_ok(s) {
        assert forall|i: int| 0 <= i < s.len() implies #[trigger] s[i].times_ok(s[i]) by {
            let k = i as nat;
            assert(square_plus_step_ok()(fold_value(square_plus_step(), s, zero, k), s[k as int]));
        }
        assert forall|k: nat| k < s.len() implies plus_step_ok()(
            #[trigger] fold_value(plus_step(), ts, zero, k),
            ts[k as int],
        ) by {
            assert(square_plus_step_ok()(fold_value(square_plus_step(), s, zero, k), s[k as int]));
            S::lemma_plus_commutative(
                s[k as int].times_value(s[k as int]),
                fold_value(square_plus_step(), s, zero, k),
            );
        }
    }
    if dot_ok(s, s) {
        assert forall|k: nat| k < s.len() implies square_plus_step_ok()(
            #[trigger] fold_value(square_plus_step(), s, zero, k),
            s[k as int],
        ) by {
            assert(plus_step_ok()(fold_value(plus_step(), ts, zero, k), ts[k as int]));
            assert(s[k as int].times_ok(s[k as int]));
            S::lemma_plus_commutative(
                s[k as int].times_value(s[k as int]),
                fold_value(square_plus_step(), s, zero, k),
            );
        }
    }
}

/// The dot product does not depend on the order of its arguments.
pub proof fn lemma_dot_commutative<S: ScalarArith>(s: Seq<S>, t: Seq<S>)
    requires
        s.len() == t.len(),
    ensures
        dot_value(s, t) == dot_value(t, s),
        dot_ok(s, t) == dot_ok(t, s),
{
    assert forall|i: int| #![trigger s[i]] 0 <= i < s.len() implies s[i].times_value(t[i]) == t[i].times_value(s[i])
        && s[i].times_ok(t[i]) == t[i].times_ok(s[i]) by {
        S::lemma_times_commutative(s[i], t[i]);
    }
    assert(times_seq(s, t) =~= times_seq(t, s));
}

/// Component-wise addition does not depend on the order of its arguments.
pub proof fn lemma_add_commutative<S: ScalarArith>(s: Seq<S>, t: Seq<S>)
    requires
        s.len() == t.len(),
    ensures
        plus_seq(s, t) == plus_seq(t, s),
        plus_seq_ok(s, t) == plus_seq_ok(t, s),
{
    assert forall|i: int| #![trigger s[i]] 0 <= i < s.len() implies s[i].plus_value(t[i]) == t[i].plus_value(s[i])
        && s[i].plus_ok(t[i]) == t[i].plus_ok(s[i]) by {
        S::lemma_plus_commutative(s[i], t[i]);
    }
    assert(plus_seq(s, t) =~= plus_seq(t, s));
}

/// Adding the zero point succeeds and changes nothing.
pub proof fn lemma_add_zero<S: ScalarArith>(s: Seq<S>)
    ensures
        plus_seq_ok(s, constant_seq(s.len(), S::zero_value())),
        plus_seq(s, constant_seq(s.len(), S::zero_value())) == s,
{
    assert forall|i: int| #![trigger s[i]] 0 <= i < s.len() implies s[i].plus_ok(S::zero_value())
        && s[i].plus_value(S::zero_value()) == s[i] by {
        S::lemma_plus_zero(s[i]);
    }
    assert(plus_seq(s, constant_seq(s.len(), S::zero_value())) =~= s);
}

/// Subtracting a point that was added gives back the original point.
pub proof fn lemma_add_then_sub<S: ScalarArith>(s: Seq<S>, t: Seq<S>)
    requires
        s.len() == t.len(),
        plus_seq_ok(s, t),
    ensures
        minus_seq_ok(plus_seq(s, t), t),
        minus_seq(plus_seq(s, t), t) == s,
{
    assert forall|i: int| #![trigger s[i]] 0 <= i < s.len() implies s[i].plus_value(t[i]).minus_ok(t[i])
        && s[i].plus_value(t[i]).minus_value(t[i]) == s[i] by {
        S::lemma_plus_then_minus(s[i], t[i]);
    }
    assert(minus_seq(plus_seq(s, t), t) =~= s);
}

/// The component-wise minimum and maximum do not depend on the order of
/// their arguments, bound both arguments from below and above, and leave a
/// point unchanged when taken with itself.
pub proof fn lemma_min_max_point<S: RTreeNum>(s: Seq<S>, t: Seq<S>)
    requires
        s.len() == t.len(),
    ensures
        min_seq(s, t) == min_seq(t, s),
        max_seq(s, t) == max_seq(t, s),
        min_seq(s, s) == s,
        max_seq(s, s) == s,
        forall|i: int|
            0 <= i < s.len() ==> {
                &&& order_le(#[trigger] min_seq(s, t)[i], s[i])
                &&& order_le(min_seq(s, t)[i], t[i])
                &&& order_le(s[i], max_seq(s, t)[i])
                &&& order_le(t[i], max_seq(s, t)[i])
            },
{
    assert forall|i: int| 0 <= i < s.len() implies min_of(s[i], t[i]) == min_of(t[i], s[i]) && max_of(
        s[i],
        t[i],
    ) == max_of(t[i], s[i]) && order_le(min_of(s[i], t[i]), s[i]) && order_le(
        min_of(s[i], t[i]),
        t[i],
    ) && order_le(s[i], max_of(s[i], t[i])) && order_le(t[i], max_of(s[i], t[i])) by {
        lemma_min_max(s[i], t[i]);
    }
    assert(min_seq(s, t) =~= min_seq(t, s));
    assert(max_seq(s, t) =~= max_seq(t, s));
    assert(min_seq(s, s) =~= s);
    assert(max_seq(s, s) =~= s);
}

/// Two sequences whose items have the same squares, with the same success,
/// have equal squared-length folds, prefix by prefix.
proof fn lemma_length_2_prefix_same_squares<S: ScalarArith>(s: Seq<S>, t: Seq<S>, n: nat)
    requires
        s.len() == t.len(),
        n <= s.len(),
        forall|i: int|
            #![trigger s[i]]
            0 <= i < s.len() ==> s[i].times_value(s[i]) == t[i].times_value(t[i]) && s[i].times_ok(
                s[i],
            ) == t[i].times_ok(t[i]),
    ensures
        fold_value(square_plus_step(), s, S::zero_value(), n) == fold_value(
            square_plus_step(),
            t,
            S::zero_value(),
            n,
        ),
    decreases n,
{
    if n > 0 {
        lemma_length_2_prefix_same_squares(s, t, (n - 1) as nat);
        assert(s[n - 1].times_value(s[n - 1]) == t[n - 1].times_value(t[n - 1]));
    }
}

/// The squared distance does not depend on the order of the two points,
/// wherever both differences succeed.
pub proof fn lemma_distance_2_symmetric<S: ScalarArith>(s: Seq<S>, t: Seq<S>)
    requires
        s.len() == t.len(),
        minus_seq_ok(s, t),
        minus_seq_ok(t, s),
    ensures
        length_2_value(minus_seq(s, t)) == length_2_value(minus_seq(t, s)),
        length_2_ok(minus_seq(s, t)) == length_2_ok(minus_seq(t, s)),
{
    let d = minus_seq(s, t);
    let e = minus_seq(t, s);
    let zero = S::zero_value();
    assert forall|i: int|
        #![trigger d[i]]
        0 <= i < d.len() implies d[i].times_value(d[i]) == e[i].times_value(e[i]) && d[i].times_ok(
            d[i],
        ) == e[i].times_ok(e[i]) by {
        S::lemma_square_of_difference_flip(s[i], t[i]);
    }
    assert forall|k: nat| k <= d.len() implies #[trigger] fold_value(square_plus_step(), d, zero, k)
        == fold_value(square_plus_step(), e, zero, k) by {
        lemma_length_2_prefix_same_squares(d, e, k);
    }
    if length_2_ok(d) {
        assert forall|k: nat| k < e.len() implies square_plus_step_ok()(
            #[trigger] fold_value(square_plus_step(), e, zero, k),
            e[k as int],
        ) by {
            assert(square_plus_step_ok()(fold_value(square_plus_step(), d, zero, k), d[k as int]));
            assert(d[k as int].times_value(d[k as int]) == e[k as int].times_value(e[k as int]));
        }
    }
    if length_2_ok(e) {
        assert forall|k: nat| k < d.len() implies square_plus_step_ok()(
            #[trigger] fold_value(square_plus_step(), d, zero, k),
            d[k as int],
        ) by {
            assert(square_plus_step_ok()(fold_value(square_plus_step(), e, zero, k), e[k as int]));
            assert(d[k as int].times_value(d[k as int]) == e[k as int].times_value(e[k as int]));
        }
    }
}

/// A point minus itself: every difference succeeds and gives zero.
pub proof fn lemma_sub_self<S: ScalarArith>(s: Seq<S>)
    ensures
        minus_seq_ok(s, s),
        minus_seq(s, s) == constant_seq(s.len(), S::zero_value()),
{
    assert forall|i: int| #![trigger s[i]] 0 <= i < s.len() implies s[i].minus_ok(s[i]) && s[i].minus_value(s[i])
        == S::zero_value() by {
        S::lemma_minus_self(s[i]);
    }
    assert(minus_seq(s, s) =~= constant_seq(s.len(), S::zero_value()));
}

/// Multiplication by a scalar distributes over point addition, wherever every
/// sum and product involved succeeds.
pub proof fn lemma_mul_distributes_over_add<S: IntegerScalar>(s: Seq<S>, t: Seq<S>, k: S)
    requires
        s.len() == t.len(),
        plus_seq_ok(s, t),
        scale_seq_ok(s, k),
        scale_seq_ok(t, k),
        scale_seq_ok(plus_seq(s, t), k),
    ensures
        plus_seq_ok(scale_seq(s, k), scale_seq(t, k)),
        scale_seq(plus_seq(s, t), k) == plus_seq(scale_seq(s, k), scale_seq(t, k)),
{
    assert forall|i: int| #![trigger s[i]] 0 <= i < s.len() implies s[i].times_value(k).plus_ok(
        t[i].times_value(k),
    ) && s[i].plus_value(t[i]).times_value(k) == s[i].times_value(k).plus_value(t[i].times_value(k)) by {
        let a = s[i];
        let b = t[i];
        assert(a.times_ok(k) && b.times_ok(k) && a.plus_ok(b));
        assert(plus_seq(s, t)[i] == a.plus_value(b));
        assert(a.plus_value(b).times_ok(k));
        S::lemma_int_model(a, b);
        S::lemma_int_model(a, k);
        S::lemma_int_model(b, k);
        S::lemma_int_model(a.plus_value(b), k);
        S::lemma_int_model(a.times_value(k), b.times_value(k));
        S::lemma_int_model(
            a.plus_value(b).times_value(k),
            a.times_value(k).plus_value(b.times_value(k)),
        );
        let (x, y, z) = (a.int_value(), b.int_value(), k.int_value());
        assert((x + y) * z == x * z + y * z) by (nonlinear_arith);
    }
    assert(scale_seq(plus_seq(s, t), k) =~= plus_seq(scale_seq(s, k), scale_seq(t, k)));
}

/// The sum of the squares of the integers of the first `n` items of `s`.
pub open spec fn int_sum_squares<S: IntegerScalar>(s: Seq<S>, n: nat) -> int
    decreases n,
{
    if n == 0 {
        0
    } else {
        int_sum_squares(s, (n - 1) as nat) + s[n - 1].int_value() * s[n - 1].int_value()
    }
}

/// Where the squared length succeeds, each prefix of its fold stands for the
/// integer sum of squares of that prefix.
proof fn lemma_length_2_prefix_int<S: IntegerScalar>(s: Seq<S>, n: nat)
    requires
        n <= s.len(),
        length_2_ok(s),
    ensures
        fold_value(square_plus_step(), s, S::zero_value(), n).int_value() == int_sum_squares(s, n),
    decreases n,
{
    let zero = S::zero_value();
    if n == 0 {
        S::lemma_int_model(zero, zero);
    } else {
        let m = (n - 1) as nat;
        lemma_length_2_prefix_int(s, m);
        let c = s[m as int];
        let acc = fold_value(square_plus_step(), s, zero, m);
        assert(square_plus_step_ok()(acc, c));
        S::lemma_int_model(c, c);
        S::lemma_int_model(c.times_value(c), acc);
    }
}

/// A sum of squares of integers is never negative, and it is zero exactly
/// when every squared integer is zero.
proof fn lemma_int_sum_squares_sign<S: IntegerScalar>(s: Seq<S>, n: nat)
    requires
        n <= s.len(),
    ensures
        int_sum_squares(s, n) >= 0,
        int_sum_squares(s, n) == 0 <==> forall|i: int| 0 <= i < n ==> #[trigger] s[i].int_value() == 0,
    decreases n,
{
    if n > 0 {
        let m = (n - 1) as nat;
        lemma_int_sum_squares_sign(s, m);
        let x = s[m as int].int_value();
        assert(x * x >= 0) by (nonlinear_arith);
        assert(x * x == 0 ==> x == 0) by (nonlinear_arith);
        if int_sum_squares(s, n) == 0 {
            assert forall|i: int| 0 <= i < n implies #[trigger] s[i].int_value() == 0 by {
                if i < m {
                } else {
                    assert(i == m);
                }
            }
        }
    }
}

/// The squared length of a point of integers is never negative.
pub proof fn lemma_length_2_nonnegative<S: IntegerScalar>(s: Seq<S>)
    requires
        length_2_ok(s),
    ensures
        length_2_value(s).int_value() >= 0,
{
    lemma_length_2_prefix_int(s, s.len());
    lemma_int_sum_squares_sign(s, s.len());
}

/// A point of integers is at squared distance zero from another exactly when
/// they have the same coordinates; in particular its distance to itself is zero.
pub proof fn lemma_distance_2_zero<S: IntegerScalar>(s: Seq<S>, t: Seq<S>)
    requires
        s.len() == t.len(),
        minus_seq_ok(s, t),
        length_2_ok(minus_seq(s, t)),
    ensures
        (length_2_value(minus_seq(s, t)) == S::zero_value()) == (s == t),
{
    let d = minus_seq(s, t);
    let zero = S::zero_value();
    lemma_length_2_prefix_int(d, d.len());
    lemma_int_sum_squares_sign(d, d.len());
    S::lemma_int_model(length_2_value(d), zero);
    assert forall|i: int| #![trigger s[i]] 0 <= i < s.len() implies (d[i].int_value() == 0) == (s[i] == t[i]) by {
        S::lemma_int_model(s[i], t[i]);
    }
    if s == t {
        assert forall|i: int| 0 <= i < d.len() implies #[trigger] d[i].int_value() == 0 by {
            assert(s[i] == t[i]);
        }
    }
    if length_2_value(d) == zero {
        assert forall|i: int| 0 <= i < s.len() implies s[i] == t[i] by {
            assert(d[i].int_value() == 0);
        }
        assert(s =~= t);
    }
}

/// A point of integers is at squared distance zero from itself.
pub proof fn lemma_distance_2_self<S: IntegerScalar>(s: Seq<S>)
    ensures
        minus_seq_ok(s, s),
        length_2_ok(minus_seq(s, s)),
        length_2_value(minus_seq(s, s)) == S::zero_value(),
{
    let d = minus_seq(s, s);
    let zero = S::zero_value();
    lemma_sub_self(s);
    assert forall|k: nat| k <= d.len() implies #[trigger] fold_value(square_plus_step(), d, zero, k) == zero by {
        lemma_zero_fold(d, k);
    }
    assert forall|k: nat| k < d.len() implies square_plus_step_ok()(
        #[trigger] fold_value(square_plus_step(), d, zero, k),
        d[k as int],
    ) by {
        S::lemma_int_model(zero, zero);
        S::lemma_int_model(zero.times_value(zero), zero);
        S::lemma_plus_zero(zero);
        assert(d[k as int] == zero);
    }
    lemma_distance_2_zero(s, s);
}

/// Folding squares over a sequence of zeros stays at zero.
proof fn lemma_zero_fold<S: IntegerScalar>(d: Seq<S>, k: nat)
    requires
        k <= d.len(),
        forall|i: int| 0 <= i < d.len() ==> d[i] == S::zero_value(),
    ensures
        fold_value(square_plus_step(), d, S::zero_value(), k) == S::zero_value(),
    decreases k,
{
    let zero = S::zero_value();
    if k > 0 {
        lemma_zero_fold(d, (k - 1) as nat);
        S::lemma_int_model(zero, zero);
        assert(zero.times_ok(zero));
        S::lemma_int_model(zero.times_value(zero), zero);
        assert(zero.times_value(zero) == zero);
        S::lemma_plus_zero(zero);
    }
}

/// The sum of the products of the integers of the first `n` pairs of items.
pub open spec fn int_dot<S: IntegerScalar>(s: Seq<S>, t: Seq<S>, n: nat) -> int
    decreases n,
{
    if n == 0 {
        0
    } else {
        int_dot(s, t, (n - 1) as nat) + s[n - 1].int_value() * t[n - 1].int_value()
    }
}

/// Where the dot product succeeds, each prefix of its fold stands for the
/// integer sum of the products of that prefix.
proof fn lemma_dot_prefix_int<S: IntegerScalar>(s: Seq<S>, t: Seq<S>, n: nat)
    requires
        s.len() == t.len(),
        n <= s.len(),
        dot_ok(s, t),
    ensures
        fold_value(plus_step(), times_seq(s, t), S::zero_value(), n).int_value() == int_dot(s, t, n),
    decreases n,
{
    let zero = S::zero_value();
    let ps = times_seq(s, t);
    if n == 0 {
        S::lemma_int_model(zero, zero);
    } else {
        let m = (n - 1) as nat;
        lemma_dot_prefix_int(s, t, m);
        let acc = fold_value(plus_step(), ps, zero, m);
        assert(plus_step_ok()(acc, ps[m as int]));
        assert(s[m as int].times_ok(t[m as int]));
        S::lemma_int_model(s[m as int], t[m as int]);
        S::lemma_int_model(acc, ps[m as int]);
    }
}

/// On integer coordinates, where they succeed, the dot product is the sum of
/// the products of the coordinates and the squared length is the sum of
/// their squares.
pub proof fn lemma_dot_and_length_2_on_integers<S: IntegerScalar>(s: Seq<S>, t: Seq<S>)
    requires
        s.len() == t.len(),
    ensures
        dot_ok(s, t) ==> dot_value(s, t).int_value() == int_dot(s, t, s.len()),
        length_2_ok(s) ==> length_2_value(s).int_value() == int_sum_squares(s, s.len()),
{
    if dot_ok(s, t) {
        lemma_dot_prefix_int(s, t, s.len());
    }
    if length_2_ok(s) {
        lemma_length_2_prefix_int(s, s.len());
    }
}

/// On integer coordinates, component-wise addition, subtraction and scaling
/// act on the integers of the coordinates, and the component-wise minimum and
/// maximum pick the smaller and the bigger integer.
pub proof fn lemma_component_ops_on_integers<S: IntegerScalar>(s: Seq<S>, t: Seq<S>, k: S)
    requires
        s.len() == t.len(),
    ensures
        plus_seq(s, t).len() == s.len(),
        minus_seq(s, t).len() == s.len(),
        scale_seq(s, k).len() == s.len(),
        min_seq(s, t).len() == s.len(),
        max_seq(s, t).len() == s.len(),
        forall|i: int|
            #![trigger s[i]]
            0 <= i < s.len() ==> {
                &&& plus_seq_ok(s, t) ==> plus_seq(s, t)[i].int_value() == s[i].int_value()
                    + t[i].int_value()
                &&& minus_seq_ok(s, t) ==> minus_seq(s, t)[i].int_value() == s[i].int_value()
                    - t[i].int_value()
                &&& scale_seq_ok(s, k) ==> scale_seq(s, k)[i].int_value() == s[i].int_value()
                    * k.int_value()
                &&& min_seq(s, t)[i].int_value() == (if s[i].int_value() <= t[i].int_value() {
                    s[i].int_value()
                } else {
                    t[i].int_value()
                })
                &&& max_seq(s, t)[i].int_value() == (if s[i].int_value() >= t[i].int_value() {
                    s[i].int_value()
                } else {
                    t[i].int_value()
                })
            },
{
    assert forall|i: int| #![trigger s[i]] 0 <= i < s.len() implies {
        &&& plus_seq_ok(s, t) ==> plus_seq(s, t)[i].int_value() == s[i].int_value()
            + t[i].int_value()
        &&& minus_seq_ok(s, t) ==> minus_seq(s, t)[i].int_value() == s[i].int_value()
            - t[i].int_value()
        &&& scale_seq_ok(s, k) ==> scale_seq(s, k)[i].int_value() == s[i].int_value()
            * k.int_value()
        &&& min_seq(s, t)[i].int_value() == (if s[i].int_value() <= t[i].int_value() {
            s[i].int_value()
        } else {
            t[i].int_value()
        })
        &&& max_seq(s, t)[i].int_value() == (if s[i].int_value() >= t[i].int_value() {
            s[i].int_value()
        } else {
            t[i].int_value()
        })
    } by {
        let (a, b) = (s[i], t[i]);
        S::lemma_int_model(a, b);
        S::lemma_int_model(b, a);
        S::lemma_int_model(a, k);
        lemma_min_max(a, b);
        if plus_seq_ok(s, t) {
            assert(a.plus_ok(b));
        }
        if minus_seq_ok(s, t) {
            assert(a.minus_ok(b));
        }
        if scale_seq_ok(s, k) {
            assert(a.times_ok(k));
        }
    }
}

/// The points that `new` and `from_value` make have `n` coordinates, each
/// equal to the given value.
pub proof fn lemma_constant_seq<S>(n: nat, v: S)
    ensures
        constant_seq(n, v).len() == n,
        forall|i: int| 0 <= i < n ==> #[trigger] constant_seq(n, v)[i] == v,
{
}

/// Utility functions for points.
pub trait PointExt: Point {
    /// Returns a new point with all components set to zero.
    fn new() -> (r: Self)
        where
            Self::Scalar: ScalarArith,
        ensures
            r.coords() == constant_seq(Self::DIMENSIONS as nat, <Self::Scalar as ScalarArith>::zero_value()),
    {
        Self::from_value(<Self::Scalar as ScalarArith>::scalar_zero())
    }

    /// Applies `f` to each pair of components of `self` and `other`.
    fn component_wise<F: Fn(Self::Scalar, Self::Scalar) -> Self::Scalar>(&self, other: &Self, f: F) -> (r: Self)
        requires
            forall|i: int|
                0 <= i < Self::DIMENSIONS ==> call_requires(f, (self.coords()[i], other.coords()[i])),
        ensures
            r.coords().len() == Self::DIMENSIONS,
            forall|i: int|
                0 <= i < Self::DIMENSIONS ==> call_ensures(
                    f,
                    (self.coords()[i], other.coords()[i]),
                    #[trigger] r.coords()[i],
                ),
    {
        proof {
            self.lemma_coords_len();
            other.lemma_coords_len();
        }
        let g = &f;
        let component = |i: usize| -> (o: Self::Scalar)
            requires
                i < Self::DIMENSIONS,
                call_requires(g, (self.coords()[i as int], other.coords()[i as int])),
            ensures
                call_ensures(g, (self.coords()[i as int], other.coords()[i as int]), o),
            { g(self.nth(i), other.nth(i)) };
        let r = Self::generate(component);
        assert forall|i: int| 0 <= i < Self::DIMENSIONS implies call_ensures(
            f,
            (self.coords()[i], other.coords()[i]),
            #[trigger] r.coords()[i],
        ) by {
            let j = i as usize;
            assert(r.coords()[j as int] == r.coords()[i]);
        }
        r
    }

    /// Returns whether all pairs of components of `self` and `other` pass the test `f`,
    /// asking `f` in dimension order and stopping at the first pair that fails.
    fn all_component_wise<F: Fn(Self::Scalar, Self::Scalar) -> bool>(&self, other: &Self, f: F) -> (r: bool)
        requires
            forall|i: int|
                0 <= i < Self::DIMENSIONS && (forall|j: int|
                    0 <= j < i ==> call_ensures(f, (self.coords()[j], other.coords()[j]), true))
                    ==> call_requires(f, (self.coords()[i], other.coords()[i])),
        ensures
            r ==> forall|i: int|
                0 <= i < Self::DIMENSIONS ==> call_ensures(f, (self.coords()[i], other.coords()[i]), true),
            !r ==> exists|i: int|
                0 <= i < Self::DIMENSIONS && call_ensures(f, (self.coords()[i], other.coords()[i]), false)
                    && forall|j: int|
                    0 <= j < i ==> call_ensures(f, (self.coords()[j], other.coords()[j]), true),
    {
        let mut i: usize = 0;
        while i < Self::DIMENSIONS
            invariant
                i <= Self::DIMENSIONS,
                forall|j: int|
                    0 <= j < i ==> call_ensures(f, (self.coords()[j], other.coords()[j]), true),
                forall|i: int|
                    0 <= i < Self::DIMENSIONS && (forall|j: int|
                        0 <= j < i ==> call_ensures(f, (self.coords()[j], other.coords()[j]), true))
                        ==> call_requires(f, (self.coords()[i], other.coords()[i])),
            decreases Self::DIMENSIONS - i,
        {
            let passed = f(self.nth(i), other.nth(i));
            if !passed {
                return false;
            }
            i = i + 1;
        }
        true
    }

    /// Returns the dot product of `self` and `rhs`.
    fn dot(&self, rhs: &Self) -> (r: Self::Scalar)
        where
            Self::Scalar: ScalarArith,
        requires
            dot_ok(self.coords(), rhs.coords()),
        ensures
            r == dot_value(self.coords(), rhs.coords()),
    {
        proof {
            self.lemma_coords_len();
            rhs.lemma_coords_len();
        }
        let product = |l: Self::Scalar, r: Self::Scalar| -> (o: Self::Scalar)
            requires
                l.times_ok(r),
            ensures
                o == l.times_value(r),
            { l.times(r) };
        let products = self.component_wise(rhs, product);
        let ghost ps = times_seq(self.coords(), rhs.coords());
        assert(products.coords() =~= ps);
        let sum = |acc: Self::Scalar, val: Self::Scalar| -> (o: Self::Scalar)
            requires
                acc.plus_ok(val),
            ensures
                o == acc.plus_value(val),
            { acc.plus(val) };
        let ghost zero = <Self::Scalar as ScalarArith>::zero_value();
        assert forall|n: nat, acc: Self::Scalar|
            n < Self::DIMENSIONS && #[trigger] fold_reaches(sum, products.coords(), zero, n, acc)
            implies call_requires(sum, (acc, products.coords()[n as int])) by {
            lemma_fold_reaches_value(sum, plus_step(), ps, zero, n, acc);
            assert(fold_value(plus_step(), ps, zero, n) == acc);
        }
        let r = products.fold(<Self::Scalar as ScalarArith>::scalar_zero(), sum);
        proof {
            lemma_fold_reaches_value(sum, plus_step(), ps, zero, Self::DIMENSIONS as nat, r);
        }
        r
    }

    /// Folds the point component-wise with `f`, starting from `start_value`,
    /// and returns the final accumulator.
    fn fold<T, F: Fn(T, Self::Scalar) -> T>(&self, start_value: T, f: F) -> (r: T)
        requires
            forall|n: nat, acc: T|
                n < Self::DIMENSIONS && #[trigger] fold_reaches(f, self.coords(), start_value, n, acc)
                    ==> call_requires(f, (acc, self.coords()[n as int])),
        ensures
            fold_reaches(f, self.coords(), start_value, Self::DIMENSIONS as nat, r),
    {
        proof {
            self.lemma_coords_len();
        }
        let ghost s = self.coords();
        let ghost start = start_value;
        let ghost mut accs: Seq<T> = seq![start_value];
        let mut acc = start_value;
        let mut i: usize = 0;
        while i < Self::DIMENSIONS
            invariant
                i <= Self::DIMENSIONS,
                s == self.coords(),
                s.len() == Self::DIMENSIONS,
                fold_trace(f, s, start, i as nat, accs),
                accs[i as int] == acc,
                forall|n: nat, acc: T|
                    n < Self::DIMENSIONS && #[trigger] fold_reaches(f, s, start, n, acc)
                        ==> call_requires(f, (acc, s[n as int])),
            decreases Self::DIMENSIONS - i,
        {
            let x = self.nth(i);
            assert(fold_reaches(f, s, start, i as nat, acc));
            let ghost prev = accs;
            acc = f(acc, x);
            proof {
                accs = accs.push(acc);
                assert forall|k: int| 0 <= k < i + 1 implies call_ensures(
                    f,
                    (#[trigger] accs[k], s[k]),
                    accs[k + 1],
                ) by {
                    if k < i {
                        assert(accs[k] == prev[k] && accs[k + 1] == prev[k + 1]);
                    }
                }
            }
            i = i + 1;
        }
        assert(fold_trace(f, s, start, Self::DIMENSIONS as nat, accs));
        acc
    }

    /// Returns a point with every component set to `value`.
    fn from_value(value: Self::Scalar) -> (r: Self)
        ensures
            r.coords() == constant_seq(Self::DIMENSIONS as nat, value),
    {
        let r = Self::generate(|i: usize| -> (o: Self::Scalar) ensures o == value { value });
        assert(r.coords() =~= constant_seq(Self::DIMENSIONS as nat, value));
        r
    }

    /// Returns a point with each component set to the smallest of each
    /// component pair of `self` and `other`.
    fn min_point(&self, other: &Self) -> (r: Self)
        ensures
            r.coords() == min_seq(self.coords(), other.coords()),
    {
        proof {
            self.lemma_coords_len();
        }
        let r = self.component_wise(other, min_inline);
        assert(r.coords() =~= min_seq(self.coords(), other.coords()));
        r
    }

    /// Returns a point with each component set to the biggest of each
    /// component pair of `self` and `other`.
    fn max_point(&self, other: &Self) -> (r: Self)
        ensures
            r.coords() == max_seq(self.coords(), other.coords()),
    {
        proof {
            self.lemma_coords_len();
        }
        let r = self.component_wise(other, max_inline);
        assert(r.coords() =~= max_seq(self.coords(), other.coords()));
        r
    }

    /// Returns the squared length of this point as if it was a vector.
    fn length_2(&self) -> (r: Self::Scalar)
        where
            Self::Scalar: ScalarArith,
        requires
            length_2_ok(self.coords()),
        ensures
            r == length_2_value(self.coords()),
    {
        proof {
            self.lemma_coords_len();
        }
        let step = |acc: Self::Scalar, cur: Self::Scalar| -> (o: Self::Scalar)
            requires
                cur.times_ok(cur) && cur.times_value(cur).plus_ok(acc),
            ensures
                o == cur.times_value(cur).plus_value(acc),
            { cur.times(cur).plus(acc) };
        let ghost zero = <Self::Scalar as ScalarArith>::zero_value();
        assert forall|n: nat, acc: Self::Scalar|
            n < Self::DIMENSIONS && #[trigger] fold_reaches(step, self.coords(), zero, n, acc)
            implies call_requires(step, (acc, self.coords()[n as int])) by {
            lemma_fold_reaches_value(step, square_plus_step(), self.coords(), zero, n, acc);
            assert(fold_value(square_plus_step(), self.coords(), zero, n) == acc);
        }
        let r = self.fold(<Self::Scalar as ScalarArith>::scalar_zero(), step);
        proof {
            lemma_fold_reaches_value(step, square_plus_step(), self.coords(), zero, Self::DIMENSIONS as nat, r);
        }
        r
    }

    /// Subtracts `other` from `self` component-wise.
    fn sub(&self, other: &Self) -> (r: Self)
        where
            Self::Scalar: ScalarArith,
        requires
            minus_seq_ok(self.coords(), other.coords()),
        ensures
            r.coords() == minus_seq(self.coords(), other.coords()),
    {
        proof {
            self.lemma_coords_len();
        }
        let difference = |l: Self::Scalar, r: Self::Scalar| -> (o: Self::Scalar)
            requires
                l.minus_ok(r),
            ensures
                o == l.minus_value(r),
            { l.minus(r) };
        let r = self.component_wise(other, difference);
        assert(r.coords() =~= minus_seq(self.coords(), other.coords()));
        r
    }

    /// Adds `other` to `self` component-wise.
    fn add(&self, other: &Self) -> (r: Self)
        where
            Self::Scalar: ScalarArith,
        requires
            plus_seq_ok(self.coords(), other.coords()),
        ensures
            r.coords() == plus_seq(self.coords(), other.coords()),
    {
        proof {
            self.lemma_coords_len();
        }
        let total = |l: Self::Scalar, r: Self::Scalar| -> (o: Self::Scalar)
            requires
                l.plus_ok(r),
            ensures
                o == l.plus_value(r),
            { l.plus(r) };
        let r = self.component_wise(other, total);
        assert(r.coords() =~= plus_seq(self.coords(), other.coords()));
        r
    }

    /// Multiplies `self` with `scalar` component-wise.
    fn mul(&self, scalar: Self::Scalar) -> (r: Self)
        where
            Self::Scalar: ScalarArith,
        requires
            scale_seq_ok(self.coords(), scalar),
        ensures
            r.coords() == scale_seq(self.coords(), scalar),
    {
        proof {
            self.lemma_coords_len();
        }
        let scaled = |coordinate: Self::Scalar| -> (o: Self::Scalar)
            requires
                coordinate.times_ok(scalar),
            ensures
                o == coordinate.times_value(scalar),
            { coordinate.times(scalar) };
        let r = self.map(scaled);
        assert(r.coords() =~= scale_seq(self.coords(), scalar));
        r
    }

    /// Applies `f` to `self` component-wise.
    fn map<F: Fn(Self::Scalar) -> Self::Scalar>(&self, f: F) -> (r: Self)
        requires
            forall|i: int| 0 <= i < Self::DIMENSIONS ==> call_requires(f, (self.coords()[i],)),
        ensures
            r.coords().len() == Self::DIMENSIONS,
            forall|i: int|
                0 <= i < Self::DIMENSIONS ==> call_ensures(f, (self.coords()[i],), #[trigger] r.coords()[i]),
    {
        proof {
            self.lemma_coords_len();
        }
        let g = &f;
        let component = |i: usize| -> (o: Self::Scalar)
            requires
                i < Self::DIMENSIONS,
                call_requires(g, (self.coords()[i as int],)),
            ensures
                call_ensures(g, (self.coords()[i as int],), o),
            { g(self.nth(i)) };
        let r = Self::generate(component);
        assert forall|i: int| 0 <= i < Self::DIMENSIONS implies call_ensures(
            f,
            (self.coords()[i],),
            #[trigger] r.coords()[i],
        ) by {
            let j = i as usize;
            assert(r.coords()[j as int] == r.coords()[i]);
        }
        r
    }

    /// Returns the squared distance between `self` and `other`.
    fn distance_2(&self, other: &Self) -> (r: Self::Scalar)
        where
            Self::Scalar: ScalarArith,
        requires
            minus_seq_ok(self.coords(), other.coords()),
            length_2_ok(minus_seq(self.coords(), other.coords())),
        ensures
            r == length_2_value(minus_seq(self.coords(), other.coords())),
    {
        self.sub(other).length_2()
    }
}

impl<T: Point> PointExt for T {

}

/// A point minus itself is the zero point that `new` makes.
pub proof fn lemma_point_sub_self<P: Point>(a: P, d: P, z: P)
    where
        P::Scalar: ScalarArith,
    requires
        d.coords() == minus_seq(a.coords(), a.coords()),
        z.coords() == constant_seq(P::DIMENSIONS as nat, <P::Scalar as ScalarArith>::zero_value()),
    ensures
        minus_seq_ok(a.coords(), a.coords()),
        d == z,
{
    a.lemma_coords_len();
    lemma_sub_self(a.coords());
    P::lemma_coords_determine(d, z);
}

/// Subtracting a point that was added gives back the original point.
pub proof fn lemma_point_add_then_sub<P: Point>(a: P, b: P, c: P, d: P)
    where
        P::Scalar: ScalarArith,
    requires
        plus_seq_ok(a.coords(), b.coords()),
        c.coords() == plus_seq(a.coords(), b.coords()),
        d.coords() == minus_seq(c.coords(), b.coords()),
    ensures
        minus_seq_ok(c.coords(), b.coords()),
        d == a,
{
    a.lemma_coords_len();
    b.lemma_coords_len();
    lemma_add_then_sub(a.coords(), b.coords());
    P::lemma_coords_determine(d, a);
}

/// `(a + b) * k == a * k + b * k` for points of integers, wherever every sum
/// and product involved succeeds.
pub proof fn lemma_point_mul_distributes_over_add<P: Point>(
    a: P,
    b: P,
    k: P::Scalar,
    lhs: P,
    rhs: P,
)
    where
        P::Scalar: IntegerScalar,
    requires
        plus_seq_ok(a.coords(), b.coords()),
        scale_seq_ok(a.coords(), k),
        scale_seq_ok(b.coords(), k),
        scale_seq_ok(plus_seq(a.coords(), b.coords()), k),
        lhs.coords() == scale_seq(plus_seq(a.coords(), b.coords()), k),
        rhs.coords() == plus_seq(scale_seq(a.coords(), k), scale_seq(b.coords(), k)),
    ensures
        plus_seq_ok(scale_seq(a.coords(), k), scale_seq(b.coords(), k)),
        lhs == rhs,
{
    a.lemma_coords_len();
    b.lemma_coords_len();
    lemma_mul_distributes_over_add(a.coords(), b.coords(), k);
    P::lemma_coords_determine(lhs, rhs);
}

/// Two points of integers are at squared distance zero exactly when they are
/// equal; a point is at squared distance zero from itself.
pub proof fn lemma_point_distance_2_zero<P: Point>(a: P, b: P)
    where
        P::Scalar: IntegerScalar,
    requires
        minus_seq_ok(a.coords(), b.coords()),
        length_2_ok(minus_seq(a.coords(), b.coords())),
    ensures
        (length_2_value(minus_seq(a.coords(), b.coords())) == <P::Scalar as ScalarArith>::zero_value())
            == (a == b),
        minus_seq_ok(a.coords(), a.coords()),
        length_2_ok(minus_seq(a.coords(), a.coords())),
        length_2_value(minus_seq(a.coords(), a.coords())) == <P::Scalar as ScalarArith>::zero_value(),
{
    a.lemma_coords_len();
    b.lemma_coords_len();
    lemma_distance_2_zero(a.coords(), b.coords());
    lemma_distance_2_self(a.coords());
    if a.coords() == b.coords() {
        P::lemma_coords_determine(a, b);
    }
}

} // verus!
