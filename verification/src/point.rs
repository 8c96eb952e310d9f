//! Points: fixed-dimension tuples of scalars.
use crate::num::RTreeNum;
use vstd::prelude::*;

verus! {

/// A point type that is compatible with rstar.
pub trait Point: PartialEq + core::fmt::Debug + Sized {
    /// The number type used by this point type.
    type Scalar: RTreeNum;

    /// The number of dimensions of this point type.
    const DIMENSIONS: usize;

    /// The coordinates of the point, in dimension order.
    spec fn coords(&self) -> Seq<Self::Scalar>;

    /// Every point has exactly `DIMENSIONS` coordinates.
    proof fn lemma_coords_len(&self)
        ensures
            self.coords().len() == Self::DIMENSIONS,
    ;

    /// A point is determined by its coordinates.
    proof fn lemma_coords_determine(a: Self, b: Self)
        requires
            a.coords() == b.coords(),
        ensures
            a == b,
    ;

    /// States the number of dimensions of an implementation: each
    /// implementation ensures the value of its `DIMENSIONS` here, for callers
    /// that know the point type.
    proof fn lemma_dimensions();

    /// Creates a new point whose coordinate `n` is `generator(n)`.
    fn generate<F: Fn(usize) -> Self::Scalar>(generator: F) -> (r: Self)
        requires
            forall|i: usize| i < Self::DIMENSIONS ==> call_requires(generator, (i,)),
        ensures
            r.coords().len() == Self::DIMENSIONS,
            forall|i: usize|
                i < Self::DIMENSIONS ==> call_ensures(generator, (i,), #[trigger] r.coords()[i as int]),
    ;

    /// Returns a single coordinate of this point.
    fn nth(&self, index: usize) -> (r: Self::Scalar)
        requires
            index < Self::DIMENSIONS,
        ensures
            r == self.coords()[index as int],
    ;

    /// Mutable variant of `nth`.
    fn nth_mut(&mut self, index: usize) -> (r: &mut Self::Scalar)
        requires
            index < Self::DIMENSIONS,
        ensures
            *r == old(self).coords()[index as int],
            final(self).coords() == old(self).coords().update(index as int, *final(r)),
    ;
}

/// A point made by `generate` with a generator that computes `g` has the
/// coordinates `g(0), g(1), ...`: `nth(n)` of it reads back `g(n)`.
pub proof fn lemma_generate_then_nth<P: Point, F: Fn(usize) -> P::Scalar>(
    f: F,
    g: spec_fn(usize) -> P::Scalar,
    p: P,
)
    requires
        forall|i: usize, o: P::Scalar| call_ensures(f, (i,), o) ==> o == g(i),
        p.coords().len() == P::DIMENSIONS,
        forall|i: usize|
            i < P::DIMENSIONS ==> call_ensures(f, (i,), #[trigger] p.coords()[i as int]),
    ensures
        p.coords() == Seq::new(P::DIMENSIONS as nat, |i: int| g(i as usize)),
{
    assert forall|i: int| 0 <= i < P::DIMENSIONS implies p.coords()[i] == g(i as usize) by {
        let j = i as usize;
        assert(call_ensures(f, (j,), p.coords()[j as int]));
    }
    assert(p.coords() =~= Seq::new(P::DIMENSIONS as nat, |i: int| g(i as usize)));
}

/// Generating a point from the coordinates of `p` (as `|i| p.nth(i)` does)
/// gives back `p` itself.
pub proof fn lemma_generate_from_nth<P: Point, F: Fn(usize) -> P::Scalar>(f: F, p: P, r: P)
    requires
        forall|i: usize, o: P::Scalar|
            i < P::DIMENSIONS && call_ensures(f, (i,), o) ==> o == p.coords()[i as int],
        r.coords().len() == P::DIMENSIONS,
        forall|i: usize|
            i < P::DIMENSIONS ==> call_ensures(f, (i,), #[trigger] r.coords()[i as int]),
    ensures
        r == p,
{
    p.lemma_coords_len();
    assert forall|i: int| 0 <= i < P::DIMENSIONS implies r.coords()[i] == p.coords()[i] by {
        let j = i as usize;
        assert(call_ensures(f, (j,), r.coords()[j as int]));
    }
    assert(r.coords() =~= p.coords());
    P::lemma_coords_determine(r, p);
}

/// Writing `v` through `nth_mut(index)` and then reading `nth(index)` gives
/// back `v`, and every other coordinate keeps its value.
pub proof fn lemma_write_then_read<P: Point>(before: P, after: P, index: int, v: P::Scalar)
    requires
        0 <= index < P::DIMENSIONS,
        after.coords() == before.coords().update(index, v),
    ensures
        after.coords().len() == P::DIMENSIONS,
        after.coords()[index] == v,
        forall|j: int|
            0 <= j < P::DIMENSIONS && j != index ==> after.coords()[j] == before.coords()[j],
{
    before.lemma_coords_len();
}

/// Moves the items of `v` into an array of the same length.
#[verifier::external_body]
fn vec_into_array<S: core::fmt::Debug, const N: usize>(v: Vec<S>) -> (r: [S; N])
    requires
        v@.len() == N,
    ensures
        r@ == v@,
{
    v.try_into().unwrap()
}

impl<S: RTreeNum, const N: usize> Point for [S; N] {
    type Scalar = S;

    const DIMENSIONS: usize = N;

    open spec fn coords(&self) -> Seq<S> {
        self@
    }

    proof fn lemma_coords_len(&self) {
    }

    proof fn lemma_dimensions()
        ensures
            Self::DIMENSIONS == N,
    {
    }

    proof fn lemma_coords_determine(a: Self, b: Self) {
        assert forall|i: int| 0 <= i < N implies a[i] == b[i] by {
            assert(a@[i] == b@[i]);
        }
        vstd::array::axiom_array_ext_equal(a, b);
    }

    fn generate<F: Fn(usize) -> S>(generator: F) -> (r: Self)
        ensures
            forall|i: usize| i < N ==> call_ensures(generator, (i,), #[trigger] r[i as int]),
    {
        let mut items: Vec<S> = Vec::new();
        let mut idx: usize = 0;
        while idx < N
            invariant
                idx <= N,
                items@.len() == idx,
                forall|i: usize| i < N ==> call_requires(generator, (i,)),
                forall|i: usize| i < idx ==> call_ensures(generator, (i,), #[trigger] items@[i as int]),
            decreases N - idx,
        {
            let res = generator(idx);
            items.push(res);
            idx = idx + 1;
        }
        vec_into_array(items)
    }

    fn nth(&self, index: usize) -> (r: S)
        ensures
            r == self[index as int],
    {
        self[index]
    }

    fn nth_mut(&mut self, index: usize) -> (r: &mut S)
        ensures
            *r == old(self)[index as int],
            final(self)[index as int] == *final(r),
            forall|j: int| 0 <= j < N && j != index ==> final(self)[j] == old(self)[j],
    {
        &mut self[index]
    }
}

impl<S: RTreeNum> Point for (S,) {
    type Scalar = S;

    const DIMENSIONS: usize = 1;

    open spec fn coords(&self) -> Seq<S> {
        seq![self.0]
    }

    proof fn lemma_coords_len(&self) {
    }

    proof fn lemma_dimensions()
        ensures
            Self::DIMENSIONS == 1,
    {
    }

    proof fn lemma_coords_determine(a: Self, b: Self) {
        assert(a.coords() == seq![a.0]);
        assert(seq![a.0][0] == a.0);
        assert(a.coords()[0] == b.coords()[0]);
        assert(a.0 == b.0);
    }

    fn generate<F: Fn(usize) -> S>(generator: F) -> (r: Self)
        ensures
            call_ensures(generator, (0usize,), r.0),
    {
        (generator(0),)
    }

    fn nth(&self, index: usize) -> (r: S)
        ensures
            index == 0 ==> r == self.0,
    {
        match index {
            _ => self.0,
        }
    }

    fn nth_mut(&mut self, index: usize) -> (r: &mut S)
        ensures
            index == 0 ==> *r == old(self).0 && final(self).0 == *final(r),
            index != 0 ==> final(self).0 == old(self).0,
    {
        match index {
            _ => &mut self.0,
        }
    }
}

impl<S: RTreeNum> Point for (S, S) {
    type Scalar = S;

    const DIMENSIONS: usize = 2;

    open spec fn coords(&self) -> Seq<S> {
        seq![self.0, self.1]
    }

    proof fn lemma_coords_len(&self) {
    }

    proof fn lemma_dimensions()
        ensures
            Self::DIMENSIONS == 2,
    {
    }

    proof fn lemma_coords_determine(a: Self, b: Self) {
        assert(a.coords()[0] == b.coords()[0]);
        assert(a.coords()[1] == b.coords()[1]);
    }

    fn generate<F: Fn(usize) -> S>(generator: F) -> (r: Self)
        ensures
            call_ensures(generator, (0usize,), r.0),
            call_ensures(generator, (1usize,), r.1),
    {
        (generator(0), generator(1))
    }

    fn nth(&self, index: usize) -> (r: S)
        ensures
            index == 0 ==> r == self.0,
            index == 1 ==> r == self.1,
    {
        match index {
            0 => self.0,
            _ => self.1,
        }
    }

    fn nth_mut(&mut self, index: usize) -> (r: &mut S)
        ensures
            index == 0 ==> *r == old(self).0 && final(self).0 == *final(r),
            index == 1 ==> *r == old(self).1 && final(self).1 == *final(r),
            index != 0 ==> final(self).0 == old(self).0,
            index != 1 ==> final(self).1 == old(self).1,
    {
        match index {
            0 => &mut self.0,
            _ => &mut self.1,
        }
    }
}

impl<S: RTreeNum> Point for (S, S, S) {
    type Scalar = S;

    const DIMENSIONS: usize = 3;

    open spec fn coords(&self) -> Seq<S> {
        seq![self.0, self.1, self.2]
    }

    proof fn lemma_coords_len(&self) {
    }

    proof fn lemma_dimensions()
        ensures
            Self::DIMENSIONS == 3,
    {
    }

    proof fn lemma_coords_determine(a: Self, b: Self) {
        assert(a.coords()[0] == b.coords()[0]);
        assert(a.coords()[1] == b.coords()[1]);
        assert(a.coords()[2] == b.coords()[2]);
    }

    fn generate<F: Fn(usize) -> S>(generator: F) -> (r: Self)
        ensures
            call_ensures(generator, (0usize,), r.0),
            call_ensures(generator, (1usize,), r.1),
            call_ensures(generator, (2usize,), r.2),
    {
        (generator(0), generator(1), generator(2))
    }

    fn nth(&self, index: usize) -> (r: S)
        ensures
            index == 0 ==> r == self.0,
            index == 1 ==> r == self.1,
            index == 2 ==> r == self.2,
    {
        match index {
            0 => self.0,
            1 => self.1,
            _ => self.2,
        }
    }

    fn nth_mut(&mut self, index: usize) -> (r: &mut S)
        ensures
            index == 0 ==> *r == old(self).0 && final(self).0 == *final(r),
            index == 1 ==> *r == old(self).1 && final(self).1 == *final(r),
            index == 2 ==> *r == old(self).2 && final(self).2 == *final(r),
            index != 0 ==> final(self).0 == old(self).0,
            index != 1 ==> final(self).1 == old(self).1,
            index != 2 ==> final(self).2 == old(self).2,
    {
        match index {
            0 => &mut self.0,
            1 => &mut self.1,
            _ => &mut self.2,
        }
    }
}

impl<S: RTreeNum> Point for (S, S, S, S) {
    type Scalar = S;

    const DIMENSIONS: usize = 4;

    open spec fn coords(&self) -> Seq<S> {
        seq![self.0, self.1, self.2, self.3]
    }

    proof fn lemma_coords_len(&self) {
    }

    proof fn lemma_dimensions()
        ensures
            Self::DIMENSIONS == 4,
    {
    }

    proof fn lemma_coords_determine(a: Self, b: Self) {
        assert(a.coords()[0] == b.coords()[0]);
        assert(a.coords()[1] == b.coords()[1]);
        assert(a.coords()[2] == b.coords()[2]);
        assert(a.coords()[3] == b.coords()[3]);
    }

    fn generate<F: Fn(usize) -> S>(generator: F) -> (r: Self)
        ensures
            call_ensures(generator, (0usize,), r.0),
            call_ensures(generator, (1usize,), r.1),
            call_ensures(generator, (2usize,), r.2),
            call_ensures(generator, (3usize,), r.3),
    {
        (generator(0), generator(1), generator(2), generator(3))
    }

    fn nth(&self, index: usize) -> (r: S)
        ensures
            index == 0 ==> r == self.0,
            index == 1 ==> r == self.1,
            index == 2 ==> r == self.2,
            index == 3 ==> r == self.3,
    {
        match index {
            0 => self.0,
            1 => self.1,
            2 => self.2,
            _ => self.3,
        }
    }

    fn nth_mut(&mut self, index: usize) -> (r: &mut S)
        ensures
            index == 0 ==> *r == old(self).0 && final(self).0 == *final(r),
            index == 1 ==> *r == old(self).1 && final(self).1 == *final(r),
            index == 2 ==> *r == old(self).2 && final(self).2 == *final(r),
            index == 3 ==> *r == old(self).3 && final(self).3 == *final(r),
            index != 0 ==> final(self).0 == old(self).0,
            index != 1 ==> final(self).1 == old(self).1,
            index != 2 ==> final(self).2 == old(self).2,
            index != 3 ==> final(self).3 == old(self).3,
    {
        match index {
            0 => &mut self.0,
            1 => &mut self.1,
            2 => &mut self.2,
            _ => &mut self.3,
        }
    }
}

impl<S: RTreeNum> Point for (S, S, S, S, S) {
    type Scalar = S;

    const DIMENSIONS: usize = 5;

    open spec fn coords(&self) -> Seq<S> {
        seq![self.0, self.1, self.2, self.3, self.4]
    }

    proof fn lemma_coords_len(&self) {
    }

    proof fn lemma_dimensions()
        ensures
            Self::DIMENSIONS == 5,
    {
    }

    proof fn lemma_coords_determine(a: Self, b: Self) {
        assert(a.coords()[0] == b.coords()[0]);
        assert(a.coords()[1] == b.coords()[1]);
        assert(a.coords()[2] == b.coords()[2]);
        assert(a.coords()[3] == b.coords()[3]);
        assert(a.coords()[4] == b.coords()[4]);
    }

    fn generate<F: Fn(usize) -> S>(generator: F) -> (r: Self)
        ensures
            call_ensures(generator, (0usize,), r.0),
            call_ensures(generator, (1usize,), r.1),
            call_ensures(generator, (2usize,), r.2),
            call_ensures(generator, (3usize,), r.3),
            call_ensures(generator, (4usize,), r.4),
    {
        (generator(0), generator(1), generator(2), generator(3), generator(4))
    }

    fn nth(&self, index: usize) -> (r: S)
        ensures
            index == 0 ==> r == self.0,
            index == 1 ==> r == self.1,
            index == 2 ==> r == self.2,
            index == 3 ==> r == self.3,
            index == 4 ==> r == self.4,
    {
        match index {
            0 => self.0,
            1 => self.1,
            2 => self.2,
            3 => self.3,
            _ => self.4,
        }
    }

    fn nth_mut(&mut self, index: usize) -> (r: &mut S)
        ensures
            index == 0 ==> *r == old(self).0 && final(self).0 == *final(r),
            index == 1 ==> *r == old(self).1 && final(self).1 == *final(r),
            index == 2 ==> *r == old(self).2 && final(self).2 == *final(r),
            index == 3 ==> *r == old(self).3 && final(self).3 == *final(r),
            index == 4 ==> *r == old(self).4 && final(self).4 == *final(r),
            index != 0 ==> final(self).0 == old(self).0,
            index != 1 ==> final(self).1 == old(self).1,
            index != 2 ==> final(self).2 == old(self).2,
            index != 3 ==> final(self).3 == old(self).3,
            index != 4 ==> final(self).4 == old(self).4,
    {
        match index {
            0 => &mut self.0,
            1 => &mut self.1,
            2 => &mut self.2,
            3 => &mut self.3,
            _ => &mut self.4,
        }
    }
}

impl<S: RTreeNum> Point for (S, S, S, S, S, S) {
    type Scalar = S;

    const DIMENSIONS: usize = 6;

    open spec fn coords(&self) -> Seq<S> {
        seq![self.0, self.1, self.2, self.3, self.4, self.5]
    }

    proof fn lemma_coords_len(&self) {
    }

    proof fn lemma_dimensions()
        ensures
            Self::DIMENSIONS == 6,
    {
    }

    proof fn lemma_coords_determine(a: Self, b: Self) {
        assert(a.coords()[0] == b.coords()[0]);
        assert(a.coords()[1] == b.coords()[1]);
        assert(a.coords()[2] == b.coords()[2]);
        assert(a.coords()[3] == b.coords()[3]);
        assert(a.coords()[4] == b.coords()[4]);
        assert(a.coords()[5] == b.coords()[5]);
    }

    fn generate<F: Fn(usize) -> S>(generator: F) -> (r: Self)
        ensures
            call_ensures(generator, (0usize,), r.0),
            call_ensures(generator, (1usize,), r.1),
            call_ensures(generator, (2usize,), r.2),
            call_ensures(generator, (3usize,), r.3),
            call_ensures(generator, (4usize,), r.4),
            call_ensures(generator, (5usize,), r.5),
    {
        (generator(0), generator(1), generator(2), generator(3), generator(4), generator(5))
    }

    fn nth(&self, index: usize) -> (r: S)
        ensures
            index == 0 ==> r == self.0,
            index == 1 ==> r == self.1,
            index == 2 ==> r == self.2,
            index == 3 ==> r == self.3,
            index == 4 ==> r == self.4,
            index == 5 ==> r == self.5,
    {
        match index {
            0 => self.0,
            1 => self.1,
            2 => self.2,
            3 => self.3,
            4 => self.4,
            _ => self.5,
        }
    }

    fn nth_mut(&mut self, index: usize) -> (r: &mut S)
        ensures
            index == 0 ==> *r == old(self).0 && final(self).0 == *final(r),
            index == 1 ==> *r == old(self).1 && final(self).1 == *final(r),
            index == 2 ==> *r == old(self).2 && final(self).2 == *final(r),
            index == 3 ==> *r == old(self).3 && final(self).3 == *final(r),
            index == 4 ==> *r == old(self).4 && final(self).4 == *final(r),
            index == 5 ==> *r == old(self).5 && final(self).5 == *final(r),
            index != 0 ==> final(self).0 == old(self).0,
            index != 1 ==> final(self).1 == old(self).1,
            index != 2 ==> final(self).2 == old(self).2,
            index != 3 ==> final(self).3 == old(self).3,
            index != 4 ==> final(self).4 == old(self).4,
            index != 5 ==> final(self).5 == old(self).5,
    {
        match index {
            0 => &mut self.0,
            1 => &mut self.1,
            2 => &mut self.2,
            3 => &mut self.3,
            4 => &mut self.4,
            _ => &mut self.5,
        }
    }
}

impl<S: RTreeNum> Point for (S, S, S, S, S, S, S) {
    type Scalar = S;

    const DIMENSIONS: usize = 7;

    open spec fn coords(&self) -> Seq<S> {
        seq![self.0, self.1, self.2, self.3, self.4, self.5, self.6]
    }

    proof fn lemma_coords_len(&self) {
    }

    proof fn lemma_dimensions()
        ensures
            Self::DIMENSIONS == 7,
    {
    }

    proof fn lemma_coords_determine(a: Self, b: Self) {
        assert(a.coords()[0] == b.coords()[0]);
        assert(a.coords()[1] == b.coords()[1]);
        assert(a.coords()[2] == b.coords()[2]);
        assert(a.coords()[3] == b.coords()[3]);
        assert(a.coords()[4] == b.coords()[4]);
        assert(a.coords()[5] == b.coords()[5]);
        assert(a.coords()[6] == b.coords()[6]);
    }

    fn generate<F: Fn(usize) -> S>(generator: F) -> (r: Self)
        ensures
            call_ensures(generator, (0usize,), r.0),
            call_ensures(generator, (1usize,), r.1),
            call_ensures(generator, (2usize,), r.2),
            call_ensures(generator, (3usize,), r.3),
            call_ensures(generator, (4usize,), r.4),
            call_ensures(generator, (5usize,), r.5),
            call_ensures(generator, (6usize,), r.6),
    {
        (generator(0), generator(1), generator(2), generator(3), generator(4), generator(5), generator(6))
    }

    fn nth(&self, index: usize) -> (r: S)
        ensures
            index == 0 ==> r == self.0,
            index == 1 ==> r == self.1,
            index == 2 ==> r == self.2,
            index == 3 ==> r == self.3,
            index == 4 ==> r == self.4,
            index == 5 ==> r == self.5,
            index == 6 ==> r == self.6,
    {
        match index {
            0 => self.0,
            1 => self.1,
            2 => self.2,
            3 => self.3,
            4 => self.4,
            5 => self.5,
            _ => self.6,
        }
    }

    fn nth_mut(&mut self, index: usize) -> (r: &mut S)
        ensures
            index == 0 ==> *r == old(self).0 && final(self).0 == *final(r),
            index == 1 ==> *r == old(self).1 && final(self).1 == *final(r),
            index == 2 ==> *r == old(self).2 && final(self).2 == *final(r),
            index == 3 ==> *r == old(self).3 && final(self).3 == *final(r),
            index == 4 ==> *r == old(self).4 && final(self).4 == *final(r),
            index == 5 ==> *r == old(self).5 && final(self).5 == *final(r),
            index == 6 ==> *r == old(self).6 && final(self).6 == *final(r),
            index != 0 ==> final(self).0 == old(self).0,
            index != 1 ==> final(self).1 == old(self).1,
            index != 2 ==> final(self).2 == old(self).2,
            index != 3 ==> final(self).3 == old(self).3,
            index != 4 ==> final(self).4 == old(self).4,
            index != 5 ==> final(self).5 == old(self).5,
            index != 6 ==> final(self).6 == old(self).6,
    {
        match index {
            0 => &mut self.0,
            1 => &mut self.1,
            2 => &mut self.2,
            3 => &mut self.3,
            4 => &mut self.4,
            5 => &mut self.5,
            _ => &mut self.6,
        }
    }
}

impl<S: RTreeNum> Point for (S, S, S, S, S, S, S, S) {
    type Scalar = S;

    const DIMENSIONS: usize = 8;

    open spec fn coords(&self) -> Seq<S> {
        seq![self.0, self.1, self.2, self.3, self.4, self.5, self.6, self.7]
    }

    proof fn lemma_coords_len(&self) {
    }

    proof fn lemma_dimensions()
        ensures
            Self::DIMENSIONS == 8,
    {
    }

    proof fn lemma_coords_determine(a: Self, b: Self) {
        assert(a.coords()[0] == b.coords()[0]);
        assert(a.coords()[1] == b.coords()[1]);
        assert(a.coords()[2] == b.coords()[2]);
        assert(a.coords()[3] == b.coords()[3]);
        assert(a.coords()[4] == b.coords()[4]);
        assert(a.coords()[5] == b.coords()[5]);
        assert(a.coords()[6] == b.coords()[6]);
        assert(a.coords()[7] == b.coords()[7]);
    }

    fn generate<F: Fn(usize) -> S>(generator: F) -> (r: Self)
        ensures
            call_ensures(generator, (0usize,), r.0),
            call_ensures(generator, (1usize,), r.1),
            call_ensures(generator, (2usize,), r.2),
            call_ensures(generator, (3usize,), r.3),
            call_ensures(generator, (4usize,), r.4),
            call_ensures(generator, (5usize,), r.5),
            call_ensures(generator, (6usize,), r.6),
            call_ensures(generator, (7usize,), r.7),
    {
        (generator(0), generator(1), generator(2), generator(3), generator(4), generator(5), generator(6), generator(7))
    }

    fn nth(&self, index: usize) -> (r: S)
        ensures
            index == 0 ==> r == self.0,
            index == 1 ==> r == self.1,
            index == 2 ==> r == self.2,
            index == 3 ==> r == self.3,
            index == 4 ==> r == self.4,
            index == 5 ==> r == self.5,
            index == 6 ==> r == self.6,
            index == 7 ==> r == self.7,
    {
        match index {
            0 => self.0,
            1 => self.1,
            2 => self.2,
            3 => self.3,
            4 => self.4,
            5 => self.5,
            6 => self.6,
            _ => self.7,
        }
    }

    fn nth_mut(&mut self, index: usize) -> (r: &mut S)
        ensures
            index == 0 ==> *r == old(self).0 && final(self).0 == *final(r),
            index == 1 ==> *r == old(self).1 && final(self).1 == *final(r),
            index == 2 ==> *r == old(self).2 && final(self).2 == *final(r),
            index == 3 ==> *r == old(self).3 && final(self).3 == *final(r),
            index == 4 ==> *r == old(self).4 && final(self).4 == *final(r),
            index == 5 ==> *r == old(self).5 && final(self).5 == *final(r),
            index == 6 ==> *r == old(self).6 && final(self).6 == *final(r),
            index == 7 ==> *r == old(self).7 && final(self).7 == *final(r),
            index != 0 ==> final(self).0 == old(self).0,
            index != 1 ==> final(self).1 == old(self).1,
            index != 2 ==> final(self).2 == old(self).2,
            index != 3 ==> final(self).3 == old(self).3,
            index != 4 ==> final(self).4 == old(self).4,
            index != 5 ==> final(self).5 == old(self).5,
            index != 6 ==> final(self).6 == old(self).6,
            index != 7 ==> final(self).7 == old(self).7,
    {
        match index {
            0 => &mut self.0,
            1 => &mut self.1,
            2 => &mut self.2,
            3 => &mut self.3,
            4 => &mut self.4,
            5 => &mut self.5,
            6 => &mut self.6,
            _ => &mut self.7,
        }
    }
}

impl<S: RTreeNum> Point for (S, S, S, S, S, S, S, S, S) {
    type Scalar = S;

    const DIMENSIONS: usize = 9;

    open spec fn coords(&self) -> Seq<S> {
        seq![self.0, self.1, self.2, self.3, self.4, self.5, self.6, self.7, self.8]
    }

    proof fn lemma_coords_len(&self) {
    }

    proof fn lemma_dimensions()
        ensures
            Self::DIMENSIONS == 9,
    {
    }

    proof fn lemma_coords_determine(a: Self, b: Self) {
        assert(a.coords()[0] == b.coords()[0]);
        assert(a.coords()[1] == b.coords()[1]);
        assert(a.coords()[2] == b.coords()[2]);
        assert(a.coords()[3] == b.coords()[3]);
        assert(a.coords()[4] == b.coords()[4]);
        assert(a.coords()[5] == b.coords()[5]);
        assert(a.coords()[6] == b.coords()[6]);
        assert(a.coords()[7] == b.coords()[7]);
        assert(a.coords()[8] == b.coords()[8]);
    }

    fn generate<F: Fn(usize) -> S>(generator: F) -> (r: Self)
        ensures
            call_ensures(generator, (0usize,), r.0),
            call_ensures(generator, (1usize,), r.1),
            call_ensures(generator, (2usize,), r.2),
            call_ensures(generator, (3usize,), r.3),
            call_ensures(generator, (4usize,), r.4),
            call_ensures(generator, (5usize,), r.5),
            call_ensures(generator, (6usize,), r.6),
            call_ensures(generator, (7usize,), r.7),
            call_ensures(generator, (8usize,), r.8),
    {
        (generator(0), generator(1), generator(2), generator(3), generator(4), generator(5), generator(6), generator(7), generator(8))
    }

    fn nth(&self, index: usize) -> (r: S)
        ensures
            index == 0 ==> r == self.0,
            index == 1 ==> r == self.1,
            index == 2 ==> r == self.2,
            index == 3 ==> r == self.3,
            index == 4 ==> r == self.4,
            index == 5 ==> r == self.5,
            index == 6 ==> r == self.6,
            index == 7 ==> r == self.7,
            index == 8 ==> r == self.8,
    {
        match index {
            0 => self.0,
            1 => self.1,
            2 => self.2,
            3 => self.3,
            4 => self.4,
            5 => self.5,
            6 => self.6,
            7 => self.7,
            _ => self.8,
        }
    }

    fn nth_mut(&mut self, index: usize) -> (r: &mut S)
        ensures
            index == 0 ==> *r == old(self).0 && final(self).0 == *final(r),
            index == 1 ==> *r == old(self).1 && final(self).1 == *final(r),
            index == 2 ==> *r == old(self).2 && final(self).2 == *final(r),
            index == 3 ==> *r == old(self).3 && final(self).3 == *final(r),
            index == 4 ==> *r == old(self).4 && final(self).4 == *final(r),
            index == 5 ==> *r == old(self).5 && final(self).5 == *final(r),
            index == 6 ==> *r == old(self).6 && final(self).6 == *final(r),
            index == 7 ==> *r == old(self).7 && final(self).7 == *final(r),
            index == 8 ==> *r == old(self).8 && final(self).8 == *final(r),
            index != 0 ==> final(self).0 == old(self).0,
            index != 1 ==> final(self).1 == old(self).1,
            index != 2 ==> final(self).2 == old(self).2,
            index != 3 ==> final(self).3 == old(self).3,
            index != 4 ==> final(self).4 == old(self).4,
            index != 5 ==> final(self).5 == old(self).5,
            index != 6 ==> final(self).6 == old(self).6,
            index != 7 ==> final(self).7 == old(self).7,
            index != 8 ==> final(self).8 == old(self).8,
    {
        match index {
            0 => &mut self.0,
            1 => &mut self.1,
            2 => &mut self.2,
            3 => &mut self.3,
            4 => &mut self.4,
            5 => &mut self.5,
            6 => &mut self.6,
            7 => &mut self.7,
            _ => &mut self.8,
        }
    }
}

impl<S: RTreeNum> Point for (S, S, S, S, S, S, S, S, S, S) {
    type Scalar = S;

    const DIMENSIONS: usize = 10;

    open spec fn coords(&self) -> Seq<S> {
        seq![self.0, self.1, self.2, self.3, self.4, self.5, self.6, self.7, self.8, self.9]
    }

    proof fn lemma_coords_len(&self) {
    }

    proof fn lemma_dimensions()
        ensures
            Self::DIMENSIONS == 10,
    {
    }

    proof fn lemma_coords_determine(a: Self, b: Self) {
        assert(a.coords()[0] == b.coords()[0]);
        assert(a.coords()[1] == b.coords()[1]);
        assert(a.coords()[2] == b.coords()[2]);
        assert(a.coords()[3] == b.coords()[3]);
        assert(a.coords()[4] == b.coords()[4]);
        assert(a.coords()[5] == b.coords()[5]);
        assert(a.coords()[6] == b.coords()[6]);
        assert(a.coords()[7] == b.coords()[7]);
        assert(a.coords()[8] == b.coords()[8]);
        assert(a.coords()[9] == b.coords()[9]);
    }

    fn generate<F: Fn(usize) -> S>(generator: F) -> (r: Self)
        ensures
            call_ensures(generator, (0usize,), r.0),
            call_ensures(generator, (1usize,), r.1),
            call_ensures(generator, (2usize,), r.2),
            call_ensures(generator, (3usize,), r.3),
            call_ensures(generator, (4usize,), r.4),
            call_ensures(generator, (5usize,), r.5),
            call_ensures(generator, (6usize,), r.6),
            call_ensures(generator, (7usize,), r.7),
            call_ensures(generator, (8usize,), r.8),
            call_ensures(generator, (9usize,), r.9),
    {
        (generator(0), generator(1), generator(2), generator(3), generator(4), generator(5), generator(6), generator(7), generator(8), generator(9))
    }

    fn nth(&self, index: usize) -> (r: S)
        ensures
            index == 0 ==> r == self.0,
            index == 1 ==> r == self.1,
            index == 2 ==> r == self.2,
            index == 3 ==> r == self.3,
            index == 4 ==> r == self.4,
            index == 5 ==> r == self.5,
            index == 6 ==> r == self.6,
            index == 7 ==> r == self.7,
            index == 8 ==> r == self.8,
            index == 9 ==> r == self.9,
    {
        match index {
            0 => self.0,
            1 => self.1,
            2 => self.2,
            3 => self.3,
            4 => self.4,
            5 => self.5,
            6 => self.6,
            7 => self.7,
            8 => self.8,
            _ => self.9,
        }
    }

    fn nth_mut(&mut self, index: usize) -> (r: &mut S)
        ensures
            index == 0 ==> *r == old(self).0 && final(self).0 == *final(r),
            index == 1 ==> *r == old(self).1 && final(self).1 == *final(r),
            index == 2 ==> *r == old(self).2 && final(self).2 == *final(r),
            index == 3 ==> *r == old(self).3 && final(self).3 == *final(r),
            index == 4 ==> *r == old(self).4 && final(self).4 == *final(r),
            index == 5 ==> *r == old(self).5 && final(self).5 == *final(r),
            index == 6 ==> *r == old(self).6 && final(self).6 == *final(r),
            index == 7 ==> *r == old(self).7 && final(self).7 == *final(r),
            index == 8 ==> *r == old(self).8 && final(self).8 == *final(r),
            index == 9 ==> *r == old(self).9 && final(self).9 == *final(r),
            index != 0 ==> final(self).0 == old(self).0,
            index != 1 ==> final(self).1 == old(self).1,
            index != 2 ==> final(self).2 == old(self).2,
            index != 3 ==> final(self).3 == old(self).3,
            index != 4 ==> final(self).4 == old(self).4,
            index != 5 ==> final(self).5 == old(self).5,
            index != 6 ==> final(self).6 == old(self).6,
            index != 7 ==> final(self).7 == old(self).7,
            index != 8 ==> final(self).8 == old(self).8,
            index != 9 ==> final(self).9 == old(self).9,
    {
        match index {
            0 => &mut self.0,
            1 => &mut self.1,
            2 => &mut self.2,
            3 => &mut self.3,
            4 => &mut self.4,
            5 => &mut self.5,
            6 => &mut self.6,
            7 => &mut self.7,
            8 => &mut self.8,
            _ => &mut self.9,
        }
    }
}

} // verus!
