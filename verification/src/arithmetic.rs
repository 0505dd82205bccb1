//! The arithmetic of the quantities of a simulation.
//!
//! Masses, lengths, velocities and accelerations are numbers of a type `S`
//! that the library never looks into. Whoever runs the simulation says how
//! two such numbers are added, subtracted, multiplied, divided and compared,
//! which number a ratio of two integers is, and which number the square root
//! of a number is. The rules of the simulation are stated over these seven
//! operations, and every result the library computes is named by the
//! operations that lead to it, in their order.

use vstd::prelude::*;

verus! {

/// The seven operations on numbers of a type `S`.
pub struct Arithmetic<Plus, Minus, Times, Over, Exceeds, Ratio, Root> {
    /// `plus(a, b)` is `a + b`.
    pub plus: Plus,
    /// `minus(a, b)` is `a - b`.
    pub minus: Minus,
    /// `times(a, b)` is `a * b`.
    pub times: Times,
    /// `over(a, b)` is `a / b`.
    pub over: Over,
    /// `exceeds(a, b)` is `a > b`.
    pub exceeds: Exceeds,
    /// `ratio(n, d)` is the number `n / d`.
    pub ratio: Ratio,
    /// `root(a)` is the square root of `a`.
    pub root: Root,
}

/// A plane vector, or a point of the plane.
#[derive(Debug, PartialEq)]
pub struct Vector<S> {
    pub x: S,
    pub y: S,
}

impl<S: Copy> Clone for Vector<S> {
    fn clone(&self) -> (copy: Self)
        ensures
            copy == *self,
    {
        *self
    }
}

impl<S: Copy> Copy for Vector<S> {

}

impl<
    S: Copy,
    Plus: Fn(S, S) -> S,
    Minus: Fn(S, S) -> S,
    Times: Fn(S, S) -> S,
    Over: Fn(S, S) -> S,
    Exceeds: Fn(S, S) -> bool,
    Ratio: Fn(i64, i64) -> S,
    Root: Fn(S) -> S,
> Arithmetic<Plus, Minus, Times, Over, Exceeds, Ratio, Root> {
    /// What `plus` returns for `a` and `b`.
    pub open spec fn sum(self, a: S, b: S) -> S {
        choose|r: S| call_ensures(self.plus, (a, b), r)
    }

    /// What `minus` returns for `a` and `b`.
    pub open spec fn difference(self, a: S, b: S) -> S {
        choose|r: S| call_ensures(self.minus, (a, b), r)
    }

    /// What `times` returns for `a` and `b`.
    pub open spec fn product(self, a: S, b: S) -> S {
        choose|r: S| call_ensures(self.times, (a, b), r)
    }

    /// What `over` returns for `a` and `b`.
    pub open spec fn quotient(self, a: S, b: S) -> S {
        choose|r: S| call_ensures(self.over, (a, b), r)
    }

    /// What `exceeds` returns for `a` and `b`.
    pub open spec fn above(self, a: S, b: S) -> bool {
        choose|r: bool| call_ensures(self.exceeds, (a, b), r)
    }

    /// What `ratio` returns for `numerator` and `denominator`.
    pub open spec fn constant(self, numerator: i64, denominator: i64) -> S {
        choose|r: S| call_ensures(self.ratio, (numerator, denominator), r)
    }

    /// What `root` returns for `a`.
    pub open spec fn square_root(self, a: S) -> S {
        choose|r: S| call_ensures(self.root, (a,), r)
    }

    /// Every operation can be called on all arguments, and what it returns
    /// depends on its arguments alone.
    pub open spec fn exact(self) -> bool {
        &&& forall|a: S, b: S| call_requires(self.plus, (a, b))
        &&& forall|a: S, b: S| call_requires(self.minus, (a, b))
        &&& forall|a: S, b: S| call_requires(self.times, (a, b))
        &&& forall|a: S, b: S| call_requires(self.over, (a, b))
        &&& forall|a: S, b: S| call_requires(self.exceeds, (a, b))
        &&& forall|n: i64, d: i64| call_requires(self.ratio, (n, d))
        &&& forall|a: S| call_requires(self.root, (a,))
        &&& forall|a: S, b: S, r: S| call_ensures(self.plus, (a, b), r) ==> r == self.sum(a, b)
        &&& forall|a: S, b: S, r: S|
            call_ensures(self.minus, (a, b), r) ==> r == self.difference(a, b)
        &&& forall|a: S, b: S, r: S| call_ensures(self.times, (a, b), r) ==> r == self.product(a, b)
        &&& forall|a: S, b: S, r: S| call_ensures(self.over, (a, b), r) ==> r == self.quotient(a, b)
        &&& forall|a: S, b: S, r: bool|
            call_ensures(self.exceeds, (a, b), r) ==> r == self.above(a, b)
        &&& forall|n: i64, d: i64, r: S|
            call_ensures(self.ratio, (n, d), r) ==> r == self.constant(n, d)
        &&& forall|a: S, r: S| call_ensures(self.root, (a,), r) ==> r == self.square_root(a)
    }

    /// The number zero.
    pub open spec fn zero(self) -> S {
        self.constant(0, 1)
    }

    /// The opposite of `a`: zero minus `a`.
    pub open spec fn negative(self, a: S) -> S {
        self.difference(self.zero(), a)
    }

    /// The operations do not round: what is added can be taken away again,
    /// what is divided can be multiplied back, and the opposite of a number
    /// behaves as a sign. This holds of fractions and of no arithmetic that
    /// keeps a fixed number of digits.
    pub open spec fn unrounded(self) -> bool {
        &&& forall|a: S, b: S| #[trigger] self.difference(self.sum(a, b), a) == b
        &&& forall|a: S, b: S|
            #[trigger] self.difference(self.difference(a, b), a) == self.negative(b)
        &&& forall|a: S, b: S|
            b != self.zero() ==> #[trigger] self.product(b, self.quotient(a, b)) == a
        &&& forall|a: S, b: S|
            #[trigger] self.product(a, self.negative(b)) == self.negative(self.product(a, b))
        &&& forall|a: S| #[trigger] self.negative(self.negative(a)) == a
    }

    /// Sums can be regrouped and reordered, what is added can be taken away
    /// by adding its opposite, adding zero changes nothing, a product with
    /// zero is zero, and a product spreads over a sum and over a difference.
    /// This holds of fractions and of no arithmetic that keeps a fixed
    /// number of digits.
    #[verifier::opaque]
    pub open spec fn additive(self) -> bool {
        &&& forall|a: S, b: S, c: S|
            #[trigger] self.sum(self.sum(a, b), c) == self.sum(a, self.sum(b, c))
        &&& forall|a: S, b: S| #[trigger] self.sum(a, b) == self.sum(b, a)
        &&& forall|a: S, b: S| #[trigger] self.sum(self.sum(a, b), self.negative(b)) == a
        &&& forall|a: S| #[trigger] self.sum(a, self.zero()) == a
        &&& forall|a: S| #[trigger] self.product(a, self.zero()) == self.zero()
        &&& forall|a: S, b: S, c: S|
            #[trigger] self.product(a, self.sum(b, c)) == self.sum(
                self.product(a, b),
                self.product(a, c),
            )
        &&& forall|a: S, b: S, c: S|
            #[trigger] self.product(a, self.difference(b, c)) == self.sum(
                self.product(a, b),
                self.negative(self.product(a, c)),
            )
    }

    /// Products can be reordered and regrouped, and a sum times a number is
    /// the sum of the products. This holds of fractions and of no arithmetic
    /// that keeps a fixed number of digits.
    #[verifier::opaque]
    pub open spec fn multiplicative(self) -> bool {
        &&& forall|a: S, b: S| #[trigger] self.product(a, b) == self.product(b, a)
        &&& forall|a: S, b: S, c: S|
            #[trigger] self.product(self.product(a, b), c) == self.product(a, self.product(b, c))
        &&& forall|a: S, b: S, c: S|
            #[trigger] self.product(self.sum(a, b), c) == self.sum(
                self.product(a, c),
                self.product(b, c),
            )
    }

    /// Products can be reordered.
    pub proof fn lemma_swap_factors(self, a: S, b: S)
        requires
            self.multiplicative(),
        ensures
            self.product(a, b) == self.product(b, a),
    {
        reveal(Arithmetic::multiplicative);
    }

    /// Products can be regrouped.
    pub proof fn lemma_regroup_factors(self, a: S, b: S, c: S)
        requires
            self.multiplicative(),
        ensures
            self.product(self.product(a, b), c) == self.product(a, self.product(b, c)),
    {
        reveal(Arithmetic::multiplicative);
    }

    /// A sum times a number is the sum of the products.
    pub proof fn lemma_gather(self, a: S, b: S, c: S)
        requires
            self.multiplicative(),
        ensures
            self.product(self.sum(a, b), c) == self.sum(self.product(a, c), self.product(b, c)),
    {
        reveal(Arithmetic::multiplicative);
    }

    /// The square of a product is the product of the squares.
    pub proof fn lemma_square_of_product(self, a: S, b: S)
        requires
            self.multiplicative(),
        ensures
            self.product(self.product(a, b), self.product(a, b)) == self.product(
                self.product(a, a),
                self.product(b, b),
            ),
    {
        let ab = self.product(a, b);
        // (ab)(ab) = a(b(ab)) = a((ba)b) = a((ab)b) = a(a(bb)) = (aa)(bb)
        self.lemma_regroup_factors(a, b, ab);
        self.lemma_regroup_factors(b, a, b);
        self.lemma_swap_factors(b, a);
        self.lemma_regroup_factors(a, b, b);
        self.lemma_regroup_factors(a, a, self.product(b, b));
    }

    /// A product of two numbers that are not negative is not negative, where
    /// multiplication keeps the order.
    pub proof fn lemma_product_not_negative(self, a: S, b: S)
        requires
            self.ordered(),
            self.additive(),
            self.multiplicative(),
            !self.above(self.zero(), a),
            !self.above(self.zero(), b),
        ensures
            !self.above(self.zero(), self.product(a, b)),
    {
        self.lemma_nothing(b);
        self.lemma_swap_factors(b, self.zero());
        assert(!self.above(self.product(self.zero(), b), self.product(a, b)));
    }

    /// The sum of `terms`, added up from the first to the last.
    pub open spec fn total(self, terms: Seq<S>) -> S
        decreases terms.len(),
    {
        if terms.len() == 0 {
            self.zero()
        } else {
            self.sum(self.total(terms.drop_last()), terms.last())
        }
    }

    /// Sums can be regrouped.
    pub proof fn lemma_regroup(self, a: S, b: S, c: S)
        requires
            self.additive(),
        ensures
            self.sum(self.sum(a, b), c) == self.sum(a, self.sum(b, c)),
    {
        reveal(Arithmetic::additive);
    }

    /// Sums can be reordered.
    pub proof fn lemma_reorder(self, a: S, b: S)
        requires
            self.additive(),
        ensures
            self.sum(a, b) == self.sum(b, a),
    {
        reveal(Arithmetic::additive);
    }

    /// What is added can be taken away by adding its opposite.
    pub proof fn lemma_take_away(self, a: S, b: S)
        requires
            self.additive(),
        ensures
            self.sum(self.sum(a, b), self.negative(b)) == a,
    {
        reveal(Arithmetic::additive);
    }

    /// Adding zero changes nothing, and a product with zero is zero.
    pub proof fn lemma_nothing(self, a: S)
        requires
            self.additive(),
        ensures
            self.sum(a, self.zero()) == a,
            self.product(a, self.zero()) == self.zero(),
    {
        reveal(Arithmetic::additive);
    }

    /// A product spreads over a sum and over a difference.
    pub proof fn lemma_spread_out(self, a: S, b: S, c: S)
        requires
            self.additive(),
        ensures
            self.product(a, self.sum(b, c)) == self.sum(self.product(a, b), self.product(a, c)),
            self.product(a, self.difference(b, c)) == self.sum(
                self.product(a, b),
                self.negative(self.product(a, c)),
            ),
    {
        reveal(Arithmetic::additive);
    }

    /// Where one of the terms grows by `gain`, so does their sum.
    pub proof fn lemma_total_gains(self, terms: Seq<S>, at: int, gain: S)
        requires
            self.additive(),
            0 <= at < terms.len(),
        ensures
            self.total(terms.update(at, self.sum(terms[at], gain))) == self.sum(
                self.total(terms),
                gain,
            ),
        decreases terms.len(),
    {
        let grown = terms.update(at, self.sum(terms[at], gain));
        let rest = self.total(terms.drop_last());
        if at == terms.len() - 1 {
            assert(grown.drop_last() =~= terms.drop_last());
            self.lemma_regroup(rest, terms.last(), gain);
        } else {
            assert(grown.drop_last() =~= terms.drop_last().update(
                at,
                self.sum(terms.drop_last()[at], gain),
            ));
            self.lemma_total_gains(terms.drop_last(), at, gain);
            self.lemma_regroup(rest, gain, terms.last());
            self.lemma_reorder(gain, terms.last());
            self.lemma_regroup(rest, terms.last(), gain);
        }
    }

    /// `a` lies between `low` and `high`, the two included: neither does
    /// `low` exceed `a` nor `a` exceed `high`.
    pub open spec fn within(self, a: S, low: S, high: S) -> bool {
        !self.above(low, a) && !self.above(a, high)
    }

    /// Multiplication keeps the order: a ratio of a number that is not
    /// negative to a positive one does not lie below zero, and where `a`
    /// does not exceed `b`, `a` times such a number does not exceed `b`
    /// times it. This holds of fractions, and of an arithmetic that rounds
    /// to the nearest number it can keep.
    pub open spec fn ordered(self) -> bool {
        &&& forall|n: i64, d: i64|
            n >= 0 && d > 0 ==> !self.above(self.zero(), #[trigger] self.constant(n, d))
        &&& forall|a: S, b: S, c: S|
            !self.above(self.zero(), c) && !self.above(a, b) ==> !self.above(
                #[trigger] self.product(a, c),
                #[trigger] self.product(b, c),
            )
    }

    /// The vector without length.
    pub open spec fn zero_vector(self) -> Vector<S> {
        Vector { x: self.zero(), y: self.zero() }
    }

    /// `u - v`, component by component.
    pub open spec fn vector_difference(self, u: Vector<S>, v: Vector<S>) -> Vector<S> {
        Vector { x: self.difference(u.x, v.x), y: self.difference(u.y, v.y) }
    }

    /// `v * factor`, component by component.
    pub open spec fn scaled(self, v: Vector<S>, factor: S) -> Vector<S> {
        Vector { x: self.product(v.x, factor), y: self.product(v.y, factor) }
    }

    /// `u + v * factor`, component by component.
    pub open spec fn displaced(self, u: Vector<S>, v: Vector<S>, factor: S) -> Vector<S> {
        Vector {
            x: self.sum(u.x, self.product(v.x, factor)),
            y: self.sum(u.y, self.product(v.y, factor)),
        }
    }

    /// The square of the length of `v`.
    pub open spec fn length_squared(self, v: Vector<S>) -> S {
        self.sum(self.product(v.x, v.x), self.product(v.y, v.y))
    }

    /// The length of `v`: the square root of the square of its length.
    pub open spec fn length(self, v: Vector<S>) -> S {
        self.square_root(self.length_squared(v))
    }
}

} // verus!
