//! Bodies and how they come to be.
//!
//! A body is a disc with a mass. Its mass follows from its radius and is
//! never set otherwise. A body is made either of a finished gesture or of
//! three random draws; either way it starts without acceleration.

use crate::arithmetic::{Arithmetic, Vector};
use crate::gesture::Placement;
use vstd::prelude::*;

verus! {

/// The ratio of the circumference of a circle to its diameter, to single
/// precision: `PI_NUMERATOR / PI_DENOMINATOR`.
pub const PI_NUMERATOR: i64 = 13_176_795;

/// See [`PI_NUMERATOR`].
pub const PI_DENOMINATOR: i64 = 4_194_304;

/// The mass of a body per unit of `pi * radius^3`.
pub const DENSITY: i64 = 100;

/// A gesture of `k` steps makes a body of radius `k / RADIUS_STEPS_PER_UNIT`.
pub const RADIUS_STEPS_PER_UNIT: i64 = 2;

/// The drag of a gesture, times `LAUNCH_NUMERATOR / LAUNCH_DENOMINATOR`, is
/// the velocity of its body: one and a half times the drag, backwards.
pub const LAUNCH_NUMERATOR: i64 = -3;

/// See [`LAUNCH_NUMERATOR`].
pub const LAUNCH_DENOMINATOR: i64 = 2;

/// A random body has a radius of at least `SPAWN_RADIUS_MIN` and less than
/// `SPAWN_RADIUS_MAX`.
pub const SPAWN_RADIUS_MIN: i64 = 2;

/// See [`SPAWN_RADIUS_MIN`].
pub const SPAWN_RADIUS_MAX: i64 = 15;

/// The two draws that place a random body lie between `SPAWN_DRAW_MIN` and
/// `SPAWN_DRAW_MAX`, the two included.
pub const SPAWN_DRAW_MIN: i64 = -1;

/// See [`SPAWN_DRAW_MIN`].
pub const SPAWN_DRAW_MAX: i64 = 1;

/// A random body lies within `SPAWN_REACH_NUMERATOR / SPAWN_REACH_DENOMINATOR`
/// of the width of the view to the left and to the right of its centre, and
/// within as much of its height above and below.
pub const SPAWN_REACH_NUMERATOR: i64 = 2;

/// See [`SPAWN_REACH_NUMERATOR`].
pub const SPAWN_REACH_DENOMINATOR: i64 = 5;

/// A disc with a mass, where it is and how it moves.
#[derive(Debug, PartialEq)]
pub struct Body<S> {
    /// Follows from the radius when the body is made and stays as it is.
    pub mass: S,
    /// The size of the disc, and the distance within which another body
    /// exerts no force on this one.
    pub radius: S,
    pub position: Vector<S>,
    /// What the forces of the current tick have added up to. Without
    /// length between ticks.
    pub acceleration: Vector<S>,
    pub velocity: Vector<S>,
}

impl<S: Copy> Clone for Body<S> {
    fn clone(&self) -> (copy: Self)
        ensures
            copy == *self,
    {
        *self
    }
}

impl<S: Copy> Copy for Body<S> {

}

/// What is drawn at random for one body.
#[derive(Debug, PartialEq)]
pub struct Draw<S> {
    /// The radius, at least [`SPAWN_RADIUS_MIN`] and less than
    /// [`SPAWN_RADIUS_MAX`].
    pub radius: S,
    /// How far to the right of the centre of the view the body lies, from
    /// [`SPAWN_DRAW_MIN`] for the left end of the reach to
    /// [`SPAWN_DRAW_MAX`] for its right end.
    pub across: S,
    /// How far above the centre of the view the body lies, between the same
    /// two numbers.
    pub up: S,
}

impl<S: Copy> Clone for Draw<S> {
    fn clone(&self) -> (copy: Self)
        ensures
            copy == *self,
    {
        *self
    }
}

impl<S: Copy> Copy for Draw<S> {

}

impl<
    S: Copy,
    Plus: Fn(S, S) -> S,
    Minus: Fn(S, S) -> S,
    Times: Fn(S, S) -> S,
    Over: Fn(S, S) -> S,
    Exceeds: Fn(S, S) -> bool,
    Ratio: Fn(i64, i64) -> S,
    Root: Fn(S) -> S,
> Arithmetic<Plus, Minus, Times, Over, Exceeds, Ratio, Root> {
    /// The mass of a body of the given radius: `pi * radius^3 * DENSITY`,
    /// multiplied from left to right.
    pub open spec fn mass(self, radius: S) -> S {
        self.product(
            self.product(
                self.product(
                    self.product(self.constant(PI_NUMERATOR, PI_DENOMINATOR), radius),
                    radius,
                ),
                radius,
            ),
            self.constant(DENSITY, 1),
        )
    }

    /// The velocity of a body whose gesture was anchored at `anchor` and
    /// released at `release`: `(release - anchor) * -3/2` in each
    /// component.
    pub open spec fn launch(self, anchor: Vector<S>, release: Vector<S>) -> Vector<S> {
        self.scaled(
            self.vector_difference(release, anchor),
            self.constant(LAUNCH_NUMERATOR, LAUNCH_DENOMINATOR),
        )
    }

    /// The radius that a gesture of `steps` steps stands for.
    pub open spec fn radius_of_steps(self, steps: u32) -> S {
        self.constant(steps as i64, RADIUS_STEPS_PER_UNIT)
    }

    /// The body of a finished gesture: at the anchor, of the radius that the
    /// steps stand for and the mass of that radius, launched by the drag,
    /// without acceleration.
    pub open spec fn placed(self, placement: Placement<Vector<S>>) -> Body<S> {
        Body {
            mass: self.mass(self.radius_of_steps(placement.radius_steps)),
            radius: self.radius_of_steps(placement.radius_steps),
            position: placement.anchor,
            acceleration: self.zero_vector(),
            velocity: self.launch(placement.anchor, placement.release),
        }
    }

    /// How far from the centre, along a side of the view of length `extent`,
    /// a random body lies whose draw along that side is `draw`:
    /// `draw * extent * 2/5`, multiplied from left to right.
    pub open spec fn spread(self, draw: S, extent: u32) -> S {
        self.product(
            self.product(draw, self.constant(extent as i64, 1)),
            self.constant(SPAWN_REACH_NUMERATOR, SPAWN_REACH_DENOMINATOR),
        )
    }

    /// The body of a random draw in a view `width` wide and `height` high:
    /// of the radius drawn and the mass of that radius, at rest, without
    /// acceleration.
    pub open spec fn scattered(self, draw: Draw<S>, width: u32, height: u32) -> Body<S> {
        Body {
            mass: self.mass(draw.radius),
            radius: draw.radius,
            position: Vector { x: self.spread(draw.across, width), y: self.spread(draw.up, height) },
            acceleration: self.zero_vector(),
            velocity: self.zero_vector(),
        }
    }

    /// A mass is not negative. In an arithmetic that does not round and
    /// whose multiplication keeps the order, a body whose radius is not
    /// negative has a mass that is not negative.
    pub proof fn lemma_mass_not_negative(self, radius: S)
        requires
            self.ordered(),
            self.additive(),
            self.multiplicative(),
            !self.above(self.zero(), radius),
        ensures
            !self.above(self.zero(), self.mass(radius)),
    {
        let pi = self.constant(PI_NUMERATOR, PI_DENOMINATOR);
        let once = self.product(pi, radius);
        let twice = self.product(once, radius);
        let thrice = self.product(twice, radius);
        assert(!self.above(self.zero(), pi));
        assert(!self.above(self.zero(), self.constant(DENSITY, 1)));
        self.lemma_product_not_negative(pi, radius);
        self.lemma_product_not_negative(once, radius);
        self.lemma_product_not_negative(twice, radius);
        self.lemma_product_not_negative(thrice, self.constant(DENSITY, 1));
    }

    /// `draw` is one that a random spawn may make: its radius is at least
    /// [`SPAWN_RADIUS_MIN`] and less than [`SPAWN_RADIUS_MAX`], and its two
    /// other numbers lie between [`SPAWN_DRAW_MIN`] and [`SPAWN_DRAW_MAX`].
    pub open spec fn in_range(self, draw: Draw<S>) -> bool {
        &&& !self.above(self.constant(SPAWN_RADIUS_MIN, 1), draw.radius)
        &&& self.above(self.constant(SPAWN_RADIUS_MAX, 1), draw.radius)
        &&& self.within(draw.across, self.constant(SPAWN_DRAW_MIN, 1), self.constant(SPAWN_DRAW_MAX, 1))
        &&& self.within(draw.up, self.constant(SPAWN_DRAW_MIN, 1), self.constant(SPAWN_DRAW_MAX, 1))
    }

    /// `body` keeps to the bounds of a random spawn in a view `width` wide
    /// and `height` high: its radius is at least [`SPAWN_RADIUS_MIN`] and
    /// less than [`SPAWN_RADIUS_MAX`], and it lies within two fifths of the
    /// width of the view to either side of the centre and within two fifths
    /// of its height above and below.
    pub open spec fn in_bounds(self, body: Body<S>, width: u32, height: u32) -> bool {
        &&& !self.above(self.constant(SPAWN_RADIUS_MIN, 1), body.radius)
        &&& self.above(self.constant(SPAWN_RADIUS_MAX, 1), body.radius)
        &&& self.within(
            body.position.x,
            self.spread(self.constant(SPAWN_DRAW_MIN, 1), width),
            self.spread(self.constant(SPAWN_DRAW_MAX, 1), width),
        )
        &&& self.within(
            body.position.y,
            self.spread(self.constant(SPAWN_DRAW_MIN, 1), height),
            self.spread(self.constant(SPAWN_DRAW_MAX, 1), height),
        )
    }

    /// Where multiplication keeps the order, the body of a draw that is in
    /// range keeps to the bounds of a random spawn.
    pub proof fn lemma_scattered_in_bounds(self, draw: Draw<S>, width: u32, height: u32)
        requires
            self.ordered(),
            self.in_range(draw),
        ensures
            self.in_bounds(self.scattered(draw, width, height), width, height),
    {
        self.lemma_spread_keeps_order(self.constant(SPAWN_DRAW_MIN, 1), draw.across, width);
        self.lemma_spread_keeps_order(draw.across, self.constant(SPAWN_DRAW_MAX, 1), width);
        self.lemma_spread_keeps_order(self.constant(SPAWN_DRAW_MIN, 1), draw.up, height);
        self.lemma_spread_keeps_order(draw.up, self.constant(SPAWN_DRAW_MAX, 1), height);
    }

    /// Of two draws along a side of the view, the one that does not exceed
    /// the other is spread to a place that does not exceed the other's.
    pub proof fn lemma_spread_keeps_order(self, a: S, b: S, extent: u32)
        requires
            self.ordered(),
            !self.above(a, b),
        ensures
            !self.above(self.spread(a, extent), self.spread(b, extent)),
    {
        let side = self.constant(extent as i64, 1);
        let reach = self.constant(SPAWN_REACH_NUMERATOR, SPAWN_REACH_DENOMINATOR);
        assert(!self.above(self.zero(), side));
        assert(!self.above(self.zero(), reach));
        assert(!self.above(self.product(a, side), self.product(b, side)));
    }

    /// The mass of a body of the given radius.
    pub fn mass_of(&self, radius: S) -> (mass: S)
        requires
            self.exact(),
        ensures
            mass == self.mass(radius),
    {
        let pi = (self.ratio)(PI_NUMERATOR, PI_DENOMINATOR);
        let density = (self.ratio)(DENSITY, 1);
        (self.times)((self.times)((self.times)((self.times)(pi, radius), radius), radius), density)
    }

    /// The velocity of a body whose gesture was anchored at `anchor` and
    /// released at `release`.
    pub fn launch_velocity(&self, anchor: Vector<S>, release: Vector<S>) -> (velocity: Vector<S>)
        requires
            self.exact(),
        ensures
            velocity == self.launch(anchor, release),
    {
        let factor = (self.ratio)(LAUNCH_NUMERATOR, LAUNCH_DENOMINATOR);
        Vector {
            x: (self.times)((self.minus)(release.x, anchor.x), factor),
            y: (self.times)((self.minus)(release.y, anchor.y), factor),
        }
    }

    /// The radius that a gesture of `steps` steps stands for.
    pub fn radius_for(&self, steps: u32) -> (radius: S)
        requires
            self.exact(),
        ensures
            radius == self.radius_of_steps(steps),
    {
        (self.ratio)(steps as i64, RADIUS_STEPS_PER_UNIT)
    }

    /// The body of a finished gesture.
    pub fn place(&self, placement: Placement<Vector<S>>) -> (body: Body<S>)
        requires
            self.exact(),
        ensures
            body == self.placed(placement),
    {
        let radius = self.radius_for(placement.radius_steps);
        let zero = (self.ratio)(0, 1);
        Body {
            mass: self.mass_of(radius),
            radius,
            position: placement.anchor,
            acceleration: Vector { x: zero, y: zero },
            velocity: self.launch_velocity(placement.anchor, placement.release),
        }
    }

    /// How far from the centre, along a side of the view of length `extent`,
    /// a random body lies whose draw along that side is `draw`.
    pub fn spread_of(&self, draw: S, extent: u32) -> (place: S)
        requires
            self.exact(),
        ensures
            place == self.spread(draw, extent),
    {
        let reach = (self.ratio)(SPAWN_REACH_NUMERATOR, SPAWN_REACH_DENOMINATOR);
        (self.times)((self.times)(draw, (self.ratio)(extent as i64, 1)), reach)
    }

    /// Whether `body` keeps to the bounds of a random spawn in a view
    /// `width` wide and `height` high.
    pub fn bounded(&self, body: &Body<S>, width: u32, height: u32) -> (kept: bool)
        requires
            self.exact(),
        ensures
            kept == self.in_bounds(*body, width, height),
    {
        let least = (self.ratio)(SPAWN_RADIUS_MIN, 1);
        let most = (self.ratio)(SPAWN_RADIUS_MAX, 1);
        let low = (self.ratio)(SPAWN_DRAW_MIN, 1);
        let high = (self.ratio)(SPAWN_DRAW_MAX, 1);
        let left = self.spread_of(low, width);
        let right = self.spread_of(high, width);
        let bottom = self.spread_of(low, height);
        let top = self.spread_of(high, height);
        let too_small = (self.exceeds)(least, body.radius);
        let small_enough = (self.exceeds)(most, body.radius);
        let too_far_left = (self.exceeds)(left, body.position.x);
        let too_far_right = (self.exceeds)(body.position.x, right);
        let too_far_down = (self.exceeds)(bottom, body.position.y);
        let too_far_up = (self.exceeds)(body.position.y, top);
        !too_small && small_enough && !too_far_left && !too_far_right && !too_far_down
            && !too_far_up
    }

    /// The body of a random draw in a view `width` wide and `height` high.
    ///
    /// Where multiplication keeps the order, the body of a draw that is in
    /// range keeps to the bounds of a random spawn.
    pub fn scatter(&self, draw: Draw<S>, width: u32, height: u32) -> (body: Body<S>)
        requires
            self.exact(),
        ensures
            body == self.scattered(draw, width, height),
            self.ordered() && self.in_range(draw) ==> self.in_bounds(body, width, height),
    {
        proof {
            if self.ordered() && self.in_range(draw) {
                self.lemma_scattered_in_bounds(draw, width, height);
            }
        }
        let zero = (self.ratio)(0, 1);
        let x = self.spread_of(draw.across, width);
        let y = self.spread_of(draw.up, height);
        Body {
            mass: self.mass_of(draw.radius),
            radius: draw.radius,
            position: Vector { x, y },
            acceleration: Vector { x: zero, y: zero },
            velocity: Vector { x: zero, y: zero },
        }
    }
}

} // verus!
