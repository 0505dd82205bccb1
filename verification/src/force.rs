//! The force pass: what gravity adds to the accelerations in one tick.
//!
//! Every two bodies meet once, in the order of the schedule. Two bodies act
//! on each other only where the square of their distance exceeds the square
//! of the radius of each. The force between them has the size `gravitation *
//! mass * mass / distance^2` and points from the first body to the second.
//! It adds to the acceleration of the first and takes from the acceleration
//! of the second, each divided by the body's own mass. Nothing but the two
//! accelerations changes.

use crate::arithmetic::{Arithmetic, Vector};
use crate::body::Body;
use crate::pairs::{lemma_schedule_len, lemma_schedule_sound, schedule, PairCursor};
use crate::registry::Registry;
use vstd::prelude::*;

verus! {

/// The strength of gravity is the product of `GRAVITATION_NUMERATOR /
/// GRAVITATION_DENOMINATOR` and `1 / GRAVITATION_SCALE`.
pub const GRAVITATION_NUMERATOR: i64 = 831;

/// See [`GRAVITATION_NUMERATOR`].
pub const GRAVITATION_DENOMINATOR: i64 = 100;

/// See [`GRAVITATION_NUMERATOR`].
pub const GRAVITATION_SCALE: i64 = 10_000;

impl<
    S: Copy,
    Plus: Fn(S, S) -> S,
    Minus: Fn(S, S) -> S,
    Times: Fn(S, S) -> S,
    Over: Fn(S, S) -> S,
    Exceeds: Fn(S, S) -> bool,
    Ratio: Fn(i64, i64) -> S,
    Root: Fn(S) -> S,
> Arithmetic<Plus, Minus, Times, Over, Exceeds, Ratio, Root> {
    /// The strength of gravity.
    pub open spec fn gravitation(self) -> S {
        self.product(
            self.constant(GRAVITATION_NUMERATOR, GRAVITATION_DENOMINATOR),
            self.constant(1, GRAVITATION_SCALE),
        )
    }

    /// The way from `a` to `b`.
    pub open spec fn offset(self, a: Body<S>, b: Body<S>) -> Vector<S> {
        self.vector_difference(b.position, a.position)
    }

    /// The square of the distance between `a` and `b`.
    pub open spec fn distance_squared(self, a: Body<S>, b: Body<S>) -> S {
        self.length_squared(self.offset(a, b))
    }

    /// Whether `a` and `b` act on each other: the square of their distance
    /// exceeds the square of the radius of `a` and that of `b`.
    pub open spec fn apart(self, a: Body<S>, b: Body<S>) -> bool {
        &&& self.above(self.distance_squared(a, b), self.product(a.radius, a.radius))
        &&& self.above(self.distance_squared(a, b), self.product(b.radius, b.radius))
    }

    /// The distance between `a` and `b`.
    pub open spec fn distance(self, a: Body<S>, b: Body<S>) -> S {
        self.length(self.offset(a, b))
    }

    /// The size of the force between `a` and `b`: `gravitation * a.mass *
    /// b.mass / distance^2`, multiplied from left to right.
    pub open spec fn attraction(self, a: Body<S>, b: Body<S>) -> S {
        self.quotient(
            self.product(self.product(self.gravitation(), a.mass), b.mass),
            self.distance_squared(a, b),
        )
    }

    /// The force that draws `a` to `b`: of the size of the attraction, along
    /// the way from `a` to `b`. It is the way from `a` to `b` times the
    /// attraction divided by the distance, which is the way brought to
    /// length one, times the attraction.
    pub open spec fn pull(self, a: Body<S>, b: Body<S>) -> Vector<S> {
        self.scaled(self.offset(a, b), self.quotient(self.attraction(a, b), self.distance(a, b)))
    }

    /// `body` after `force` has acted on it: its acceleration has grown by
    /// the force divided by its mass.
    pub open spec fn pushed(self, body: Body<S>, force: Vector<S>) -> Body<S> {
        Body {
            acceleration: Vector {
                x: self.sum(body.acceleration.x, self.quotient(force.x, body.mass)),
                y: self.sum(body.acceleration.y, self.quotient(force.y, body.mass)),
            },
            ..body
        }
    }

    /// `body` after the opposite of `force` has acted on it: its
    /// acceleration has shrunk by the force divided by its mass.
    pub open spec fn pushed_back(self, body: Body<S>, force: Vector<S>) -> Body<S> {
        Body {
            acceleration: Vector {
                x: self.difference(body.acceleration.x, self.quotient(force.x, body.mass)),
                y: self.difference(body.acceleration.y, self.quotient(force.y, body.mass)),
            },
            ..body
        }
    }

    /// `a` and `b` after they have met: where they are apart, the pull
    /// between them pushes `a` and pushes `b` back; where they are not,
    /// both stay as they are.
    pub open spec fn interacted(self, a: Body<S>, b: Body<S>) -> (Body<S>, Body<S>) {
        if self.apart(a, b) {
            (self.pushed(a, self.pull(a, b)), self.pushed_back(b, self.pull(a, b)))
        } else {
            (a, b)
        }
    }

    /// The bodies after the two under `pair` have met.
    pub open spec fn met(self, bodies: Seq<Body<S>>, pair: (nat, nat)) -> Seq<Body<S>> {
        let both = self.interacted(bodies[pair.0 as int], bodies[pair.1 as int]);
        bodies.update(pair.0 as int, both.0).update(pair.1 as int, both.1)
    }

    /// The bodies after the first `meetings` pairs of the schedule have met.
    pub open spec fn accumulated_upto(self, bodies: Seq<Body<S>>, meetings: nat) -> Seq<Body<S>>
        decreases meetings,
    {
        if meetings == 0 {
            bodies
        } else {
            self.met(
                self.accumulated_upto(bodies, (meetings - 1) as nat),
                schedule(bodies.len())[meetings - 1],
            )
        }
    }

    /// The bodies after a force pass.
    pub open spec fn accumulated(self, bodies: Seq<Body<S>>) -> Seq<Body<S>> {
        self.accumulated_upto(bodies, schedule(bodies.len()).len())
    }

    /// The strength of gravity.
    pub fn gravity(&self) -> (strength: S)
        requires
            self.exact(),
        ensures
            strength == self.gravitation(),
    {
        (self.times)(
            (self.ratio)(GRAVITATION_NUMERATOR, GRAVITATION_DENOMINATOR),
            (self.ratio)(1, GRAVITATION_SCALE),
        )
    }

    /// Whether `a` and `b` act on each other.
    pub fn separated(&self, a: &Body<S>, b: &Body<S>) -> (apart: bool)
        requires
            self.exact(),
        ensures
            apart == self.apart(*a, *b),
    {
        let dx = (self.minus)(b.position.x, a.position.x);
        let dy = (self.minus)(b.position.y, a.position.y);
        let distance_squared = (self.plus)((self.times)(dx, dx), (self.times)(dy, dy));
        let beyond_first = (self.exceeds)(distance_squared, (self.times)(a.radius, a.radius));
        let beyond_second = (self.exceeds)(distance_squared, (self.times)(b.radius, b.radius));
        beyond_first && beyond_second
    }

    /// Lets `a` and `b` meet and returns what becomes of them, `a` first.
    ///
    /// Two bodies that are not apart come back as they were. Of two that are
    /// apart only the accelerations change, and in an arithmetic that does
    /// not round the force on the one is the opposite of the force on the
    /// other.
    pub fn interact(&self, a: Body<S>, b: Body<S>) -> (both: (Body<S>, Body<S>))
        requires
            self.exact(),
        ensures
            both == self.interacted(a, b),
            !self.apart(a, b) ==> both == (a, b),
            self.unrounded() && self.apart(a, b) && a.mass != self.zero() && b.mass != self.zero()
                ==> {
                &&& self.force_received(a, both.0).x == self.negative(
                    self.force_received(b, both.1).x,
                )
                &&& self.force_received(a, both.0).y == self.negative(
                    self.force_received(b, both.1).y,
                )
            },
    {
        proof {
            if self.unrounded() && self.apart(a, b) && a.mass != self.zero() && b.mass
                != self.zero() {
                self.lemma_action_equals_reaction(a, b);
            }
        }
        let dx = (self.minus)(b.position.x, a.position.x);
        let dy = (self.minus)(b.position.y, a.position.y);
        let distance_squared = (self.plus)((self.times)(dx, dx), (self.times)(dy, dy));
        if !(self.exceeds)(distance_squared, (self.times)(a.radius, a.radius)) {
            return (a, b);
        }
        if !(self.exceeds)(distance_squared, (self.times)(b.radius, b.radius)) {
            return (a, b);
        }
        let attraction = (self.over)(
            (self.times)((self.times)(self.gravity(), a.mass), b.mass),
            distance_squared,
        );
        let distance = (self.root)(distance_squared);
        let per_length = (self.over)(attraction, distance);
        let fx = (self.times)(dx, per_length);
        let fy = (self.times)(dy, per_length);
        let first = Body {
            mass: a.mass,
            radius: a.radius,
            position: a.position,
            acceleration: Vector {
                x: (self.plus)(a.acceleration.x, (self.over)(fx, a.mass)),
                y: (self.plus)(a.acceleration.y, (self.over)(fy, a.mass)),
            },
            velocity: a.velocity,
        };
        let second = Body {
            mass: b.mass,
            radius: b.radius,
            position: b.position,
            acceleration: Vector {
                x: (self.minus)(b.acceleration.x, (self.over)(fx, b.mass)),
                y: (self.minus)(b.acceleration.y, (self.over)(fy, b.mass)),
            },
            velocity: b.velocity,
        };
        (first, second)
    }

    /// The force pass over the bodies of `registry`.
    ///
    /// In an arithmetic that does not round, the pass keeps the net force on
    /// bodies with mass: what it adds to the accelerations, weighted by the
    /// masses, adds up to nothing.
    pub fn accumulate(&self, registry: &mut Registry<Body<S>>)
        requires
            self.exact(),
        ensures
            final(registry)@ == self.accumulated(old(registry)@),
            final(registry)@.len() == old(registry)@.len(),
            self.unrounded() && self.additive() && self.massive(old(registry)@) ==> self.net_force(
                final(registry)@,
            ) == self.net_force(old(registry)@),
    {
        let ghost start = registry@;
        let ghost n = start.len();
        let mut cursor = registry.pairs();
        loop
            invariant
                self.exact(),
                start == old(registry)@,
                n == start.len(),
                registry@.len() == n,
                cursor.count() == n,
                cursor.position() <= schedule(n).len(),
                registry@ == self.accumulated_upto(start, cursor.position()),
            ensures
                cursor.position() == schedule(n).len(),
            decreases schedule(n).len() - cursor.position(),
        {
            let ghost at = cursor.position() as int;
            match cursor.fetch_next() {
                Some((i, j)) => {
                    proof {
                        lemma_schedule_sound(n, at);
                    }
                    let (first, second) = self.interact(*registry.at(i), *registry.at(j));
                    registry.put(i, first);
                    registry.put(j, second);
                },
                None => {
                    break ;
                },
            }
        }
        proof {
            if self.unrounded() && self.additive() && self.massive(start) {
                self.lemma_accumulated_keeps_net_force(start);
            }
        }
    }

    /// Two bodies that are not apart leave their meeting as they entered
    /// it, and so do all the others.
    pub proof fn lemma_excluded_pair_untouched(self, bodies: Seq<Body<S>>, pair: (nat, nat))
        requires
            pair.0 < bodies.len(),
            pair.1 < bodies.len(),
            !self.apart(bodies[pair.0 as int], bodies[pair.1 as int]),
        ensures
            self.interacted(bodies[pair.0 as int], bodies[pair.1 as int]) == (
                bodies[pair.0 as int],
                bodies[pair.1 as int],
            ),
            self.met(bodies, pair) == bodies,
    {
        assert(self.met(bodies, pair) =~= bodies);
    }

    /// The force on the first body of a meeting is the force on the second,
    /// turned round: the same pull is added to the one acceleration and
    /// taken from the other, each time divided by the body's own mass.
    pub proof fn lemma_forces_are_mutual(self, a: Body<S>, b: Body<S>)
        requires
            self.apart(a, b),
        ensures
            self.interacted(a, b).0.acceleration.x == self.sum(
                a.acceleration.x,
                self.quotient(self.pull(a, b).x, a.mass),
            ),
            self.interacted(a, b).0.acceleration.y == self.sum(
                a.acceleration.y,
                self.quotient(self.pull(a, b).y, a.mass),
            ),
            self.interacted(a, b).1.acceleration.x == self.difference(
                b.acceleration.x,
                self.quotient(self.pull(a, b).x, b.mass),
            ),
            self.interacted(a, b).1.acceleration.y == self.difference(
                b.acceleration.y,
                self.quotient(self.pull(a, b).y, b.mass),
            ),
    {
    }

    /// The force that has acted on a body in a meeting, read off the body:
    /// its mass times what its acceleration has gained.
    pub open spec fn force_received(self, before: Body<S>, after: Body<S>) -> Vector<S> {
        Vector {
            x: self.product(
                before.mass,
                self.difference(after.acceleration.x, before.acceleration.x),
            ),
            y: self.product(
                before.mass,
                self.difference(after.acceleration.y, before.acceleration.y),
            ),
        }
    }

    /// Action equals reaction. In an arithmetic that does not round, the
    /// force that a meeting exerts on its first body is the pull between the
    /// two, and the force on its second body is the opposite of it, whatever
    /// the two masses are, as long as neither is zero.
    pub proof fn lemma_action_equals_reaction(self, a: Body<S>, b: Body<S>)
        requires
            self.unrounded(),
            self.apart(a, b),
            a.mass != self.zero(),
            b.mass != self.zero(),
        ensures
            self.force_received(a, self.interacted(a, b).0) == self.pull(a, b),
            self.force_received(b, self.interacted(a, b).1).x == self.negative(self.pull(a, b).x),
            self.force_received(b, self.interacted(a, b).1).y == self.negative(self.pull(a, b).y),
            self.force_received(a, self.interacted(a, b).0).x == self.negative(
                self.force_received(b, self.interacted(a, b).1).x,
            ),
            self.force_received(a, self.interacted(a, b).0).y == self.negative(
                self.force_received(b, self.interacted(a, b).1).y,
            ),
    {
        let force = self.pull(a, b);
        self.lemma_component_reacts(a.mass, b.mass, a.acceleration.x, b.acceleration.x, force.x);
        self.lemma_component_reacts(a.mass, b.mass, a.acceleration.y, b.acceleration.y, force.y);
    }

    /// One component of a meeting of two bodies that are apart.
    proof fn lemma_component_reacts(
        self,
        first_mass: S,
        second_mass: S,
        first: S,
        second: S,
        force: S,
    )
        requires
            self.unrounded(),
            first_mass != self.zero(),
            second_mass != self.zero(),
        ensures
            self.product(
                first_mass,
                self.difference(self.sum(first, self.quotient(force, first_mass)), first),
            ) == force,
            self.product(
                second_mass,
                self.difference(self.difference(second, self.quotient(force, second_mass)), second),
            ) == self.negative(force),
            self.negative(self.negative(force)) == force,
    {
        let gained = self.quotient(force, first_mass);
        let lost = self.quotient(force, second_mass);
        assert(self.difference(self.sum(first, gained), first) == gained);
        assert(self.product(first_mass, gained) == force);
        assert(self.difference(self.difference(second, lost), second) == self.negative(lost));
        assert(self.product(second_mass, self.negative(lost)) == self.negative(
            self.product(second_mass, lost),
        ));
        assert(self.product(second_mass, lost) == force);
    }

    /// The pull has the size of the attraction. In an arithmetic that does
    /// not round, and where the distance is not zero and is the root of its
    /// square, the square of the length of the pull is the square of
    /// `gravitation * a.mass * b.mass / distance^2`, however far apart the
    /// two bodies are.
    pub proof fn lemma_pull_has_the_size_of_the_attraction(self, a: Body<S>, b: Body<S>)
        requires
            self.unrounded(),
            self.multiplicative(),
            self.distance(a, b) != self.zero(),
            self.product(self.distance(a, b), self.distance(a, b)) == self.distance_squared(a, b),
        ensures
            self.length_squared(self.pull(a, b)) == self.product(
                self.attraction(a, b),
                self.attraction(a, b),
            ),
    {
        let way = self.offset(a, b);
        let distance = self.distance(a, b);
        let per_length = self.quotient(self.attraction(a, b), distance);
        let squared = self.product(per_length, per_length);
        self.lemma_square_of_product(way.x, per_length);
        self.lemma_square_of_product(way.y, per_length);
        self.lemma_gather(self.product(way.x, way.x), self.product(way.y, way.y), squared);
        assert(self.length_squared(self.pull(a, b)) == self.product(
            self.distance_squared(a, b),
            squared,
        ));
        self.lemma_square_of_product(distance, per_length);
        assert(self.product(distance, per_length) == self.attraction(a, b));
    }

    /// A meeting changes nothing but the accelerations of its two bodies.
    pub proof fn lemma_meeting_keeps_the_rest(self, bodies: Seq<Body<S>>, pair: (nat, nat), k: int)
        requires
            pair.0 < bodies.len(),
            pair.1 < bodies.len(),
            0 <= k < bodies.len(),
        ensures
            self.met(bodies, pair).len() == bodies.len(),
            self.met(bodies, pair)[k].mass == bodies[k].mass,
            self.met(bodies, pair)[k].radius == bodies[k].radius,
            self.met(bodies, pair)[k].position == bodies[k].position,
            self.met(bodies, pair)[k].velocity == bodies[k].velocity,
            k != pair.0 && k != pair.1 ==> self.met(bodies, pair)[k] == bodies[k],
    {
    }

    /// Through a force pass, every body keeps its mass, its radius, its
    /// position and its velocity, and no body is added or removed.
    pub proof fn lemma_accumulated_upto_keeps_the_rest(
        self,
        bodies: Seq<Body<S>>,
        meetings: nat,
        k: int,
    )
        requires
            meetings <= schedule(bodies.len()).len(),
            0 <= k < bodies.len(),
        ensures
            self.accumulated_upto(bodies, meetings).len() == bodies.len(),
            self.accumulated_upto(bodies, meetings)[k].mass == bodies[k].mass,
            self.accumulated_upto(bodies, meetings)[k].radius == bodies[k].radius,
            self.accumulated_upto(bodies, meetings)[k].position == bodies[k].position,
            self.accumulated_upto(bodies, meetings)[k].velocity == bodies[k].velocity,
        decreases meetings,
    {
        if meetings > 0 {
            let before = self.accumulated_upto(bodies, (meetings - 1) as nat);
            self.lemma_accumulated_upto_keeps_the_rest(bodies, (meetings - 1) as nat, k);
            lemma_schedule_sound(bodies.len(), meetings - 1);
            self.lemma_meeting_keeps_the_rest(before, schedule(bodies.len())[meetings - 1], k);
        }
    }

    /// A force pass changes nothing but accelerations.
    pub proof fn lemma_accumulated_keeps_the_rest(self, bodies: Seq<Body<S>>, k: int)
        requires
            0 <= k < bodies.len(),
        ensures
            self.accumulated(bodies).len() == bodies.len(),
            self.accumulated(bodies)[k].mass == bodies[k].mass,
            self.accumulated(bodies)[k].radius == bodies[k].radius,
            self.accumulated(bodies)[k].position == bodies[k].position,
            self.accumulated(bodies)[k].velocity == bodies[k].velocity,
    {
        self.lemma_accumulated_upto_keeps_the_rest(bodies, schedule(bodies.len()).len(), k);
    }

    /// A force pass keeps the number of bodies.
    pub proof fn lemma_accumulated_len(self, bodies: Seq<Body<S>>)
        ensures
            self.accumulated(bodies).len() == bodies.len(),
    {
        self.lemma_accumulated_upto_len(bodies, schedule(bodies.len()).len());
    }

    proof fn lemma_accumulated_upto_len(self, bodies: Seq<Body<S>>, meetings: nat)
        requires
            meetings <= schedule(bodies.len()).len(),
        ensures
            self.accumulated_upto(bodies, meetings).len() == bodies.len(),
        decreases meetings,
    {
        if meetings > 0 {
            self.lemma_accumulated_upto_len(bodies, (meetings - 1) as nat);
            lemma_schedule_sound(bodies.len(), meetings - 1);
        }
    }

    /// A body that is alone feels no force: a force pass over fewer than two
    /// bodies changes nothing.
    pub proof fn lemma_lone_body_untouched(self, bodies: Seq<Body<S>>)
        requires
            bodies.len() <= 1,
        ensures
            self.accumulated(bodies) == bodies,
    {
        lemma_schedule_len(bodies.len());
        assert(bodies.len() * (bodies.len() - 1) == 0) by (nonlinear_arith)
            requires
                bodies.len() <= 1,
        ;
    }

    /// Where no two bodies are apart, a force pass changes nothing.
    pub proof fn lemma_crowd_untouched(self, bodies: Seq<Body<S>>)
        requires
            forall|i: int, j: int|
                0 <= i < j < bodies.len() ==> !self.apart(#[trigger] bodies[i], #[trigger] bodies[j]),
        ensures
            self.accumulated(bodies) == bodies,
    {
        self.lemma_crowd_untouched_upto(bodies, schedule(bodies.len()).len());
    }

    proof fn lemma_crowd_untouched_upto(self, bodies: Seq<Body<S>>, meetings: nat)
        requires
            meetings <= schedule(bodies.len()).len(),
            forall|i: int, j: int|
                0 <= i < j < bodies.len() ==> !self.apart(#[trigger] bodies[i], #[trigger] bodies[j]),
        ensures
            self.accumulated_upto(bodies, meetings) == bodies,
        decreases meetings,
    {
        if meetings > 0 {
            self.lemma_crowd_untouched_upto(bodies, (meetings - 1) as nat);
            lemma_schedule_sound(bodies.len(), meetings - 1);
            let pair = schedule(bodies.len())[meetings - 1];
            assert(!self.apart(bodies[pair.0 as int], bodies[pair.1 as int]));
            self.lemma_excluded_pair_untouched(bodies, pair);
        }
    }
}

} // verus!
