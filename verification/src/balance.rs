//! The balance of forces over a force pass.
//!
//! What gravity adds to one body of a pair it takes from the other, so the
//! forces on all bodies together add up to what they were before the pass.
//! This is exact in an arithmetic that does not round. In one that rounds
//! it holds up to the rounding, which the library, knowing nothing of the
//! numbers, cannot state.

use crate::arithmetic::{Arithmetic, Vector};
use crate::body::Body;
use crate::pairs::{lemma_schedule_sound, schedule};
use vstd::prelude::*;

verus! {

impl<
    S: Copy,
    Plus: Fn(S, S) -> S,
    Minus: Fn(S, S) -> S,
    Times: Fn(S, S) -> S,
    Over: Fn(S, S) -> S,
    Exceeds: Fn(S, S) -> bool,
    Ratio: Fn(i64, i64) -> S,
    Root: Fn(S) -> S,
> Arithmetic<Plus, Minus, Times, Over, Exceeds, Ratio, Root> {
    /// For every body, its mass times its acceleration to the right.
    pub open spec fn forces_x(self, bodies: Seq<Body<S>>) -> Seq<S> {
        Seq::new(bodies.len(), |k: int| self.product(bodies[k].mass, bodies[k].acceleration.x))
    }

    /// For every body, its mass times its acceleration upwards.
    pub open spec fn forces_y(self, bodies: Seq<Body<S>>) -> Seq<S> {
        Seq::new(bodies.len(), |k: int| self.product(bodies[k].mass, bodies[k].acceleration.y))
    }

    /// The forces on all bodies, added up: the sum over the bodies of mass
    /// times acceleration.
    pub open spec fn net_force(self, bodies: Seq<Body<S>>) -> Vector<S> {
        Vector { x: self.total(self.forces_x(bodies)), y: self.total(self.forces_y(bodies)) }
    }

    /// No body has a mass of zero.
    pub open spec fn massive(self, bodies: Seq<Body<S>>) -> bool {
        forall|k: int| 0 <= k < bodies.len() ==> (#[trigger] bodies[k]).mass != self.zero()
    }

    /// Where one term gains what another loses and the rest stay, the sum
    /// stays.
    pub proof fn lemma_total_balanced(
        self,
        terms: Seq<S>,
        after: Seq<S>,
        first: int,
        second: int,
        gain: S,
    )
        requires
            self.additive(),
            0 <= first < terms.len(),
            0 <= second < terms.len(),
            first != second,
            after.len() == terms.len(),
            after[first] == self.sum(terms[first], gain),
            after[second] == self.sum(terms[second], self.negative(gain)),
            forall|k: int|
                0 <= k < terms.len() && k != first && k != second ==> after[k] == terms[k],
        ensures
            self.total(after) == self.total(terms),
    {
        let gained = terms.update(first, self.sum(terms[first], gain));
        let settled = gained.update(second, self.sum(gained[second], self.negative(gain)));
        self.lemma_total_gains(terms, first, gain);
        self.lemma_total_gains(gained, second, self.negative(gain));
        assert(settled =~= after);
        self.lemma_take_away(self.total(terms), gain);
    }

    /// A meeting of two bodies with mass keeps the net force: in an
    /// arithmetic that does not round, what the pull adds to the force on
    /// the one it takes from the force on the other.
    pub proof fn lemma_meeting_keeps_net_force(self, bodies: Seq<Body<S>>, pair: (nat, nat))
        requires
            self.unrounded(),
            self.additive(),
            pair.0 < pair.1 < bodies.len(),
            bodies[pair.0 as int].mass != self.zero(),
            bodies[pair.1 as int].mass != self.zero(),
        ensures
            self.net_force(self.met(bodies, pair)) == self.net_force(bodies),
    {
        let i = pair.0 as int;
        let j = pair.1 as int;
        let a = bodies[i];
        let b = bodies[j];
        if self.apart(a, b) {
            let after = self.met(bodies, pair);
            let force = self.pull(a, b);
            assert(after[i] == self.pushed(a, force));
            assert(after[j] == self.pushed_back(b, force));
            self.lemma_component_gains(a.mass, a.acceleration.x, force.x);
            self.lemma_component_loses(b.mass, b.acceleration.x, force.x);
            self.lemma_total_balanced(self.forces_x(bodies), self.forces_x(after), i, j, force.x);
            self.lemma_component_gains(a.mass, a.acceleration.y, force.y);
            self.lemma_component_loses(b.mass, b.acceleration.y, force.y);
            self.lemma_total_balanced(self.forces_y(bodies), self.forces_y(after), i, j, force.y);
        } else {
            self.lemma_excluded_pair_untouched(bodies, pair);
        }
    }

    /// Mass times an acceleration that has grown by a force divided by the
    /// mass is the old product and the force.
    proof fn lemma_component_gains(self, mass: S, acceleration: S, force: S)
        requires
            self.unrounded(),
            self.additive(),
            mass != self.zero(),
        ensures
            self.product(mass, self.sum(acceleration, self.quotient(force, mass))) == self.sum(
                self.product(mass, acceleration),
                force,
            ),
    {
        let share = self.quotient(force, mass);
        self.lemma_spread_out(mass, acceleration, share);
        assert(self.product(mass, share) == force);
    }

    /// Mass times an acceleration that has shrunk by a force divided by the
    /// mass is the old product and the opposite of the force.
    proof fn lemma_component_loses(self, mass: S, acceleration: S, force: S)
        requires
            self.unrounded(),
            self.additive(),
            mass != self.zero(),
        ensures
            self.product(mass, self.difference(acceleration, self.quotient(force, mass)))
                == self.sum(self.product(mass, acceleration), self.negative(force)),
    {
        let share = self.quotient(force, mass);
        self.lemma_spread_out(mass, acceleration, share);
        assert(self.product(mass, share) == force);
    }

    /// The first meetings of a pass keep the net force.
    pub proof fn lemma_accumulated_upto_keeps_net_force(self, bodies: Seq<Body<S>>, meetings: nat)
        requires
            self.unrounded(),
            self.additive(),
            self.massive(bodies),
            meetings <= schedule(bodies.len()).len(),
        ensures
            self.net_force(self.accumulated_upto(bodies, meetings)) == self.net_force(bodies),
        decreases meetings,
    {
        if meetings > 0 {
            let before = self.accumulated_upto(bodies, (meetings - 1) as nat);
            let pair = schedule(bodies.len())[meetings - 1];
            self.lemma_accumulated_upto_keeps_net_force(bodies, (meetings - 1) as nat);
            lemma_schedule_sound(bodies.len(), meetings - 1);
            self.lemma_accumulated_upto_keeps_the_rest(bodies, (meetings - 1) as nat, pair.0 as int);
            self.lemma_accumulated_upto_keeps_the_rest(bodies, (meetings - 1) as nat, pair.1 as int);
            assert(bodies[pair.0 as int].mass != self.zero());
            assert(bodies[pair.1 as int].mass != self.zero());
            self.lemma_meeting_keeps_net_force(before, pair);
        }
    }

    /// A force pass keeps the net force. In an arithmetic that does not
    /// round, the forces on bodies with mass add up after the pass to what
    /// they added up to before it, however many bodies there are.
    pub proof fn lemma_accumulated_keeps_net_force(self, bodies: Seq<Body<S>>)
        requires
            self.unrounded(),
            self.additive(),
            self.massive(bodies),
        ensures
            self.net_force(self.accumulated(bodies)) == self.net_force(bodies),
    {
        self.lemma_accumulated_upto_keeps_net_force(bodies, schedule(bodies.len()).len());
    }

    /// Bodies without acceleration feel no net force.
    pub proof fn lemma_net_force_at_rest(self, bodies: Seq<Body<S>>)
        requires
            self.additive(),
            forall|k: int|
                0 <= k < bodies.len() ==> (#[trigger] bodies[k]).acceleration == self.zero_vector(),
        ensures
            self.net_force(bodies) == self.zero_vector(),
    {
        assert forall|k: int| 0 <= k < bodies.len() implies #[trigger] self.forces_x(bodies)[k]
            == self.zero() by {
            assert(bodies[k].acceleration == self.zero_vector());
            self.lemma_nothing(bodies[k].mass);
        }
        assert forall|k: int| 0 <= k < bodies.len() implies #[trigger] self.forces_y(bodies)[k]
            == self.zero() by {
            assert(bodies[k].acceleration == self.zero_vector());
            self.lemma_nothing(bodies[k].mass);
        }
        self.lemma_total_of_nothing(self.forces_x(bodies));
        self.lemma_total_of_nothing(self.forces_y(bodies));
    }

    /// A sum of zeros is zero.
    proof fn lemma_total_of_nothing(self, terms: Seq<S>)
        requires
            self.additive(),
            forall|k: int| 0 <= k < terms.len() ==> #[trigger] terms[k] == self.zero(),
        ensures
            self.total(terms) == self.zero(),
        decreases terms.len(),
    {
        if terms.len() > 0 {
            self.lemma_total_of_nothing(terms.drop_last());
            assert(terms.last() == self.zero());
            self.lemma_nothing(self.zero());
        }
    }

    /// After a force pass that starts from rest, the net force is zero: in
    /// an arithmetic that does not round, the masses times the accelerations
    /// of bodies with mass add up to nothing.
    pub proof fn lemma_forces_cancel(self, bodies: Seq<Body<S>>)
        requires
            self.unrounded(),
            self.additive(),
            self.massive(bodies),
            forall|k: int|
                0 <= k < bodies.len() ==> (#[trigger] bodies[k]).acceleration == self.zero_vector(),
        ensures
            self.net_force(self.accumulated(bodies)) == self.zero_vector(),
    {
        self.lemma_accumulated_keeps_net_force(bodies);
        self.lemma_net_force_at_rest(bodies);
    }
}

} // verus!
