//! The motion pass: how a tick moves the bodies.
//!
//! Every body is advanced by itself, in three steps and in this order: its
//! velocity grows by a fixed share of its acceleration, whatever the length
//! of the tick; its position grows by the new velocity times the length of
//! the tick; its acceleration is cleared.

use crate::arithmetic::{Arithmetic, Vector};
use crate::body::Body;
use crate::registry::Registry;
use vstd::prelude::*;

verus! {

/// In a tick the velocity of a body grows by `IMPULSE_NUMERATOR /
/// IMPULSE_DENOMINATOR` of its acceleration.
pub const IMPULSE_NUMERATOR: i64 = 1;

/// See [`IMPULSE_NUMERATOR`].
pub const IMPULSE_DENOMINATOR: i64 = 10;

impl<
    S: Copy,
    Plus: Fn(S, S) -> S,
    Minus: Fn(S, S) -> S,
    Times: Fn(S, S) -> S,
    Over: Fn(S, S) -> S,
    Exceeds: Fn(S, S) -> bool,
    Ratio: Fn(i64, i64) -> S,
    Root: Fn(S) -> S,
> Arithmetic<Plus, Minus, Times, Over, Exceeds, Ratio, Root> {
    /// The velocity of `body` after a tick: `velocity + acceleration *
    /// 1/10`.
    pub open spec fn kicked(self, body: Body<S>) -> Vector<S> {
        self.displaced(
            body.velocity,
            body.acceleration,
            self.constant(IMPULSE_NUMERATOR, IMPULSE_DENOMINATOR),
        )
    }

    /// `body` after a tick of length `dt`: the velocity is the kicked one,
    /// the position is `position + kicked velocity * dt`, the acceleration
    /// is cleared, mass and radius are kept.
    pub open spec fn advanced(self, body: Body<S>, dt: S) -> Body<S> {
        Body {
            mass: body.mass,
            radius: body.radius,
            position: self.displaced(body.position, self.kicked(body), dt),
            acceleration: self.zero_vector(),
            velocity: self.kicked(body),
        }
    }

    /// The bodies after a motion pass of length `dt`: each one advanced by
    /// itself.
    pub open spec fn integrated(self, bodies: Seq<Body<S>>, dt: S) -> Seq<Body<S>> {
        Seq::new(bodies.len(), |k: int| self.advanced(bodies[k], dt))
    }

    /// Advances `body` by a tick of length `dt`.
    pub fn advance(&self, body: Body<S>, dt: S) -> (moved: Body<S>)
        requires
            self.exact(),
        ensures
            moved == self.advanced(body, dt),
    {
        let share = (self.ratio)(IMPULSE_NUMERATOR, IMPULSE_DENOMINATOR);
        let zero = (self.ratio)(0, 1);
        let vx = (self.plus)(body.velocity.x, (self.times)(body.acceleration.x, share));
        let vy = (self.plus)(body.velocity.y, (self.times)(body.acceleration.y, share));
        let x = (self.plus)(body.position.x, (self.times)(vx, dt));
        let y = (self.plus)(body.position.y, (self.times)(vy, dt));
        Body {
            mass: body.mass,
            radius: body.radius,
            position: Vector { x, y },
            acceleration: Vector { x: zero, y: zero },
            velocity: Vector { x: vx, y: vy },
        }
    }

    /// The motion pass of length `dt` over the bodies of `registry`.
    pub fn integrate(&self, registry: &mut Registry<Body<S>>, dt: S)
        requires
            self.exact(),
        ensures
            final(registry)@ == self.integrated(old(registry)@, dt),
    {
        let mut k: usize = 0;
        while k < registry.len()
            invariant
                self.exact(),
                k <= registry@.len(),
                registry@.len() == old(registry)@.len(),
                forall|m: int| 0 <= m < k ==> registry@[m] == self.advanced(old(registry)@[m], dt),
                forall|m: int| k <= m < registry@.len() ==> registry@[m] == old(registry)@[m],
            decreases registry@.len() - k,
        {
            let moved = self.advance(*registry.at(k), dt);
            registry.put(k, moved);
            k = k + 1;
        }
        assert(registry@ =~= self.integrated(old(registry)@, dt));
    }
}

} // verus!
