//! The simulation as a whole: the live bodies, the gesture in flight, and
//! what each event does to them.
//!
//! The events are a poll of the buttons, the request to clear, the request
//! to spawn a batch of random bodies, and the tick. Between two events
//! every live body has the mass of its radius and no acceleration.

use crate::arithmetic::{Arithmetic, Vector};
use crate::body::{Body, Draw};
use crate::gesture::{ButtonPoll, GestureState, Placement, PlacementGesture};
use crate::registry::Registry;
use vstd::prelude::*;

verus! {

/// How many bodies one random spawn adds.
pub const SPAWN_COUNT: usize = 10;

/// What a simulation holds, as contracts see it.
pub struct SimulationState<S> {
    pub gesture: GestureState<Vector<S>>,
    pub bodies: Seq<Body<S>>,
}

impl<
    S: Copy,
    Plus: Fn(S, S) -> S,
    Minus: Fn(S, S) -> S,
    Times: Fn(S, S) -> S,
    Over: Fn(S, S) -> S,
    Exceeds: Fn(S, S) -> bool,
    Ratio: Fn(i64, i64) -> S,
    Root: Fn(S) -> S,
> Arithmetic<Plus, Minus, Times, Over, Exceeds, Ratio, Root> {
    /// The bodies after a tick of length `dt`: the force pass, then the
    /// motion pass on what the force pass left.
    pub open spec fn ticked(self, bodies: Seq<Body<S>>, dt: S) -> Seq<Body<S>> {
        self.integrated(self.accumulated(bodies), dt)
    }

    /// `body` has the mass of its radius and no acceleration.
    pub open spec fn sound(self, body: Body<S>) -> bool {
        &&& body.mass == self.mass(body.radius)
        &&& body.acceleration == self.zero_vector()
    }

    /// Every one of the bodies is sound.
    pub open spec fn settled(self, bodies: Seq<Body<S>>) -> bool {
        forall|k: int| 0 <= k < bodies.len() ==> self.sound(#[trigger] bodies[k])
    }

    /// The bodies of a random spawn in a view `width` wide and `height`
    /// high, in the order of their draws.
    pub open spec fn scattered_batch(self, draws: Seq<Draw<S>>, width: u32, height: u32) -> Seq<
        Body<S>,
    > {
        Seq::new(draws.len(), |k: int| self.scattered(draws[k], width, height))
    }

    /// The simulation after one poll of the buttons with the cursor at
    /// `cursor`: the gesture goes on as the poll tells it to, and where the
    /// poll hands out a placement, the body of that placement enters behind
    /// the others.
    pub open spec fn polled(
        self,
        state: SimulationState<S>,
        input: ButtonPoll,
        cursor: Vector<S>,
    ) -> SimulationState<S> {
        SimulationState {
            gesture: state.gesture.polled(input, cursor).0,
            bodies: match state.gesture.polled(input, cursor).1 {
                Some(placement) => state.bodies.push(self.placed(placement)),
                None => state.bodies,
            },
        }
    }

    /// One tick of length `dt` over the bodies of `registry`: the force
    /// pass, then the motion pass, each once.
    pub fn tick(&self, registry: &mut Registry<Body<S>>, dt: S)
        requires
            self.exact(),
        ensures
            final(registry)@ == self.ticked(old(registry)@, dt),
    {
        self.accumulate(registry);
        self.integrate(registry, dt);
    }

    /// A tick leaves every body with the mass and the radius it had, and
    /// without acceleration; no body is added or removed.
    pub proof fn lemma_ticked_keeps_bodies(self, bodies: Seq<Body<S>>, dt: S, k: int)
        requires
            0 <= k < bodies.len(),
        ensures
            self.ticked(bodies, dt).len() == bodies.len(),
            self.ticked(bodies, dt)[k].mass == bodies[k].mass,
            self.ticked(bodies, dt)[k].radius == bodies[k].radius,
            self.ticked(bodies, dt)[k].acceleration == self.zero_vector(),
    {
        self.lemma_accumulated_keeps_the_rest(bodies, k);
    }

    /// A tick of settled bodies leaves settled bodies.
    pub proof fn lemma_ticked_is_settled(self, bodies: Seq<Body<S>>, dt: S)
        requires
            self.settled(bodies),
        ensures
            self.settled(self.ticked(bodies, dt)),
            self.ticked(bodies, dt).len() == bodies.len(),
    {
        self.lemma_accumulated_len(bodies);
        assert forall|k: int| 0 <= k < self.ticked(bodies, dt).len() implies self.sound(
            #[trigger] self.ticked(bodies, dt)[k],
        ) by {
            self.lemma_ticked_keeps_bodies(bodies, dt, k);
            assert(self.sound(bodies[k]));
        }
    }

    /// A body that is alone moves as its own velocity and acceleration tell
    /// it to: after a tick of length `dt` its velocity is `velocity +
    /// acceleration * 1/10`, its position is `position + new velocity * dt`
    /// and its acceleration is zero.
    pub proof fn lemma_lone_body_ticked(self, body: Body<S>, dt: S)
        ensures
            self.ticked(seq![body], dt) == seq![self.advanced(body, dt)],
            self.advanced(body, dt).velocity.x == self.sum(
                body.velocity.x,
                self.product(body.acceleration.x, self.constant(1, 10)),
            ),
            self.advanced(body, dt).velocity.y == self.sum(
                body.velocity.y,
                self.product(body.acceleration.y, self.constant(1, 10)),
            ),
            self.advanced(body, dt).position.x == self.sum(
                body.position.x,
                self.product(self.advanced(body, dt).velocity.x, dt),
            ),
            self.advanced(body, dt).position.y == self.sum(
                body.position.y,
                self.product(self.advanced(body, dt).velocity.y, dt),
            ),
            self.advanced(body, dt).acceleration == self.zero_vector(),
    {
        self.lemma_lone_body_untouched(seq![body]);
        assert(self.ticked(seq![body], dt) =~= seq![self.advanced(body, dt)]);
    }

    /// Every body of the batch keeps to the bounds of a random spawn.
    pub open spec fn batch_in_bounds(self, draws: Seq<Draw<S>>, width: u32, height: u32) -> bool {
        forall|k: int|
            0 <= k < draws.len() ==> self.in_bounds(
                #[trigger] self.scattered_batch(draws, width, height)[k],
                width,
                height,
            )
    }

    /// A batch of draws that are in range is in bounds, where multiplication
    /// keeps the order: a random spawn whose draws are in range is owed its
    /// bodies.
    pub proof fn lemma_batch_in_bounds(self, draws: Seq<Draw<S>>, width: u32, height: u32)
        requires
            self.ordered(),
            forall|k: int| 0 <= k < draws.len() ==> self.in_range(#[trigger] draws[k]),
        ensures
            self.batch_in_bounds(draws, width, height),
    {
        assert forall|k: int| 0 <= k < draws.len() implies self.in_bounds(
            #[trigger] self.scattered_batch(draws, width, height)[k],
            width,
            height,
        ) by {
            assert(self.in_range(draws[k]));
            self.lemma_scattered_in_bounds(draws[k], width, height);
        }
    }

    /// The body of a gesture and the body of a random draw are sound.
    pub proof fn lemma_new_bodies_are_sound(
        self,
        placement: Placement<Vector<S>>,
        draw: Draw<S>,
        width: u32,
        height: u32,
    )
        ensures
            self.sound(self.placed(placement)),
            self.sound(self.scattered(draw, width, height)),
    {
    }
}

/// The state of one simulation, owned by whoever runs it.
pub struct Simulation<S, Plus, Minus, Times, Over, Exceeds, Ratio, Root> {
    ops: Arithmetic<Plus, Minus, Times, Over, Exceeds, Ratio, Root>,
    gesture: PlacementGesture<Vector<S>>,
    bodies: Registry<Body<S>>,
}

impl<S, Plus, Minus, Times, Over, Exceeds, Ratio, Root> View for Simulation<
    S,
    Plus,
    Minus,
    Times,
    Over,
    Exceeds,
    Ratio,
    Root,
> {
    type V = SimulationState<S>;

    closed spec fn view(&self) -> SimulationState<S> {
        SimulationState { gesture: self.gesture@, bodies: self.bodies@ }
    }
}

impl<
    S: Copy,
    Plus: Fn(S, S) -> S,
    Minus: Fn(S, S) -> S,
    Times: Fn(S, S) -> S,
    Over: Fn(S, S) -> S,
    Exceeds: Fn(S, S) -> bool,
    Ratio: Fn(i64, i64) -> S,
    Root: Fn(S) -> S,
> Simulation<S, Plus, Minus, Times, Over, Exceeds, Ratio, Root> {
    /// The arithmetic that the simulation was made with.
    pub closed spec fn arithmetic(self) -> Arithmetic<Plus, Minus, Times, Over, Exceeds, Ratio, Root> {
        self.ops
    }

    /// What holds of a simulation between two events: its arithmetic is
    /// exact, its gesture is valid, and every live body has the mass of its
    /// radius and no acceleration.
    pub open spec fn valid(self) -> bool {
        &&& self.arithmetic().exact()
        &&& self@.gesture.valid()
        &&& self.arithmetic().settled(self@.bodies)
    }

    /// A simulation without bodies whose gesture is inert. `origin` is the
    /// anchor that the gesture reports until the first press.
    pub fn new(
        ops: Arithmetic<Plus, Minus, Times, Over, Exceeds, Ratio, Root>,
        origin: Vector<S>,
    ) -> (simulation: Self)
        requires
            ops.exact(),
        ensures
            simulation.valid(),
            simulation.arithmetic() == ops,
            simulation@.gesture == (GestureState { anchor: origin, radius_steps: 0, active: false }),
            simulation@.bodies == Seq::<Body<S>>::empty(),
    {
        Simulation { ops, gesture: PlacementGesture::new(origin), bodies: Registry::new() }
    }

    /// The arithmetic that the simulation was made with.
    pub fn operations(&self) -> (ops: &Arithmetic<Plus, Minus, Times, Over, Exceeds, Ratio, Root>)
        ensures
            *ops == self.arithmetic(),
    {
        &self.ops
    }

    /// The gesture, to read.
    pub fn gesture(&self) -> (gesture: &PlacementGesture<Vector<S>>)
        ensures
            gesture@ == self@.gesture,
    {
        &self.gesture
    }

    /// The live bodies, to read.
    pub fn bodies(&self) -> (bodies: &Registry<Body<S>>)
        ensures
            bodies@ == self@.bodies,
    {
        &self.bodies
    }

    /// The primary button went down at `cursor`: the gesture is anchored
    /// there and starts with no radius. The bodies stay as they are.
    pub fn gesture_start(&mut self, cursor: Vector<S>)
        requires
            old(self).valid(),
        ensures
            final(self).valid(),
            final(self).arithmetic() == old(self).arithmetic(),
            final(self)@.gesture == old(self)@.gesture.started(cursor),
            final(self)@.bodies == old(self)@.bodies,
    {
        self.gesture.start(cursor);
    }

    /// One poll with the primary button held: a gesture in flight grows by
    /// one step. The bodies stay as they are.
    pub fn gesture_drag(&mut self)
        requires
            old(self).valid(),
        ensures
            final(self).valid(),
            final(self).arithmetic() == old(self).arithmetic(),
            final(self)@.gesture == old(self)@.gesture.grown(),
            final(self)@.bodies == old(self)@.bodies,
    {
        self.gesture.drag();
    }

    /// The primary button went up at `release`: the body of a gesture in
    /// flight enters the registry behind the others, its index is returned
    /// and the gesture is left inert. Where no gesture is in flight, no body
    /// is made and nothing changes.
    pub fn gesture_end(&mut self, release: Vector<S>) -> (id: Option<usize>)
        requires
            old(self).valid(),
        ensures
            final(self).valid(),
            final(self).arithmetic() == old(self).arithmetic(),
            final(self)@.gesture == old(self)@.gesture.inert(),
            old(self)@.gesture.active ==> {
                &&& id == Some(old(self)@.bodies.len() as usize)
                &&& final(self)@.bodies == old(self)@.bodies.push(
                    old(self).arithmetic().placed(old(self)@.gesture.placement(release)),
                )
            },
            !old(self)@.gesture.active ==> id is None && final(self)@ == old(self)@,
    {
        match self.gesture.end(release) {
            Some(placement) => {
                let body = self.ops.place(placement);
                let id = self.bodies.insert(body);
                Some(id)
            },
            None => None,
        }
    }

    /// The secondary button went down: the gesture is discarded. No body is
    /// made, and the bodies stay as they are.
    pub fn gesture_cancel(&mut self)
        requires
            old(self).valid(),
        ensures
            final(self).valid(),
            final(self).arithmetic() == old(self).arithmetic(),
            final(self)@.gesture == old(self)@.gesture.inert(),
            final(self)@.bodies == old(self)@.bodies,
    {
        self.gesture.cancel();
    }

    /// One poll of the buttons with the cursor at `cursor`. Where the poll
    /// ends a gesture that is in flight, the index of the new body is
    /// returned. A poll that finds no gesture in flight and no press changes
    /// nothing, whatever else the buttons report.
    pub fn poll_buttons(&mut self, input: ButtonPoll, cursor: Vector<S>) -> (id: Option<usize>)
        requires
            old(self).valid(),
        ensures
            final(self).valid(),
            final(self).arithmetic() == old(self).arithmetic(),
            final(self)@ == old(self).arithmetic().polled(old(self)@, input, cursor),
            id == if old(self)@.gesture.polled(input, cursor).1 is Some {
                Some(old(self)@.bodies.len() as usize)
            } else {
                None
            },
            !old(self)@.gesture.active && !input.primary_just_pressed ==> {
                &&& id is None
                &&& final(self)@ == old(self)@
            },
    {
        match self.gesture.poll(input, cursor) {
            Some(placement) => {
                let body = self.ops.place(placement);
                let id = self.bodies.insert(body);
                Some(id)
            },
            None => None,
        }
    }

    /// Removes every body. The gesture stays as it is.
    pub fn clear_all(&mut self)
        requires
            old(self).valid(),
        ensures
            final(self).valid(),
            final(self).arithmetic() == old(self).arithmetic(),
            final(self)@.bodies == Seq::<Body<S>>::empty(),
            final(self)@.gesture == old(self)@.gesture,
    {
        self.bodies.clear_all();
    }

    /// A random spawn: the bodies of `draws`, for a view `width` wide and
    /// `height` high, enter behind the others in the order of the draws.
    ///
    /// The batch is taken only where every one of its bodies keeps to the
    /// bounds of a random spawn; `true` is returned then. Where one does
    /// not, no body enters, nothing changes and `false` is returned. The
    /// gesture stays as it is either way.
    pub fn spawn_random(
        &mut self,
        draws: [Draw<S>; SPAWN_COUNT],
        width: u32,
        height: u32,
    ) -> (taken: bool)
        requires
            old(self).valid(),
        ensures
            final(self).valid(),
            final(self).arithmetic() == old(self).arithmetic(),
            final(self)@.gesture == old(self)@.gesture,
            taken == old(self).arithmetic().batch_in_bounds(draws@, width, height),
            taken ==> final(self)@.bodies == old(self)@.bodies
                + old(self).arithmetic().scattered_batch(draws@, width, height),
            !taken ==> final(self)@ == old(self)@,
            forall|k: int|
                old(self)@.bodies.len() <= k < final(self)@.bodies.len()
                    ==> old(self).arithmetic().in_bounds(
                    #[trigger] final(self)@.bodies[k],
                    width,
                    height,
                ),
    {
        let ghost batch = self.ops.scattered_batch(draws@, width, height);
        let mut made: Vec<Body<S>> = Vec::new();
        let mut k: usize = 0;
        while k < SPAWN_COUNT
            invariant
                k <= SPAWN_COUNT,
                draws@.len() == SPAWN_COUNT,
                old(self).valid(),
                self.ops == old(self).ops,
                self.gesture@ == old(self).gesture@,
                self.bodies@ == old(self).bodies@,
                self.ops.exact(),
                batch == self.ops.scattered_batch(draws@, width, height),
                made@ == batch.subrange(0, k as int),
                forall|m: int| 0 <= m < k ==> self.ops.in_bounds(#[trigger] batch[m], width, height),
            decreases SPAWN_COUNT - k,
        {
            let body = self.ops.scatter(draws[k], width, height);
            if !self.ops.bounded(&body, width, height) {
                assert(!self.ops.in_bounds(batch[k as int], width, height));
                return false;
            }
            made.push(body);
            assert(made@ =~= batch.subrange(0, k + 1));
            k = k + 1;
        }
        assert(made@ =~= batch);
        let mut k: usize = 0;
        while k < SPAWN_COUNT
            invariant
                k <= SPAWN_COUNT,
                made@ == batch,
                batch.len() == SPAWN_COUNT,
                batch == self.ops.scattered_batch(draws@, width, height),
                self.ops == old(self).ops,
                self.ops.exact(),
                self.ops.settled(self.bodies@),
                self.gesture@ == old(self).gesture@,
                self.bodies@ == old(self).bodies@ + batch.subrange(0, k as int),
            decreases SPAWN_COUNT - k,
        {
            let ghost before = self.bodies@;
            self.bodies.insert(made[k]);
            proof {
                assert(batch.subrange(0, k + 1) =~= batch.subrange(0, k as int).push(batch[k as int]));
                assert(self.bodies@ =~= old(self).bodies@ + batch.subrange(0, k + 1));
                assert forall|m: int| 0 <= m < self.bodies@.len() implies self.ops.sound(
                    #[trigger] self.bodies@[m],
                ) by {
                    if m < before.len() {
                        assert(self.bodies@[m] == before[m]);
                    }
                }
            }
            k = k + 1;
        }
        proof {
            assert(batch.subrange(0, SPAWN_COUNT as int) =~= batch);
            assert forall|m: int|
                old(self)@.bodies.len() <= m < self.bodies@.len() implies self.ops.in_bounds(
                #[trigger] self.bodies@[m],
                width,
                height,
            ) by {
                assert(self.bodies@[m] == batch[m - old(self)@.bodies.len()]);
            }
        }
        true
    }

    /// One tick of length `dt`: the force pass over all pairs of bodies,
    /// then the motion pass over all bodies. The gesture stays as it is.
    pub fn tick(&mut self, dt: S)
        requires
            old(self).valid(),
        ensures
            final(self).valid(),
            final(self).arithmetic() == old(self).arithmetic(),
            final(self)@.bodies == old(self).arithmetic().ticked(old(self)@.bodies, dt),
            final(self)@.gesture == old(self)@.gesture,
    {
        proof {
            self.ops.lemma_ticked_is_settled(self.bodies@, dt);
        }
        self.ops.tick(&mut self.bodies, dt);
    }
}

} // verus!
