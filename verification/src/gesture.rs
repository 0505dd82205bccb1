//! The press-drag-release gesture that places a new body.
//!
//! At most one gesture is in flight. Pressing the primary button anchors it
//! at the cursor; while the button is held the radius of the body to be
//! grows by one step per poll; releasing the button hands out a
//! [`Placement`] and leaves the gesture inert; the secondary button discards
//! the gesture. A release that finds no gesture in flight hands out
//! nothing. Positions are handed through as given: the library does not look
//! into them.
//!
//! The radius is counted in steps of half a unit of length, so a gesture of
//! `k` steps stands for a radius of `k / 2` units.

use vstd::prelude::*;

verus! {

/// The largest number of radius steps a gesture reaches; from there on a
/// poll leaves the radius as it is.
///
/// This is the count at which a sum of half units kept in single precision
/// stops growing, so counting steps and summing halves agree on every
/// gesture.
pub const RADIUS_STEP_LIMIT: u32 = 16_777_216;

/// What the two buttons report in one poll.
#[derive(Clone, Copy, Debug, PartialEq, Eq)]
pub struct ButtonPoll {
    /// The primary button went down since the last poll.
    pub primary_just_pressed: bool,
    /// The primary button is down.
    pub primary_held: bool,
    /// The primary button went up since the last poll.
    pub primary_just_released: bool,
    /// The secondary button went down since the last poll.
    pub secondary_just_pressed: bool,
}

impl Default for ButtonPoll {
    /// A poll in which nothing happened.
    fn default() -> (poll: Self)
        ensures
            poll == (ButtonPoll {
                primary_just_pressed: false,
                primary_held: false,
                primary_just_released: false,
                secondary_just_pressed: false,
            }),
    {
        ButtonPoll {
            primary_just_pressed: false,
            primary_held: false,
            primary_just_released: false,
            secondary_just_pressed: false,
        }
    }
}

/// A finished gesture: where it was anchored, where the button was released
/// and how many steps the radius had grown. The new body stands at `anchor`.
#[derive(Debug, PartialEq)]
pub struct Placement<P> {
    pub anchor: P,
    pub release: P,
    pub radius_steps: u32,
}

/// What a gesture holds, as contracts see it.
pub struct GestureState<P> {
    pub anchor: P,
    pub radius_steps: u32,
    pub active: bool,
}

impl<P> GestureState<P> {
    /// The radius never passes the limit, and an inert gesture has no radius.
    pub open spec fn valid(self) -> bool {
        &&& self.radius_steps <= RADIUS_STEP_LIMIT
        &&& !self.active ==> self.radius_steps == 0
    }

    /// The gesture after the primary button went down at `cursor`.
    pub open spec fn started(self, cursor: P) -> Self {
        GestureState { anchor: cursor, radius_steps: 0, active: true }
    }

    /// The gesture after one poll with the primary button held.
    pub open spec fn grown(self) -> Self {
        if self.active && self.radius_steps < RADIUS_STEP_LIMIT {
            GestureState { radius_steps: (self.radius_steps + 1) as u32, ..self }
        } else {
            self
        }
    }

    /// The gesture after `polls` polls with the primary button held.
    pub open spec fn grown_times(self, polls: nat) -> Self
        decreases polls,
    {
        if polls == 0 {
            self
        } else {
            self.grown_times((polls - 1) as nat).grown()
        }
    }

    /// The gesture at rest: not active, no radius, the anchor kept.
    pub open spec fn inert(self) -> Self {
        GestureState { radius_steps: 0, active: false, ..self }
    }

    /// What a gesture in flight hands out when the primary button goes up
    /// at `release`.
    pub open spec fn placement(self, release: P) -> Placement<P> {
        Placement { anchor: self.anchor, release, radius_steps: self.radius_steps }
    }

    /// What the gesture hands out when the primary button goes up at
    /// `release`: its placement where it is in flight, nothing where it is
    /// not.
    pub open spec fn ended(self, release: P) -> Option<Placement<P>> {
        if self.active {
            Some(self.placement(release))
        } else {
            None
        }
    }

    /// Whether a poll ends at the hold: the primary button is held, it did
    /// not go down in this poll, and no gesture is in flight.
    pub open spec fn cut_short(self, input: ButtonPoll) -> bool {
        input.primary_held && !input.primary_just_pressed && !self.active
    }

    /// One poll: the state after it and the placement it hands out, if any.
    ///
    /// The buttons are looked at in a fixed order: the press, the hold, the
    /// release, the secondary button. A poll that finds the primary button
    /// held while no gesture is in flight ends there and changes nothing.
    pub open spec fn polled(self, input: ButtonPoll, cursor: P) -> (Self, Option<Placement<P>>) {
        let pressed = if input.primary_just_pressed {
            self.started(cursor)
        } else {
            self
        };
        if self.cut_short(input) {
            (self, None)
        } else {
            let held = if input.primary_held {
                pressed.grown()
            } else {
                pressed
            };
            let released = if input.primary_just_released {
                held.inert()
            } else {
                held
            };
            let placed = if input.primary_just_released {
                held.ended(cursor)
            } else {
                None
            };
            let cancelled = if input.secondary_just_pressed {
                released.inert()
            } else {
                released
            };
            (cancelled, placed)
        }
    }
}

/// The gesture of the simulation: one value, owned by whoever runs the
/// simulation and handed to the input handling by reference.
pub struct PlacementGesture<P> {
    anchor: P,
    radius_steps: u32,
    active: bool,
}

impl<P> View for PlacementGesture<P> {
    type V = GestureState<P>;

    closed spec fn view(&self) -> GestureState<P> {
        GestureState { anchor: self.anchor, radius_steps: self.radius_steps, active: self.active }
    }
}

impl<P> PlacementGesture<P> {
    #[verifier::type_invariant]
    spec fn well_formed(self) -> bool {
        self@.valid()
    }
}

impl<P: Copy> PlacementGesture<P> {
    /// An inert gesture. `origin` is the anchor it reports until the first
    /// press.
    pub fn new(origin: P) -> (gesture: Self)
        ensures
            gesture@ == (GestureState { anchor: origin, radius_steps: 0, active: false }),
            gesture@.valid(),
    {
        PlacementGesture { anchor: origin, radius_steps: 0, active: false }
    }

    /// Where the gesture was last anchored.
    pub fn anchor(&self) -> (anchor: P)
        ensures
            anchor == self@.anchor,
    {
        self.anchor
    }

    /// How many steps the radius has grown.
    pub fn radius_steps(&self) -> (steps: u32)
        ensures
            steps == self@.radius_steps,
            self@.valid(),
    {
        proof {
            use_type_invariant(self);
        }
        self.radius_steps
    }

    /// Whether a gesture is in flight.
    pub fn is_active(&self) -> (active: bool)
        ensures
            active == self@.active,
            self@.valid(),
    {
        proof {
            use_type_invariant(self);
        }
        self.active
    }

    /// The primary button went down at `cursor`: the gesture is anchored
    /// there and starts with no radius, whatever it held before.
    pub fn start(&mut self, cursor: P)
        ensures
            final(self)@ == old(self)@.started(cursor),
            final(self)@.valid(),
    {
        *self = PlacementGesture { anchor: cursor, radius_steps: 0, active: true };
    }

    /// One poll with the primary button held: an active gesture grows by one
    /// step up to the limit, an inert one stays as it is.
    pub fn drag(&mut self)
        ensures
            final(self)@ == old(self)@.grown(),
            final(self)@.valid(),
    {
        proof {
            use_type_invariant(&*self);
        }
        if self.active && self.radius_steps < RADIUS_STEP_LIMIT {
            self.radius_steps = self.radius_steps + 1;
        }
    }

    /// The primary button went up at `release`: a gesture in flight hands
    /// out its placement and is left inert. Where no gesture is in flight,
    /// nothing is handed out and nothing changes.
    ///
    /// A gesture that ends without a hold in between has a radius of zero
    /// steps, and so has the body that is made of its placement.
    pub fn end(&mut self, release: P) -> (placement: Option<Placement<P>>)
        ensures
            placement == old(self)@.ended(release),
            final(self)@ == old(self)@.inert(),
            final(self)@.valid(),
            !old(self)@.active ==> final(self)@ == old(self)@,
    {
        proof {
            use_type_invariant(&*self);
        }
        if !self.active {
            return None;
        }
        let placement = Placement {
            anchor: self.anchor,
            release,
            radius_steps: self.radius_steps,
        };
        self.reset();
        Some(placement)
    }

    /// The secondary button went down: the gesture is discarded and nothing
    /// is handed out. On an inert gesture this changes nothing.
    pub fn cancel(&mut self)
        ensures
            final(self)@ == old(self)@.inert(),
            final(self)@.valid(),
    {
        self.reset();
    }

    /// One poll of the buttons with the cursor at `cursor`.
    pub fn poll(&mut self, input: ButtonPoll, cursor: P) -> (placed: Option<Placement<P>>)
        ensures
            (final(self)@, placed) == old(self)@.polled(input, cursor),
            final(self)@.valid(),
    {
        proof {
            use_type_invariant(&*self);
        }
        if input.primary_just_pressed {
            self.start(cursor);
        }
        if input.primary_held {
            if !self.active {
                return None;
            }
            self.drag();
        }
        let mut placed: Option<Placement<P>> = None;
        if input.primary_just_released {
            placed = self.end(cursor);
        }
        if input.secondary_just_pressed {
            self.cancel();
        }
        placed
    }

    fn reset(&mut self)
        ensures
            final(self)@ == old(self)@.inert(),
            final(self)@.valid(),
    {
        *self = PlacementGesture { anchor: self.anchor, radius_steps: 0, active: false };
    }
}

/// Discarding a gesture that is not in flight changes nothing.
pub proof fn lemma_inert_is_fixed<P>(state: GestureState<P>)
    requires
        state.valid(),
        !state.active,
    ensures
        state.inert() == state,
{
}

/// Every poll keeps the state valid.
pub proof fn lemma_polled_valid<P>(state: GestureState<P>, input: ButtonPoll, cursor: P)
    requires
        state.valid(),
    ensures
        state.polled(input, cursor).0.valid(),
{
}

/// A poll hands out a placement exactly when the primary button went up on
/// a gesture that was in flight or that the same poll started. A poll that
/// is cut short changes nothing.
pub proof fn lemma_polled_places<P>(state: GestureState<P>, input: ButtonPoll, cursor: P)
    ensures
        state.polled(input, cursor).1 is Some <==> input.primary_just_released && (state.active
            || input.primary_just_pressed),
        state.cut_short(input) ==> state.polled(input, cursor).0 == state,
{
}

/// A release that finds no gesture in flight is absorbed: where the gesture
/// is valid and inert and the primary button did not go down in the same
/// poll, the poll hands out nothing and changes nothing, whatever else the
/// buttons report.
pub proof fn lemma_stray_release_absorbed<P>(state: GestureState<P>, input: ButtonPoll, cursor: P)
    requires
        state.valid(),
        !state.active,
        !input.primary_just_pressed,
    ensures
        state.polled(input, cursor) == (state, None::<Placement<P>>),
{
}

/// After a poll in which the primary button went up or the secondary button
/// went down, no gesture is in flight.
pub proof fn lemma_polled_ends<P>(state: GestureState<P>, input: ButtonPoll, cursor: P)
    requires
        input.primary_just_released || input.secondary_just_pressed,
    ensures
        !state.polled(input, cursor).0.active,
{
}

/// The secondary button alone never places a body.
pub proof fn lemma_cancel_places_nothing<P>(state: GestureState<P>, input: ButtonPoll, cursor: P)
    requires
        !input.primary_just_released,
    ensures
        state.polled(input, cursor).1 is None,
{
}

/// While the button is held the radius never shrinks, and the anchor and the
/// activity stay as they are.
pub proof fn lemma_grown_monotonic<P>(state: GestureState<P>)
    ensures
        state.grown().radius_steps >= state.radius_steps,
        state.grown().anchor == state.anchor,
        state.grown().active == state.active,
{
}

/// After `polls` polls with the button held, an active gesture has grown by
/// `polls` steps, or stands at the limit if that is less.
pub proof fn lemma_grown_times<P>(state: GestureState<P>, polls: nat)
    requires
        state.valid(),
        state.active,
    ensures
        state.grown_times(polls) == (GestureState {
            radius_steps: if state.radius_steps + polls <= RADIUS_STEP_LIMIT {
                (state.radius_steps + polls) as u32
            } else {
                RADIUS_STEP_LIMIT
            },
            ..state
        }),
    decreases polls,
{
    if polls > 0 {
        lemma_grown_times(state, (polls - 1) as nat);
    }
}

/// A press followed by a release in a later poll, with `polls` held polls
/// from the press on, places a body at the press position with a radius of
/// `polls` steps, up to the limit.
pub proof fn lemma_press_hold_release<P>(state: GestureState<P>, press: P, release: P, polls: nat)
    requires
        state.valid(),
    ensures
        state.started(press).grown_times(polls).ended(release) == Some(
            Placement {
                anchor: press,
                release,
                radius_steps: if polls <= RADIUS_STEP_LIMIT {
                    polls as u32
                } else {
                    RADIUS_STEP_LIMIT
                },
            },
        ),
{
    lemma_grown_times(state.started(press), polls);
}

} // verus!
