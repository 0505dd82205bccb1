//! The set of live bodies.
//!
//! A registry keeps the bodies in the order in which they entered it. A body
//! is known by its index, which stays the same until the registry is
//! cleared. What a body holds is up to the caller: the registry stores it as
//! given and hands it back unchanged.

use crate::pairs::PairCursor;
use vstd::prelude::*;

verus! {

/// The live bodies of a simulation, each under its index.
pub struct Registry<B> {
    bodies: Vec<B>,
}

impl<B> View for Registry<B> {
    type V = Seq<B>;

    closed spec fn view(&self) -> Seq<B> {
        self.bodies@
    }
}

impl<B> Registry<B> {
    /// A registry without bodies.
    pub fn new() -> (registry: Self)
        ensures
            registry@ == Seq::<B>::empty(),
    {
        Registry { bodies: Vec::new() }
    }

    /// The number of live bodies.
    pub fn len(&self) -> (count: usize)
        ensures
            count == self@.len(),
    {
        self.bodies.len()
    }

    /// Whether no body is live.
    pub fn is_empty(&self) -> (empty: bool)
        ensures
            empty == (self@.len() == 0),
    {
        self.bodies.len() == 0
    }

    /// Adds a body behind the others and returns its index. The bodies that
    /// were live keep their indices.
    pub fn insert(&mut self, body: B) -> (id: usize)
        ensures
            final(self)@ == old(self)@.push(body),
            id == old(self)@.len(),
    {
        let id = self.bodies.len();
        self.bodies.push(body);
        id
    }

    /// The body under `id`, or `None` where no body has that index.
    pub fn get(&self, id: usize) -> (body: Option<&B>)
        ensures
            id < self@.len() ==> body == Some(&self@[id as int]),
            id >= self@.len() ==> body is None,
    {
        if id < self.bodies.len() {
            Some(&self.bodies[id])
        } else {
            None
        }
    }

    /// Puts `body` in the place of the body under `id` and returns the one
    /// that was there. Where no body has that index the registry stays as it
    /// is and `None` is returned.
    pub fn replace(&mut self, id: usize, body: B) -> (previous: Option<B>)
        ensures
            id < old(self)@.len() ==> previous == Some(old(self)@[id as int]) && final(self)@
                == old(self)@.update(id as int, body),
            id >= old(self)@.len() ==> previous is None && final(self)@ == old(self)@,
    {
        if id < self.bodies.len() {
            self.bodies.push(body);
            let previous = self.bodies.swap_remove(id);
            assert(self.bodies@ =~= old(self)@.update(id as int, body));
            Some(previous)
        } else {
            None
        }
    }

    /// The body under `id`, which is the index of a live body.
    pub(crate) fn at(&self, id: usize) -> (body: &B)
        requires
            id < self@.len(),
        ensures
            *body == self@[id as int],
    {
        &self.bodies[id]
    }

    /// Puts `body` in the place of the body under `id`, which is the index
    /// of a live body.
    pub(crate) fn put(&mut self, id: usize, body: B)
        requires
            id < old(self)@.len(),
        ensures
            final(self)@ == old(self)@.update(id as int, body),
    {
        self.bodies.set(id, body);
    }

    /// Removes every body.
    pub fn clear_all(&mut self)
        ensures
            final(self)@ == Seq::<B>::empty(),
    {
        self.bodies.clear();
    }

    /// The bodies in the order of their indices.
    pub fn as_slice(&self) -> (bodies: &[B])
        ensures
            bodies@ == self@,
    {
        self.bodies.as_slice()
    }

    /// A cursor over the pairs of the bodies that are live now, at its
    /// start.
    pub fn pairs(&self) -> (cursor: PairCursor)
        ensures
            cursor.count() == self@.len(),
            cursor.position() == 0,
    {
        PairCursor::new(self.bodies.len())
    }
}

} // verus!
