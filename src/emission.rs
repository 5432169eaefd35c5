//! The emission queue: particles that a script asked to create, waiting for
//! the next drain into the live list.
use vstd::prelude::*;

verus! {

/// A first-in first-out buffer of freshly emitted particles.
///
/// Scripts only ever get the capability to push into it; the simulation
/// drains it once per tick.
#[derive(Debug)]
pub struct EmissionQueue<P> {
    items: Vec<P>,
}

impl<P> View for EmissionQueue<P> {
    type V = Seq<P>;

    /// The pending particles, oldest first.
    closed spec fn view(&self) -> Seq<P> {
        self.items@
    }
}

impl<P> EmissionQueue<P> {
    /// An empty queue.
    pub fn new() -> (q: Self)
        ensures
            q@ == Seq::<P>::empty(),
    {
        EmissionQueue { items: Vec::new() }
    }

    /// Appends `particle` behind everything already pending.
    pub fn emit(&mut self, particle: P)
        ensures
            final(self)@ == old(self)@.push(particle),
    {
        self.items.push(particle);
    }

    /// Number of pending particles.
    pub fn len(&self) -> (n: usize)
        ensures
            n == self@.len(),
    {
        self.items.len()
    }

    /// Whether nothing is pending.
    pub fn is_empty(&self) -> (b: bool)
        ensures
            b == (self@.len() == 0),
    {
        self.items.len() == 0
    }

    /// Swaps the pending particles out, in the order they were emitted,
    /// leaving the queue empty.
    pub fn take_all(&mut self) -> (taken: Vec<P>)
        ensures
            taken@ == old(self)@,
            final(self)@ == Seq::<P>::empty(),
    {
        let mut taken: Vec<P> = Vec::new();
        std::mem::swap(&mut taken, &mut self.items);
        taken
    }
}

} // verus!
