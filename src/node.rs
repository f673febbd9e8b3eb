use vstd::prelude::*;

verus! {

/// A vertex of the layout: its name, the caller's payload, where it is, how
/// fast it moves, and whether the forces leave it where it is.
///
/// `P` is the coordinate vector of the layout.
#[derive(Clone, Debug)]
pub struct Node<N, P> {
    pub name: String,
    pub data: N,
    pub location: P,
    pub velocity: P,
    pub locked: bool,
}

impl<N, P> Node<N, P> {
    /// A free node at `location`, moving with `velocity`.
    pub fn new(name: String, data: N, location: P, velocity: P) -> (r: Self)
        ensures
            r.name@ == name@,
            r.data == data,
            r.location == location,
            r.velocity == velocity,
            !r.locked,
    {
        Node { name, data, location, velocity, locked: false }
    }

    /// The same node with its place and velocity replaced.
    pub open spec fn moved_to(self, location: P, velocity: P) -> Self {
        Node { location, velocity, ..self }
    }

    /// The same node moved to the place and velocity of `motion`.
    pub open spec fn moved_by(self, motion: (P, P)) -> Self {
        self.moved_to(motion.0, motion.1)
    }
}

} // verus!
