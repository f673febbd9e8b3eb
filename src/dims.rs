use vstd::prelude::*;

verus! {

/// Number of spatial axes the simulation runs in.
#[derive(Copy, Clone, Debug, PartialEq, Eq, Structural)]
pub enum Dimensions {
    Two,
    Three,
}

impl Dimensions {
    /// How many axes take part in the layout.
    pub open spec fn spec_axes(self) -> nat {
        match self {
            Dimensions::Two => 2,
            Dimensions::Three => 3,
        }
    }

    /// Number of axes that the layout uses: 2 in the plane, 3 in space.
    pub fn axes(&self) -> (r: usize)
        ensures
            r == self.spec_axes(),
    {
        match self {
            Dimensions::Two => 2,
            Dimensions::Three => 3,
        }
    }

    /// Whether the third axis is held at zero.
    pub fn is_flat(&self) -> (r: bool)
        ensures
            r == (*self == Dimensions::Two),
    {
        matches!(self, Dimensions::Two)
    }
}

} // verus!
