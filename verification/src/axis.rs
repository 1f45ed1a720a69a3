use vstd::prelude::*;

verus! {

/// Coordinate axis tag, used to address point and vector components and to
/// label the split plane of a space-partition node.
#[derive(Clone, Copy, Debug, PartialEq, Eq, Structural)]
pub enum Axis {
    X,
    Y,
    Z,
}

/// The axis that follows `axis` in the fixed X -> Y -> Z -> X rotation.
pub open spec fn spec_advance(axis: Axis) -> Axis {
    match axis {
        Axis::X => Axis::Y,
        Axis::Y => Axis::Z,
        Axis::Z => Axis::X,
    }
}

/// Advance to the next axis in the X -> Y -> Z -> X rotation; the space
/// partition cycles split directions level by level with this.
pub fn advance(axis: Axis) -> (next: Axis)
    ensures
        next == spec_advance(axis),
{
    match axis {
        Axis::X => Axis::Y,
        Axis::Y => Axis::Z,
        Axis::Z => Axis::X,
    }
}

} // verus!
