//! Integer grid coordinates.
use vstd::prelude::*;

verus! {

/// A point of an integer grid with three axes. It names a chunk in chunk
/// space, or a voxel in the voxel space of one chunk.
#[derive(Copy, Clone, Debug, PartialEq, Eq, Structural, Hash)]
pub struct IVec3 {
    pub x: i32,
    pub y: i32,
    pub z: i32,
}

impl IVec3 {
    /// The point with the given coordinates.
    pub fn new(x: i32, y: i32, z: i32) -> (point: Self)
        ensures
            point == (IVec3 { x, y, z }),
    {
        Self { x, y, z }
    }

    /// The coordinates as mathematical integers.
    pub open spec fn coords(self) -> (int, int, int) {
        (self.x as int, self.y as int, self.z as int)
    }

    /// Whether every point one step away along an axis can still be held:
    /// no coordinate is the least or the greatest value of its type.
    pub open spec fn has_neighbors(self) -> bool {
        &&& i32::MIN < self.x < i32::MAX
        &&& i32::MIN < self.y < i32::MAX
        &&& i32::MIN < self.z < i32::MAX
    }
}

} // verus!
