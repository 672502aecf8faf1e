//! The smallest unit of terrain.
use vstd::prelude::*;

verus! {

/// One cell of terrain: occupied (`active`) or empty.
#[derive(Copy, Clone, Debug)]
pub struct Voxel {
    pub active: bool,
}

impl Voxel {
    /// An occupied voxel.
    pub fn active() -> (voxel: Self)
        ensures
            voxel.active,
    {
        Self { active: true }
    }

    /// An empty voxel.
    pub fn inactive() -> (voxel: Self)
        ensures
            !voxel.active,
    {
        Self { active: false }
    }
}

} // verus!
