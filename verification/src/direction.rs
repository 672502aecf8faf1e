//! The six axis-aligned directions, and the quad that closes a voxel on each
//! of its sides.
//!
//! Mesh coordinates are held as integers in half voxel edges: a voxel is a
//! cube of edge 2 around its centre, so that every corner has whole
//! coordinates. `VERTEX_SCALE` is the number of these units per voxel edge.
use vstd::prelude::*;
use crate::vector::IVec3;

verus! {

/// Number of mesh units per voxel edge.
pub const VERTEX_SCALE: i32 = 2;

/// The four corners of one face: for each its position relative to the
/// centre of the voxel in mesh units, its normal, and its texture coordinate.
pub type FaceMesh = [([i32; 3], [i32; 3], [i32; 2]); 4];

/// A side of a voxel, named by the direction it faces.
#[derive(Copy, Clone, Debug, PartialEq, Eq, Structural)]
pub enum Direction {
    /// Towards greater y.
    Up,
    /// Towards lesser y.
    Down,
    /// Towards lesser z.
    North,
    /// Towards greater x.
    East,
    /// Towards greater z.
    South,
    /// Towards lesser x.
    West,
}

/// The point one step from `from` in direction `direction`.
pub open spec fn step(from: (int, int, int), direction: Direction) -> (int, int, int) {
    let by = direction.offset();
    (from.0 + by.0, from.1 + by.1, from.2 + by.2)
}

/// Whether `to` lies one step from `from` along one axis.
pub open spec fn adjacent(from: IVec3, to: IVec3) -> bool {
    let by = (to.x - from.x, to.y - from.y, to.z - from.z);
    ||| by == Direction::Up.offset()
    ||| by == Direction::Down.offset()
    ||| by == Direction::North.offset()
    ||| by == Direction::East.offset()
    ||| by == Direction::South.offset()
    ||| by == Direction::West.offset()
}

/// The order in which the sides of a voxel are visited: east, west, up,
/// down, south, north.
pub open spec fn direction_at(i: int) -> Direction {
    if i == 0 {
        Direction::East
    } else if i == 1 {
        Direction::West
    } else if i == 2 {
        Direction::Up
    } else if i == 3 {
        Direction::Down
    } else if i == 4 {
        Direction::South
    } else {
        Direction::North
    }
}

impl Direction {
    /// The unit step in this direction.
    pub open spec fn offset(self) -> (int, int, int) {
        match self {
            Direction::Up => (0, 1, 0),
            Direction::Down => (0, -1, 0),
            Direction::North => (0, 0, -1),
            Direction::East => (1, 0, 0),
            Direction::South => (0, 0, 1),
            Direction::West => (-1, 0, 0),
        }
    }

    /// The direction that faces the other way.
    pub open spec fn opposite(self) -> Direction {
        match self {
            Direction::Up => Direction::Down,
            Direction::Down => Direction::Up,
            Direction::North => Direction::South,
            Direction::East => Direction::West,
            Direction::South => Direction::North,
            Direction::West => Direction::East,
        }
    }

    /// The place of this direction in the order of `direction_at`.
    pub open spec fn ordinal(self) -> int {
        match self {
            Direction::East => 0,
            Direction::West => 1,
            Direction::Up => 2,
            Direction::Down => 3,
            Direction::South => 4,
            Direction::North => 5,
        }
    }

    /// The quad on this side of a voxel.
    pub open spec fn face_mesh(self) -> FaceMesh {
        match self {
            Direction::South => [
                ([-1i32, -1i32, 1i32], [0i32, 0i32, 1i32], [0i32, 0i32]),
                ([1i32, -1i32, 1i32], [0i32, 0i32, 1i32], [1i32, 0i32]),
                ([1i32, 1i32, 1i32], [0i32, 0i32, 1i32], [1i32, 1i32]),
                ([-1i32, 1i32, 1i32], [0i32, 0i32, 1i32], [0i32, 1i32]),
            ],
            Direction::North => [
                ([-1i32, 1i32, -1i32], [0i32, 0i32, -1i32], [1i32, 0i32]),
                ([1i32, 1i32, -1i32], [0i32, 0i32, -1i32], [0i32, 0i32]),
                ([1i32, -1i32, -1i32], [0i32, 0i32, -1i32], [0i32, 1i32]),
                ([-1i32, -1i32, -1i32], [0i32, 0i32, -1i32], [1i32, 1i32]),
            ],
            Direction::East => [
                ([1i32, -1i32, -1i32], [1i32, 0i32, 0i32], [0i32, 0i32]),
                ([1i32, 1i32, -1i32], [1i32, 0i32, 0i32], [1i32, 0i32]),
                ([1i32, 1i32, 1i32], [1i32, 0i32, 0i32], [1i32, 1i32]),
                ([1i32, -1i32, 1i32], [1i32, 0i32, 0i32], [0i32, 1i32]),
            ],
            Direction::West => [
                ([-1i32, -1i32, 1i32], [-1i32, 0i32, 0i32], [1i32, 0i32]),
                ([-1i32, 1i32, 1i32], [-1i32, 0i32, 0i32], [0i32, 0i32]),
                ([-1i32, 1i32, -1i32], [-1i32, 0i32, 0i32], [0i32, 1i32]),
                ([-1i32, -1i32, -1i32], [-1i32, 0i32, 0i32], [1i32, 1i32]),
            ],
            Direction::Up => [
                ([1i32, 1i32, -1i32], [0i32, 1i32, 0i32], [1i32, 0i32]),
                ([-1i32, 1i32, -1i32], [0i32, 1i32, 0i32], [0i32, 0i32]),
                ([-1i32, 1i32, 1i32], [0i32, 1i32, 0i32], [0i32, 1i32]),
                ([1i32, 1i32, 1i32], [0i32, 1i32, 0i32], [1i32, 1i32]),
            ],
            Direction::Down => [
                ([1i32, -1i32, 1i32], [0i32, -1i32, 0i32], [0i32, 0i32]),
                ([-1i32, -1i32, 1i32], [0i32, -1i32, 0i32], [1i32, 0i32]),
                ([-1i32, -1i32, -1i32], [0i32, -1i32, 0i32], [1i32, 1i32]),
                ([1i32, -1i32, -1i32], [0i32, -1i32, 0i32], [0i32, 1i32]),
            ],
        }
    }

    /// The quad of every side lies in the plane of that side: each corner is
    /// half an edge from the centre along every axis, on the side that the
    /// direction faces, and carries the direction's unit step as its normal.
    pub proof fn lemma_face_mesh_geometry(self, corner: int)
        requires
            0 <= corner < 4,
        ensures
            ({
                let (position, normal, uv) = self.face_mesh()[corner];
                let by = self.offset();
                &&& (normal[0] as int, normal[1] as int, normal[2] as int) == by
                &&& position[0] == 1 || position[0] == -1
                &&& position[1] == 1 || position[1] == -1
                &&& position[2] == 1 || position[2] == -1
                &&& position[0] * by.0 + position[1] * by.1 + position[2] * by.2 == 1
                &&& uv[0] == 0 || uv[0] == 1
                &&& uv[1] == 0 || uv[1] == 1
            }),
    {
    }

    /// The six directions in the order of `direction_at`.
    pub fn all() -> (directions: [Direction; 6])
        ensures
            forall|i: int| 0 <= i < 6 ==> directions[i] == direction_at(i),
    {
        [
            Direction::East,
            Direction::West,
            Direction::Up,
            Direction::Down,
            Direction::South,
            Direction::North,
        ]
    }

    /// The quad on this side of a voxel.
    pub fn get_face_mesh(&self) -> (mesh: FaceMesh)
        ensures
            mesh == self.face_mesh(),
    {
        match self {
            Direction::Up => [
                ([1, 1, -1], [0, 1, 0], [1, 0]),
                ([-1, 1, -1], [0, 1, 0], [0, 0]),
                ([-1, 1, 1], [0, 1, 0], [0, 1]),
                ([1, 1, 1], [0, 1, 0], [1, 1]),
            ],
            Direction::Down => [
                ([1, -1, 1], [0, -1, 0], [0, 0]),
                ([-1, -1, 1], [0, -1, 0], [1, 0]),
                ([-1, -1, -1], [0, -1, 0], [1, 1]),
                ([1, -1, -1], [0, -1, 0], [0, 1]),
            ],
            Direction::North => [
                ([-1, 1, -1], [0, 0, -1], [1, 0]),
                ([1, 1, -1], [0, 0, -1], [0, 0]),
                ([1, -1, -1], [0, 0, -1], [0, 1]),
                ([-1, -1, -1], [0, 0, -1], [1, 1]),
            ],
            Direction::East => [
                ([1, -1, -1], [1, 0, 0], [0, 0]),
                ([1, 1, -1], [1, 0, 0], [1, 0]),
                ([1, 1, 1], [1, 0, 0], [1, 1]),
                ([1, -1, 1], [1, 0, 0], [0, 1]),
            ],
            Direction::South => [
                ([-1, -1, 1], [0, 0, 1], [0, 0]),
                ([1, -1, 1], [0, 0, 1], [1, 0]),
                ([1, 1, 1], [0, 0, 1], [1, 1]),
                ([-1, 1, 1], [0, 0, 1], [0, 1]),
            ],
            Direction::West => [
                ([-1, -1, 1], [-1, 0, 0], [1, 0]),
                ([-1, 1, 1], [-1, 0, 0], [0, 0]),
                ([-1, 1, -1], [-1, 0, 0], [0, 1]),
                ([-1, -1, -1], [-1, 0, 0], [1, 1]),
            ],
        }
    }

    /// Determines which face of `from` points towards `to`. The two points
    /// have to be adjacent to each other.
    pub fn from_relative(from: IVec3, to: IVec3) -> (direction: Self)
        requires
            adjacent(from, to),
        ensures
            step(from.coords(), direction) == to.coords(),
    {
        let dx: i64 = to.x as i64 - from.x as i64;
        let dy: i64 = to.y as i64 - from.y as i64;
        let dz: i64 = to.z as i64 - from.z as i64;
        if dx == 0 && dy == 1 && dz == 0 {
            Direction::Up
        } else if dx == 0 && dy == -1 && dz == 0 {
            Direction::Down
        } else if dx == 0 && dy == 0 && dz == -1 {
            Direction::North
        } else if dx == 1 && dy == 0 && dz == 0 {
            Direction::East
        } else if dx == 0 && dy == 0 && dz == 1 {
            Direction::South
        } else {
            Direction::West
        }
    }
}

/// The six points one step from `vec` along an axis, in the order of
/// `direction_at`.
#[inline(always)]
pub fn neighbor_vecs(vec: IVec3) -> (neighbors: [IVec3; 6])
    requires
        vec.has_neighbors(),
    ensures
        forall|i: int| 0 <= i < 6 ==> (#[trigger] neighbors[i]).coords() == step(vec.coords(), direction_at(i)),
{
    [
        IVec3::new(vec.x + 1, vec.y, vec.z),
        IVec3::new(vec.x - 1, vec.y, vec.z),
        IVec3::new(vec.x, vec.y + 1, vec.z),
        IVec3::new(vec.x, vec.y - 1, vec.z),
        IVec3::new(vec.x, vec.y, vec.z + 1),
        IVec3::new(vec.x, vec.y, vec.z - 1),
    ]
}

} // verus!
