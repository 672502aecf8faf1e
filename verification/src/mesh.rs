//! The geometry that meshing produces, independent of any renderer.
//!
//! A mesh is a list of quads, one for each drawn face of a voxel. Each quad
//! has four vertices of its own, with a position, a normal and a texture
//! coordinate each, and six indices that cut it into two triangles.
//! Positions are in mesh units (see `direction`), relative to the centre of
//! the voxel at the chunk's origin.
use vstd::prelude::*;
use crate::traversal::VolumeIdx;
use crate::vector::IVec3;
use crate::direction::Direction;
use crate::direction::VERTEX_SCALE;

verus! {

/// One side of one voxel of a chunk.
pub struct Face {
    /// Index of the voxel in its chunk.
    pub voxel: VolumeIdx,
    /// The side of the voxel.
    pub direction: Direction,
}

/// What a mesh holds, as mathematical sequences.
pub struct MeshView {
    /// Position of the chunk that the mesh was made from.
    pub position: IVec3,
    /// Position of each vertex.
    pub vertices: Seq<[i32; 3]>,
    /// Normal of each vertex.
    pub normals: Seq<[i32; 3]>,
    /// Texture coordinate of each vertex.
    pub uvs: Seq<[i32; 2]>,
    /// Three vertex numbers for each triangle.
    pub indices: Seq<u32>,
}

/// The corners of a quad that its two triangles use, in order: the quad
/// `0 1 2 3` is cut into `0 1 2` and `2 3 0`.
pub open spec fn quad_order(i: int) -> int {
    if i == 0 {
        0
    } else if i == 1 {
        1
    } else if i == 2 {
        2
    } else if i == 3 {
        2
    } else if i == 4 {
        3
    } else {
        0
    }
}

/// Position of corner `corner` of a face: the corner of the side's quad,
/// moved to the voxel.
pub open spec fn face_vertex(face: Face, corner: int) -> [i32; 3] {
    let at = face.direction.face_mesh()[corner].0;
    [
        (at[0] + VERTEX_SCALE * face.voxel.0) as i32,
        (at[1] + VERTEX_SCALE * face.voxel.1) as i32,
        (at[2] + VERTEX_SCALE * face.voxel.2) as i32,
    ]
}

/// The mesh of a chunk at `position` in which exactly `faces` are drawn, in
/// that order.
pub open spec fn mesh_of(position: IVec3, faces: Seq<Face>) -> MeshView {
    MeshView {
        position,
        vertices: Seq::new(4 * faces.len(), |i: int| face_vertex(faces[i / 4], i % 4)),
        normals: Seq::new(4 * faces.len(), |i: int| faces[i / 4].direction.face_mesh()[i % 4].1),
        uvs: Seq::new(4 * faces.len(), |i: int| faces[i / 4].direction.face_mesh()[i % 4].2),
        indices: Seq::new(6 * faces.len(), |i: int| (4 * (i / 6) + quad_order(i % 6)) as u32),
    }
}

/// Shape of a mesh: it has as many normals and texture coordinates as
/// vertices, four vertices for each face, and three indices for every two
/// vertices.
pub proof fn lemma_mesh_shape(position: IVec3, faces: Seq<Face>)
    ensures
        mesh_of(position, faces).vertices.len() == 4 * faces.len(),
        mesh_of(position, faces).normals.len() == mesh_of(position, faces).vertices.len(),
        mesh_of(position, faces).uvs.len() == mesh_of(position, faces).vertices.len(),
        mesh_of(position, faces).vertices.len() % 4 == 0,
        2 * mesh_of(position, faces).indices.len() == 3 * mesh_of(position, faces).vertices.len(),
{
}

/// Every index of a mesh names one of its vertices, and the indices of a
/// face name vertices of that face.
pub proof fn lemma_mesh_indices(position: IVec3, faces: Seq<Face>, i: int)
    requires
        0 <= i < 6 * faces.len(),
        4 * faces.len() <= u32::MAX,
    ensures
        mesh_of(position, faces).indices[i] < mesh_of(position, faces).vertices.len(),
        mesh_of(position, faces).indices[i] / 4 == i / 6,
{
}

/// Renderer-agnostic geometry of one chunk.
pub struct ChunkMesh {
    position: IVec3,
    vertices: Vec<[i32; 3]>,
    normals: Vec<[i32; 3]>,
    uvs: Vec<[i32; 2]>,
    indices: Vec<u32>,
}

impl View for ChunkMesh {
    type V = MeshView;

    closed spec fn view(&self) -> MeshView {
        MeshView {
            position: self.position,
            vertices: self.vertices@,
            normals: self.normals@,
            uvs: self.uvs@,
            indices: self.indices@,
        }
    }
}

impl ChunkMesh {
    /// A mesh without faces for the chunk at `position`.
    pub fn empty(position: IVec3) -> (mesh: Self)
        ensures
            mesh@ == mesh_of(position, Seq::empty()),
    {
        let mesh = Self {
            position,
            vertices: Vec::new(),
            normals: Vec::new(),
            uvs: Vec::new(),
            indices: Vec::new(),
        };
        assert(mesh@.vertices =~= mesh_of(position, Seq::empty()).vertices);
        assert(mesh@.normals =~= mesh_of(position, Seq::empty()).normals);
        assert(mesh@.uvs =~= mesh_of(position, Seq::empty()).uvs);
        assert(mesh@.indices =~= mesh_of(position, Seq::empty()).indices);
        mesh
    }

    /// Position of the chunk that the mesh was made from.
    pub fn position(&self) -> (position: IVec3)
        ensures
            position == self@.position,
    {
        self.position
    }

    /// Position of each vertex, in mesh units.
    pub fn vertices(&self) -> (vertices: &Vec<[i32; 3]>)
        ensures
            vertices@ == self@.vertices,
    {
        &self.vertices
    }

    /// Normal of each vertex.
    pub fn normals(&self) -> (normals: &Vec<[i32; 3]>)
        ensures
            normals@ == self@.normals,
    {
        &self.normals
    }

    /// Texture coordinate of each vertex.
    pub fn uvs(&self) -> (uvs: &Vec<[i32; 2]>)
        ensures
            uvs@ == self@.uvs,
    {
        &self.uvs
    }

    /// Three vertex numbers for each triangle.
    pub fn indices(&self) -> (indices: &Vec<u32>)
        ensures
            indices@ == self@.indices,
    {
        &self.indices
    }

    /// Appends the quad of one face: four vertices, and six indices counted
    /// from `current_index`, the number of vertices before.
    pub(crate) fn push_face(
        &mut self,
        voxel_pos: IVec3,
        direction: Direction,
        current_index: u32,
        Ghost(faces): Ghost<Seq<Face>>,
    )
        requires
            old(self)@ == mesh_of(old(self)@.position, faces),
            current_index == 4 * faces.len(),
            current_index <= u32::MAX - 4,
            0 <= voxel_pos.x < 0x1000_0000,
            0 <= voxel_pos.y < 0x1000_0000,
            0 <= voxel_pos.z < 0x1000_0000,
        ensures
            final(self)@ == mesh_of(
                old(self)@.position,
                faces.push(
                    (Face {
                        voxel: (voxel_pos.x as usize, voxel_pos.y as usize, voxel_pos.z as usize),
                        direction,
                    }),
                ),
            ),
    {
        let ghost face = Face {
            voxel: (voxel_pos.x as usize, voxel_pos.y as usize, voxel_pos.z as usize),
            direction,
        };
        let ghost grown = faces.push(face);
        let ghost target = mesh_of(self.position, grown);
        let face_mesh = direction.get_face_mesh();
        let mut corner: usize = 0;
        while corner < 4
            invariant
                0 <= corner <= 4,
                face_mesh == direction.face_mesh(),
                face == (Face {
                    voxel: (voxel_pos.x as usize, voxel_pos.y as usize, voxel_pos.z as usize),
                    direction,
                }),
                0 <= voxel_pos.x < 0x1000_0000,
                0 <= voxel_pos.y < 0x1000_0000,
                0 <= voxel_pos.z < 0x1000_0000,
                grown == faces.push(face),
                target == mesh_of(self.position, grown),
                self.position == old(self).position,
                self.indices == old(self).indices,
                self.vertices@ == target.vertices.take(4 * faces.len() + corner),
                self.normals@ == target.normals.take(4 * faces.len() + corner),
                self.uvs@ == target.uvs.take(4 * faces.len() + corner),
            decreases 4 - corner,
        {
            let (vertex, normal, uv) = face_mesh[corner];
            let ghost n = 4 * faces.len() + corner;
            assert(n / 4 == faces.len() && n % 4 == corner);
            assert(grown[n / 4] == face);
            self.vertices.push(
                [
                    vertex[0] + VERTEX_SCALE * voxel_pos.x,
                    vertex[1] + VERTEX_SCALE * voxel_pos.y,
                    vertex[2] + VERTEX_SCALE * voxel_pos.z,
                ],
            );
            self.normals.push(normal);
            self.uvs.push(uv);
            assert(self.vertices@ =~= target.vertices.take(n + 1));
            assert(self.normals@ =~= target.normals.take(n + 1));
            assert(self.uvs@ =~= target.uvs.take(n + 1));
            corner += 1;
        }
        assert(self.vertices@ =~= target.vertices);
        assert(self.normals@ =~= target.normals);
        assert(self.uvs@ =~= target.uvs);
        let order: [u32; 6] = [0, 1, 2, 2, 3, 0];
        let mut i: usize = 0;
        while i < 6
            invariant
                0 <= i <= 6,
                forall|j: int| 0 <= j < 6 ==> order[j] == quad_order(j),
                current_index == 4 * faces.len(),
                current_index <= u32::MAX - 4,
                grown == faces.push(face),
                target == mesh_of(self.position, grown),
                self.position == old(self).position,
                self.vertices@ == target.vertices,
                self.normals@ == target.normals,
                self.uvs@ == target.uvs,
                self.indices@ == target.indices.take(6 * faces.len() + i),
            decreases 6 - i,
        {
            let ghost n = 6 * faces.len() + i;
            assert(n / 6 == faces.len() && n % 6 == i);
            assert(order[i as int] == quad_order(i as int));
            self.indices.push(order[i] + current_index);
            assert(self.indices@ =~= target.indices.take(n + 1));
            i += 1;
        }
        assert(self.indices@ =~= target.indices);
    }
}

} // verus!
