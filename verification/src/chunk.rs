//! A cube of voxels, and the mesh of its visible faces.
use vstd::prelude::*;
use vstd::std_specs::iter::IteratorSpec;
use std::sync::Arc;
use crate::traversal::VolumeIdx;
use crate::traversal::in_bounds;
use crate::traversal::volume_len;
use crate::traversal::index_at;
use crate::traversal::rank;
use crate::traversal::lemma_rank_bound;
use crate::traversal::lemma_index_at_rank;
use crate::traversal::lemma_rank_index_at;
use crate::volume::Volume;
use crate::voxel::Voxel;
use crate::vector::IVec3;
use crate::direction::Direction;
use crate::direction::direction_at;
use crate::direction::step;
use crate::direction::neighbor_vecs;
use crate::mesh::ChunkMesh;
use crate::mesh::Face;
use crate::mesh::mesh_of;
use crate::filtering::lemma_filter_take_step;

verus! {

/// Edge length of a chunk, in voxels.
pub const CHUNK_SIZE: usize = 32;

/// Edge length of a chunk, in voxels, as a signed number.
pub const CHUNK_SIZE_I32: i32 = 32;

/// Whether a side of a voxel that looks into a chunk that is not known is
/// drawn. Terrain that is not generated counts as free, so that the edge of
/// the known world shows its faces rather than holes.
pub const DRAW_TOWARDS_UNKNOWN: bool = true;

/// Position of a chunk in chunk space: one unit is `CHUNK_SIZE` voxels.
pub type ChunkPosition = IVec3;

/// A cube of `CHUNK_SIZE` voxels along each axis, at a position in chunk
/// space. A chunk does not change once made.
pub struct Chunk {
    position: ChunkPosition,
    empty: bool,
    volume: Volume<Voxel, CHUNK_SIZE>,
}

/// Whether no voxel of `volume` is active.
pub open spec fn all_inactive(volume: Volume<Voxel, CHUNK_SIZE>) -> bool {
    forall|idx: VolumeIdx| in_bounds(CHUNK_SIZE, idx) ==> !(#[trigger] volume[idx]).active
}

/// Whether `q` is a coordinate inside a chunk.
pub open spec fn local(q: int) -> bool {
    0 <= q < CHUNK_SIZE
}

/// How many chunks along an axis the chunk that holds voxel coordinate `q`
/// lies from the chunk in whose voxel space `q` is given: `q` divided by the
/// chunk size, rounded down.
pub open spec fn chunk_offset(q: int) -> int {
    q / (CHUNK_SIZE as int)
}

/// The coordinate that voxel coordinate `q` has in the chunk that holds it:
/// the remainder of `q` by the chunk size, which is never negative.
pub open spec fn local_part(q: int) -> int {
    q % (CHUNK_SIZE as int)
}

/// The chunk among `neighbors` that sits at `at`: the last one, where
/// several do.
pub open spec fn lookup(neighbors: Seq<Option<Arc<Chunk>>>, at: (int, int, int)) -> Option<Chunk>
    decreases neighbors.len(),
{
    if neighbors.len() == 0 {
        None
    } else {
        let last = neighbors.last();
        if last is Some && last->0.position().coords() == at {
            Some(*last->0)
        } else {
            lookup(neighbors.drop_last(), at)
        }
    }
}

/// Every side of every voxel of a chunk, in the order in which meshing
/// visits them: the voxels in traversal order, and of each voxel the sides
/// in the order of `direction_at`.
pub open spec fn face_slots() -> Seq<Face> {
    Seq::new(
        6 * volume_len(CHUNK_SIZE),
        |s: int| (Face { voxel: index_at(CHUNK_SIZE, (s / 6) as nat), direction: direction_at(s % 6) }),
    )
}

/// A chunk has 32768 voxels.
pub proof fn lemma_chunk_volume()
    ensures
        volume_len(CHUNK_SIZE) == 32768,
{
    let n = CHUNK_SIZE as int;
    assert(n * n * n == 32768) by (nonlinear_arith)
        requires
            n == 32,
    ;
}

/// A chunk found by `lookup` sits where it was looked for.
pub proof fn lemma_lookup_position(neighbors: Seq<Option<Arc<Chunk>>>, at: (int, int, int))
    ensures
        lookup(neighbors, at) matches Some(found) ==> found.position().coords() == at,
    decreases neighbors.len(),
{
    if neighbors.len() > 0 {
        lemma_lookup_position(neighbors.drop_last(), at);
    }
}

/// The offset, in chunks, of the chunk that holds voxel coordinate `q` of
/// this chunk's voxel space, added to `own`; `None` where no chunk position
/// can hold the sum.
fn chunk_coordinate(own: i32, q: i32) -> (home: Option<i32>)
    ensures
        home == if i32::MIN <= own + chunk_offset(q as int) <= i32::MAX {
            Some((own + chunk_offset(q as int)) as i32)
        } else {
            None
        },
{
    match q.checked_div_euclid(CHUNK_SIZE_I32) {
        Some(offset) => own.checked_add(offset),
        None => None,
    }
}

/// The coordinate that voxel coordinate `q` has in the chunk that holds it.
fn local_coordinate(q: i32) -> (within: i32)
    ensures
        within == local_part(q as int),
        local(within as int),
{
    match q.checked_rem_euclid(CHUNK_SIZE_I32) {
        Some(within) => within,
        None => 0,
    }
}

/// The chunk among `neighbors` that sits at `at`.
fn find_neighbor(neighbors: &[Option<Arc<Chunk>>; 6], at: ChunkPosition) -> (found: Option<&Arc<Chunk>>)
    ensures
        match found {
            Some(chunk) => lookup(neighbors@, at.coords()) == Some(**chunk),
            None => lookup(neighbors@, at.coords()) is None,
        },
{
    let mut i: usize = 6;
    assert(neighbors@ =~= neighbors@.take(6));
    while i > 0
        invariant
            0 <= i <= 6,
            lookup(neighbors@, at.coords()) == lookup(neighbors@.take(i as int), at.coords()),
        decreases i,
    {
        i -= 1;
        assert(neighbors@.take(i + 1).drop_last() =~= neighbors@.take(i as int));
        assert(neighbors@.take(i + 1).last() == neighbors@[i as int]);
        match &neighbors[i] {
            Some(chunk) => {
                if chunk.position() == at {
                    return Some(chunk);
                }
            },
            None => {},
        }
    }
    None
}

impl core::ops::Index<IVec3> for Chunk {
    type Output = Voxel;

    /// The voxel at a position in the voxel space of the chunk.
    #[inline(always)]
    fn index(&self, index: IVec3) -> (voxel: &Voxel)
        ensures
            *voxel == self.voxel_at(index.coords()),
    {
        &self.volume[(index.x as usize, index.y as usize, index.z as usize)]
    }
}

impl vstd::std_specs::core::IndexSpecImpl<IVec3> for Chunk {
    open spec fn index_req(&self, index: &IVec3) -> bool {
        local(index.x as int) && local(index.y as int) && local(index.z as int)
    }
}

impl Chunk {
    #[verifier::type_invariant]
    spec fn empty_inv(self) -> bool {
        self.empty == all_inactive(self.volume)
    }

    /// Position of the chunk in chunk space.
    pub closed spec fn spec_position(&self) -> ChunkPosition {
        self.position
    }

    /// The voxels of the chunk.
    pub closed spec fn voxels(&self) -> Volume<Voxel, CHUNK_SIZE> {
        self.volume
    }

    /// The voxel at a position in the voxel space of the chunk.
    pub open spec fn voxel_at(&self, at: (int, int, int)) -> Voxel {
        self.voxels()[(at.0 as usize, at.1 as usize, at.2 as usize)]
    }

    /// Whether the place `q` in the voxel space of this chunk is taken by an
    /// active voxel, as far as this chunk and `neighbors` tell. Inside the
    /// chunk its own voxel decides. Outside it the voxel of the chunk that
    /// holds `q` decides, where that chunk is among `neighbors`; of a place
    /// in a chunk that is not among them `DRAW_TOWARDS_UNKNOWN` decides.
    pub open spec fn occluded(&self, neighbors: Seq<Option<Arc<Chunk>>>, q: (int, int, int)) -> bool {
        if local(q.0) && local(q.1) && local(q.2) {
            self.voxel_at(q).active
        } else {
            let home = (
                self.position().x + chunk_offset(q.0),
                self.position().y + chunk_offset(q.1),
                self.position().z + chunk_offset(q.2),
            );
            match lookup(neighbors, home) {
                Some(other) => other.voxel_at((local_part(q.0), local_part(q.1), local_part(q.2))).active,
                None => !DRAW_TOWARDS_UNKNOWN,
            }
        }
    }

    /// Whether meshing draws `face`: its voxel is active, and the place that
    /// the face looks at is not occluded.
    pub open spec fn draws(&self, neighbors: Seq<Option<Arc<Chunk>>>, face: Face) -> bool {
        &&& self.voxels()[face.voxel].active
        &&& !self.occluded(
            neighbors,
            step((face.voxel.0 as int, face.voxel.1 as int, face.voxel.2 as int), face.direction),
        )
    }

    /// `draws`, as a function of the face alone.
    pub open spec fn draw_rule(&self, neighbors: Seq<Option<Arc<Chunk>>>) -> spec_fn(Face) -> bool {
        |face: Face| self.draws(neighbors, face)
    }

    /// The faces that meshing draws, in the order in which it draws them.
    pub open spec fn visible_faces(&self, neighbors: Seq<Option<Arc<Chunk>>>) -> Seq<Face> {
        face_slots().filter(self.draw_rule(neighbors))
    }

    /// Two chunks at one position with the same voxels and the same
    /// emptiness are equal.
    pub proof fn lemma_ext_equal(self, other: Chunk)
        requires
            self.position() == other.position(),
            self.voxels() == other.voxels(),
            self.is_empty() == other.is_empty(),
        ensures
            self == other,
    {
    }

    /// A chunk at `position` with the voxels `data`. It is empty exactly
    /// when no voxel of `data` is active.
    pub fn new(position: ChunkPosition, data: Volume<Voxel, CHUNK_SIZE>) -> (chunk: Self)
        ensures
            chunk.position() == position,
            chunk.voxels() == data,
            chunk.is_empty() == all_inactive(data),
    {
        let mut empty = true;
        let mut it = data.iter();
        proof {
            it.lemma_remaining();
        }
        loop
            invariant_except_break
                empty,
                it.volume() == data,
                it.yielded() <= volume_len(CHUNK_SIZE),
                it.remaining() == data.cells_from(it.yielded()),
                forall|k: int| 0 <= k < it.yielded() ==> !data[#[trigger] index_at(CHUNK_SIZE, k as nat)].active,
            ensures
                empty == all_inactive(data),
            decreases volume_len(CHUNK_SIZE) - it.yielded(),
        {
            let ghost k = it.yielded();
            match it.next() {
                Some((_, voxel)) => {
                    proof {
                        it.lemma_remaining();
                        lemma_rank_index_at(CHUNK_SIZE, k);
                    }
                    if voxel.active {
                        empty = false;
                        assert(!all_inactive(data)) by {
                            assert(data[index_at(CHUNK_SIZE, k)].active);
                        }
                        break ;
                    }
                },
                None => {
                    assert(all_inactive(data)) by {
                        assert forall|idx: VolumeIdx| in_bounds(CHUNK_SIZE, idx) implies !(#[trigger] data[idx]).active by {
                            lemma_rank_bound(CHUNK_SIZE, idx);
                            lemma_index_at_rank(CHUNK_SIZE, idx);
                            assert(!data[index_at(CHUNK_SIZE, rank(CHUNK_SIZE, idx))].active);
                        }
                    }
                    break ;
                },
            }
        }
        Self { position, volume: data, empty }
    }

    /// Position of the chunk in chunk space.
    #[verifier::when_used_as_spec(spec_position)]
    pub fn position(&self) -> (position: ChunkPosition)
        ensures
            position == self.spec_position(),
    {
        self.position
    }

    /// Whether the chunk was made without an active voxel.
    pub closed spec fn spec_is_empty(&self) -> bool {
        self.empty
    }

    /// Whether the chunk was made without an active voxel.
    #[verifier::when_used_as_spec(spec_is_empty)]
    pub fn is_empty(&self) -> (empty: bool)
        ensures
            empty == self.spec_is_empty(),
            empty == all_inactive(self.voxels()),
    {
        proof {
            use_type_invariant(self);
        }
        self.empty
    }

    /// Meshing passes over an inactive voxel: none of its six sides is drawn.
    proof fn lemma_inactive_voxel_skipped(&self, neighbors: Seq<Option<Arc<Chunk>>>, k: nat)
        requires
            k < volume_len(CHUNK_SIZE),
            !self.voxels()[index_at(CHUNK_SIZE, k)].active,
        ensures
            face_slots().take(6 * (k as int) + 6).filter(self.draw_rule(neighbors)) == face_slots().take(
                6 * (k as int),
            ).filter(self.draw_rule(neighbors)),
    {
        let slots = face_slots();
        let keep = self.draw_rule(neighbors);
        let first = 6 * (k as int);
        lemma_filter_take_step(slots, keep, first);
        lemma_filter_take_step(slots, keep, first + 1);
        lemma_filter_take_step(slots, keep, first + 2);
        lemma_filter_take_step(slots, keep, first + 3);
        lemma_filter_take_step(slots, keep, first + 4);
        lemma_filter_take_step(slots, keep, first + 5);
    }

    /// Builds the mesh of the chunk: one quad for every side of an active
    /// voxel that does not look at an active voxel. `neighbor_chunks` are the
    /// chunks around this one as far as they are known; a side that looks
    /// into a chunk that is not among them is drawn.
    pub fn create_mesh(&self, neighbor_chunks: [Option<Arc<Chunk>>; 6]) -> (mesh: ChunkMesh)
        ensures
            mesh@ == mesh_of(self.position(), self.visible_faces(neighbor_chunks@)),
            mesh@.position == self.position(),
            mesh@.normals.len() == mesh@.vertices.len(),
            mesh@.uvs.len() == mesh@.vertices.len(),
            mesh@.vertices.len() % 4 == 0,
            2 * mesh@.indices.len() == 3 * mesh@.vertices.len(),
    {
        let mut mesh = ChunkMesh::empty(self.position());
        let ghost slots = face_slots();
        let ghost keep = self.draw_rule(neighbor_chunks@);
        let ghost mut faces: Seq<Face> = Seq::empty();

        // We calculate offsets from this value that eventually go in the index buffer.
        let mut current_index = 0u32;
        let mut it = self.volume.iter();
        proof {
            it.lemma_remaining();
            reveal(Seq::filter);
            assert(slots.take(0).filter(keep) =~= faces);
        }
        loop
            invariant
                it.volume() == self.volume,
                it.yielded() <= volume_len(CHUNK_SIZE),
                it.remaining() == self.volume.cells_from(it.yielded()),
                slots == face_slots(),
                keep == self.draw_rule(neighbor_chunks@),
                faces == slots.take(6 * (it.yielded() as int)).filter(keep),
                mesh@ == mesh_of(self.position(), faces),
                current_index == 4 * faces.len(),
            ensures
                it.yielded() == volume_len(CHUNK_SIZE),
            decreases volume_len(CHUNK_SIZE) - it.yielded(),
        {
            let ghost k = it.yielded();
            match it.next() {
                Some((idx, voxel)) => {
                    proof {
                        it.lemma_remaining();
                        lemma_rank_index_at(CHUNK_SIZE, k);
                    }
                    if voxel.active {
                        let voxel_pos = IVec3::new(idx.0 as i32, idx.1 as i32, idx.2 as i32);
                        let neighbors = neighbor_vecs(voxel_pos);
                        let mut side: usize = 0;
                        while side < 6
                            invariant
                                0 <= side <= 6,
                                k < volume_len(CHUNK_SIZE),
                                idx == index_at(CHUNK_SIZE, k),
                                in_bounds(CHUNK_SIZE, idx),
                                self.voxels()[idx].active,
                                voxel_pos == (IVec3 { x: idx.0 as i32, y: idx.1 as i32, z: idx.2 as i32 }),
                                forall|i: int|
                                    0 <= i < 6 ==> (#[trigger] neighbors[i]).coords() == step(
                                        voxel_pos.coords(),
                                        direction_at(i),
                                    ),
                                slots == face_slots(),
                                keep == self.draw_rule(neighbor_chunks@),
                                faces == slots.take(6 * (k as int) + side).filter(keep),
                                mesh@ == mesh_of(self.position(), faces),
                                current_index == 4 * faces.len(),
                            decreases 6 - side,
                        {
                            let nb_vox_pos = neighbors[side];
                            let should_draw = !self.is_occluded(&neighbor_chunks, nb_vox_pos);
                            proof {
                                let s = 6 * (k as int) + side;
                                assert(s / 6 == k && s % 6 == side);
                                assert(slots[s] == (Face { voxel: idx, direction: direction_at(side as int) }));
                                assert(neighbors[side as int].coords() == step(
                                    voxel_pos.coords(),
                                    direction_at(side as int),
                                ));
                                assert(keep(slots[s]) == should_draw);
                                lemma_filter_take_step(slots, keep, s);
                                slots.take(s).lemma_filter_len(keep);
                                lemma_chunk_volume();
                                assert(faces.len() <= s);
                            }
                            if should_draw {
                                // Determine what face mesh to use for this.
                                let direction = Direction::from_relative(voxel_pos, nb_vox_pos);
                                assert(direction == direction_at(side as int));
                                mesh.push_face(voxel_pos, direction, current_index, Ghost(faces));
                                proof {
                                    faces = faces.push(slots[6 * (k as int) + side]);
                                }
                                // Each voxel face requires 4 vertices (2 triangles)
                                current_index += 4;
                            }
                            side += 1;
                        }
                    } else {
                        proof {
                            self.lemma_inactive_voxel_skipped(neighbor_chunks@, k);
                        }
                    }
                },
                None => {
                    break ;
                },
            }
        }
        assert(slots.take(6 * (volume_len(CHUNK_SIZE) as int)) =~= slots);
        mesh
    }

    /// Whether the place `q` in the voxel space of this chunk is taken by an
    /// active voxel, as far as this chunk and `neighbors` tell.
    fn is_occluded(&self, neighbors: &[Option<Arc<Chunk>>; 6], q: IVec3) -> (taken: bool)
        ensures
            taken == self.occluded(neighbors@, q.coords()),
    {
        if 0 <= q.x && q.x < CHUNK_SIZE_I32 && 0 <= q.y && q.y < CHUNK_SIZE_I32 && 0 <= q.z && q.z
            < CHUNK_SIZE_I32 {
            // Voxel is in the same chunk
            self[q].active
        } else {
            // Voxel is in another chunk
            let ghost home = (
                self.position().x + chunk_offset(q.x as int),
                self.position().y + chunk_offset(q.y as int),
                self.position().z + chunk_offset(q.z as int),
            );
            proof {
                lemma_lookup_position(neighbors@, home);
            }
            let x = chunk_coordinate(self.position.x, q.x);
            let y = chunk_coordinate(self.position.y, q.y);
            let z = chunk_coordinate(self.position.z, q.z);
            match (x, y, z) {
                (Some(x), Some(y), Some(z)) => {
                    // If no chunk is known at this position, the terrain
                    // there is not generated. That is different from an
                    // empty chunk: nothing is known to cover the face.
                    match find_neighbor(neighbors, IVec3::new(x, y, z)) {
                        Some(other) => {
                            // That chunk exists so we need to check what
                            // voxel is there.
                            let within = IVec3::new(
                                local_coordinate(q.x),
                                local_coordinate(q.y),
                                local_coordinate(q.z),
                            );
                            other[within].active
                        },
                        None => !DRAW_TOWARDS_UNKNOWN,
                    }
                },
                _ => !DRAW_TOWARDS_UNKNOWN,
            }
        }
    }
}

impl From<Chunk> for Volume<Voxel, CHUNK_SIZE> {
    fn from(chunk: Chunk) -> (volume: Self) {
        chunk.volume
    }
}

impl vstd::std_specs::convert::FromSpecImpl<Chunk> for Volume<Voxel, CHUNK_SIZE> {
    open spec fn obeys_from_spec() -> bool {
        true
    }

    open spec fn from_spec(chunk: Chunk) -> Self {
        chunk.voxels()
    }
}

} // verus!
