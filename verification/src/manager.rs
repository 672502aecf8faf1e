//! Generation of chunks from noise, the registry of the chunks that are
//! known, and the pipeline that turns a batch of positions into meshes.
//!
//! The pipeline has two stages. The first makes a chunk for each position of
//! the batch, each from the noise source alone. Then all of them are entered
//! into the registry. Only after that the second stage makes a mesh for each
//! chunk of the batch, looking up the chunks around it in the registry. So a
//! mesh never misses a chunk of its own batch.
use vstd::prelude::*;
use vstd::std_specs::iter::IteratorSpec;
use std::collections::HashMap;
use std::sync::Arc;
use crate::traversal::VolumeIdx;
use crate::traversal::in_bounds;
use crate::traversal::volume_len;
use crate::traversal::rank;
use crate::traversal::lemma_rank_bound;
use crate::traversal::lemma_index_at_rank;
use crate::traversal::lemma_rank_index_at;
use crate::volume::Volume;
use crate::volume::indices_from;
use crate::voxel::Voxel;
use crate::vector::IVec3;
use crate::direction::direction_at;
use crate::direction::step;
use crate::direction::Direction;
use crate::chunk::Chunk;
use crate::chunk::ChunkPosition;
use crate::chunk::CHUNK_SIZE;
use crate::chunk::all_inactive;
use crate::mesh::ChunkMesh;
use crate::mesh::mesh_of;
use crate::sample::SamplePoint;
use crate::sample::sample_point_of;
use crate::sample::sample_point;
use crate::sample::below_threshold;
use crate::sample::is_below_threshold;

verus! {

broadcast use vstd::std_specs::hash::group_hash_axioms;

/// Whether `voxel` is what the noise source gives for the voxel `idx` of the
/// chunk at `position`: the source can answer the voxel's sample point with a
/// sample for which the voxel is active exactly when the sample does not
/// fall below the threshold.
pub open spec fn voxel_from_noise<G: Fn(SamplePoint) -> u64>(
    noisegen: G,
    position: ChunkPosition,
    idx: VolumeIdx,
    voxel: Voxel,
) -> bool {
    exists|sample: u64| #[trigger]
        noisegen.ensures((sample_point_of(position, idx),), sample) && voxel.active == !below_threshold(sample)
}

/// Whether `chunk` is what generation gives for `position` from the noise
/// source.
pub open spec fn generated_by<G: Fn(SamplePoint) -> u64>(noisegen: G, position: ChunkPosition, chunk: Chunk) -> bool {
    &&& chunk.position() == position
    &&& chunk.is_empty() == all_inactive(chunk.voxels())
    &&& forall|idx: VolumeIdx|
        #![trigger voxel_from_noise(noisegen, position, idx, chunk.voxels()[idx])]
        #![trigger chunk.voxels()[idx]]
        in_bounds(CHUNK_SIZE, idx) ==> voxel_from_noise(noisegen, position, idx, chunk.voxels()[idx])
}

/// Whether the noise source can be asked for every voxel of the chunk at
/// `position`.
pub open spec fn can_sample<G: Fn(SamplePoint) -> u64>(noisegen: G, position: ChunkPosition) -> bool {
    forall|idx: VolumeIdx|
        in_bounds(CHUNK_SIZE, idx) ==> noisegen.requires((#[trigger] sample_point_of(position, idx),))
}

/// Whether the noise source is a function: it answers a point with one
/// sample only.
pub open spec fn is_function<G: Fn(SamplePoint) -> u64>(noisegen: G) -> bool {
    forall|point: SamplePoint, a: u64, b: u64|
        #![trigger noisegen.ensures((point,), a), noisegen.ensures((point,), b)]
        noisegen.ensures((point,), a) && noisegen.ensures((point,), b) ==> a == b
}

/// Offset that makes a coordinate of a chunk position a natural number.
pub const KEY_BIAS: i64 = 0x8000_0000;

/// Number of values that a coordinate of a chunk position can have.
pub const KEY_RADIX: u128 = 0x1_0000_0000;

/// The number under which the registry holds the chunk at `position`: the
/// three coordinates, each made a natural number, as three digits.
pub open spec fn key_of(position: ChunkPosition) -> u128 {
    (((position.x + KEY_BIAS) * KEY_RADIX + (position.y + KEY_BIAS)) * KEY_RADIX + (position.z + KEY_BIAS)) as u128
}

/// Different positions have different keys.
pub proof fn lemma_key_injective(a: ChunkPosition, b: ChunkPosition)
    requires
        key_of(a) == key_of(b),
    ensures
        a == b,
{
}

/// The chunk position with the coordinates `at`, where there is one.
pub open spec fn position_at(at: (int, int, int)) -> Option<ChunkPosition> {
    if i32::MIN <= at.0 <= i32::MAX && i32::MIN <= at.1 <= i32::MAX && i32::MIN <= at.2 <= i32::MAX {
        Some(IVec3 { x: at.0 as i32, y: at.1 as i32, z: at.2 as i32 })
    } else {
        None
    }
}

/// The chunk that `registry` holds at the coordinates `at`, if any.
pub open spec fn chunk_at(registry: Map<ChunkPosition, Arc<Chunk>>, at: (int, int, int)) -> Option<Arc<Chunk>> {
    match position_at(at) {
        Some(position) => if registry.contains_key(position) {
            Some(registry[position])
        } else {
            None
        },
        None => None,
    }
}

/// Whether every chunk of `registry` sits at the position under which the
/// registry holds it.
pub open spec fn well_keyed(registry: Map<ChunkPosition, Arc<Chunk>>) -> bool {
    forall|position: ChunkPosition|
        registry.contains_key(position) ==> (#[trigger] registry[position]).position() == position
}

/// The chunks that `registry` holds around `position`, one step away in
/// each direction, in the order of `direction_at`.
pub open spec fn neighbors_of(registry: Map<ChunkPosition, Arc<Chunk>>, position: ChunkPosition) -> Seq<
    Option<Arc<Chunk>>,
> {
    Seq::new(6, |i: int| chunk_at(registry, step(position.coords(), direction_at(i))))
}

/// The mesh of `chunk` in a world that holds the chunks of `registry`.
pub open spec fn mesh_in(registry: Map<ChunkPosition, Arc<Chunk>>, chunk: Chunk) -> crate::mesh::MeshView {
    mesh_of(chunk.position(), chunk.visible_faces(neighbors_of(registry, chunk.position())))
}

/// `registry` after the chunks `chunks` were entered one after the other,
/// each at its own position.
pub open spec fn with_chunks(registry: Map<ChunkPosition, Arc<Chunk>>, chunks: Seq<Arc<Chunk>>) -> Map<
    ChunkPosition,
    Arc<Chunk>,
>
    decreases chunks.len(),
{
    if chunks.len() == 0 {
        registry
    } else {
        with_chunks(registry, chunks.drop_last()).insert(chunks.last().position(), chunks.last())
    }
}

/// What a run of the pipeline on `positions` comes to, where `chunks` are
/// the chunks that the first stage made: each chunk is generated for its
/// position, the registry holds all of them on top of what it held `before`,
/// and each mesh is the mesh of its chunk in that registry.
pub open spec fn batch_done<G: Fn(SamplePoint) -> u64>(
    noisegen: G,
    positions: Seq<ChunkPosition>,
    chunks: Seq<Arc<Chunk>>,
    before: Map<ChunkPosition, Arc<Chunk>>,
    after: Map<ChunkPosition, Arc<Chunk>>,
    meshes: Vec<ChunkMesh>,
) -> bool {
    &&& chunks.len() == positions.len()
    &&& meshes.len() == positions.len()
    &&& after == with_chunks(before, chunks)
    &&& well_keyed(after)
    &&& forall|i: int| 0 <= i < positions.len() ==> generated_by(noisegen, positions[i], *#[trigger] chunks[i])
    &&& forall|i: int| 0 <= i < positions.len() ==> (#[trigger] meshes[i])@ == mesh_in(after, *chunks[i])
}

/// Determinism. Two chunks generated for one position from a noise source
/// that is a function are equal.
pub proof fn lemma_generation_deterministic<G: Fn(SamplePoint) -> u64>(
    noisegen: G,
    position: ChunkPosition,
    first: Chunk,
    second: Chunk,
)
    requires
        is_function(noisegen),
        generated_by(noisegen, position, first),
        generated_by(noisegen, position, second),
    ensures
        first == second,
{
    assert forall|idx: VolumeIdx| in_bounds(CHUNK_SIZE, idx) implies first.voxels()[idx] == second.voxels()[idx] by {
        assert(voxel_from_noise(noisegen, position, idx, first.voxels()[idx]));
        assert(voxel_from_noise(noisegen, position, idx, second.voxels()[idx]));
    }
    first.voxels().lemma_ext_equal(second.voxels());
    first.lemma_ext_equal(second);
}

/// The number under which the registry holds the chunk at `position`.
fn key(position: ChunkPosition) -> (key: u128)
    ensures
        key == key_of(position),
{
    let x = (position.x as i64 + KEY_BIAS) as u128;
    let y = (position.y as i64 + KEY_BIAS) as u128;
    let z = (position.z as i64 + KEY_BIAS) as u128;
    (x * KEY_RADIX + y) * KEY_RADIX + z
}

/// The position one step from `position` in direction `direction`, where a
/// position can hold it.
fn neighbor_position(position: ChunkPosition, direction: Direction) -> (neighbor: Option<ChunkPosition>)
    ensures
        neighbor == position_at(step(position.coords(), direction)),
{
    let (x, y, z) = match direction {
        Direction::Up => (Some(position.x), position.y.checked_add(1), Some(position.z)),
        Direction::Down => (Some(position.x), position.y.checked_sub(1), Some(position.z)),
        Direction::North => (Some(position.x), Some(position.y), position.z.checked_sub(1)),
        Direction::East => (position.x.checked_add(1), Some(position.y), Some(position.z)),
        Direction::South => (Some(position.x), Some(position.y), position.z.checked_add(1)),
        Direction::West => (position.x.checked_sub(1), Some(position.y), Some(position.z)),
    };
    match (x, y, z) {
        (Some(x), Some(y), Some(z)) => Some(IVec3::new(x, y, z)),
        _ => None,
    }
}

/// Holds the chunks that are known, each under its position.
pub struct ChunkManager {
    chunks: HashMap<u128, Arc<Chunk>>,
}

impl ChunkManager {
    #[verifier::type_invariant]
    spec fn keys_inv(self) -> bool {
        forall|key: u128| #[trigger]
            self.chunks@.contains_key(key) ==> key_of(self.chunks@[key].position()) == key
    }

    /// The chunks that are known, by position.
    pub closed spec fn registry(&self) -> Map<ChunkPosition, Arc<Chunk>> {
        Map::new(
            |position: ChunkPosition| self.chunks@.contains_key(key_of(position)),
            |position: ChunkPosition| self.chunks@[key_of(position)],
        )
    }

    /// Where every chunk of the map has the key of its own position, every
    /// chunk of the registry sits at the position under which it is held.
    proof fn lemma_well_keyed(&self)
        requires
            self.keys_inv(),
        ensures
            well_keyed(self.registry()),
    {
        assert forall|position: ChunkPosition| self.registry().contains_key(position) implies (
        #[trigger] self.registry()[position]).position() == position by {
            lemma_key_injective(self.chunks@[key_of(position)].position(), position);
        }
    }

    /// A manager that knows no chunk.
    pub fn new() -> (manager: Self)
        ensures
            manager.registry() == Map::<ChunkPosition, Arc<Chunk>>::empty(),
    {
        let manager = ChunkManager { chunks: HashMap::new() };
        assert(manager.registry() =~= Map::<ChunkPosition, Arc<Chunk>>::empty());
        manager
    }

    /// The chunk at `position`, if it is known.
    pub fn get(&self, position: ChunkPosition) -> (chunk: Option<&Arc<Chunk>>)
        ensures
            match chunk {
                Some(found) => chunk_at(self.registry(), position.coords()) == Some(*found)
                    && found.position() == position,
                None => chunk_at(self.registry(), position.coords()) is None,
            },
    {
        proof {
            use_type_invariant(self);
        }
        let key = key(position);
        let chunk = self.chunks.get(&key);
        proof {
            if chunk is Some {
                lemma_key_injective(self.chunks@[key].position(), position);
            }
        }
        chunk
    }

    /// Enters `chunk` under its position. A chunk that was known at that
    /// position is replaced.
    pub fn insert(&mut self, chunk: Arc<Chunk>)
        ensures
            final(self).registry() == old(self).registry().insert(chunk.position(), chunk),
            well_keyed(final(self).registry()),
    {
        proof {
            use_type_invariant(&*self);
        }
        let key = key(chunk.position());
        // The map is taken out while it changes, and put back whole.
        let mut chunks = HashMap::new();
        core::mem::swap(&mut self.chunks, &mut chunks);
        chunks.insert(key, chunk);
        core::mem::swap(&mut self.chunks, &mut chunks);
        proof {
            assert forall|position: ChunkPosition|
                key_of(position) == key implies position == chunk.position() by {
                lemma_key_injective(position, chunk.position());
            }
            assert(self.registry() =~= old(self).registry().insert(chunk.position(), chunk));
            use_type_invariant(&*self);
            self.lemma_well_keyed();
        }
    }

    /// Produces the chunk at `pos` from the noise source: every voxel is sampled
    /// at its own point, and is active unless its sample falls below the
    /// threshold.
    pub fn generate_new<G: Fn(SamplePoint) -> u64>(noisegen: &G, pos: ChunkPosition) -> (chunk: Chunk)
        requires
            can_sample(*noisegen, pos),
        ensures
            generated_by(*noisegen, pos, chunk),
    {
        let mut vol: Volume<Voxel, CHUNK_SIZE> = Volume::filled(Voxel::active());
        let mut it = vol.iter_indices();
        proof {
            it.lemma_remaining();
        }
        loop
            invariant
                can_sample(*noisegen, pos),
                it.yielded() <= volume_len(CHUNK_SIZE),
                it.remaining() == indices_from(CHUNK_SIZE, it.yielded()),
                forall|idx: VolumeIdx|
                    in_bounds(CHUNK_SIZE, idx) && rank(CHUNK_SIZE, idx) < it.yielded() ==> #[trigger] voxel_from_noise(
                        *noisegen,
                        pos,
                        idx,
                        vol[idx],
                    ),
                forall|idx: VolumeIdx|
                    in_bounds(CHUNK_SIZE, idx) && rank(CHUNK_SIZE, idx) >= it.yielded() ==> (#[trigger] vol[idx]).active,
            ensures
                it.yielded() == volume_len(CHUNK_SIZE),
            decreases volume_len(CHUNK_SIZE) - it.yielded(),
        {
            let ghost k = it.yielded();
            let ghost before = vol;
            match it.next() {
                Some(idx) => {
                    proof {
                        it.lemma_remaining();
                        lemma_rank_index_at(CHUNK_SIZE, k);
                    }
                    let noise = noisegen(sample_point(pos, idx));
                    if is_below_threshold(noise) {
                        core::ops::IndexMut::index_mut(&mut vol, idx).active = false;
                    }
                    proof {
                        assert(voxel_from_noise(*noisegen, pos, idx, vol[idx]));
                        assert forall|other: VolumeIdx|
                            in_bounds(CHUNK_SIZE, other) && rank(CHUNK_SIZE, other) < k + 1
                                implies #[trigger] voxel_from_noise(*noisegen, pos, other, vol[other]) by {
                            if other != idx {
                                lemma_index_at_rank(CHUNK_SIZE, other);
                                assert(vol[other] == before[other]);
                                assert(voxel_from_noise(*noisegen, pos, other, before[other]));
                            }
                        }
                        assert forall|other: VolumeIdx|
                            in_bounds(CHUNK_SIZE, other) && rank(CHUNK_SIZE, other) >= k + 1
                                implies (#[trigger] vol[other]).active by {
                            assert(other != idx);
                            assert(vol[other] == before[other]);
                        }
                    }
                },
                None => {
                    break ;
                },
            }
        }
        proof {
            assert forall|idx: VolumeIdx| in_bounds(CHUNK_SIZE, idx) implies #[trigger] voxel_from_noise(
                *noisegen,
                pos,
                idx,
                vol[idx],
            ) by {
                lemma_rank_bound(CHUNK_SIZE, idx);
            }
        }
        Chunk::new(pos, vol)
    }

    /// The chunks that are known around `position`, one step away in each
    /// direction, in the order of `direction_at`.
    pub fn neighbor_chunks(&self, position: ChunkPosition) -> (neighbor_chunks: [Option<Arc<Chunk>>; 6])
        ensures
            neighbor_chunks@ == neighbors_of(self.registry(), position),
    {
        let directions = Direction::all();
        let mut neighbor_chunks: [Option<Arc<Chunk>>; 6] = [None, None, None, None, None, None];
        let mut i: usize = 0;
        while i < 6
            invariant
                0 <= i <= 6,
                forall|j: int| 0 <= j < 6 ==> directions[j] == direction_at(j),
                forall|j: int|
                    0 <= j < i ==> #[trigger] neighbor_chunks[j] == chunk_at(
                        self.registry(),
                        step(position.coords(), direction_at(j)),
                    ),
            decreases 6 - i,
        {
            let found = match neighbor_position(position, directions[i]) {
                Some(neighbor) => match self.get(neighbor) {
                    Some(chunk) => Some(chunk.clone()),
                    None => None,
                },
                None => None,
            };
            neighbor_chunks[i] = found;
            i += 1;
        }
        assert(neighbor_chunks@ =~= neighbors_of(self.registry(), position));
        neighbor_chunks
    }

    /// The mesh of `chunk` among the chunks that are known: what one job of
    /// the second stage does.
    pub fn mesh_chunk(&self, chunk: &Chunk) -> (mesh: ChunkMesh)
        ensures
            mesh@ == mesh_in(self.registry(), *chunk),
    {
        let neighbor_chunks = self.neighbor_chunks(chunk.position());
        chunk.create_mesh(neighbor_chunks)
    }

    /// The first stage: a chunk for each position, each from the noise
    /// source alone.
    pub fn generate_all<G: Fn(SamplePoint) -> u64>(noisegen: &G, positions: &Vec<ChunkPosition>) -> (chunks: Vec<
        Arc<Chunk>,
    >)
        requires
            forall|i: int| 0 <= i < positions.len() ==> can_sample(*noisegen, #[trigger] positions[i]),
        ensures
            chunks.len() == positions.len(),
            forall|i: int| 0 <= i < positions.len() ==> generated_by(*noisegen, positions[i], *#[trigger] chunks[i]),
    {
        let mut chunks: Vec<Arc<Chunk>> = Vec::new();
        let mut i: usize = 0;
        while i < positions.len()
            invariant
                0 <= i <= positions.len(),
                chunks.len() == i,
                forall|j: int| 0 <= j < positions.len() ==> can_sample(*noisegen, #[trigger] positions[j]),
                forall|j: int| 0 <= j < i ==> generated_by(*noisegen, positions[j], *#[trigger] chunks[j]),
            decreases positions.len() - i,
        {
            let chunk = Self::generate_new(noisegen, positions[i]);
            chunks.push(Arc::new(chunk));
            i += 1;
        }
        chunks
    }

    /// The barrier between the stages: enters every chunk of the batch.
    pub fn insert_all(&mut self, chunks: &Vec<Arc<Chunk>>)
        ensures
            final(self).registry() == with_chunks(old(self).registry(), chunks@),
            well_keyed(final(self).registry()),
    {
        proof {
            use_type_invariant(&*self);
            self.lemma_well_keyed();
        }
        let mut i: usize = 0;
        while i < chunks.len()
            invariant
                0 <= i <= chunks.len(),
                self.registry() == with_chunks(old(self).registry(), chunks@.take(i as int)),
                well_keyed(self.registry()),
            decreases chunks.len() - i,
        {
            assert(chunks@.take(i + 1).drop_last() =~= chunks@.take(i as int));
            self.insert(chunks[i].clone());
            i += 1;
        }
        assert(chunks@.take(chunks.len() as int) =~= chunks@);
    }

    /// The second stage: a mesh for each chunk, each against the chunks
    /// that are known.
    pub fn mesh_all(&self, chunks: &Vec<Arc<Chunk>>) -> (meshes: Vec<ChunkMesh>)
        ensures
            meshes.len() == chunks.len(),
            forall|i: int| 0 <= i < chunks.len() ==> (#[trigger] meshes[i])@ == mesh_in(self.registry(), *chunks[i]),
    {
        let mut meshes: Vec<ChunkMesh> = Vec::new();
        let mut i: usize = 0;
        while i < chunks.len()
            invariant
                0 <= i <= chunks.len(),
                meshes.len() == i,
                forall|j: int| 0 <= j < i ==> (#[trigger] meshes[j])@ == mesh_in(self.registry(), *chunks[j]),
            decreases chunks.len() - i,
        {
            let mesh = self.mesh_chunk(&chunks[i]);
            meshes.push(mesh);
            i += 1;
        }
        meshes
    }

    /// Generates the chunks at `positions`, enters them all, and then makes
    /// the mesh of each. The meshes come in the order of the positions.
    pub fn gen_mesh_multi<G: Fn(SamplePoint) -> u64>(&mut self, noisegen: &G, positions: Vec<ChunkPosition>) -> (meshes:
        Vec<ChunkMesh>)
        requires
            forall|i: int| 0 <= i < positions.len() ==> can_sample(*noisegen, #[trigger] positions[i]),
        ensures
            exists|chunks: Seq<Arc<Chunk>>| #[trigger]
                batch_done(*noisegen, positions@, chunks, old(self).registry(), final(self).registry(), meshes),
    {
        let chunks = Self::generate_all(noisegen, &positions);
        self.insert_all(&chunks);
        let meshes = self.mesh_all(&chunks);
        assert(batch_done(*noisegen, positions@, chunks@, old(self).registry(), self.registry(), meshes));
        meshes
    }
}

impl Default for ChunkManager {
    /// A manager that knows no chunk.
    fn default() -> (manager: Self)
        ensures
            manager.registry() == Map::<ChunkPosition, Arc<Chunk>>::empty(),
    {
        Self::new()
    }
}

} // verus!
