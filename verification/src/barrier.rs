//! What the barrier between the two stages of the pipeline achieves.
//!
//! `ChunkManager::gen_mesh_multi` enters every chunk of a batch into the
//! registry before it makes the first mesh. The proofs here say what the
//! registry then holds, and that the mesh of a chunk of the batch is made
//! with every chunk of the batch around it in view.
use vstd::prelude::*;
use std::sync::Arc;
use crate::traversal::in_bounds;
use crate::direction::Direction;
use crate::direction::direction_at;
use crate::direction::step;
use crate::mesh::Face;
use crate::chunk::Chunk;
use crate::chunk::ChunkPosition;
use crate::chunk::CHUNK_SIZE;
use crate::chunk::local_part;
use crate::culling::faced;
use crate::culling::inside;
use crate::culling::lemma_known_neighbor_hides;
use crate::manager::with_chunks;
use crate::manager::neighbors_of;
use crate::manager::position_at;
use crate::manager::well_keyed;

verus! {

/// Whether a chunk of the batch `chunks` sits at `position`.
pub open spec fn in_batch(chunks: Seq<Arc<Chunk>>, position: ChunkPosition) -> bool {
    exists|i: int| 0 <= i < chunks.len() && (#[trigger] chunks[i]).position() == position
}

/// After a batch was entered, the registry knows the positions of the batch
/// and those that it knew before, and no other.
pub proof fn lemma_batch_domain(before: Map<ChunkPosition, Arc<Chunk>>, chunks: Seq<Arc<Chunk>>, position: ChunkPosition)
    ensures
        with_chunks(before, chunks).contains_key(position) <==> before.contains_key(position) || in_batch(
            chunks,
            position,
        ),
    decreases chunks.len(),
{
    if chunks.len() > 0 {
        let rest = chunks.drop_last();
        lemma_batch_domain(before, rest, position);
        if in_batch(rest, position) {
            let i = choose|i: int| 0 <= i < rest.len() && (#[trigger] rest[i]).position() == position;
            assert(chunks[i].position() == position);
        }
        if position == chunks.last().position() {
            assert(chunks[chunks.len() - 1].position() == position);
        }
        if in_batch(chunks, position) {
            let i = choose|i: int| 0 <= i < chunks.len() && (#[trigger] chunks[i]).position() == position;
            if i < rest.len() {
                assert(rest[i].position() == position);
            }
        }
    }
}

/// Entering a batch leaves the chunk at a position outside the batch as it
/// was.
pub proof fn lemma_batch_keeps(before: Map<ChunkPosition, Arc<Chunk>>, chunks: Seq<Arc<Chunk>>, position: ChunkPosition)
    requires
        !in_batch(chunks, position),
    ensures
        with_chunks(before, chunks).contains_key(position) == before.contains_key(position),
        with_chunks(before, chunks)[position] == before[position],
    decreases chunks.len(),
{
    if chunks.len() > 0 {
        let rest = chunks.drop_last();
        assert(chunks[chunks.len() - 1].position() != position);
        assert(!in_batch(rest, position)) by {
            if in_batch(rest, position) {
                let i = choose|i: int| 0 <= i < rest.len() && (#[trigger] rest[i]).position() == position;
                assert(chunks[i].position() == position);
            }
        }
        lemma_batch_keeps(before, rest, position);
    }
}

/// After a batch was entered, the registry holds each chunk of the batch
/// at its position, unless a later chunk of the batch sits there too.
pub proof fn lemma_batch_holds(before: Map<ChunkPosition, Arc<Chunk>>, chunks: Seq<Arc<Chunk>>, i: int)
    requires
        0 <= i < chunks.len(),
        forall|j: int| i < j < chunks.len() ==> (#[trigger] chunks[j]).position() != chunks[i].position(),
    ensures
        with_chunks(before, chunks).contains_key(chunks[i].position()),
        with_chunks(before, chunks)[chunks[i].position()] == chunks[i],
    decreases chunks.len(),
{
    let rest = chunks.drop_last();
    if i < chunks.len() - 1 {
        assert(chunks[chunks.len() - 1].position() != chunks[i].position());
        assert(rest[i] == chunks[i]);
        assert forall|j: int| i < j < rest.len() implies (#[trigger] rest[j]).position() != rest[i].position() by {
            assert(rest[j] == chunks[j]);
        }
        lemma_batch_holds(before, rest, i);
    }
}

/// The barrier. After a batch was entered, the chunks around a chunk of
/// the batch include every chunk of the batch that sits one step from it:
/// where chunk `j` sits one step from chunk `i` in direction `direction`,
/// and no later chunk of the batch sits at the same position, meshing sees
/// chunk `j` on that side of chunk `i`.
pub proof fn lemma_batch_neighbor(
    before: Map<ChunkPosition, Arc<Chunk>>,
    chunks: Seq<Arc<Chunk>>,
    i: int,
    j: int,
    direction: Direction,
)
    requires
        0 <= i < chunks.len(),
        0 <= j < chunks.len(),
        chunks[j].position().coords() == step(chunks[i].position().coords(), direction),
        forall|k: int| j < k < chunks.len() ==> (#[trigger] chunks[k]).position() != chunks[j].position(),
    ensures
        neighbors_of(with_chunks(before, chunks), chunks[i].position())[direction.ordinal()] == Some(chunks[j]),
{
    lemma_batch_holds(before, chunks, j);
    assert(direction_at(direction.ordinal()) == direction);
    assert(position_at(step(chunks[i].position().coords(), direction)) == Some(chunks[j].position()));
}

/// The chunk behind a shared handle.
pub open spec fn shared(chunk: Arc<Chunk>) -> Chunk {
    *chunk
}

/// Entering a batch keeps every chunk of the registry at the position
/// under which the registry holds it.
pub proof fn lemma_batch_well_keyed(before: Map<ChunkPosition, Arc<Chunk>>, chunks: Seq<Arc<Chunk>>)
    requires
        well_keyed(before),
    ensures
        well_keyed(with_chunks(before, chunks)),
    decreases chunks.len(),
{
    if chunks.len() > 0 {
        lemma_batch_well_keyed(before, chunks.drop_last());
    }
}

/// Occlusion across the batch. Where chunk `j` of a batch sits one step
/// from chunk `i` of the batch, a side of a voxel of chunk `i` that looks
/// into chunk `j` at an active voxel is not drawn in the mesh of chunk `i`,
/// whatever the order in which the chunks of the batch were generated.
pub proof fn lemma_batch_occlusion(
    before: Map<ChunkPosition, Arc<Chunk>>,
    chunks: Seq<Arc<Chunk>>,
    i: int,
    j: int,
    face: Face,
)
    requires
        well_keyed(before),
        0 <= i < chunks.len(),
        0 <= j < chunks.len(),
        in_bounds(CHUNK_SIZE, face.voxel),
        !inside(faced(face)),
        chunks[j].position().coords() == step(chunks[i].position().coords(), face.direction),
        forall|k: int| j < k < chunks.len() ==> (#[trigger] chunks[k]).position() != chunks[j].position(),
        chunks[j].voxel_at(
            (local_part(faced(face).0), local_part(faced(face).1), local_part(faced(face).2)),
        ).active,
    ensures
        !chunks[i].visible_faces(neighbors_of(with_chunks(before, chunks), chunks[i].position())).contains(face),
{
    let after = with_chunks(before, chunks);
    let neighbors = neighbors_of(after, chunks[i].position());
    let side = face.direction.ordinal();
    lemma_batch_well_keyed(before, chunks);
    lemma_batch_neighbor(before, chunks, i, j, face.direction);
    assert forall|k: int| side < k < neighbors.len() && (#[trigger] neighbors[k]) is Some implies neighbors[k]->0.position()
        != neighbors[side]->0.position() by {
        let at = step(chunks[i].position().coords(), direction_at(k));
        assert(position_at(at) is Some);
        assert(neighbors[k]->0 == after[position_at(at)->0]);
        assert(after[position_at(at)->0].position() == position_at(at)->0);
    }
    lemma_known_neighbor_hides(shared(chunks[i]), neighbors, face, side);
}

} // verus!
