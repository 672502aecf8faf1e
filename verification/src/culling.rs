//! What meshing draws: the laws of face culling.
//!
//! `Chunk::create_mesh` returns the mesh of `Chunk::visible_faces`. The
//! proofs here say which faces those are: a face is drawn exactly when its
//! voxel is active and looks at a place that is not occluded, a lone voxel
//! has six faces, two voxels side by side hide the two faces between them,
//! and at the boundary of the chunk a face is hidden only by a chunk that is
//! known.
use vstd::prelude::*;
use std::sync::Arc;
use crate::traversal::VolumeIdx;
use crate::traversal::in_bounds;
use crate::traversal::volume_len;
use crate::traversal::index_at;
use crate::traversal::rank;
use crate::traversal::lemma_rank_bound;
use crate::traversal::lemma_index_at_rank;
use crate::traversal::lemma_rank_index_at;
use crate::direction::Direction;
use crate::direction::direction_at;
use crate::direction::step;
use crate::mesh::Face;
use crate::mesh::mesh_of;
use crate::chunk::Chunk;
use crate::chunk::CHUNK_SIZE;
use crate::chunk::local;
use crate::chunk::local_part;
use crate::chunk::lookup;
use crate::chunk::face_slots;
use crate::filtering::lemma_filter_none;
use crate::filtering::lemma_filter_all;
use crate::filtering::lemma_filter_all_but_one;
use crate::filtering::lemma_filter_no_duplicates;

verus! {

/// The place of a voxel in the voxel space of its chunk.
pub open spec fn place_of(idx: VolumeIdx) -> (int, int, int) {
    (idx.0 as int, idx.1 as int, idx.2 as int)
}

/// The place that a face looks at: one step from its voxel.
pub open spec fn faced(face: Face) -> (int, int, int) {
    step(place_of(face.voxel), face.direction)
}

/// Whether a place of voxel space lies inside the chunk.
pub open spec fn inside(q: (int, int, int)) -> bool {
    local(q.0) && local(q.1) && local(q.2)
}

/// The six sides of a voxel, in the order in which meshing visits them.
pub open spec fn sides_of(idx: VolumeIdx) -> Seq<Face> {
    Seq::new(6, |d: int| (Face { voxel: idx, direction: direction_at(d) }))
}

/// The faces that meshing has drawn when it has passed over the first `k`
/// voxels.
pub open spec fn faces_until(chunk: Chunk, neighbors: Seq<Option<Arc<Chunk>>>, k: nat) -> Seq<Face> {
    face_slots().take(6 * (k as int)).filter(chunk.draw_rule(neighbors))
}

/// Whether no chunk among `neighbors` sits at `at`.
pub open spec fn none_at(neighbors: Seq<Option<Arc<Chunk>>>, at: (int, int, int)) -> bool {
    forall|i: int|
        0 <= i < neighbors.len() && (#[trigger] neighbors[i]) is Some ==> neighbors[i]->0.position().coords() != at
}

/// Every side of a voxel of the chunk has its place among the sides that
/// meshing visits.
pub proof fn lemma_face_slot(face: Face)
    requires
        in_bounds(CHUNK_SIZE, face.voxel),
    ensures
        0 <= 6 * rank(CHUNK_SIZE, face.voxel) + face.direction.ordinal() < face_slots().len(),
        face_slots()[6 * rank(CHUNK_SIZE, face.voxel) + face.direction.ordinal()] == face,
{
    lemma_rank_bound(CHUNK_SIZE, face.voxel);
    lemma_index_at_rank(CHUNK_SIZE, face.voxel);
    let r = rank(CHUNK_SIZE, face.voxel) as int;
    let o = face.direction.ordinal();
    assert(direction_at(o) == face.direction);
    assert((6 * r + o) / 6 == r && (6 * r + o) % 6 == o);
}

/// A face is drawn exactly when it is a side of an active voxel of the
/// chunk and looks at a place that is not occluded.
pub proof fn lemma_drawn_faces(chunk: Chunk, neighbors: Seq<Option<Arc<Chunk>>>, face: Face)
    ensures
        chunk.visible_faces(neighbors).contains(face) <==> {
            &&& in_bounds(CHUNK_SIZE, face.voxel)
            &&& chunk.voxels()[face.voxel].active
            &&& !chunk.occluded(neighbors, faced(face))
        },
{
    let slots = face_slots();
    let rule = chunk.draw_rule(neighbors);
    if chunk.visible_faces(neighbors).contains(face) {
        slots.lemma_filter_contains_rev(rule, face);
        let s = choose|s: int| 0 <= s < slots.len() && slots[s] == face;
        assert(0 <= s / 6 < volume_len(CHUNK_SIZE));
        lemma_rank_index_at(CHUNK_SIZE, (s / 6) as nat);
        let i = choose|i: int| 0 <= i < slots.filter(rule).len() && slots.filter(rule)[i] == face;
        slots.lemma_filter_pred(rule, i);
    }
    if in_bounds(CHUNK_SIZE, face.voxel) && chunk.draws(neighbors, face) {
        lemma_face_slot(face);
        slots.lemma_filter_contains(rule, 6 * rank(CHUNK_SIZE, face.voxel) + face.direction.ordinal());
    }
}

/// Meshing draws at most six faces for each voxel of the chunk.
pub proof fn lemma_face_bound(chunk: Chunk, neighbors: Seq<Option<Arc<Chunk>>>)
    ensures
        chunk.visible_faces(neighbors).len() <= 6 * volume_len(CHUNK_SIZE),
{
    face_slots().lemma_filter_len(chunk.draw_rule(neighbors));
}

/// No face is drawn twice.
pub proof fn lemma_no_face_twice(chunk: Chunk, neighbors: Seq<Option<Arc<Chunk>>>)
    ensures
        chunk.visible_faces(neighbors).no_duplicates(),
{
    let slots = face_slots();
    assert forall|s: int, t: int| 0 <= s < slots.len() && 0 <= t < slots.len() && s != t implies slots[s]
        != slots[t] by {
        lemma_rank_index_at(CHUNK_SIZE, (s / 6) as nat);
        lemma_rank_index_at(CHUNK_SIZE, (t / 6) as nat);
        assert(direction_at(s % 6).ordinal() == s % 6);
        assert(direction_at(t % 6).ordinal() == t % 6);
    }
    lemma_filter_no_duplicates(slots, chunk.draw_rule(neighbors));
}

/// Passing over one more voxel adds those of its sides that are drawn.
pub proof fn lemma_voxel_faces(chunk: Chunk, neighbors: Seq<Option<Arc<Chunk>>>, k: nat)
    requires
        k < volume_len(CHUNK_SIZE),
    ensures
        faces_until(chunk, neighbors, k + 1) == faces_until(chunk, neighbors, k) + sides_of(
            index_at(CHUNK_SIZE, k),
        ).filter(chunk.draw_rule(neighbors)),
{
    let slots = face_slots();
    let rule = chunk.draw_rule(neighbors);
    let first = 6 * (k as int);
    assert forall|d: int| 0 <= d < 6 implies slots[first + d] == #[trigger] sides_of(index_at(CHUNK_SIZE, k))[d] by {
        assert((first + d) / 6 == k && (first + d) % 6 == d);
    }
    assert(slots.take(first + 6) =~= slots.take(first) + sides_of(index_at(CHUNK_SIZE, k)));
    Seq::filter_distributes_over_add(slots.take(first), sides_of(index_at(CHUNK_SIZE, k)), rule);
}

/// When meshing has passed over every voxel, it has drawn the visible
/// faces.
pub proof fn lemma_faces_at_end(chunk: Chunk, neighbors: Seq<Option<Arc<Chunk>>>)
    ensures
        faces_until(chunk, neighbors, volume_len(CHUNK_SIZE)) == chunk.visible_faces(neighbors),
{
    assert(face_slots().take(6 * (volume_len(CHUNK_SIZE) as int)) =~= face_slots());
}

/// Where no chunk among `neighbors` sits at `at`, none is found there.
pub proof fn lemma_lookup_none(neighbors: Seq<Option<Arc<Chunk>>>, at: (int, int, int))
    requires
        none_at(neighbors, at),
    ensures
        lookup(neighbors, at) is None,
    decreases neighbors.len(),
{
    if neighbors.len() > 0 {
        assert(neighbors.last() == neighbors[neighbors.len() - 1]);
        let rest = neighbors.drop_last();
        assert forall|i: int| 0 <= i < rest.len() && (#[trigger] rest[i]) is Some implies rest[i]->0.position().coords()
            != at by {
            assert(rest[i] == neighbors[i]);
        }
        lemma_lookup_none(rest, at);
    }
}

/// A chunk among `neighbors` is found at its position, unless a later one
/// sits there too.
pub proof fn lemma_lookup_found(neighbors: Seq<Option<Arc<Chunk>>>, i: int)
    requires
        0 <= i < neighbors.len(),
        neighbors[i] is Some,
        forall|j: int|
            i < j < neighbors.len() && (#[trigger] neighbors[j]) is Some ==> neighbors[j]->0.position()
                != neighbors[i]->0.position(),
    ensures
        lookup(neighbors, neighbors[i]->0.position().coords()) == Some(*neighbors[i]->0),
    decreases neighbors.len(),
{
    let at = neighbors[i]->0.position().coords();
    if i < neighbors.len() - 1 {
        let rest = neighbors.drop_last();
        assert(rest[i] == neighbors[i]);
        assert forall|j: int| i < j < rest.len() && (#[trigger] rest[j]) is Some implies rest[j]->0.position()
            != rest[i]->0.position() by {
            assert(rest[j] == neighbors[j]);
        }
        lemma_lookup_found(rest, i);
        assert(neighbors.last() == neighbors[neighbors.len() - 1]);
    }
}

/// In a chunk where `lone` is the only active voxel, meshing has drawn
/// nothing before it has passed over `lone`, and the drawn sides of `lone`
/// after.
proof fn lemma_faces_until_lone(chunk: Chunk, neighbors: Seq<Option<Arc<Chunk>>>, lone: VolumeIdx, k: nat)
    requires
        in_bounds(CHUNK_SIZE, lone),
        forall|idx: VolumeIdx| in_bounds(CHUNK_SIZE, idx) ==> ((#[trigger] chunk.voxels()[idx]).active <==> idx == lone),
        k <= volume_len(CHUNK_SIZE),
    ensures
        faces_until(chunk, neighbors, k) == if k <= rank(CHUNK_SIZE, lone) {
            Seq::<Face>::empty()
        } else {
            sides_of(lone).filter(chunk.draw_rule(neighbors))
        },
    decreases k,
{
    let rule = chunk.draw_rule(neighbors);
    if k == 0 {
        lemma_filter_none(face_slots().take(0), rule);
    } else {
        let before = (k - 1) as nat;
        lemma_faces_until_lone(chunk, neighbors, lone, before);
        lemma_voxel_faces(chunk, neighbors, before);
        lemma_rank_index_at(CHUNK_SIZE, before);
        lemma_index_at_rank(CHUNK_SIZE, lone);
        let idx = index_at(CHUNK_SIZE, before);
        if idx != lone {
            lemma_filter_none(sides_of(idx), rule);
            assert(faces_until(chunk, neighbors, before) + Seq::<Face>::empty() =~= faces_until(
                chunk,
                neighbors,
                before,
            ));
        } else {
            assert(Seq::<Face>::empty() + sides_of(lone).filter(rule) =~= sides_of(lone).filter(rule));
        }
    }
}

/// Interior face culling. In a chunk with one active voxel, where no side
/// of that voxel looks at an occluded place outside the chunk, meshing draws
/// the six sides of the voxel and nothing else: 24 vertices and 36 indices.
/// A voxel that does not touch the boundary of the chunk has no side that
/// looks out of the chunk.
pub proof fn lemma_lone_voxel(chunk: Chunk, neighbors: Seq<Option<Arc<Chunk>>>, lone: VolumeIdx)
    requires
        in_bounds(CHUNK_SIZE, lone),
        forall|idx: VolumeIdx| in_bounds(CHUNK_SIZE, idx) ==> ((#[trigger] chunk.voxels()[idx]).active <==> idx == lone),
        forall|direction: Direction|
            !inside(#[trigger] step(place_of(lone), direction)) ==> !chunk.occluded(
                neighbors,
                step(place_of(lone), direction),
            ),
    ensures
        chunk.visible_faces(neighbors) == sides_of(lone),
        mesh_of(chunk.position(), chunk.visible_faces(neighbors)).vertices.len() == 24,
        mesh_of(chunk.position(), chunk.visible_faces(neighbors)).indices.len() == 36,
{
    let rule = chunk.draw_rule(neighbors);
    lemma_rank_bound(CHUNK_SIZE, lone);
    lemma_faces_until_lone(chunk, neighbors, lone, volume_len(CHUNK_SIZE));
    lemma_faces_at_end(chunk, neighbors);
    assert forall|d: int| 0 <= d < 6 implies rule(#[trigger] sides_of(lone)[d]) by {
        let q = step(place_of(lone), direction_at(d));
        if inside(q) {
            let other = (q.0 as usize, q.1 as usize, q.2 as usize);
            assert(other != lone);
            assert(!chunk.voxels()[other].active);
        }
    }
    lemma_filter_all(sides_of(lone), rule);
}

/// In a chunk where `first` and `second` are the only active voxels,
/// meshing has drawn the drawn sides of those of the two that it has passed
/// over.
proof fn lemma_faces_until_pair(
    chunk: Chunk,
    neighbors: Seq<Option<Arc<Chunk>>>,
    first: VolumeIdx,
    second: VolumeIdx,
    k: nat,
)
    requires
        in_bounds(CHUNK_SIZE, first),
        in_bounds(CHUNK_SIZE, second),
        rank(CHUNK_SIZE, first) < rank(CHUNK_SIZE, second),
        forall|idx: VolumeIdx|
            in_bounds(CHUNK_SIZE, idx) ==> ((#[trigger] chunk.voxels()[idx]).active <==> idx == first || idx == second),
        k <= volume_len(CHUNK_SIZE),
    ensures
        faces_until(chunk, neighbors, k) == if k <= rank(CHUNK_SIZE, first) {
            Seq::<Face>::empty()
        } else if k <= rank(CHUNK_SIZE, second) {
            sides_of(first).filter(chunk.draw_rule(neighbors))
        } else {
            sides_of(first).filter(chunk.draw_rule(neighbors)) + sides_of(second).filter(chunk.draw_rule(neighbors))
        },
    decreases k,
{
    let rule = chunk.draw_rule(neighbors);
    if k == 0 {
        lemma_filter_none(face_slots().take(0), rule);
    } else {
        let before = (k - 1) as nat;
        lemma_faces_until_pair(chunk, neighbors, first, second, before);
        lemma_voxel_faces(chunk, neighbors, before);
        lemma_rank_index_at(CHUNK_SIZE, before);
        lemma_index_at_rank(CHUNK_SIZE, first);
        lemma_index_at_rank(CHUNK_SIZE, second);
        let idx = index_at(CHUNK_SIZE, before);
        if idx == first {
            assert(Seq::<Face>::empty() + sides_of(first).filter(rule) =~= sides_of(first).filter(rule));
        } else if idx == second {
        } else {
            lemma_filter_none(sides_of(idx), rule);
            assert(faces_until(chunk, neighbors, before) + Seq::<Face>::empty() =~= faces_until(
                chunk,
                neighbors,
                before,
            ));
        }
    }
}

/// Of two active voxels side by side, each has five drawn sides where
/// nothing else occludes them: all but the one that looks at the other.
proof fn lemma_five_sides(
    chunk: Chunk,
    neighbors: Seq<Option<Arc<Chunk>>>,
    voxel: VolumeIdx,
    other: VolumeIdx,
    toward: Direction,
)
    requires
        in_bounds(CHUNK_SIZE, voxel),
        in_bounds(CHUNK_SIZE, other),
        place_of(other) == step(place_of(voxel), toward),
        forall|idx: VolumeIdx|
            in_bounds(CHUNK_SIZE, idx) ==> ((#[trigger] chunk.voxels()[idx]).active <==> idx == voxel || idx == other),
        forall|direction: Direction|
            !inside(#[trigger] step(place_of(voxel), direction)) ==> !chunk.occluded(
                neighbors,
                step(place_of(voxel), direction),
            ),
    ensures
        sides_of(voxel).filter(chunk.draw_rule(neighbors)).len() == 5,
{
    let rule = chunk.draw_rule(neighbors);
    assert(direction_at(toward.ordinal()) == toward);
    assert forall|d: int| 0 <= d < 6 implies (rule(#[trigger] sides_of(voxel)[d]) <==> d != toward.ordinal()) by {
        let q = step(place_of(voxel), direction_at(d));
        if inside(q) {
            let at = (q.0 as usize, q.1 as usize, q.2 as usize);
            assert(at != voxel);
            if d != toward.ordinal() {
                assert(at != other);
                assert(!chunk.voxels()[at].active);
            } else {
                assert(at == other);
            }
        } else {
            assert(d != toward.ordinal());
        }
    }
    lemma_filter_all_but_one(sides_of(voxel), rule, toward.ordinal());
}

/// Full occlusion. In a chunk with two active voxels that lie side by
/// side, where no side of either looks at an occluded place outside the
/// chunk, meshing draws ten faces: every side of the two voxels but the two
/// with which they touch.
pub proof fn lemma_adjacent_pair(
    chunk: Chunk,
    neighbors: Seq<Option<Arc<Chunk>>>,
    first: VolumeIdx,
    second: VolumeIdx,
    toward: Direction,
)
    requires
        in_bounds(CHUNK_SIZE, first),
        in_bounds(CHUNK_SIZE, second),
        place_of(second) == step(place_of(first), toward),
        forall|idx: VolumeIdx|
            in_bounds(CHUNK_SIZE, idx) ==> ((#[trigger] chunk.voxels()[idx]).active <==> idx == first || idx == second),
        forall|direction: Direction|
            !inside(#[trigger] step(place_of(first), direction)) ==> !chunk.occluded(
                neighbors,
                step(place_of(first), direction),
            ),
        forall|direction: Direction|
            !inside(#[trigger] step(place_of(second), direction)) ==> !chunk.occluded(
                neighbors,
                step(place_of(second), direction),
            ),
    ensures
        chunk.visible_faces(neighbors).len() == 10,
        mesh_of(chunk.position(), chunk.visible_faces(neighbors)).vertices.len() == 40,
        mesh_of(chunk.position(), chunk.visible_faces(neighbors)).indices.len() == 60,
        forall|direction: Direction|
            #[trigger] chunk.visible_faces(neighbors).contains((Face { voxel: first, direction })) <==> direction
                != toward,
        forall|direction: Direction|
            #[trigger] chunk.visible_faces(neighbors).contains((Face { voxel: second, direction })) <==> direction
                != toward.opposite(),
{
    let rule = chunk.draw_rule(neighbors);
    assert(place_of(first) == step(place_of(second), toward.opposite()));
    lemma_five_sides(chunk, neighbors, first, second, toward);
    lemma_five_sides(chunk, neighbors, second, first, toward.opposite());
    lemma_rank_bound(CHUNK_SIZE, first);
    lemma_rank_bound(CHUNK_SIZE, second);
    lemma_index_at_rank(CHUNK_SIZE, first);
    lemma_index_at_rank(CHUNK_SIZE, second);
    lemma_faces_at_end(chunk, neighbors);
    if rank(CHUNK_SIZE, first) < rank(CHUNK_SIZE, second) {
        lemma_faces_until_pair(chunk, neighbors, first, second, volume_len(CHUNK_SIZE));
    } else {
        lemma_faces_until_pair(chunk, neighbors, second, first, volume_len(CHUNK_SIZE));
    }
    assert forall|direction: Direction|
        #[trigger] chunk.visible_faces(neighbors).contains((Face { voxel: first, direction })) <==> direction
            != toward by {
        let face = Face { voxel: first, direction };
        lemma_drawn_faces(chunk, neighbors, face);
        let q = step(place_of(first), direction);
        if inside(q) {
            let at = (q.0 as usize, q.1 as usize, q.2 as usize);
            assert(at != first);
            if direction != toward {
                assert(at != second);
                assert(!chunk.voxels()[at].active);
            }
        }
    }
    assert forall|direction: Direction|
        #[trigger] chunk.visible_faces(neighbors).contains((Face { voxel: second, direction })) <==> direction
            != toward.opposite() by {
        let face = Face { voxel: second, direction };
        lemma_drawn_faces(chunk, neighbors, face);
        let q = step(place_of(second), direction);
        if inside(q) {
            let at = (q.0 as usize, q.1 as usize, q.2 as usize);
            assert(at != second);
            if direction != toward.opposite() {
                assert(at != first);
                assert(!chunk.voxels()[at].active);
            }
        }
    }
}

/// The place that a side of a voxel of the chunk looks at, where it lies
/// outside the chunk, lies in the chunk one step from this one in the
/// direction of the side.
pub proof fn lemma_faced_chunk(chunk: Chunk, face: Face)
    requires
        in_bounds(CHUNK_SIZE, face.voxel),
        !inside(faced(face)),
    ensures
        (
            chunk.position().x + crate::chunk::chunk_offset(faced(face).0),
            chunk.position().y + crate::chunk::chunk_offset(faced(face).1),
            chunk.position().z + crate::chunk::chunk_offset(faced(face).2),
        ) == step(chunk.position().coords(), face.direction),
{
}

/// Unknown neighbor. A side of an active voxel that looks out of the chunk
/// is drawn where no chunk is known on that side of the chunk.
pub proof fn lemma_unknown_neighbor_drawn(chunk: Chunk, neighbors: Seq<Option<Arc<Chunk>>>, face: Face)
    requires
        in_bounds(CHUNK_SIZE, face.voxel),
        chunk.voxels()[face.voxel].active,
        !inside(faced(face)),
        none_at(neighbors, step(chunk.position().coords(), face.direction)),
    ensures
        chunk.visible_faces(neighbors).contains(face),
{
    lemma_faced_chunk(chunk, face);
    lemma_lookup_none(neighbors, step(chunk.position().coords(), face.direction));
    lemma_drawn_faces(chunk, neighbors, face);
}

/// Known neighbor. A side of a voxel that looks out of the chunk is not
/// drawn where the chunk that is known on that side has an active voxel at
/// the place that the side looks at.
pub proof fn lemma_known_neighbor_hides(chunk: Chunk, neighbors: Seq<Option<Arc<Chunk>>>, face: Face, i: int)
    requires
        in_bounds(CHUNK_SIZE, face.voxel),
        !inside(faced(face)),
        0 <= i < neighbors.len(),
        neighbors[i] is Some,
        neighbors[i]->0.position().coords() == step(chunk.position().coords(), face.direction),
        forall|j: int|
            i < j < neighbors.len() && (#[trigger] neighbors[j]) is Some ==> neighbors[j]->0.position()
                != neighbors[i]->0.position(),
        neighbors[i]->0.voxel_at(
            (local_part(faced(face).0), local_part(faced(face).1), local_part(faced(face).2)),
        ).active,
    ensures
        !chunk.visible_faces(neighbors).contains(face),
{
    lemma_faced_chunk(chunk, face);
    lemma_lookup_found(neighbors, i);
    lemma_drawn_faces(chunk, neighbors, face);
}

/// Known neighbor, the other way. A side of an active voxel that looks out
/// of the chunk is drawn where the chunk that is known on that side has no
/// active voxel at the place that the side looks at.
pub proof fn lemma_known_neighbor_shows(chunk: Chunk, neighbors: Seq<Option<Arc<Chunk>>>, face: Face, i: int)
    requires
        in_bounds(CHUNK_SIZE, face.voxel),
        chunk.voxels()[face.voxel].active,
        !inside(faced(face)),
        0 <= i < neighbors.len(),
        neighbors[i] is Some,
        neighbors[i]->0.position().coords() == step(chunk.position().coords(), face.direction),
        forall|j: int|
            i < j < neighbors.len() && (#[trigger] neighbors[j]) is Some ==> neighbors[j]->0.position()
                != neighbors[i]->0.position(),
        !neighbors[i]->0.voxel_at(
            (local_part(faced(face).0), local_part(faced(face).1), local_part(faced(face).2)),
        ).active,
    ensures
        chunk.visible_faces(neighbors).contains(face),
{
    lemma_faced_chunk(chunk, face);
    lemma_lookup_found(neighbors, i);
    lemma_drawn_faces(chunk, neighbors, face);
}

} // verus!
