use std::sync::Arc;
use voxel_world::chunk::Chunk;
use voxel_world::chunk::CHUNK_SIZE;
use voxel_world::direction::neighbor_vecs;
use voxel_world::direction::Direction;
use voxel_world::mesh::ChunkMesh;
use voxel_world::vector::IVec3;
use voxel_world::volume::Volume;
use voxel_world::voxel::Voxel;

fn chunk_with(position: IVec3, active: &[(usize, usize, usize)]) -> Chunk {
    let mut volume: Volume<Voxel, CHUNK_SIZE> = Volume::filled(Voxel::inactive());
    for &idx in active {
        volume[idx] = Voxel::active();
    }
    Chunk::new(position, volume)
}

fn no_neighbors() -> [Option<Arc<Chunk>>; 6] {
    [None, None, None, None, None, None]
}

fn quads_facing(mesh: &ChunkMesh, normal: [i32; 3]) -> usize {
    let mut count = 0;
    for quad in 0..mesh.normals().len() / 4 {
        if mesh.normals()[4 * quad] == normal {
            count += 1;
        }
    }
    count
}

fn check_shape(mesh: &ChunkMesh) {
    assert_eq!(mesh.vertices().len(), mesh.normals().len());
    assert_eq!(mesh.vertices().len(), mesh.uvs().len());
    assert_eq!(mesh.vertices().len() % 4, 0);
    assert_eq!(mesh.indices().len() * 2, mesh.vertices().len() * 3);
    for (i, &index) in mesh.indices().iter().enumerate() {
        let order = [0u32, 1, 2, 2, 3, 0];
        assert_eq!(index, 4 * (i as u32 / 6) + order[i % 6]);
    }
}

#[test]
fn chunk_of_inactive_voxels_is_empty() {
    let chunk = chunk_with(IVec3::new(4, -2, 7), &[]);
    assert!(chunk.is_empty());
    assert_eq!(chunk.position(), IVec3::new(4, -2, 7));
    let mesh = chunk.create_mesh(no_neighbors());
    assert_eq!(mesh.position(), IVec3::new(4, -2, 7));
    assert_eq!(mesh.vertices().len(), 0);
    assert_eq!(mesh.indices().len(), 0);
}

#[test]
fn chunk_with_one_active_voxel_is_not_empty() {
    assert!(!chunk_with(IVec3::new(0, 0, 0), &[(0, 0, 0)]).is_empty());
    assert!(!chunk_with(IVec3::new(0, 0, 0), &[(31, 31, 31)]).is_empty());
    assert!(!chunk_with(IVec3::new(0, 0, 0), &[(7, 19, 3)]).is_empty());
}

#[test]
fn chunk_index_reads_the_voxel() {
    let chunk = chunk_with(IVec3::new(0, 0, 0), &[(1, 2, 3)]);
    assert!(chunk[IVec3::new(1, 2, 3)].active);
    assert!(!chunk[IVec3::new(3, 2, 1)].active);
    let volume: Volume<Voxel, CHUNK_SIZE> = chunk.into();
    assert!(volume[(1, 2, 3)].active);
    assert!(!volume[(0, 0, 0)].active);
}

#[test]
fn single_voxel_has_six_quads() {
    let chunk = chunk_with(IVec3::new(0, 0, 0), &[(5, 6, 7)]);
    let mesh = chunk.create_mesh(no_neighbors());
    assert_eq!(mesh.vertices().len(), 24);
    assert_eq!(mesh.normals().len(), 24);
    assert_eq!(mesh.uvs().len(), 24);
    assert_eq!(mesh.indices().len(), 36);
    check_shape(&mesh);
}

#[test]
fn single_voxel_quads_come_east_west_up_down_south_north() {
    let chunk = chunk_with(IVec3::new(0, 0, 0), &[(5, 6, 7)]);
    let mesh = chunk.create_mesh(no_neighbors());
    let normals: Vec<[i32; 3]> = (0..6).map(|quad| mesh.normals()[4 * quad]).collect();
    assert_eq!(
        normals,
        vec![[1, 0, 0], [-1, 0, 0], [0, 1, 0], [0, -1, 0], [0, 0, 1], [0, 0, -1]]
    );
    // The east face of the voxel at (5, 6, 7), in half voxel edges.
    assert_eq!(
        mesh.vertices()[0..4].to_vec(),
        vec![[11, 11, 13], [11, 13, 13], [11, 13, 15], [11, 11, 15]]
    );
    assert_eq!(mesh.uvs()[0..4].to_vec(), vec![[0, 0], [1, 0], [1, 1], [0, 1]]);
    assert_eq!(mesh.indices()[0..12].to_vec(), vec![0, 1, 2, 2, 3, 0, 4, 5, 6, 6, 7, 4]);
    // The north face comes last.
    assert_eq!(
        mesh.vertices()[20..24].to_vec(),
        vec![[9, 13, 13], [11, 13, 13], [11, 11, 13], [9, 11, 13]]
    );
    assert_eq!(mesh.uvs()[20..24].to_vec(), vec![[1, 0], [0, 0], [0, 1], [1, 1]]);
}

#[test]
fn adjacent_voxels_hide_their_shared_face() {
    let chunk = chunk_with(IVec3::new(0, 0, 0), &[(5, 6, 7), (6, 6, 7)]);
    let mesh = chunk.create_mesh(no_neighbors());
    assert_eq!(mesh.vertices().len(), 40);
    assert_eq!(mesh.indices().len(), 60);
    check_shape(&mesh);
    // One east face (of the voxel at x = 6) and one west face (at x = 5).
    assert_eq!(quads_facing(&mesh, [1, 0, 0]), 1);
    assert_eq!(quads_facing(&mesh, [-1, 0, 0]), 1);
    assert_eq!(quads_facing(&mesh, [0, 1, 0]), 2);
    assert_eq!(quads_facing(&mesh, [0, -1, 0]), 2);
    assert_eq!(quads_facing(&mesh, [0, 0, 1]), 2);
    assert_eq!(quads_facing(&mesh, [0, 0, -1]), 2);
    // The voxel at x = 5 comes first; its first quad faces west.
    assert_eq!(mesh.normals()[0], [-1, 0, 0]);
    // The only east face lies on the far side of the voxel at x = 6.
    for quad in 0..10 {
        if mesh.normals()[4 * quad] == [1, 0, 0] {
            assert_eq!(mesh.vertices()[4 * quad][0], 13);
        }
    }
}

#[test]
fn adjacent_voxels_along_each_axis_give_ten_quads() {
    for pair in [[(5, 6, 7), (5, 7, 7)], [(5, 6, 7), (5, 6, 8)], [(0, 0, 0), (1, 0, 0)]] {
        let chunk = chunk_with(IVec3::new(0, 0, 0), &pair);
        let mesh = chunk.create_mesh(no_neighbors());
        assert_eq!(mesh.vertices().len(), 40);
        assert_eq!(mesh.indices().len(), 60);
    }
}

#[test]
fn boundary_face_is_drawn_when_the_neighbor_is_unknown() {
    let chunk = chunk_with(IVec3::new(0, 0, 0), &[(31, 6, 7)]);
    let mesh = chunk.create_mesh(no_neighbors());
    assert_eq!(mesh.vertices().len(), 24);
    assert_eq!(quads_facing(&mesh, [1, 0, 0]), 1);
    check_shape(&mesh);
}

#[test]
fn corner_voxel_is_drawn_on_all_sides_when_alone() {
    for corner in [(0, 0, 0), (31, 31, 31), (0, 31, 0)] {
        let chunk = chunk_with(IVec3::new(-3, 9, 2), &[corner]);
        let mesh = chunk.create_mesh(no_neighbors());
        assert_eq!(mesh.vertices().len(), 24);
        assert_eq!(mesh.indices().len(), 36);
    }
}

#[test]
fn boundary_face_is_hidden_by_an_active_voxel_of_a_known_neighbor() {
    let chunk = chunk_with(IVec3::new(0, 0, 0), &[(31, 6, 7)]);
    let east = Arc::new(chunk_with(IVec3::new(1, 0, 0), &[(0, 6, 7)]));
    let mesh = chunk.create_mesh([Some(east), None, None, None, None, None]);
    assert_eq!(mesh.vertices().len(), 20);
    assert_eq!(mesh.indices().len(), 30);
    assert_eq!(quads_facing(&mesh, [1, 0, 0]), 0);
    assert_eq!(quads_facing(&mesh, [-1, 0, 0]), 1);
    check_shape(&mesh);
}

#[test]
fn boundary_face_is_drawn_when_the_known_neighbor_is_free_there() {
    let chunk = chunk_with(IVec3::new(0, 0, 0), &[(31, 6, 7)]);
    let east = Arc::new(chunk_with(IVec3::new(1, 0, 0), &[(0, 6, 8), (1, 6, 7), (31, 6, 7)]));
    let mesh = chunk.create_mesh([Some(east), None, None, None, None, None]);
    assert_eq!(mesh.vertices().len(), 24);
    assert_eq!(quads_facing(&mesh, [1, 0, 0]), 1);
}

#[test]
fn neighbors_are_found_by_position_in_every_direction() {
    let own = IVec3::new(10, -20, 30);
    let cases = [
        ((31, 6, 7), IVec3::new(11, -20, 30), (0, 6, 7), [1, 0, 0]),
        ((0, 6, 7), IVec3::new(9, -20, 30), (31, 6, 7), [-1, 0, 0]),
        ((5, 31, 7), IVec3::new(10, -19, 30), (5, 0, 7), [0, 1, 0]),
        ((5, 0, 7), IVec3::new(10, -21, 30), (5, 31, 7), [0, -1, 0]),
        ((5, 6, 31), IVec3::new(10, -20, 31), (5, 6, 0), [0, 0, 1]),
        ((5, 6, 0), IVec3::new(10, -20, 29), (5, 6, 31), [0, 0, -1]),
    ];
    for (voxel, position, mirrored, normal) in cases {
        let chunk = chunk_with(own, &[voxel]);
        let neighbor = Arc::new(chunk_with(position, &[mirrored]));
        // The neighbor is found whatever its place among the six.
        let mesh = chunk.create_mesh([None, None, None, None, None, Some(neighbor.clone())]);
        assert_eq!(mesh.vertices().len(), 20);
        assert_eq!(quads_facing(&mesh, normal), 0);
        let mesh = chunk.create_mesh([None, None, Some(neighbor), None, None, None]);
        assert_eq!(mesh.vertices().len(), 20);
        // A chunk elsewhere does not count.
        let elsewhere = Arc::new(chunk_with(IVec3::new(0, 0, 0), &[mirrored]));
        let mesh = chunk.create_mesh([Some(elsewhere), None, None, None, None, None]);
        assert_eq!(mesh.vertices().len(), 24);
        assert_eq!(quads_facing(&mesh, normal), 1);
    }
}

#[test]
fn the_last_of_two_neighbors_at_one_position_decides() {
    let chunk = chunk_with(IVec3::new(0, 0, 0), &[(31, 6, 7)]);
    let covering = Arc::new(chunk_with(IVec3::new(1, 0, 0), &[(0, 6, 7)]));
    let free = Arc::new(chunk_with(IVec3::new(1, 0, 0), &[]));
    let mesh = chunk.create_mesh([Some(covering.clone()), Some(free.clone()), None, None, None, None]);
    assert_eq!(mesh.vertices().len(), 24);
    let mesh = chunk.create_mesh([Some(free), Some(covering), None, None, None, None]);
    assert_eq!(mesh.vertices().len(), 20);
}

#[test]
fn chunk_at_the_edge_of_chunk_space_draws_its_outer_faces() {
    let chunk = chunk_with(IVec3::new(i32::MAX, i32::MIN, 0), &[(31, 0, 5)]);
    let near = Arc::new(chunk_with(IVec3::new(i32::MIN, i32::MIN, 0), &[(0, 0, 5)]));
    let mesh = chunk.create_mesh([Some(near), None, None, None, None, None]);
    assert_eq!(mesh.vertices().len(), 24);
}

#[test]
fn full_chunk_draws_only_its_surface() {
    let volume: Volume<Voxel, CHUNK_SIZE> = Volume::filled(Voxel::active());
    let chunk = Chunk::new(IVec3::new(0, 0, 0), volume);
    assert!(!chunk.is_empty());
    let mesh = chunk.create_mesh(no_neighbors());
    assert_eq!(mesh.vertices().len(), 4 * 6 * 32 * 32);
    assert_eq!(mesh.indices().len(), 6 * 6 * 32 * 32);
    for normal in [[1, 0, 0], [-1, 0, 0], [0, 1, 0], [0, -1, 0], [0, 0, 1], [0, 0, -1]] {
        assert_eq!(quads_facing(&mesh, normal), 32 * 32);
    }
    check_shape(&mesh);
}

#[test]
fn checkerboard_draws_every_face() {
    let mut volume: Volume<Voxel, CHUNK_SIZE> = Volume::filled(Voxel::inactive());
    let mut active = 0;
    for idx in volume.iter_indices() {
        if (idx.0 + idx.1 + idx.2) % 2 == 0 {
            volume[idx] = Voxel::active();
            active += 1;
        }
    }
    let mesh = Chunk::new(IVec3::new(0, 0, 0), volume).create_mesh(no_neighbors());
    assert_eq!(mesh.vertices().len(), 4 * 6 * active);
    check_shape(&mesh);
}

#[test]
fn face_tables_lie_on_their_side_of_the_voxel() {
    let sides = [
        (Direction::East, [1, 0, 0]),
        (Direction::West, [-1, 0, 0]),
        (Direction::Up, [0, 1, 0]),
        (Direction::Down, [0, -1, 0]),
        (Direction::South, [0, 0, 1]),
        (Direction::North, [0, 0, -1]),
    ];
    for (direction, normal) in sides {
        let quad = direction.get_face_mesh();
        for (position, corner_normal, uv) in quad {
            assert_eq!(corner_normal, normal);
            let along: i32 = (0..3).map(|axis| position[axis] * normal[axis]).sum();
            assert_eq!(along, 1);
            assert!(position.iter().all(|c| *c == 1 || *c == -1));
            assert!(uv.iter().all(|c| *c == 0 || *c == 1));
        }
        for a in 0..4 {
            for b in 0..a {
                assert_ne!(quad[a].0, quad[b].0);
                assert_ne!(quad[a].2, quad[b].2);
            }
        }
    }
    assert_eq!(
        Direction::Up.get_face_mesh(),
        [
            ([1, 1, -1], [0, 1, 0], [1, 0]),
            ([-1, 1, -1], [0, 1, 0], [0, 0]),
            ([-1, 1, 1], [0, 1, 0], [0, 1]),
            ([1, 1, 1], [0, 1, 0], [1, 1]),
        ]
    );
}

#[test]
fn direction_from_relative_names_the_step() {
    let from = IVec3::new(3, -4, 5);
    assert_eq!(Direction::from_relative(from, IVec3::new(3, -3, 5)), Direction::Up);
    assert_eq!(Direction::from_relative(from, IVec3::new(3, -5, 5)), Direction::Down);
    assert_eq!(Direction::from_relative(from, IVec3::new(3, -4, 4)), Direction::North);
    assert_eq!(Direction::from_relative(from, IVec3::new(4, -4, 5)), Direction::East);
    assert_eq!(Direction::from_relative(from, IVec3::new(3, -4, 6)), Direction::South);
    assert_eq!(Direction::from_relative(from, IVec3::new(2, -4, 5)), Direction::West);
    assert_eq!(
        Direction::from_relative(IVec3::new(i32::MAX, 0, 0), IVec3::new(i32::MAX - 1, 0, 0)),
        Direction::West
    );
}

#[test]
fn neighbor_vecs_are_the_six_steps_in_order() {
    assert_eq!(
        neighbor_vecs(IVec3::new(3, -4, 5)),
        [
            IVec3::new(4, -4, 5),
            IVec3::new(2, -4, 5),
            IVec3::new(3, -3, 5),
            IVec3::new(3, -5, 5),
            IVec3::new(3, -4, 6),
            IVec3::new(3, -4, 4),
        ]
    );
    assert_eq!(
        Direction::all(),
        [
            Direction::East,
            Direction::West,
            Direction::Up,
            Direction::Down,
            Direction::South,
            Direction::North
        ]
    );
}
