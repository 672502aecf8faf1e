use noise::NoiseFn;
use noise::Perlin;
use std::sync::Arc;
use voxel_world::chunk::Chunk;
use voxel_world::chunk::CHUNK_SIZE;
use voxel_world::manager::ChunkManager;
use voxel_world::mesh::ChunkMesh;
use voxel_world::sample::is_below_threshold;
use voxel_world::sample::sample_point;
use voxel_world::sample::SamplePoint;
use voxel_world::sample::PERLIN_THRESHOLD;
use voxel_world::sample::SAMPLE_DIVISOR;
use voxel_world::vector::IVec3;
use voxel_world::volume::Volume;
use voxel_world::voxel::Voxel;

fn coordinates(point: SamplePoint) -> [f64; 3] {
    let divisor = SAMPLE_DIVISOR as f64;
    [point.x as f64 / divisor, point.y as f64 / divisor, point.z as f64 / divisor]
}

fn quads_facing(mesh: &ChunkMesh, normal: [i32; 3]) -> usize {
    (0..mesh.normals().len() / 4).filter(|quad| mesh.normals()[4 * quad] == normal).count()
}

fn solid(_: SamplePoint) -> u64 {
    1.0f64.to_bits()
}

#[test]
fn threshold_is_a_third_less_a_hundredth() {
    assert_eq!(PERLIN_THRESHOLD, 0.33f64.to_bits());
    assert_eq!(SAMPLE_DIVISOR, 64);
}

#[test]
fn samples_compare_as_the_numbers_they_hold() {
    let samples = [
        0.0,
        -0.0,
        0.33,
        0.32999999999999996,
        0.33000000000000007,
        0.329,
        0.331,
        1.0,
        -1.0,
        -0.33,
        0.5,
        -0.5,
        1e-320,
        -1e-320,
        f64::MIN_POSITIVE,
        f64::MAX,
        f64::MIN,
        f64::INFINITY,
        f64::NEG_INFINITY,
        f64::NAN,
        -f64::NAN,
        f64::EPSILON,
    ];
    for sample in samples {
        assert_eq!(is_below_threshold(sample.to_bits()), sample < 0.33, "{}", sample);
    }
    assert!(is_below_threshold(0.32999999999999996f64.to_bits()));
    assert!(!is_below_threshold(0.33f64.to_bits()));
    assert!(!is_below_threshold(f64::NAN.to_bits()));
    assert!(is_below_threshold(f64::NEG_INFINITY.to_bits()));
}

#[test]
fn samples_of_a_noise_source_compare_as_numbers() {
    let perlin = Perlin::new();
    for i in 0..2000i64 {
        let sample = perlin.get([i as f64 * 0.37, i as f64 * -0.11, i as f64 * 0.05]);
        assert_eq!(is_below_threshold(sample.to_bits()), sample < 0.33);
    }
}

#[test]
fn sample_point_is_the_place_in_chunk_space_halved() {
    let point = sample_point(IVec3::new(1, -2, 3), (4, 5, 6));
    assert_eq!(point, SamplePoint { x: 36, y: -59, z: 102 });
    assert_eq!(coordinates(point), [(4.0 / 32.0 + 1.0) / 2.0, (5.0 / 32.0 - 2.0) / 2.0, (6.0 / 32.0 + 3.0) / 2.0]);
    let far = sample_point(IVec3::new(i32::MAX, i32::MIN, 0), (31, 0, 31));
    assert_eq!(far, SamplePoint { x: 31 + 32 * 2147483647, y: -32 * 2147483648, z: 31 });
    assert_eq!(sample_point(IVec3::new(0, 0, 0), (0, 0, 0)), SamplePoint { x: 0, y: 0, z: 0 });
}

#[test]
fn sample_points_are_those_of_floating_point_arithmetic() {
    for position in [IVec3::new(0, 0, 0), IVec3::new(-10, 10, 3), IVec3::new(i32::MAX, i32::MIN, -1)] {
        for idx in [(0, 0, 0), (1, 2, 3), (31, 30, 29), (17, 0, 31)] {
            let direct = [
                (idx.0 as f64 / 32.0 + position.x as f64) / 2.0,
                (idx.1 as f64 / 32.0 + position.y as f64) / 2.0,
                (idx.2 as f64 / 32.0 + position.z as f64) / 2.0,
            ];
            assert_eq!(coordinates(sample_point(position, idx)), direct);
        }
    }
}

#[test]
fn generation_follows_the_noise_source() {
    let perlin = Perlin::new();
    let noisegen = |point: SamplePoint| perlin.get(coordinates(point)).to_bits();
    let mut active = 0;
    let mut inactive = 0;
    for position in [IVec3::new(2, -1, 5), IVec3::new(0, 0, 0), IVec3::new(-3, 1, 1), IVec3::new(1, 1, 1)] {
        let chunk = ChunkManager::generate_new(&noisegen, position);
        assert_eq!(chunk.position(), position);
        let empty = chunk.is_empty();
        let mut active_here = 0;
        let volume: Volume<Voxel, CHUNK_SIZE> = chunk.into();
        for (idx, voxel) in volume.iter() {
            let x = (idx.0 as f64 / 32.0) + (position.x as f64);
            let y = (idx.1 as f64 / 32.0) + (position.y as f64);
            let z = (idx.2 as f64 / 32.0) + (position.z as f64);
            let noise = perlin.get([x / 2.0, y / 2.0, z / 2.0]);
            assert_eq!(voxel.active, !(noise < 0.33));
            if voxel.active {
                active_here += 1;
            }
        }
        assert_eq!(empty, active_here == 0);
        active += active_here;
        inactive += 32 * 32 * 32 - active_here;
    }
    assert!(active > 0);
    assert!(inactive > 0);
}

#[test]
fn generation_is_deterministic() {
    let perlin = Perlin::new();
    let noisegen = |point: SamplePoint| perlin.get(coordinates(point)).to_bits();
    for position in [IVec3::new(0, 0, 0), IVec3::new(-7, 3, 11)] {
        let first = ChunkManager::generate_new(&noisegen, position);
        let second = ChunkManager::generate_new(&noisegen, position);
        assert_eq!(first.position(), second.position());
        assert_eq!(first.is_empty(), second.is_empty());
        let first: Volume<Voxel, CHUNK_SIZE> = first.into();
        let second: Volume<Voxel, CHUNK_SIZE> = second.into();
        for idx in first.iter_indices() {
            assert_eq!(first[idx].active, second[idx].active);
        }
    }
}

#[test]
fn generation_deactivates_below_the_threshold_only() {
    let low = ChunkManager::generate_new(&|_: SamplePoint| 0.32f64.to_bits(), IVec3::new(0, 0, 0));
    assert!(low.is_empty());
    let exact = ChunkManager::generate_new(&|_: SamplePoint| 0.33f64.to_bits(), IVec3::new(0, 0, 0));
    assert!(!exact.is_empty());
    let nan = ChunkManager::generate_new(&|_: SamplePoint| f64::NAN.to_bits(), IVec3::new(0, 0, 0));
    assert!(!nan.is_empty());
    let slab = ChunkManager::generate_new(
        &|point: SamplePoint| if point.y < 16 { 1.0f64.to_bits() } else { 0.0f64.to_bits() },
        IVec3::new(0, 0, 0),
    );
    let slab: Volume<Voxel, CHUNK_SIZE> = slab.into();
    for (idx, voxel) in slab.iter() {
        assert_eq!(voxel.active, idx.1 < 16);
    }
}

#[test]
fn manager_starts_without_chunks() {
    let manager = ChunkManager::new();
    assert!(manager.get(IVec3::new(0, 0, 0)).is_none());
    assert!(manager.neighbor_chunks(IVec3::new(0, 0, 0)).iter().all(|chunk| chunk.is_none()));
    let manager = ChunkManager::default();
    assert!(manager.get(IVec3::new(1, 2, 3)).is_none());
}

#[test]
fn manager_keeps_chunks_by_position() {
    let mut manager = ChunkManager::new();
    let positions = [
        IVec3::new(0, 0, 0),
        IVec3::new(1, 0, 0),
        IVec3::new(0, 1, 0),
        IVec3::new(-1, -1, -1),
        IVec3::new(i32::MAX, i32::MIN, 7),
        IVec3::new(0, 0, 1),
    ];
    for position in positions {
        manager.insert(Arc::new(Chunk::new(position, Volume::filled(Voxel::inactive()))));
    }
    for position in positions {
        assert_eq!(manager.get(position).unwrap().position(), position);
    }
    assert!(manager.get(IVec3::new(0, 0, -1)).is_none());
    assert!(manager.get(IVec3::new(7, i32::MIN, i32::MAX)).is_none());
    // Entering a chunk where one is known replaces it.
    manager.insert(Arc::new(Chunk::new(IVec3::new(1, 0, 0), Volume::filled(Voxel::active()))));
    assert!(!manager.get(IVec3::new(1, 0, 0)).unwrap().is_empty());
    assert!(manager.get(IVec3::new(0, 0, 0)).unwrap().is_empty());
}

#[test]
fn manager_finds_neighbors_east_west_up_down_south_north() {
    let mut manager = ChunkManager::new();
    let around = [
        IVec3::new(6, 5, 5),
        IVec3::new(4, 5, 5),
        IVec3::new(5, 6, 5),
        IVec3::new(5, 4, 5),
        IVec3::new(5, 5, 6),
        IVec3::new(5, 5, 4),
    ];
    for position in around {
        manager.insert(Arc::new(Chunk::new(position, Volume::filled(Voxel::inactive()))));
    }
    let found = manager.neighbor_chunks(IVec3::new(5, 5, 5));
    for i in 0..6 {
        assert_eq!(found[i].as_ref().unwrap().position(), around[i]);
    }
    let found = manager.neighbor_chunks(IVec3::new(7, 5, 5));
    assert_eq!(found[1].as_ref().unwrap().position(), IVec3::new(6, 5, 5));
    assert!(found[0].is_none() && found[2].is_none() && found[3].is_none());
    // No position lies beyond the edge of chunk space.
    manager.insert(Arc::new(Chunk::new(IVec3::new(i32::MIN, 0, 0), Volume::filled(Voxel::inactive()))));
    let found = manager.neighbor_chunks(IVec3::new(i32::MAX, 0, 0));
    assert!(found.iter().all(|chunk| chunk.is_none()));
}

#[test]
fn meshes_of_a_batch_see_the_whole_batch() {
    let mut manager = ChunkManager::new();
    let positions = vec![IVec3::new(0, 0, 0), IVec3::new(1, 0, 0)];
    let meshes = manager.gen_mesh_multi(&solid, positions);
    assert_eq!(meshes.len(), 2);
    let west = meshes.iter().find(|mesh| mesh.position() == IVec3::new(0, 0, 0)).unwrap();
    let east = meshes.iter().find(|mesh| mesh.position() == IVec3::new(1, 0, 0)).unwrap();
    // The chunk on the west side has no face on its +x boundary, though the
    // chunk that covers it was generated after it.
    assert_eq!(quads_facing(west, [1, 0, 0]), 0);
    assert_eq!(quads_facing(west, [-1, 0, 0]), 32 * 32);
    assert_eq!(west.vertices().len(), 4 * 5 * 32 * 32);
    assert_eq!(quads_facing(east, [-1, 0, 0]), 0);
    assert_eq!(quads_facing(east, [1, 0, 0]), 32 * 32);
    assert_eq!(east.indices().len(), 6 * 5 * 32 * 32);
    assert!(manager.get(IVec3::new(0, 0, 0)).is_some());
    assert!(manager.get(IVec3::new(1, 0, 0)).is_some());
}

#[test]
fn meshes_see_the_chunks_of_earlier_batches() {
    let mut manager = ChunkManager::new();
    let first = manager.gen_mesh_multi(&solid, vec![IVec3::new(0, 1, 0)]);
    assert_eq!(first[0].vertices().len(), 4 * 6 * 32 * 32);
    let second = manager.gen_mesh_multi(&solid, vec![IVec3::new(0, 0, 0)]);
    assert_eq!(second[0].position(), IVec3::new(0, 0, 0));
    assert_eq!(quads_facing(&second[0], [0, 1, 0]), 0);
    assert_eq!(second[0].vertices().len(), 4 * 5 * 32 * 32);
    let none = manager.gen_mesh_multi(&solid, Vec::new());
    assert!(none.is_empty());
}

#[test]
fn pipeline_stages_can_be_run_one_by_one() {
    let mut manager = ChunkManager::new();
    let positions = vec![IVec3::new(0, 0, 0), IVec3::new(0, 0, 1), IVec3::new(0, 0, 0)];
    let chunks = ChunkManager::generate_all(&solid, &positions);
    assert_eq!(chunks.len(), 3);
    for (chunk, position) in chunks.iter().zip(positions.iter()) {
        assert_eq!(chunk.position(), *position);
    }
    manager.insert_all(&chunks);
    let meshes = manager.mesh_all(&chunks);
    assert_eq!(meshes.len(), 3);
    assert_eq!(quads_facing(&meshes[0], [0, 0, 1]), 0);
    assert_eq!(quads_facing(&meshes[1], [0, 0, -1]), 0);
    assert_eq!(meshes[2].vertices().len(), meshes[0].vertices().len());
    let alone = manager.mesh_chunk(&chunks[1]);
    assert_eq!(alone.vertices().len(), 4 * 5 * 32 * 32);
}
