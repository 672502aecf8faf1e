use voxel_world::volume::Volume;

#[test]
fn fill() {
    // Fill a volume up with zeroes
    let mut volume: Volume<u64, 32> = Volume::filled(0u64);

    // Is this spot here 0?
    assert_eq!(volume[(3, 5, 9)], 0u64);

    // Try changing that spot to something else...
    volume[(3, 5, 9)] = 128;

    // Did it change?
    assert_eq!(volume[(3, 5, 9)], 128u64);
}

#[test]
fn iter() {
    // Fill a volume up with zeroes
    let mut volume: Volume<u64, 8> = Volume::filled(0u64);

    // Values correspond with sum of index
    volume[(0, 4, 4)] = 8;
    volume[(1, 4, 4)] = 9;
    volume[(2, 4, 4)] = 10;
    volume[(3, 4, 4)] = 11;
    volume[(4, 4, 4)] = 12;
    volume[(5, 4, 4)] = 13;
    volume[(6, 4, 4)] = 14;
    volume[(7, 4, 4)] = 15;

    // Check if that change actually happened
    for (idx, &value) in volume.iter() {
        if !(idx.1 == 4 && idx.2 == 4) {
            continue;
        }

        let sum = (idx.0 + idx.1 + idx.2) as u64;
        assert_eq!(sum, value)
    }
}

#[test]
fn mut_in_iter() {
    // Fill a volume up with zeroes
    let mut volume: Volume<u64, 8> = Volume::filled(0u64);

    // Values correspond with sum of index
    volume[(0, 4, 4)] = 8;
    volume[(1, 4, 4)] = 9;
    volume[(2, 4, 4)] = 10;
    volume[(3, 4, 4)] = 11;
    volume[(4, 4, 4)] = 12;
    volume[(5, 4, 4)] = 13;
    volume[(6, 4, 4)] = 14;
    volume[(7, 4, 4)] = 15;

    // Just to break the pattern a little
    volume[(7, 3, 6)] = 12;

    // Double all 12s
    for idx in volume.iter_indices() {
        if volume[idx] == 12 {
            volume[idx] *= 2;
        }
    }

    // Did our changes happen?
    assert_eq!(volume[(4, 4, 4)], 12 * 2);
    assert_eq!(volume[(7, 3, 6)], 12 * 2);
}

#[test]
fn iter_idx() {
    let volume: Volume<u64, 2> = Volume::filled(0u64);

    let mut it = volume.iter_indices();

    assert_eq!(it.next(), Some((0, 0, 0)));
    assert_eq!(it.next(), Some((1, 0, 0)));

    assert_eq!(it.next(), Some((0, 1, 0)));
    assert_eq!(it.next(), Some((1, 1, 0)));

    assert_eq!(it.next(), Some((0, 0, 1)));
    assert_eq!(it.next(), Some((1, 0, 1)));

    assert_eq!(it.next(), Some((0, 1, 1)));
    assert_eq!(it.next(), Some((1, 1, 1)));

    assert_eq!(it.next(), None);
}

#[test]
fn get_is_none_outside_the_volume() {
    let mut volume: Volume<u64, 4> = Volume::filled(7u64);
    volume[(1, 2, 3)] = 9;
    assert_eq!(volume.get((1, 2, 3)), Some(&9));
    assert_eq!(volume.get((3, 3, 3)), Some(&7));
    assert_eq!(volume.get((4, 0, 0)), None);
    assert_eq!(volume.get((0, 4, 0)), None);
    assert_eq!(volume.get((0, 0, 4)), None);
    assert_eq!(volume.get((usize::MAX, 0, 0)), None);
}

#[test]
fn writing_one_cell_changes_no_other() {
    let mut volume: Volume<u64, 3> = Volume::filled(1u64);
    volume[(2, 0, 1)] = 5;
    for (idx, &value) in volume.iter() {
        if idx == (2, 0, 1) {
            assert_eq!(value, 5);
        } else {
            assert_eq!(value, 1);
        }
    }
}

#[test]
fn iter_yields_every_index_once_with_x_fastest() {
    let volume: Volume<u8, 3> = Volume::filled(0u8);
    let cells: Vec<(usize, usize, usize)> = volume.iter().map(|(idx, _)| idx).collect();
    let indices: Vec<(usize, usize, usize)> = volume.iter_indices().collect();
    assert_eq!(cells, indices);
    assert_eq!(indices.len(), 27);
    let mut expected = Vec::new();
    for z in 0..3 {
        for y in 0..3 {
            for x in 0..3 {
                expected.push((x, y, z));
            }
        }
    }
    assert_eq!(indices, expected);
    // A traversal can be started again.
    assert_eq!(volume.iter().count(), 27);
}

#[test]
fn iterators_stay_at_the_end() {
    let volume: Volume<u8, 1> = Volume::filled(3u8);
    let mut cells = volume.iter();
    assert_eq!(cells.next(), Some(((0, 0, 0), &3)));
    assert_eq!(cells.next(), None);
    assert_eq!(cells.next(), None);
    let mut indices = volume.iter_indices();
    assert_eq!(indices.next(), Some((0, 0, 0)));
    assert_eq!(indices.next(), None);
    assert_eq!(indices.next(), None);
    let nothing: Volume<u8, 0> = Volume::filled(3u8);
    assert_eq!(nothing.iter().next(), None);
    assert_eq!(nothing.iter_indices().next(), None);
}

#[test]
fn volume_is_made_from_nested_arrays_and_back() {
    let arr = [[[1u8, 2], [3, 4]], [[5, 6], [7, 8]]];
    let volume: Volume<u8, 2> = Volume::from(arr);
    assert_eq!(volume[(0, 0, 0)], 1);
    assert_eq!(volume[(0, 0, 1)], 2);
    assert_eq!(volume[(0, 1, 0)], 3);
    assert_eq!(volume[(1, 0, 0)], 5);
    assert_eq!(volume[(1, 1, 1)], 8);
    let back: [[[u8; 2]; 2]; 2] = volume.into();
    assert_eq!(back, arr);
}
