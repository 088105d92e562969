use bevy_procedural_grass::chunk::{
    bucket_instances, mesh_triangles, ChunkBuckets, ChunkCoord, CullDimension, GrassLOD,
};

#[test]
fn cull_dimension_defaults_to_d2() {
    assert_eq!(CullDimension::default(), CullDimension::D2);
}

#[test]
fn triangles_are_read_three_indices_at_a_time() {
    let indices: Vec<usize> = vec![0, 1, 2, 2, 1, 3];
    assert_eq!(mesh_triangles(&indices), vec![(0, 1, 2), (2, 1, 3)]);
}

#[test]
fn trailing_indices_of_an_incomplete_triangle_are_ignored() {
    let indices: Vec<usize> = vec![4, 5, 6, 7, 8];
    assert_eq!(mesh_triangles(&indices), vec![(4, 5, 6)]);
    assert_eq!(mesh_triangles(&vec![9, 9]), Vec::<(usize, usize, usize)>::new());
    assert_eq!(mesh_triangles(&Vec::new()), Vec::<(usize, usize, usize)>::new());
}

#[test]
fn empty_bucket_set_has_no_chunks() {
    let b = ChunkBuckets::new();
    assert_eq!(b.len(), 0);
    assert_eq!(b.get((0, 0, 0)), None);
    assert!(b.into_entries().is_empty());
}

#[test]
fn insert_creates_then_appends() {
    let mut b = ChunkBuckets::new();
    b.insert((1, 0, -1), 7);
    b.insert((0, 0, 0), 3);
    b.insert((1, 0, -1), 2);
    assert_eq!(b.len(), 2);
    assert_eq!(b.get((1, 0, -1)), Some(&vec![7, 2]));
    assert_eq!(b.get((0, 0, 0)), Some(&vec![3]));
    assert_eq!(b.get((1, 0, 1)), None);
}

#[test]
fn instances_are_grouped_by_their_chunk_in_order() {
    let coords: Vec<ChunkCoord> = vec![(0, 0, 0), (1, 0, 0), (0, 0, 0), (-1, 2, 3), (1, 0, 0), (0, 0, 0)];
    let b = bucket_instances(&coords);
    assert_eq!(b.len(), 3);
    assert_eq!(b.get((0, 0, 0)), Some(&vec![0, 2, 5]));
    assert_eq!(b.get((1, 0, 0)), Some(&vec![1, 4]));
    assert_eq!(b.get((-1, 2, 3)), Some(&vec![3]));
    let mut entries = b.into_entries();
    entries.sort();
    assert_eq!(
        entries,
        vec![((-1, 2, 3), vec![3]), ((0, 0, 0), vec![0, 2, 5]), ((1, 0, 0), vec![1, 4])]
    );
}

#[test]
fn every_instance_lands_in_exactly_one_chunk() {
    let coords: Vec<ChunkCoord> = (0..40).map(|i: i32| (i % 3, (i / 7) - 2, -(i % 2))).collect();
    let entries = bucket_instances(&coords).into_entries();
    let mut seen = vec![0usize; coords.len()];
    for (key, members) in &entries {
        for w in members.windows(2) {
            assert!(w[0] < w[1]);
        }
        for &m in members {
            assert_eq!(coords[m], *key);
            seen[m] += 1;
        }
    }
    assert!(seen.iter().all(|&n| n == 1));
}

#[test]
fn lod_levels_are_distinct() {
    assert_ne!(GrassLOD::High, GrassLOD::Low);
}
