use bevy_procedural_grass::queue::{grass_queue, grass_view_key, MeshTopology};

#[test]
fn view_key_of_four_samples_with_hdr() {
    // log2(4) = 2 at bit 22, HDR at bit 0.
    assert_eq!(grass_view_key(4, true), (2u64 << 22) | 1);
    assert_eq!(grass_view_key(1, false), 0);
    assert_eq!(grass_view_key(8, false), 3u64 << 22);
}

#[test]
fn entities_without_mesh_are_skipped() {
    let grass = vec![Some(MeshTopology::TriangleList), None, Some(MeshTopology::LineStrip)];
    let keys = grass_queue(4, false, &grass);
    assert_eq!(keys, vec![Some((2u64 << 22) | (3u64 << 60)), None, Some((2u64 << 22) | (2u64 << 60))]);
}

#[test]
fn topology_codes_follow_the_graphics_api() {
    let all = vec![
        Some(MeshTopology::PointList),
        Some(MeshTopology::LineList),
        Some(MeshTopology::LineStrip),
        Some(MeshTopology::TriangleList),
        Some(MeshTopology::TriangleStrip),
    ];
    let keys = grass_queue(1, true, &all);
    for (code, key) in keys.iter().enumerate() {
        assert_eq!(*key, Some(((code as u64) << 60) | 1));
    }
}

#[test]
fn key_fields_read_back() {
    let key = grass_queue(16, true, &vec![Some(MeshTopology::TriangleStrip)])[0].unwrap();
    assert_eq!((key >> 22) & 7, 4);
    assert_eq!((key >> 60) & 7, 4);
    assert_eq!(key & 1, 1);
}

#[test]
fn no_grass_queues_nothing() {
    assert!(grass_queue(4, true, &Vec::new()).is_empty());
}
