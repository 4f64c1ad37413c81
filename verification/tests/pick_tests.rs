use polyscope_render::pick::{
    color_to_index, index_to_color, PickElementType, PickRangeRegistry, StructureIdRegistry,
};

#[test]
fn test_color_index_roundtrip() {
    // Test various indices
    for index in [0, 1, 255, 256, 65535, 65536, 0xFFFFFF, 12345678 & 0xFFFFFF] {
        let color = index_to_color(index);
        let decoded = color_to_index(color[0], color[1], color[2]);
        assert_eq!(decoded, index & 0xFFFFFF, "Roundtrip failed for index {}", index);
    }
}

#[test]
fn test_specific_colors() {
    // Test that specific values encode correctly
    assert_eq!(index_to_color(0), [0, 0, 0]);
    assert_eq!(index_to_color(1), [0, 0, 1]);
    assert_eq!(index_to_color(255), [0, 0, 255]);
    assert_eq!(index_to_color(256), [0, 1, 0]);
    assert_eq!(index_to_color(0xFF0000), [255, 0, 0]);
    assert_eq!(index_to_color(0x00FF00), [0, 255, 0]);
    assert_eq!(index_to_color(0x0000FF), [0, 0, 255]);
}

#[test]
fn color_encoding_drops_high_byte() {
    assert_eq!(index_to_color(0x12345678), [0x34, 0x56, 0x78]);
    assert_eq!(color_to_index(0x34, 0x56, 0x78), 0x345678);
    assert_eq!(color_to_index(255, 255, 255), 0xFFFFFF);
}

#[test]
fn every_color_roundtrips() {
    for r in [0u8, 1, 127, 128, 254, 255] {
        for g in [0u8, 3, 200, 255] {
            for b in [0u8, 9, 77, 255] {
                let idx = color_to_index(r, g, b);
                assert_eq!(index_to_color(idx), [r, g, b]);
            }
        }
    }
}

#[test]
fn pick_element_type_default_is_no_element() {
    assert_eq!(PickElementType::default(), PickElementType::NoElement);
}

#[test]
fn pick_ranges_start_at_one_and_are_contiguous() {
    let mut reg = PickRangeRegistry::new();
    let a = reg.assign_pick_range("PointCloud", "points", 10);
    let b = reg.assign_pick_range("SurfaceMesh", "bunny", 5);
    assert_eq!(a, 1);
    assert_eq!(b, 11);
    assert_eq!(reg.lookup_global_index(0), None);
    assert_eq!(reg.lookup_global_index(1), Some(("PointCloud", "points", 0)));
    assert_eq!(reg.lookup_global_index(10), Some(("PointCloud", "points", 9)));
    assert_eq!(reg.lookup_global_index(11), Some(("SurfaceMesh", "bunny", 0)));
    assert_eq!(reg.lookup_global_index(15), Some(("SurfaceMesh", "bunny", 4)));
    assert_eq!(reg.lookup_global_index(16), None);
}

#[test]
fn pick_range_assignment_is_idempotent() {
    let mut reg = PickRangeRegistry::new();
    let a = reg.assign_pick_range("PointCloud", "points", 10);
    let again = reg.assign_pick_range("PointCloud", "points", 99);
    assert_eq!(a, again);
    assert_eq!(reg.get_pick_range_start("PointCloud", "points"), Some(1));
    // The second request did not take more indices.
    let b = reg.assign_pick_range("CurveNetwork", "net", 3);
    assert_eq!(b, 11);
}

#[test]
fn removed_range_is_not_reused() {
    let mut reg = PickRangeRegistry::new();
    reg.assign_pick_range("PointCloud", "a", 4);
    reg.assign_pick_range("PointCloud", "b", 4);
    reg.remove_pick_range("PointCloud", "a");
    assert_eq!(reg.lookup_global_index(2), None);
    assert_eq!(reg.get_pick_range_start("PointCloud", "a"), None);
    assert_eq!(reg.lookup_global_index(5), Some(("PointCloud", "b", 0)));
    let c = reg.assign_pick_range("PointCloud", "a", 4);
    assert_eq!(c, 9);
    // Removing an unknown structure changes nothing.
    reg.remove_pick_range("Nope", "nothing");
    assert_eq!(reg.lookup_global_index(9), Some(("PointCloud", "a", 0)));
}

#[test]
fn same_name_different_type_are_distinct() {
    let mut reg = PickRangeRegistry::new();
    let a = reg.assign_pick_range("PointCloud", "x", 2);
    let b = reg.assign_pick_range("SurfaceMesh", "x", 2);
    assert_ne!(a, b);
    assert_eq!(reg.lookup_global_index(b), Some(("SurfaceMesh", "x", 0)));
}

#[test]
fn empty_range_owns_nothing() {
    let mut reg = PickRangeRegistry::new();
    let a = reg.assign_pick_range("PointCloud", "empty", 0);
    assert_eq!(a, 1);
    assert_eq!(reg.lookup_global_index(1), None);
    let b = reg.assign_pick_range("PointCloud", "one", 1);
    assert_eq!(b, 1);
    assert_eq!(reg.lookup_global_index(1), Some(("PointCloud", "one", 0)));
}

#[test]
fn structure_ids_start_at_one() {
    let mut ids = StructureIdRegistry::new();
    let a = ids.assign_structure_id("PointCloud", "p");
    let b = ids.assign_structure_id("SurfaceMesh", "m");
    assert_eq!(a, 1);
    assert_eq!(b, 2);
    assert_eq!(ids.assign_structure_id("PointCloud", "p"), 1);
    assert_eq!(ids.lookup_structure_id(1), Some(("PointCloud", "p")));
    assert_eq!(ids.lookup_structure_id(2), Some(("SurfaceMesh", "m")));
    assert_eq!(ids.lookup_structure_id(0), None);
    assert_eq!(ids.get_structure_id("SurfaceMesh", "m"), Some(2));
}

#[test]
fn structure_id_removal_clears_both_directions() {
    let mut ids = StructureIdRegistry::new();
    ids.assign_structure_id("PointCloud", "p");
    ids.assign_structure_id("PointCloud", "q");
    ids.remove_structure_id("PointCloud", "p");
    assert_eq!(ids.lookup_structure_id(1), None);
    assert_eq!(ids.get_structure_id("PointCloud", "p"), None);
    assert_eq!(ids.get_structure_id("PointCloud", "q"), Some(2));
    // IDs are never reused.
    assert_eq!(ids.assign_structure_id("PointCloud", "p"), 3);
}

#[test]
fn next_free_index_and_id_advance() {
    let mut ranges = PickRangeRegistry::new();
    assert_eq!(ranges.next_global_index(), 1);
    ranges.assign_pick_range("PointCloud", "p", 10);
    assert_eq!(ranges.next_global_index(), 11);
    ranges.assign_pick_range("PointCloud", "p", 99);
    assert_eq!(ranges.next_global_index(), 11);

    let mut ids = StructureIdRegistry::new();
    assert_eq!(ids.next_structure_id(), 1);
    ids.assign_structure_id("SurfaceMesh", "m");
    assert_eq!(ids.next_structure_id(), 2);
}
