use polyscope_render::vertex_data::{edge_endpoints, sequential_indices, triangle_corner};

#[test]
fn edge_endpoints_pair_tails_and_tips() {
    let nodes = [10u32, 11, 12, 13];
    let tails = [0u32, 2, 3];
    let tips = [1u32, 1, 0];
    assert_eq!(edge_endpoints(&nodes, &tails, &tips), vec![10, 11, 12, 11, 13, 10]);
}

#[test]
fn edge_endpoints_of_no_edges_is_empty() {
    let nodes = [1.5f32, 2.5];
    let v: Vec<f32> = edge_endpoints(&nodes, &[], &[]);
    assert!(v.is_empty());
}

#[test]
fn extra_tips_are_ignored() {
    let nodes = ['a', 'b'];
    assert_eq!(edge_endpoints(&nodes, &[1], &[0, 1]), vec!['b', 'a']);
}

#[test]
fn sequential_indices_count_up() {
    assert_eq!(sequential_indices(0), Vec::<u32>::new());
    assert_eq!(sequential_indices(5), vec![0, 1, 2, 3, 4]);
}

#[test]
fn triangle_corners_cycle() {
    let corners: Vec<usize> = (0..7).map(triangle_corner).collect();
    assert_eq!(corners, vec![0, 1, 2, 0, 1, 2, 0]);
}
