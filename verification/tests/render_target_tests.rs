use polyscope_render::render_target::{
    aligned_bytes_per_row, blur_pass_is_horizontal, blur_pass_slots, blur_result_slot,
    decode_pick_pixel, oit_textures_need_rebuild, pick_buffers_need_rebuild, pick_in_bounds,
    planar_shadow_needs_resize, planar_shadow_size, preferred_surface_format, strip_row_padding,
    surface_extent, fill_slots, ViewportState,
};

#[test]
fn bytes_per_row_is_aligned_to_256() {
    assert_eq!(aligned_bytes_per_row(0), 0);
    assert_eq!(aligned_bytes_per_row(1), 256);
    assert_eq!(aligned_bytes_per_row(64), 256);
    assert_eq!(aligned_bytes_per_row(65), 512);
    assert_eq!(aligned_bytes_per_row(1920), 7680);
    assert_eq!(aligned_bytes_per_row(1366), 5632);
}

#[test]
fn row_padding_is_removed() {
    // 2 pixels wide (8 bytes), pitch 12, 3 rows; last row without padding.
    let data: Vec<u8> = (0u8..32).collect();
    let out = strip_row_padding(&data, 2, 3, 12);
    let mut expected: Vec<u8> = Vec::new();
    expected.extend_from_slice(&data[0..8]);
    expected.extend_from_slice(&data[12..20]);
    expected.extend_from_slice(&data[24..32]);
    assert_eq!(out, expected);
    assert_eq!(strip_row_padding(&data, 2, 0, 12), Vec::<u8>::new());
}

#[test]
fn viewport_ssaa_factor_is_clamped() {
    let mut v = ViewportState::new(800, 600);
    assert_eq!(v.ssaa_factor(), 1);
    assert!(!v.needs_ssaa_intermediate());
    assert!(v.set_ssaa_factor(2));
    assert_eq!(v.render_dimensions(), (1600, 1200));
    assert!(v.needs_ssaa_intermediate());
    assert!(!v.set_ssaa_factor(2));
    assert!(v.set_ssaa_factor(9));
    assert_eq!(v.ssaa_factor(), 4);
    assert_eq!(v.ssaa_width(), 3200);
    assert_eq!(v.ssaa_height(), 2400);
    assert!(v.set_ssaa_factor(0));
    assert_eq!(v.ssaa_factor(), 1);
    assert_eq!(v.dimensions(), (800, 600));
}

#[test]
fn viewport_ignores_zero_size() {
    let mut v = ViewportState::new(800, 600);
    assert!(!v.resize(0, 100));
    assert!(!v.resize(100, 0));
    assert_eq!(v.dimensions(), (800, 600));
    assert!(v.resize(1024, 768));
    assert_eq!(v.dimensions(), (1024, 768));
}

#[test]
fn pick_buffer_checks() {
    assert!(pick_buffers_need_rebuild((0, 0), false, 800, 600));
    assert!(pick_buffers_need_rebuild((800, 600), false, 800, 600));
    assert!(!pick_buffers_need_rebuild((800, 600), true, 800, 600));
    assert!(pick_buffers_need_rebuild((800, 600), true, 801, 600));
    assert!(pick_in_bounds((800, 600), 0, 0));
    assert!(pick_in_bounds((800, 600), 799, 599));
    assert!(!pick_in_bounds((800, 600), 800, 0));
    assert!(!pick_in_bounds((800, 600), 0, 600));
    assert_eq!(decode_pick_pixel([0, 1, 2, 255]), 258);
    assert_eq!(decode_pick_pixel([0, 0, 0, 0]), 0);
}

#[test]
fn blur_slot_alternates() {
    assert_eq!(blur_result_slot(0), 0);
    assert_eq!(blur_result_slot(1), 1);
    assert_eq!(blur_result_slot(4), 0);
    assert_eq!(blur_result_slot(7), 1);
}

#[test]
fn blur_passes_ping_pong() {
    assert_eq!(blur_pass_slots(0), (0, 1));
    assert_eq!(blur_pass_slots(1), (1, 0));
    assert_eq!(blur_pass_slots(2), (0, 1));
    assert!(blur_pass_is_horizontal(0));
    assert!(!blur_pass_is_horizontal(1));
    // The last of n passes writes where the result is read from.
    for n in 1u32..6 {
        assert_eq!(blur_pass_slots(n - 1).1, blur_result_slot(n));
    }
}

#[test]
fn planar_shadow_is_half_size() {
    assert_eq!(planar_shadow_size(801, 600), (400, 300));
    assert!(!planar_shadow_needs_resize((400, 300), 801, 600));
    assert!(planar_shadow_needs_resize((400, 300), 802, 600));
}

#[test]
fn oit_textures_follow_render_size() {
    assert!(oit_textures_need_rebuild(None, 10, 10));
    assert!(!oit_textures_need_rebuild(Some((10, 10)), 10, 10));
    assert!(oit_textures_need_rebuild(Some((10, 11)), 10, 10));
}

#[test]
fn surface_setup_choices() {
    assert_eq!(surface_extent(0, 0), (1, 1));
    assert_eq!(surface_extent(640, 0), (640, 1));
    assert_eq!(surface_extent(640, 480), (640, 480));
    assert_eq!(preferred_surface_format(&[false, true, true]), 1);
    assert_eq!(preferred_surface_format(&[false, false]), 0);
    assert_eq!(preferred_surface_format(&[true]), 0);
}

#[test]
fn slots_take_items_then_pad() {
    assert_eq!(fill_slots(&[7u8, 8], 0, 4), vec![7, 8, 0, 0]);
    assert_eq!(fill_slots(&[1u8, 2, 3, 4, 5], 0, 3), vec![1, 2, 3]);
    assert_eq!(fill_slots::<u8>(&[], 9, 2), vec![9, 9]);
}
