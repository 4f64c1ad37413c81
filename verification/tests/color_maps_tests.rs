use polyscope_render::color_maps::{ColorMap, ColorMapRegistry};

#[test]
fn register_get_and_names() {
    let mut reg: ColorMapRegistry<[f32; 3]> = ColorMapRegistry::empty();
    reg.register(ColorMap::new("gray", vec![[0.0, 0.0, 0.0], [1.0, 1.0, 1.0]]));
    reg.register(ColorMap::new("red", vec![[1.0, 0.0, 0.0]]));
    assert_eq!(reg.get("gray").unwrap().colors.len(), 2);
    assert!(reg.get("blue").is_none());
    let mut names = reg.names();
    names.sort();
    assert_eq!(names, vec!["gray", "red"]);
}

#[test]
fn color_map_register_replaces_same_name() {
    let mut reg: ColorMapRegistry<u8> = ColorMapRegistry::empty();
    reg.register(ColorMap::new("m", vec![1, 2, 3]));
    reg.register(ColorMap::new("m", vec![4]));
    assert_eq!(reg.get("m").unwrap().colors, vec![4]);
    assert_eq!(reg.names(), vec!["m"]);
}
