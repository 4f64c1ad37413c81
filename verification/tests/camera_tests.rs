use polyscope_render::camera::{
    axis_direction_name, navigation_style_name, parse_axis_direction, parse_navigation_style,
    parse_projection_mode, projection_mode_name, AxisDirection, CameraModes, NavigationStyle,
    ProjectionMode,
};

const AXES: [AxisDirection; 6] = [
    AxisDirection::PosX,
    AxisDirection::NegX,
    AxisDirection::PosY,
    AxisDirection::NegY,
    AxisDirection::PosZ,
    AxisDirection::NegZ,
];

const STYLES: [NavigationStyle; 6] = [
    NavigationStyle::Turntable,
    NavigationStyle::Free,
    NavigationStyle::Planar,
    NavigationStyle::Arcball,
    NavigationStyle::FirstPerson,
    NavigationStyle::Disabled,
];

#[test]
fn defaults_match() {
    assert_eq!(NavigationStyle::default(), NavigationStyle::Turntable);
    assert_eq!(ProjectionMode::default(), ProjectionMode::Perspective);
    assert_eq!(AxisDirection::default(), AxisDirection::PosY);
}

#[test]
fn navigation_style_codes() {
    for (i, s) in STYLES.iter().enumerate() {
        assert_eq!(u32::from(*s), i as u32);
        assert_eq!(NavigationStyle::from(i as u32), *s);
    }
    assert_eq!(NavigationStyle::from(6u32), NavigationStyle::Disabled);
    assert_eq!(NavigationStyle::from(1000u32), NavigationStyle::Disabled);
}

#[test]
fn projection_mode_codes() {
    assert_eq!(u32::from(ProjectionMode::Perspective), 0);
    assert_eq!(u32::from(ProjectionMode::Orthographic), 1);
    assert_eq!(ProjectionMode::from(0u32), ProjectionMode::Perspective);
    assert_eq!(ProjectionMode::from(1u32), ProjectionMode::Orthographic);
    assert_eq!(ProjectionMode::from(7u32), ProjectionMode::Orthographic);
}

#[test]
fn axis_codes_and_indices() {
    for (i, a) in AXES.iter().enumerate() {
        assert_eq!(u32::from(*a), i as u32);
        assert_eq!(AxisDirection::from(i as u32), *a);
        assert_eq!(a.to_index(), i as u32);
        assert_eq!(AxisDirection::from_index(i as u32), *a);
    }
    // Out-of-range: From<u32> gives -Z, from_index gives +Y.
    assert_eq!(AxisDirection::from(9u32), AxisDirection::NegZ);
    assert_eq!(AxisDirection::from_index(9), AxisDirection::PosY);
}

#[test]
fn axis_display_names() {
    let names: Vec<&str> = AXES.iter().map(|a| a.name()).collect();
    assert_eq!(names, vec!["+X", "-X", "+Y", "-Y", "+Z", "-Z"]);
}

#[test]
fn default_front_directions() {
    assert_eq!(AxisDirection::PosY.default_front_direction(), AxisDirection::NegZ);
    assert_eq!(AxisDirection::NegY.default_front_direction(), AxisDirection::PosZ);
    assert_eq!(AxisDirection::PosZ.default_front_direction(), AxisDirection::PosX);
    assert_eq!(AxisDirection::NegZ.default_front_direction(), AxisDirection::NegX);
    assert_eq!(AxisDirection::PosX.default_front_direction(), AxisDirection::PosY);
    assert_eq!(AxisDirection::NegX.default_front_direction(), AxisDirection::NegY);
    for a in AXES {
        // front lies on another axis than up
        assert_ne!(a.default_front_direction().to_index() / 2, a.to_index() / 2);
    }
}

#[test]
fn saved_keys_roundtrip() {
    for s in STYLES {
        assert_eq!(parse_navigation_style(navigation_style_name(s)), Some(s));
    }
    for p in [ProjectionMode::Perspective, ProjectionMode::Orthographic] {
        assert_eq!(parse_projection_mode(projection_mode_name(p)), Some(p));
    }
    for a in AXES {
        assert_eq!(parse_axis_direction(axis_direction_name(a)), Some(a));
    }
    assert_eq!(navigation_style_name(NavigationStyle::FirstPerson), "first_person");
    assert_eq!(navigation_style_name(NavigationStyle::Disabled), "none");
    assert_eq!(axis_direction_name(AxisDirection::NegY), "neg_y");
    assert_eq!(projection_mode_name(ProjectionMode::Orthographic), "orthographic");
}

#[test]
fn unknown_keys_do_not_parse() {
    assert_eq!(parse_navigation_style("Turntable"), None);
    assert_eq!(parse_navigation_style(""), None);
    assert_eq!(parse_projection_mode("definitely_not_a_mode"), None);
    assert_eq!(parse_axis_direction("+X"), None);
}

#[test]
fn camera_modes_set_up_direction_updates_front() {
    let mut m = CameraModes::new();
    assert_eq!(m.up_direction, AxisDirection::PosY);
    assert_eq!(m.front_direction, AxisDirection::NegZ);
    m.set_up_direction(AxisDirection::PosZ);
    assert_eq!(m.up_direction, AxisDirection::PosZ);
    assert_eq!(m.front_direction, AxisDirection::PosX);
    m.set_navigation_style(NavigationStyle::Arcball);
    m.set_projection_mode(ProjectionMode::Orthographic);
    assert_eq!(m.navigation_style, NavigationStyle::Arcball);
    assert_eq!(m.projection_mode, ProjectionMode::Orthographic);
}

#[test]
fn camera_modes_saved_keys_restore() {
    let mut saved = CameraModes::new();
    saved.projection_mode = ProjectionMode::Orthographic;
    saved.navigation_style = NavigationStyle::Arcball;
    saved.up_direction = AxisDirection::NegY;
    saved.front_direction = AxisDirection::PosZ;
    let keys = saved.saved_keys();
    assert_eq!(keys, ("orthographic", "arcball", "neg_y", "pos_z"));
    let mut fresh = CameraModes::default();
    fresh.apply_saved_keys(keys.0, keys.1, keys.2, keys.3);
    assert_eq!(fresh, saved);
}

#[test]
fn unknown_saved_keys_fall_back() {
    let mut target = CameraModes::new();
    target.apply_saved_keys("definitely_not_a_mode", "also_not_real", "pos_x", "bogus");
    assert_eq!(target.projection_mode, ProjectionMode::Perspective);
    assert_eq!(target.navigation_style, NavigationStyle::Turntable);
    assert_eq!(target.up_direction, AxisDirection::PosX);
    assert_eq!(target.front_direction, AxisDirection::NegZ);
}
