use polyscope_render::materials::{Material, MaterialRegistry};

#[test]
fn test_material_registry() {
    let registry = MaterialRegistry::new();
    assert!(registry.get("clay").is_some());
    assert!(registry.get("wax").is_some());
    assert!(registry.get("candy").is_some());
    assert!(registry.get("flat").is_some());
    assert!(registry.get("nonexistent").is_none());
}

#[test]
fn test_blendable_materials() {
    assert!(Material::clay().is_blendable);
    assert!(Material::wax().is_blendable);
    assert!(Material::candy().is_blendable);
    assert!(Material::flat("flat").is_blendable);
    assert!(!Material::mud().is_blendable);
    assert!(!Material::ceramic().is_blendable);
    assert!(!Material::jade().is_blendable);
    assert!(!Material::normal().is_blendable);
}

#[test]
fn test_material_registry_has() {
    let registry = MaterialRegistry::new();
    assert!(registry.has("clay"));
    assert!(registry.has("wax"));
    assert!(registry.has("normal"));
    assert!(!registry.has("nonexistent"));
    assert!(!registry.has("my_custom"));
}

#[test]
fn test_material_registry_names_order() {
    let registry = MaterialRegistry::new();
    let names = registry.names();
    // Built-ins should appear in canonical order
    assert_eq!(
        names,
        vec!["clay", "wax", "candy", "flat", "mud", "ceramic", "jade", "normal"]
    );
}

#[test]
fn test_material_registry_custom() {
    let mut registry = MaterialRegistry::new();
    let mut custom = Material::clay();
    custom.name = "zebra_mat".to_string();
    registry.register(custom);

    let mut custom2 = Material::clay();
    custom2.name = "alpha_mat".to_string();
    registry.register(custom2);

    assert!(registry.has("zebra_mat"));
    assert!(registry.has("alpha_mat"));

    let names = registry.names();
    // Built-ins first in canonical order, then custom sorted alphabetically
    let expected = vec![
        "clay", "wax", "candy", "flat", "mud", "ceramic", "jade", "normal", "alpha_mat",
        "zebra_mat",
    ];
    assert_eq!(names, expected);
}

#[test]
fn flat_material_flags() {
    let mat = Material::flat("test_flat");
    assert!(mat.is_flat);
    assert!(mat.is_blendable);
    assert_eq!(mat.name, "test_flat");
    let plain = Material::new("plain");
    assert!(!plain.is_flat);
    assert!(!plain.is_blendable);
}

#[test]
fn registry_has_eight_builtins_and_clay_default() {
    let registry = MaterialRegistry::new();
    assert_eq!(registry.len(), 8);
    assert!(!registry.is_empty());
    assert_eq!(registry.default_material().name, "clay");
    assert!(registry.get("flat").unwrap().is_flat);
    assert!(!registry.get("mud").unwrap().is_blendable);
}

#[test]
fn register_replaces_same_name() {
    let mut registry = MaterialRegistry::new();
    registry.register(Material::static_mat("clay"));
    assert_eq!(registry.len(), 8);
    assert!(!registry.get("clay").unwrap().is_blendable);
}

#[test]
fn set_default_ignores_unknown_names() {
    let mut registry = MaterialRegistry::new();
    registry.set_default("nonexistent");
    assert_eq!(registry.default_material().name, "clay");
    registry.set_default("jade");
    assert_eq!(registry.default_material().name, "jade");
}

#[test]
fn custom_names_sort_bytewise_and_builtins_missing_are_skipped() {
    let mut registry = MaterialRegistry::default();
    assert!(registry.is_empty());
    registry.register(Material::new("b"));
    registry.register(Material::new("Zed"));
    registry.register(Material::new("wax"));
    registry.register(Material::new("ab"));
    registry.register(Material::new("a"));
    assert_eq!(registry.names(), vec!["wax", "Zed", "a", "ab", "b"]);
    // The default name is empty and unregistered: some registered material comes back.
    let d = registry.default_material();
    assert!(registry.has(&d.name));
}
