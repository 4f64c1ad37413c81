use polyscope_render::shader::{RenderError, ShaderBuilder};

#[test]
fn builder_defaults() {
    let b = ShaderBuilder::new();
    assert_eq!(b.vertex_entry(), "vs_main");
    assert_eq!(b.fragment_entry(), "fs_main");
    assert_eq!(b.label(), None);
    let d = ShaderBuilder::default();
    assert_eq!(d.vertex_entry(), "vs_main");
}

#[test]
fn builder_setters() {
    let b = ShaderBuilder::new()
        .with_vertex_entry("main_v")
        .with_fragment_entry("main_f")
        .with_label("Point Shader");
    assert_eq!(b.vertex_entry(), "main_v");
    assert_eq!(b.fragment_entry(), "main_f");
    assert_eq!(b.label(), Some("Point Shader"));
}

#[test]
fn same_source_is_used_once() {
    let src = "@vertex fn vs_main() {} @fragment fn fs_main() {}";
    let b = ShaderBuilder::new().with_vertex(src).with_fragment(src);
    assert_eq!(b.combined_source().unwrap(), src);
}

#[test]
fn different_sources_are_joined() {
    let b = ShaderBuilder::new().with_vertex("VS").with_fragment("FS");
    assert_eq!(b.combined_source().unwrap(), "VS\n\nFS");
}

#[test]
fn missing_sources_are_errors() {
    match ShaderBuilder::new().with_fragment("FS").combined_source() {
        Err(RenderError::ShaderCompilationFailed(m)) => assert_eq!(m, "missing vertex shader"),
        _ => panic!("vertex source is required"),
    }
    match ShaderBuilder::new().with_vertex("VS").combined_source() {
        Err(RenderError::ShaderCompilationFailed(m)) => assert_eq!(m, "missing fragment shader"),
        _ => panic!("fragment source is required"),
    }
    match ShaderBuilder::new().combined_source() {
        Err(RenderError::ShaderCompilationFailed(m)) => assert_eq!(m, "missing vertex shader"),
        _ => panic!("vertex source is checked first"),
    }
}
