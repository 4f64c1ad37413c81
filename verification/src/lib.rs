//! Verified core of a wgpu-based viewer for 3D geometric data: camera modes,
//! pick-buffer index encoding and bookkeeping, material and color-map
//! registries, shader source assembly, screenshot pixel handling and render
//! target sizing.

pub mod camera;
pub mod color_maps;
pub mod text;
pub mod vertex_data;
pub mod pick;
pub mod materials;
pub mod render_target;
pub mod screenshot;
pub mod shader;
