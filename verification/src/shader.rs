//! Shader source assembly and rendering error types.

use vstd::prelude::*;

use crate::text::str_equal;

verus! {

#[verifier::external_type_specification]
#[verifier::external_body]
pub struct ExRequestDeviceError(wgpu::RequestDeviceError);

#[verifier::external_type_specification]
#[verifier::external_body]
pub struct ExCreateSurfaceError(wgpu::CreateSurfaceError);

/// Errors that can occur during rendering operations.
#[derive(Debug)]
pub enum RenderError {
    /// Failed to create wgpu adapter.
    AdapterCreationFailed,
    /// Failed to create wgpu device.
    DeviceCreationFailed(wgpu::RequestDeviceError),
    /// Failed to create surface.
    SurfaceCreationFailed(wgpu::CreateSurfaceError),
    /// Surface configuration failed.
    SurfaceConfigurationFailed,
    /// Shader compilation failed.
    ShaderCompilationFailed(String),
    /// Pipeline creation failed.
    PipelineCreationFailed(String),
    /// Buffer creation failed.
    BufferCreationFailed(String),
    /// Texture creation failed.
    TextureCreationFailed(String),
    /// Surface lost.
    SurfaceLost,
    /// Surface outdated.
    SurfaceOutdated,
    /// Out of memory.
    OutOfMemory,
    /// Timeout waiting for GPU.
    Timeout,
}

/// Trusted: appends `s` to `target` with `String::push_str`, whose
/// documentation says it appends the given string slice onto the end.
#[verifier::external_body]
fn push_str(target: &mut String, s: &str)
    ensures
        final(target)@ == old(target)@ + s@,
{
    target.push_str(s)
}

/// The source that a builder compiles: the vertex source alone when both
/// sources are the same, otherwise vertex and fragment sources separated by a
/// blank line.
pub open spec fn combined_shader_source(vertex: Seq<char>, fragment: Seq<char>) -> Seq<char> {
    if vertex == fragment {
        vertex
    } else {
        vertex + "\n\n"@ + fragment
    }
}

/// Joining shader sources: when the vertex and fragment sources differ, the
/// program is the vertex source, two newlines, and then the fragment source
/// (so it ends with the whole fragment source and is three sources' worth
/// long); only when they are equal is a single copy used.
pub proof fn lemma_combined_source_joins(vertex: Seq<char>, fragment: Seq<char>)
    ensures
        vertex != fragment ==> combined_shader_source(vertex, fragment) == vertex + seq!['\n', '\n']
            + fragment,
        vertex != fragment ==> combined_shader_source(vertex, fragment).len() == vertex.len() + 2
            + fragment.len(),
        vertex != fragment ==> combined_shader_source(vertex, fragment).skip(vertex.len() + 2int)
            == fragment,
        vertex != fragment ==> combined_shader_source(vertex, fragment).take(vertex.len() as int)
            == vertex,
        vertex == fragment ==> combined_shader_source(vertex, fragment) == vertex,
{
    reveal_strlit("\n\n");
    if vertex != fragment {
        let c = combined_shader_source(vertex, fragment);
        assert(c =~= vertex + seq!['\n', '\n'] + fragment);
        assert(c.skip(vertex.len() + 2int) =~= fragment);
        assert(c.take(vertex.len() as int) =~= vertex);
    }
}

/// Builder for creating shader programs.
pub struct ShaderBuilder {
    vertex_source: Option<String>,
    fragment_source: Option<String>,
    vertex_entry: String,
    fragment_entry: String,
    label: Option<String>,
}

/// The view of an optional string.
pub open spec fn opt_view(s: Option<String>) -> Option<Seq<char>> {
    match s {
        Some(x) => Some(x@),
        None => None,
    }
}

impl ShaderBuilder {
    /// The vertex shader source, if set.
    pub closed spec fn vertex_source_view(&self) -> Option<Seq<char>> {
        opt_view(self.vertex_source)
    }

    /// The fragment shader source, if set.
    pub closed spec fn fragment_source_view(&self) -> Option<Seq<char>> {
        opt_view(self.fragment_source)
    }

    /// The vertex entry point.
    pub closed spec fn vertex_entry_view(&self) -> Seq<char> {
        self.vertex_entry@
    }

    /// The fragment entry point.
    pub closed spec fn fragment_entry_view(&self) -> Seq<char> {
        self.fragment_entry@
    }

    /// The debug label, if set.
    pub closed spec fn label_view(&self) -> Option<Seq<char>> {
        opt_view(self.label)
    }

    /// Creates a new shader builder: no sources, entry points `vs_main` and
    /// `fs_main`, no label.
    pub fn new() -> (r: Self)
        ensures
            r.vertex_source_view() is None,
            r.fragment_source_view() is None,
            r.vertex_entry_view() == "vs_main"@,
            r.fragment_entry_view() == "fs_main"@,
            r.label_view() is None,
    {
        ShaderBuilder {
            vertex_source: None,
            fragment_source: None,
            vertex_entry: "vs_main".to_owned(),
            fragment_entry: "fs_main".to_owned(),
            label: None,
        }
    }

    /// Sets the vertex shader source (WGSL).
    pub fn with_vertex(self, source: &str) -> (r: Self)
        ensures
            r.vertex_source_view() == Some(source@),
            r.fragment_source_view() == self.fragment_source_view(),
            r.vertex_entry_view() == self.vertex_entry_view(),
            r.fragment_entry_view() == self.fragment_entry_view(),
            r.label_view() == self.label_view(),
    {
        let mut b = self;
        b.vertex_source = Some(source.to_owned());
        b
    }

    /// Sets the fragment shader source (WGSL).
    pub fn with_fragment(self, source: &str) -> (r: Self)
        ensures
            r.vertex_source_view() == self.vertex_source_view(),
            r.fragment_source_view() == Some(source@),
            r.vertex_entry_view() == self.vertex_entry_view(),
            r.fragment_entry_view() == self.fragment_entry_view(),
            r.label_view() == self.label_view(),
    {
        let mut b = self;
        b.fragment_source = Some(source.to_owned());
        b
    }

    /// Sets the vertex shader entry point.
    pub fn with_vertex_entry(self, entry: &str) -> (r: Self)
        ensures
            r.vertex_source_view() == self.vertex_source_view(),
            r.fragment_source_view() == self.fragment_source_view(),
            r.vertex_entry_view() == entry@,
            r.fragment_entry_view() == self.fragment_entry_view(),
            r.label_view() == self.label_view(),
    {
        let mut b = self;
        b.vertex_entry = entry.to_owned();
        b
    }

    /// Sets the fragment shader entry point.
    pub fn with_fragment_entry(self, entry: &str) -> (r: Self)
        ensures
            r.vertex_source_view() == self.vertex_source_view(),
            r.fragment_source_view() == self.fragment_source_view(),
            r.vertex_entry_view() == self.vertex_entry_view(),
            r.fragment_entry_view() == entry@,
            r.label_view() == self.label_view(),
    {
        let mut b = self;
        b.fragment_entry = entry.to_owned();
        b
    }

    /// Sets the shader label for debugging.
    pub fn with_label(self, label: &str) -> (r: Self)
        ensures
            r.vertex_source_view() == self.vertex_source_view(),
            r.fragment_source_view() == self.fragment_source_view(),
            r.vertex_entry_view() == self.vertex_entry_view(),
            r.fragment_entry_view() == self.fragment_entry_view(),
            r.label_view() == Some(label@),
    {
        let mut b = self;
        b.label = Some(label.to_owned());
        b
    }

    /// The vertex shader entry point.
    pub fn vertex_entry(&self) -> (r: &str)
        ensures
            r@ == self.vertex_entry_view(),
    {
        self.vertex_entry.as_str()
    }

    /// The fragment shader entry point.
    pub fn fragment_entry(&self) -> (r: &str)
        ensures
            r@ == self.fragment_entry_view(),
    {
        self.fragment_entry.as_str()
    }

    /// The debug label, if set.
    pub fn label(&self) -> (r: Option<&str>)
        ensures
            match r {
                Some(l) => self.label_view() == Some(l@),
                None => self.label_view() is None,
            },
    {
        match &self.label {
            Some(l) => Some(l.as_str()),
            None => None,
        }
    }

    /// The WGSL source to compile: the vertex source alone when both sources
    /// are the same, otherwise the two joined by a blank line.
    ///
    /// Errors with `ShaderCompilationFailed("missing vertex shader")` when no
    /// vertex source is set, else with `ShaderCompilationFailed("missing
    /// fragment shader")` when no fragment source is set.
    pub fn combined_source(&self) -> (r: Result<String, RenderError>)
        ensures
            match r {
                Ok(s) => {
                    &&& self.vertex_source_view() is Some
                    &&& self.fragment_source_view() is Some
                    &&& s@ == combined_shader_source(
                        self.vertex_source_view()->0,
                        self.fragment_source_view()->0,
                    )
                    &&& self.vertex_source_view() != self.fragment_source_view() ==> s@
                        == self.vertex_source_view()->0 + seq!['\n', '\n'] + self.fragment_source_view()->0
                    &&& self.vertex_source_view() == self.fragment_source_view() ==> s@
                        == self.vertex_source_view()->0
                },
                Err(RenderError::ShaderCompilationFailed(msg)) => {
                    ||| self.vertex_source_view() is None && msg@ == "missing vertex shader"@
                    ||| self.vertex_source_view() is Some && self.fragment_source_view() is None
                        && msg@ == "missing fragment shader"@
                },
                Err(_) => false,
            },
    {
        let vertex = match &self.vertex_source {
            Some(v) => v,
            None => {
                return Err(RenderError::ShaderCompilationFailed("missing vertex shader".to_owned()));
            },
        };
        let fragment = match &self.fragment_source {
            Some(f) => f,
            None => {
                return Err(
                    RenderError::ShaderCompilationFailed("missing fragment shader".to_owned()),
                );
            },
        };
        if str_equal(vertex.as_str(), fragment.as_str()) {
            return Ok(vertex.clone());
        }
        proof {
            lemma_combined_source_joins(vertex@, fragment@);
        }
        let mut out = vertex.clone();
        push_str(&mut out, "\n\n");
        push_str(&mut out, fragment.as_str());
        Ok(out)
    }
}

impl Default for ShaderBuilder {
    fn default() -> (r: Self)
        ensures
            r.vertex_source_view() is None,
            r.fragment_source_view() is None,
            r.vertex_entry_view() == "vs_main"@,
            r.fragment_entry_view() == "fs_main"@,
            r.label_view() is None,
    {
        Self::new()
    }
}

} // verus!
