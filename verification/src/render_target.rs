//! Render target sizing: the viewport and its supersampling factor, the
//! row alignment of texture-to-buffer copies, and the checks made before
//! reading back pick and screenshot buffers.

use vstd::prelude::*;

verus! {

/// The row pitch alignment that wgpu requires for texture-to-buffer copies.
///
/// Trusted: returns `wgpu::COPY_BYTES_PER_ROW_ALIGNMENT`, which wgpu-types
/// defines as the constant 256.
#[verifier::external_body]
fn copy_bytes_per_row_alignment() -> (r: u32)
    ensures
        r == 256,
{
    wgpu::COPY_BYTES_PER_ROW_ALIGNMENT
}

/// `x` rounded up to a multiple of `m`.
pub open spec fn round_up(x: int, m: int) -> int {
    if x % m == 0 {
        x
    } else {
        x - x % m + m
    }
}

/// Calculates bytes per row (4 bytes per RGBA8 pixel) with the alignment
/// that wgpu requires for buffer copies.
pub fn aligned_bytes_per_row(width: u32) -> (r: u32)
    requires
        round_up(width * 4, 256) <= u32::MAX,
    ensures
        r == round_up(width * 4, 256),
        r % 256 == 0,
        width * 4 <= r < width * 4 + 256,
{
    let bytes_per_pixel: u32 = 4;
    let unaligned = width * bytes_per_pixel;
    let align = copy_bytes_per_row_alignment();
    let mut blocks = unaligned / align;
    if unaligned % align != 0 {
        blocks = blocks + 1;
    }
    assert(blocks * 256 == round_up(width * 4, 256)) by (nonlinear_arith)
        requires
            unaligned == width * 4,
            unaligned % 256 != 0 ==> blocks == unaligned / 256 + 1,
            unaligned % 256 == 0 ==> blocks == unaligned / 256,
    ;
    blocks * align
}

/// The pixel rows of a padded readback buffer, concatenated without the
/// padding: the first `row_bytes` bytes of each of the first `rows` rows,
/// where row `i` starts at byte `i * pitch`.
pub open spec fn unpadded_rows(data: Seq<u8>, row_bytes: int, pitch: int, rows: int) -> Seq<u8>
    decreases rows,
{
    if rows <= 0 {
        Seq::empty()
    } else {
        unpadded_rows(data, row_bytes, pitch, rows - 1) + data.subrange(
            (rows - 1) * pitch,
            (rows - 1) * pitch + row_bytes,
        )
    }
}

/// Row by row, top to bottom: the unpadded data has `rows * row_bytes`
/// bytes, and its byte `j` of row `i` is byte `j` of the input row that
/// starts at `i * pitch`, for every pitch.
pub proof fn lemma_unpadded_rows_index(data: Seq<u8>, row_bytes: int, pitch: int, rows: int, i: int, j: int)
    requires
        0 <= row_bytes <= pitch,
        0 <= i < rows,
        0 <= j < row_bytes,
        (rows - 1) * pitch + row_bytes <= data.len(),
    ensures
        unpadded_rows(data, row_bytes, pitch, rows).len() == rows * row_bytes,
        unpadded_rows(data, row_bytes, pitch, rows)[i * row_bytes + j] == data[i * pitch + j],
    decreases rows,
{
    assert((rows - 2) * pitch + row_bytes <= (rows - 1) * pitch + row_bytes) by (nonlinear_arith)
        requires
            pitch >= 0,
    ;
    lemma_unpadded_rows_len(data, row_bytes, pitch, rows);
    lemma_unpadded_rows_len(data, row_bytes, pitch, rows - 1);
    assert((rows - 1) * row_bytes + row_bytes == rows * row_bytes) by (nonlinear_arith);
    assert(0 <= (rows - 1) * pitch) by (nonlinear_arith)
        requires
            rows >= 1,
            pitch >= 0,
    ;
    if i < rows - 1 {
        lemma_unpadded_rows_index(data, row_bytes, pitch, rows - 1, i, j);
        assert(i * row_bytes + j < (rows - 1) * row_bytes) by (nonlinear_arith)
            requires
                0 <= i < rows - 1,
                0 <= j < row_bytes,
        ;
    } else {
        assert(i * row_bytes + j - (rows - 1) * row_bytes == j);
        assert(i * pitch == (rows - 1) * pitch);
    }
}

/// The unpadded data holds `row_bytes` bytes per row.
proof fn lemma_unpadded_rows_len(data: Seq<u8>, row_bytes: int, pitch: int, rows: int)
    requires
        0 <= row_bytes <= pitch,
        (rows - 1) * pitch + row_bytes <= data.len(),
    ensures
        rows >= 0 ==> unpadded_rows(data, row_bytes, pitch, rows).len() == rows * row_bytes,
    decreases rows,
{
    if rows > 0 {
        assert(0 <= (rows - 1) * pitch) by (nonlinear_arith)
            requires
                rows >= 1,
                pitch >= 0,
        ;
        assert((rows - 2) * pitch + row_bytes <= (rows - 1) * pitch + row_bytes) by (nonlinear_arith)
            requires
                pitch >= 0,
        ;
        lemma_unpadded_rows_len(data, row_bytes, pitch, rows - 1);
        let start = (rows - 1) * pitch;
        assert(data.subrange(start, start + row_bytes).len() == row_bytes);
        assert((rows - 1) * row_bytes + row_bytes == rows * row_bytes) by (nonlinear_arith);
    } else if rows == 0 {
        assert(rows * row_bytes == 0);
    }
}

/// Copies the pixel data of a padded screenshot readback, removing row padding.
///
/// `data` holds `height` rows of `bytes_per_row` bytes each (the last one may
/// be cut short after its pixels); each row starts with `width * 4` bytes of
/// pixels.
pub fn strip_row_padding(data: &[u8], width: u32, height: u32, bytes_per_row: u32) -> (r: Vec<u8>)
    requires
        width * height * 4 <= u32::MAX,
        width * 4 <= bytes_per_row,
        height > 0 ==> (height - 1) * bytes_per_row + width * 4 <= data@.len(),
        height > 0 ==> (height - 1) * bytes_per_row <= u32::MAX,
    ensures
        r@ == unpadded_rows(data@, width * 4, bytes_per_row as int, height as int),
        r@.len() == width * height * 4,
        forall|k: int|
            0 <= k < r@.len() ==> #[trigger] r@[k] == data@[(k / (width * 4)) * bytes_per_row + k
                % (width * 4)],
{
    let mut result: Vec<u8> = Vec::new();
    let row_bytes: usize = (width * 4) as usize;
    let mut row: u32 = 0;
    while row < height
        invariant
            width * height * 4 <= u32::MAX,
            width * 4 <= bytes_per_row,
            height > 0 ==> (height - 1) * bytes_per_row + width * 4 <= data@.len(),
            height > 0 ==> (height - 1) * bytes_per_row <= u32::MAX,
            row_bytes == width * 4,
            row <= height,
            result@ == unpadded_rows(data@, width * 4, bytes_per_row as int, row as int),
            result@.len() == row * (width * 4),
        decreases height - row,
    {
        assert(row * bytes_per_row <= (height - 1) * bytes_per_row) by (nonlinear_arith)
            requires
                row < height,
        ;
        let start: usize = (row * bytes_per_row) as usize;
        let data_len: usize = data.len();
        assert(start + row_bytes <= data_len);
        let end: usize = start + row_bytes;
        let ghost before = result@;
        let mut k: usize = start;
        while k < end
            invariant
                start <= k <= end,
                end <= data@.len(),
                result@ == before + data@.subrange(start as int, k as int),
            decreases end - k,
        {
            result.push(data[k]);
            assert(data@.subrange(start as int, k + 1) =~= data@.subrange(start as int, k as int).push(data@[k as int]));
            k = k + 1;
        }
        assert((row + 1) * (width * 4) == row * (width * 4) + width * 4) by (nonlinear_arith);
        assert((row + 1) * (width * 4) <= width * height * 4) by (nonlinear_arith)
            requires
                row < height,
        ;
        row = row + 1;
    }
    assert(height * (width * 4) == width * height * 4) by (nonlinear_arith);
    assert forall|k: int| 0 <= k < result@.len() implies #[trigger] result@[k] == data@[(k / (width
        * 4)) * bytes_per_row + k % (width * 4)] by {
        let w: int = width * 4;
        assert(w > 0) by (nonlinear_arith)
            requires
                w == width * 4,
                0 <= k < width * height * 4,
        ;
        let i = k / w;
        let j = k % w;
        assert(k == i * w + j && 0 <= j < w) by (nonlinear_arith)
            requires
                w > 0,
                i == k / w,
                j == k % w,
        ;
        assert(0 <= i < height) by (nonlinear_arith)
            requires
                w > 0,
                0 <= k < height * w,
                height * w == width * height * 4,
                k == i * w + j,
                0 <= j < w,
        ;
        lemma_unpadded_rows_index(data@, w, bytes_per_row as int, height as int, i, j);
    }
    result
}

/// The largest supersampling factor.
pub const MAX_SSAA_FACTOR: u32 = 4;

/// The supersampling factor that a request for `factor` gives: clamped to 1..=4.
pub open spec fn clamped_ssaa(factor: u32) -> u32 {
    if factor < 1 {
        1
    } else if factor > 4 {
        4
    } else {
        factor
    }
}

/// The viewport size and supersampling (SSAA) factor of the renderer; the
/// scene is rendered at the viewport size times the factor.
pub struct ViewportState {
    width: u32,
    height: u32,
    ssaa_factor: u32,
}

impl ViewportState {
    /// The viewport width in pixels.
    pub closed spec fn spec_width(&self) -> u32 {
        self.width
    }

    /// The viewport height in pixels.
    pub closed spec fn spec_height(&self) -> u32 {
        self.height
    }

    /// The supersampling factor.
    pub closed spec fn spec_ssaa(&self) -> u32 {
        self.ssaa_factor
    }

    /// The factor lies in 1..=4 and the supersampled size fits in `u32`.
    pub open spec fn wf(&self) -> bool {
        &&& 1 <= self.spec_ssaa() <= 4
        &&& self.spec_width() * self.spec_ssaa() <= u32::MAX
        &&& self.spec_height() * self.spec_ssaa() <= u32::MAX
    }

    /// A viewport of the given size, without supersampling.
    pub fn new(width: u32, height: u32) -> (r: Self)
        ensures
            r.wf(),
            r.spec_width() == width,
            r.spec_height() == height,
            r.spec_ssaa() == 1,
    {
        ViewportState { width, height, ssaa_factor: 1 }
    }

    /// Returns the current viewport dimensions.
    pub fn dimensions(&self) -> (r: (u32, u32))
        ensures
            r == (self.spec_width(), self.spec_height()),
    {
        (self.width, self.height)
    }

    /// Returns the render dimensions (viewport size times the SSAA factor).
    pub fn render_dimensions(&self) -> (r: (u32, u32))
        requires
            self.wf(),
        ensures
            r.0 == self.spec_width() * self.spec_ssaa(),
            r.1 == self.spec_height() * self.spec_ssaa(),
    {
        (self.width * self.ssaa_factor, self.height * self.ssaa_factor)
    }

    /// Returns the render width at SSAA resolution.
    pub fn ssaa_width(&self) -> (r: u32)
        requires
            self.wf(),
        ensures
            r == self.spec_width() * self.spec_ssaa(),
    {
        self.width * self.ssaa_factor
    }

    /// Returns the render height at SSAA resolution.
    pub fn ssaa_height(&self) -> (r: u32)
        requires
            self.wf(),
        ensures
            r == self.spec_height() * self.spec_ssaa(),
    {
        self.height * self.ssaa_factor
    }

    /// Returns the current SSAA factor (1 = off, 2 = 2x, 4 = 4x).
    pub fn ssaa_factor(&self) -> (r: u32)
        ensures
            r == self.spec_ssaa(),
    {
        self.ssaa_factor
    }

    /// Whether an intermediate screen-resolution texture is needed for
    /// downsampling (supersampling is on).
    pub fn needs_ssaa_intermediate(&self) -> (r: bool)
        ensures
            r == (self.spec_ssaa() > 1),
    {
        self.ssaa_factor > 1
    }

    /// Sets the SSAA factor, clamped to 1..=4. Returns whether the factor
    /// changed, in which case every resolution-dependent render target must
    /// be recreated.
    pub fn set_ssaa_factor(&mut self, factor: u32) -> (changed: bool)
        requires
            old(self).wf(),
            old(self).spec_width() * clamped_ssaa(factor) <= u32::MAX,
            old(self).spec_height() * clamped_ssaa(factor) <= u32::MAX,
        ensures
            final(self).wf(),
            final(self).spec_ssaa() == clamped_ssaa(factor),
            final(self).spec_width() == old(self).spec_width(),
            final(self).spec_height() == old(self).spec_height(),
            changed == (clamped_ssaa(factor) != old(self).spec_ssaa()),
    {
        let f = if factor < 1 {
            1
        } else if factor > MAX_SSAA_FACTOR {
            MAX_SSAA_FACTOR
        } else {
            factor
        };
        if f == self.ssaa_factor {
            return false;
        }
        self.ssaa_factor = f;
        true
    }

    /// Resizes the viewport. A size with a zero dimension is ignored; the
    /// result says whether the size was taken (and render targets must be
    /// recreated at the new size).
    pub fn resize(&mut self, width: u32, height: u32) -> (applied: bool)
        requires
            old(self).wf(),
            width > 0 && height > 0 ==> width * old(self).spec_ssaa() <= u32::MAX
                && height * old(self).spec_ssaa() <= u32::MAX,
        ensures
            final(self).wf(),
            applied == (width > 0 && height > 0),
            final(self).spec_ssaa() == old(self).spec_ssaa(),
            applied ==> final(self).spec_width() == width && final(self).spec_height() == height,
            !applied ==> final(self).spec_width() == old(self).spec_width()
                && final(self).spec_height() == old(self).spec_height(),
    {
        if width == 0 || height == 0 {
            return false;
        }
        self.width = width;
        self.height = height;
        true
    }
}

/// Whether the pick buffers must be (re)created for a viewport of the given
/// size: they are kept only when they exist and already have that size.
pub fn pick_buffers_need_rebuild(
    current_size: (u32, u32),
    has_texture: bool,
    width: u32,
    height: u32,
) -> (r: bool)
    ensures
        r == !(current_size == (width, height) && has_texture),
{
    !(current_size.0 == width && current_size.1 == height && has_texture)
}

/// Whether a pick request at pixel (x, y) lies inside a pick buffer of the given size.
pub fn pick_in_bounds(buffer_size: (u32, u32), x: u32, y: u32) -> (r: bool)
    ensures
        r == (x < buffer_size.0 && y < buffer_size.1),
{
    !(x >= buffer_size.0 || y >= buffer_size.1)
}

/// The global index encoded by a pixel read back from the pick buffer (its
/// R, G and B bytes; alpha is ignored).
pub fn decode_pick_pixel(pixel: [u8; 4]) -> (r: u32)
    ensures
        r == crate::pick::index_of_color(pixel[0], pixel[1], pixel[2]),
{
    crate::pick::color_to_index(pixel[0], pixel[1], pixel[2])
}

/// The slot (0 or 1) of the blur texture that blur pass `i` reads.
pub open spec fn blur_source(i: int) -> int {
    i % 2
}

/// The slot of the blur texture that blur pass `i` writes.
pub open spec fn blur_destination(i: int) -> int {
    (i + 1) % 2
}

/// The slot holding the planar shadow after `n` blur passes.
pub open spec fn blur_result(n: int) -> int {
    n % 2
}

/// After `iterations` blur passes that ping-pong between two textures, the
/// slot (0 or 1) that holds the result.
pub fn blur_result_slot(iterations: u32) -> (r: usize)
    ensures
        r == blur_result(iterations as int),
        r < 2,
{
    (iterations % 2) as usize
}

/// The texture slots (source, destination) of blur pass `i` of the planar
/// shadow: passes ping-pong between the two blur textures, starting from
/// slot 0 where the shadow mask is drawn.
pub fn blur_pass_slots(i: u32) -> (r: (usize, usize))
    ensures
        r.0 == blur_source(i as int),
        r.1 == blur_destination(i as int),
{
    let src: usize = (i % 2) as usize;
    let dst: usize = if src == 0 {
        1
    } else {
        0
    };
    (src, dst)
}

/// Whether blur pass `i` blurs horizontally (even passes) rather than
/// vertically (odd passes).
pub fn blur_pass_is_horizontal(i: u32) -> (r: bool)
    ensures
        r == (i % 2 == 0),
{
    i % 2 == 0
}

/// The blur schedule is consistent: the first pass reads the mask in slot 0,
/// each pass reads what the previous pass wrote, passes never read and write
/// the same slot, and the result after `n` passes is where the last pass
/// wrote it (slot 0, the mask, when there are none).
pub proof fn lemma_blur_schedule(i: int, n: int)
    requires
        i >= 0,
        n >= 0,
    ensures
        blur_source(0) == 0,
        blur_source(i + 1) == blur_destination(i),
        blur_source(i) != blur_destination(i),
        n > 0 ==> blur_result(n) == blur_destination(n - 1),
        n == 0 ==> blur_result(n) == 0,
{
}

/// The size of the planar shadow textures: half the viewport size.
pub fn planar_shadow_size(width: u32, height: u32) -> (r: (u32, u32))
    ensures
        r == ((width / 2) as u32, (height / 2) as u32),
{
    (width / 2, height / 2)
}

/// Whether the planar shadow textures, now `current` in size, must be
/// recreated for a viewport of the given size.
pub fn planar_shadow_needs_resize(current: (u32, u32), width: u32, height: u32) -> (r: bool)
    ensures
        r == (current != ((width / 2) as u32, (height / 2) as u32)),
{
    let (w, h) = planar_shadow_size(width, height);
    !(w == current.0 && h == current.1)
}

/// Whether the order-independent-transparency textures must be (re)created:
/// they are kept only when they exist and have the render size.
pub fn oit_textures_need_rebuild(existing: Option<(u32, u32)>, width: u32, height: u32) -> (r:
    bool)
    ensures
        r == (existing != Some((width, height))),
{
    match existing {
        None => true,
        Some((w, h)) => !(w == width && h == height),
    }
}

/// The initial surface size for a window: each dimension at least 1.
pub fn surface_extent(width: u32, height: u32) -> (r: (u32, u32))
    ensures
        r.0 == (if width == 0 {
            1
        } else {
            width
        }),
        r.1 == (if height == 0 {
            1
        } else {
            height
        }),
{
    let w = if width == 0 {
        1
    } else {
        width
    };
    let h = if height == 0 {
        1
    } else {
        height
    };
    (w, h)
}

/// Picks the surface format among the formats a surface supports, given
/// whether each is an sRGB format: the first sRGB format, else the first one.
pub fn preferred_surface_format(srgb: &[bool]) -> (r: usize)
    requires
        srgb@.len() > 0,
    ensures
        r < srgb@.len(),
        forall|j: int| 0 <= j < r ==> !srgb@[j],
        srgb@[r as int] || (r == 0 && forall|j: int| 0 <= j < srgb@.len() ==> !srgb@[j]),
{
    let mut i: usize = 0;
    while i < srgb.len()
        invariant
            i <= srgb@.len(),
            forall|j: int| 0 <= j < i ==> !srgb@[j],
        decreases srgb@.len() - i,
    {
        if srgb[i] {
            return i;
        }
        i = i + 1;
    }
    0
}

/// The contents of a fixed array of `slots` uniform slots: the first
/// `slots` items in order, and `empty` in the slots left over (as for the
/// slice-plane uniforms, where an empty slot is a disabled plane).
pub fn fill_slots<T: Copy>(items: &[T], empty: T, slots: usize) -> (r: Vec<T>)
    ensures
        r@.len() == slots,
        forall|i: int| 0 <= i < slots ==> r@[i] == if i < items@.len() { items@[i] } else { empty },
{
    let mut out: Vec<T> = Vec::new();
    let mut i: usize = 0;
    while i < slots
        invariant
            i <= slots,
            out@.len() == i,
            forall|j: int| 0 <= j < i ==> out@[j] == if j < items@.len() { items@[j] } else { empty },
        decreases slots - i,
    {
        if i < items.len() {
            out.push(items[i]);
        } else {
            out.push(empty);
        }
        i = i + 1;
    }
    out
}

} // verus!
