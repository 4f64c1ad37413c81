//! Screenshot pixel handling: channel order conversion, image format
//! selection from a file name, and in-memory PNG encoding.

use vstd::prelude::*;

use crate::text::str_equal;

verus! {

#[verifier::external_type_specification]
#[verifier::external_body]
pub struct ExIoError(std::io::Error);

#[verifier::external_type_specification]
#[verifier::external_body]
pub struct ExImageError(image::ImageError);

/// Options for taking screenshots.
#[derive(Debug, Clone, Copy, PartialEq, Eq, Structural)]
pub struct ScreenshotOptions {
    /// Whether to use transparent background (PNG only).
    pub transparent_background: bool,
}

impl Default for ScreenshotOptions {
    fn default() -> (r: Self)
        ensures
            !r.transparent_background,
    {
        ScreenshotOptions { transparent_background: false }
    }
}

/// Error type for screenshot operations.
#[derive(Debug)]
pub enum ScreenshotError {
    /// Failed to save image.
    IoError(std::io::Error),
    /// Image encoding error.
    ImageError(image::ImageError),
    /// Unsupported image format (the lower-cased file extension).
    UnsupportedFormat(String),
    /// Invalid image data.
    InvalidImageData,
    /// GPU buffer mapping failed.
    BufferMapFailed,
}

/// The image file formats that screenshots can be written in.
#[derive(Debug, Clone, Copy, PartialEq, Eq, Structural)]
pub enum ImageFileFormat {
    /// PNG, with alpha.
    Png,
    /// JPEG, without alpha.
    Jpeg,
}

/// Where byte `i` of a converted buffer comes from: within each complete
/// 4-byte pixel, bytes 0 and 2 (blue and red) trade places.
pub open spec fn swapped_channel(i: int) -> int {
    if i % 4 == 0 {
        i + 2
    } else if i % 4 == 2 {
        i - 2
    } else {
        i
    }
}

/// BGRA pixel data with blue and red swapped in every complete 4-byte pixel
/// (giving RGBA); trailing bytes of an incomplete pixel are kept as they are.
pub open spec fn bgra_swapped(data: Seq<u8>) -> Seq<u8> {
    Seq::new(
        data.len(),
        |i: int|
            if i < data.len() - data.len() % 4 {
                data[swapped_channel(i)]
            } else {
                data[i]
            },
    )
}

/// Converts BGRA pixel data (as read back from a `Bgra8UnormSrgb` surface)
/// to RGBA by swapping B and R in every 4-byte pixel.
pub fn bgra_to_rgba(data: &[u8]) -> (r: Vec<u8>)
    ensures
        r@ == bgra_swapped(data@),
        r@.len() == data@.len(),
        forall|p: int|
            0 <= p && 4 * p + 3 < data@.len() ==> {
                &&& #[trigger] r@[4 * p] == data@[4 * p + 2]
                &&& r@[4 * p + 1] == data@[4 * p + 1]
                &&& r@[4 * p + 2] == data@[4 * p]
                &&& r@[4 * p + 3] == data@[4 * p + 3]
            },
{
    let len = data.len();
    let full = len - len % 4;
    let mut out: Vec<u8> = Vec::new();
    let mut i: usize = 0;
    while i < len
        invariant
            len == data@.len(),
            full == len - len % 4,
            i <= len,
            out@ == bgra_swapped(data@).take(i as int),
        decreases len - i,
    {
        let src: usize = if i < full {
            if i % 4 == 0 {
                i + 2
            } else if i % 4 == 2 {
                i - 2
            } else {
                i
            }
        } else {
            i
        };
        out.push(data[src]);
        assert(out@ =~= bgra_swapped(data@).take(i + 1));
        i = i + 1;
    }
    assert(out@ =~= bgra_swapped(data@));
    assert forall|p: int| 0 <= p && 4 * p + 3 < data@.len() implies {
        &&& #[trigger] out@[4 * p] == data@[4 * p + 2]
        &&& out@[4 * p + 1] == data@[4 * p + 1]
        &&& out@[4 * p + 2] == data@[4 * p]
        &&& out@[4 * p + 3] == data@[4 * p + 3]
    } by {
        lemma_bgra_swap_per_pixel(data@, p);
    }
    out
}

/// Channel swap, pixel by pixel: in every complete 4-byte pixel the output
/// has the input's byte 2 first and byte 0 third, while bytes 1 and 3 (green
/// and alpha) stay, whatever the bytes hold; the length is kept, and the bytes
/// of a trailing incomplete pixel are copied unchanged.
pub proof fn lemma_bgra_swap_per_pixel(data: Seq<u8>, p: int)
    requires
        0 <= p,
        4 * p + 3 < data.len(),
    ensures
        bgra_swapped(data).len() == data.len(),
        bgra_swapped(data)[4 * p] == data[4 * p + 2],
        bgra_swapped(data)[4 * p + 1] == data[4 * p + 1],
        bgra_swapped(data)[4 * p + 2] == data[4 * p],
        bgra_swapped(data)[4 * p + 3] == data[4 * p + 3],
{
    let n = data.len() as int;
    assert(4 * p + 3 < n - n % 4);
    assert((4 * p) % 4 == 0);
    assert((4 * p + 1) % 4 == 1);
    assert((4 * p + 2) % 4 == 2);
    assert((4 * p + 3) % 4 == 3);
}

/// Bytes past the last complete pixel are copied as they are.
pub proof fn lemma_bgra_swap_keeps_tail(data: Seq<u8>, i: int)
    requires
        data.len() - data.len() % 4 <= i < data.len(),
    ensures
        bgra_swapped(data)[i] == data[i],
{
}

/// Swapping the channels twice gives back the original bytes.
pub proof fn lemma_bgra_swap_involution(data: Seq<u8>)
    ensures
        bgra_swapped(bgra_swapped(data)) == data,
{
    let once = bgra_swapped(data);
    assert forall|i: int| 0 <= i < data.len() implies #[trigger] bgra_swapped(once)[i] == data[i] by {
        if i < data.len() - data.len() % 4 {
            let j = swapped_channel(i);
            assert(0 <= j < data.len() - data.len() % 4);
            assert(swapped_channel(j) == i);
        }
    }
    assert(bgra_swapped(once) =~= data);
}

/// The file format chosen for a (lower-cased) file extension, if any:
/// `png` gives PNG, `jpg` and `jpeg` give JPEG.
pub open spec fn format_of_extension(ext: Seq<char>) -> Option<ImageFileFormat> {
    if ext == "png"@ {
        Some(ImageFileFormat::Png)
    } else if ext == "jpg"@ || ext == "jpeg"@ {
        Some(ImageFileFormat::Jpeg)
    } else {
        None
    }
}

/// The extension "png" selects PNG, "jpg" and "jpeg" select JPEG, and no
/// other extension selects a format.
pub proof fn lemma_extension_formats(ext: Seq<char>)
    ensures
        format_of_extension(seq!['p', 'n', 'g']) == Some(ImageFileFormat::Png),
        format_of_extension(seq!['j', 'p', 'g']) == Some(ImageFileFormat::Jpeg),
        format_of_extension(seq!['j', 'p', 'e', 'g']) == Some(ImageFileFormat::Jpeg),
        format_of_extension(ext) is Some ==> ext == seq!['p', 'n', 'g'] || ext == seq!['j', 'p', 'g'] || ext == seq!['j', 'p', 'e', 'g'],
{
    reveal_strlit("png");
    reveal_strlit("jpg");
    reveal_strlit("jpeg");
    assert(seq!['p', 'n', 'g'] =~= "png"@);
    assert(seq!['j', 'p', 'g'] =~= "jpg"@);
    assert(seq!['j', 'p', 'e', 'g'] =~= "jpeg"@);
}

/// Selects the image format for a lower-cased file extension; any other
/// extension is reported as unsupported.
pub fn format_for_extension(ext: &str) -> (r: Result<ImageFileFormat, ScreenshotError>)
    ensures
        match r {
            Ok(f) => format_of_extension(ext@) == Some(f),
            Err(ScreenshotError::UnsupportedFormat(e)) => format_of_extension(ext@) is None && e@
                == ext@,
            Err(_) => false,
        },
{
    if str_equal(ext, "png") {
        Ok(ImageFileFormat::Png)
    } else if str_equal(ext, "jpg") || str_equal(ext, "jpeg") {
        Ok(ImageFileFormat::Jpeg)
    } else {
        Err(ScreenshotError::UnsupportedFormat(ext.to_owned()))
    }
}

/// The extension of a path as `std::path::Path::extension` determines it:
/// the part of the file name after its last `.` (none when the file name has
/// no `.` other than a leading one).
pub uninterp spec fn path_extension(path: Seq<char>) -> Option<Seq<char>>;

/// Trusted: calls `std::path::Path::extension` on `Path::new(path)` and
/// returns the extension as an owned string; the contract only names the
/// result (`path_extension`), it states nothing of how the extension is found.
#[verifier::external_body]
fn file_extension(path: &str) -> (r: Option<String>)
    ensures
        match r {
            Some(e) => path_extension(path@) == Some(e@),
            None => path_extension(path@) is None,
        },
{
    std::path::Path::new(path).extension().and_then(|e| e.to_str()).map(|e| e.to_owned())
}

/// The lower case of a string as `str::to_lowercase` computes it (Unicode
/// lowercase mapping).
pub uninterp spec fn unicode_lowercase(s: Seq<char>) -> Seq<char>;

/// Trusted: calls `str::to_lowercase`; the contract only names the result
/// (`unicode_lowercase`).
#[verifier::external_body]
fn to_lowercase(s: &str) -> (r: String)
    ensures
        r@ == unicode_lowercase(s@),
{
    s.to_lowercase()
}

/// The lower-cased extension of a file name, empty when it has none.
pub open spec fn lowercase_extension(filename: Seq<char>) -> Seq<char> {
    match path_extension(filename) {
        Some(e) => unicode_lowercase(e),
        None => Seq::empty(),
    }
}

/// Returns the lower-cased extension of a file name, or an empty string.
pub fn extension_of(filename: &str) -> (r: String)
    ensures
        r@ == lowercase_extension(filename@),
{
    match file_extension(filename) {
        Some(e) => to_lowercase(e.as_str()),
        None => String::new(),
    }
}

/// Whether an RGBA buffer of `len` bytes holds a `width` x `height` image
/// (4 bytes per pixel; longer buffers are accepted). The byte count is
/// computed in `usize` as `4 * width`, then times `height`; when either
/// product overflows the image does not fit.
pub open spec fn image_fits(width: u32, height: u32, len: nat) -> bool {
    &&& 4 * width <= usize::MAX
    &&& 4 * width * height <= len
}

/// The byte count of a `width` x `height` RGBA image, if it fits in `usize`
/// (computed as `4 * width`, then times `height`).
fn rgba_byte_count(width: u32, height: u32) -> (r: Option<usize>)
    ensures
        match r {
            Some(n) => n == 4 * width * height && 4 * width <= usize::MAX,
            None => 4 * width > usize::MAX || 4 * width * height > usize::MAX,
        },
{
    let w = width as usize;
    let h = height as usize;
    match 4usize.checked_mul(w) {
        None => None,
        Some(a) => match a.checked_mul(h) {
            None => None,
            Some(b) => {
                assert(b == 4 * width * height) by (nonlinear_arith)
                    requires
                        a == 4 * w,
                        b == a * h,
                        w == width,
                        h == height,
                ;
                Some(b)
            },
        },
    }
}

/// Whether `len` bytes suffice for a `width` x `height` RGBA image.
pub fn rgba_image_fits(width: u32, height: u32, len: usize) -> (r: bool)
    ensures
        r == image_fits(width, height, len as nat),
{
    match rgba_byte_count(width, height) {
        None => false,
        Some(n) => n <= len,
    }
}

/// Checks and converts raw BGRA pixel data for saving to a file: returns
/// the format chosen by the file name's extension and the RGBA pixel data.
///
/// Errors: `InvalidImageData` when the data is too short for the image size,
/// otherwise `UnsupportedFormat` when the extension is not png, jpg or jpeg.
pub fn prepare_image_save(filename: &str, data: &[u8], width: u32, height: u32) -> (r: Result<
    (ImageFileFormat, Vec<u8>),
    ScreenshotError,
>)
    ensures
        match r {
            Ok((f, rgba)) => {
                &&& image_fits(width, height, data@.len())
                &&& format_of_extension(lowercase_extension(filename@)) == Some(f)
                &&& rgba@ == bgra_swapped(data@)
            },
            Err(ScreenshotError::InvalidImageData) => !image_fits(width, height, data@.len()),
            Err(ScreenshotError::UnsupportedFormat(e)) => {
                &&& image_fits(width, height, data@.len())
                &&& format_of_extension(lowercase_extension(filename@)) is None
                &&& e@ == lowercase_extension(filename@)
            },
            Err(_) => false,
        },
{
    let extension = extension_of(filename);
    let rgba = bgra_to_rgba(data);
    if !rgba_image_fits(width, height, rgba.len()) {
        return Err(ScreenshotError::InvalidImageData);
    }
    match format_for_extension(extension.as_str()) {
        Ok(f) => Ok((f, rgba)),
        Err(e) => Err(e),
    }
}

/// The PNG file that the `image` crate writes for a `width` x `height` RGBA8
/// image with the given pixel bytes, or `None` when it reports an error.
pub uninterp spec fn png_encoding(width: u32, height: u32, rgba: Seq<u8>) -> Option<Seq<u8>>;

/// Trusted: calls `image::write_buffer_with_format` with `ExtendedColorType::Rgba8`
/// and `ImageFormat::Png` on an in-memory cursor and returns the bytes written.
/// The contract names the outcome (`png_encoding`) and states nothing of the
/// PNG format itself; `requires` rules out the buffer length on which the PNG
/// encoder's length assertion panics.
#[verifier::external_body]
fn encode_png(width: u32, height: u32, rgba: &[u8]) -> (r: Result<Vec<u8>, image::ImageError>)
    requires
        rgba@.len() == 4 * width * height,
    ensures
        match r {
            Ok(bytes) => png_encoding(width, height, rgba@) == Some(bytes@),
            Err(_) => png_encoding(width, height, rgba@) is None,
        },
{
    let mut buffer = std::io::Cursor::new(Vec::new());
    match image::write_buffer_with_format(
        &mut buffer,
        rgba,
        width,
        height,
        image::ExtendedColorType::Rgba8,
        image::ImageFormat::Png,
    ) {
        Ok(()) => Ok(buffer.into_inner()),
        Err(e) => Err(e),
    }
}

/// The first `n` bytes of a slice, copied.
fn prefix(data: &[u8], n: usize) -> (r: Vec<u8>)
    requires
        n <= data@.len(),
    ensures
        r@ == data@.take(n as int),
{
    let mut out: Vec<u8> = Vec::new();
    let mut i: usize = 0;
    while i < n
        invariant
            n <= data@.len(),
            i <= n,
            out@ == data@.take(i as int),
        decreases n - i,
    {
        out.push(data[i]);
        assert(out@ =~= data@.take(i + 1));
        i = i + 1;
    }
    out
}

/// Saves raw BGRA pixel data to a PNG buffer in memory.
///
/// The data is converted to RGBA; its first `width * height * 4` bytes are
/// the image.
pub fn save_to_buffer(data: &[u8], width: u32, height: u32) -> (r: Result<Vec<u8>, ScreenshotError>)
    ensures
        match r {
            Ok(bytes) => image_fits(width, height, data@.len()) && png_encoding(
                width,
                height,
                bgra_swapped(data@).take(4 * width * height),
            ) == Some(bytes@),
            Err(ScreenshotError::InvalidImageData) => !image_fits(width, height, data@.len()),
            Err(ScreenshotError::ImageError(_)) => image_fits(width, height, data@.len())
                && png_encoding(width, height, bgra_swapped(data@).take(4 * width * height)) is None,
            Err(_) => false,
        },
{
    let rgba = bgra_to_rgba(data);
    let total: usize = rgba.len();
    let n: usize = match rgba_byte_count(width, height) {
        Some(n) => {
            if n > total {
                return Err(ScreenshotError::InvalidImageData);
            }
            n
        },
        None => {
            return Err(ScreenshotError::InvalidImageData);
        },
    };
    let pixels = prefix(rgba.as_slice(), n);
    match encode_png(width, height, pixels.as_slice()) {
        Ok(bytes) => Ok(bytes),
        Err(e) => Err(ScreenshotError::ImageError(e)),
    }
}

} // verus!
