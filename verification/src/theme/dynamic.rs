//! The colors of cover art, and the color formatting shared by the palette
//! extraction and the CSS generator.

use vstd::prelude::*;

verus! {

/// The lowercase hex digit of a value below 16.
pub open spec fn hex_char(v: int) -> char {
    seq!['0', '1', '2', '3', '4', '5', '6', '7', '8', '9', 'a', 'b', 'c', 'd', 'e', 'f'][v]
}

/// A byte as two lowercase hex digits.
pub open spec fn hex2(v: int) -> Seq<char> {
    seq![hex_char(v / 16), hex_char(v % 16)]
}

/// An RGB triplet as a lowercase `#rrggbb` string.
pub open spec fn rgb_hex(r: int, g: int, b: int) -> Seq<char> {
    seq!['#'] + hex2(r) + hex2(g) + hex2(b)
}

/// The lowercase hex digit of `v`.
pub fn hex_char_of(v: u8) -> (c: char)
    requires
        v < 16,
    ensures
        c == hex_char(v as int),
{
    let digits = [
        '0', '1', '2', '3', '4', '5', '6', '7', '8', '9', 'a', 'b', 'c', 'd', 'e', 'f',
    ];
    assert(digits@ =~= seq![
        '0', '1', '2', '3', '4', '5', '6', '7', '8', '9', 'a', 'b', 'c', 'd', 'e', 'f',
    ]);
    digits[v as usize]
}

/// Formats an RGB triplet as a lowercase `#rrggbb` hex string.
pub fn rgb_to_hex(rgb: [u8; 3]) -> (s: String)
    ensures
        s@ == rgb_hex(rgb[0] as int, rgb[1] as int, rgb[2] as int),
{
    let r = rgb[0];
    let g = rgb[1];
    let b = rgb[2];
    let mut s = String::new();
    s.push('#');
    s.push(hex_char_of(r / 16));
    s.push(hex_char_of(r % 16));
    s.push(hex_char_of(g / 16));
    s.push(hex_char_of(g % 16));
    s.push(hex_char_of(b / 16));
    s.push(hex_char_of(b % 16));
    assert(s@ =~= rgb_hex(r as int, g as int, b as int));
    s
}

/// The pixels of an image as the `image` crate gives them: the bytes
/// decoded (format guessed from their content), scaled with
/// `DynamicImage::thumbnail(width, height)` and laid out as RGB triples;
/// `None` when the bytes do not decode.
pub uninterp spec fn cover_pixels(bytes: Seq<u8>, width: u32, height: u32) -> Option<Seq<u8>>;

/// Decodes an image with `image::ImageReader` (format guessed from the
/// bytes) and gives the raw RGB bytes of its `thumbnail(width, height)`,
/// which fits the image within that box. The bound on the box keeps the
/// thumbnail's buffer within reach of memory. The result is a function of
/// the arguments alone; which pixels come out is not stated beyond that name.
#[verifier::external_body]
fn thumbnail_pixels(image_bytes: &[u8], width: u32, height: u32) -> (r: Option<Vec<u8>>)
    requires
        width * height <= 0x100_0000,
    ensures
        match r {
            Some(v) => cover_pixels(image_bytes@, width, height) == Some(v@),
            None => cover_pixels(image_bytes@, width, height) is None,
        },
{
    let reader = image::ImageReader::new(std::io::Cursor::new(image_bytes));
    let image = reader.with_guessed_format().ok()?.decode().ok()?;
    Some(image.thumbnail(width, height).to_rgb8().into_raw())
}

/// The colors `color_thief::get_palette` finds in RGB pixels at the given
/// quality and largest number of colors, each as its `(r, g, b)` channels;
/// `None` when quantizing fails.
pub uninterp spec fn pixel_palette(pixels: Seq<u8>, quality: u8, max_colors: u8) -> Option<Seq<(u8, u8, u8)>>;

/// Quantizes RGB pixels with `color_thief::get_palette(_, Rgb, quality,
/// max_colors)`, which asserts a quality from 1 to 10 and at least two
/// colors; the result is a function of the arguments alone.
#[verifier::external_body]
fn quantize_pixels(pixels: &[u8], quality: u8, max_colors: u8) -> (r: Option<Vec<(u8, u8, u8)>>)
    requires
        1 <= quality <= 10,
        max_colors >= 2,
    ensures
        match r {
            Some(v) => pixel_palette(pixels@, quality, max_colors) == Some(v@),
            None => pixel_palette(pixels@, quality, max_colors) is None,
        },
{
    let colors = color_thief::get_palette(pixels, color_thief::ColorFormat::Rgb, quality, max_colors).ok()?;
    Some(colors.iter().map(|c| (c.r, c.g, c.b)).collect())
}

/// The box cover art is scaled into before its colors are counted.
pub const COVER_THUMBNAIL: u32 = 32;

/// The quantizing step over the cover's pixels.
pub const COVER_QUALITY: u8 = 10;

/// The largest number of colors taken from a cover.
pub const COVER_COLORS: u8 = 5;

/// Why cover art gives no palette.
#[derive(Debug, Clone, Copy, PartialEq, Eq, Structural)]
pub enum CoverError {
    /// The bytes are not an image the decoder reads.
    Undecodable,
    /// Quantizing the image's colors failed.
    Unquantizable,
}

/// The dominant colors of cover-art bytes (PNG/JPEG/WebP), from which the
/// dynamic palette is derived: at most [`COVER_COLORS`] colors, quantized
/// at [`COVER_QUALITY`] from the image scaled into a [`COVER_THUMBNAIL`]
/// pixel square;
/// an error when the image cannot be decoded or quantized, in which case
/// callers fall back to the Catppuccin palette.
pub fn cover_colors_of(image_bytes: &[u8]) -> (r: Result<Vec<(u8, u8, u8)>, CoverError>)
    ensures
        match cover_pixels(image_bytes@, COVER_THUMBNAIL, COVER_THUMBNAIL) {
            None => r == Err::<Vec<(u8, u8, u8)>, CoverError>(CoverError::Undecodable),
            Some(px) => match pixel_palette(px, COVER_QUALITY, COVER_COLORS) {
                Some(c) => r matches Ok(v) && v@ == c,
                None => r == Err::<Vec<(u8, u8, u8)>, CoverError>(CoverError::Unquantizable),
            },
        },
{
    let pixels = match thumbnail_pixels(image_bytes, COVER_THUMBNAIL, COVER_THUMBNAIL) {
        Some(p) => p,
        None => return Err(CoverError::Undecodable),
    };
    match quantize_pixels(pixels.as_slice(), COVER_QUALITY, COVER_COLORS) {
        Some(v) => Ok(v),
        None => Err(CoverError::Unquantizable),
    }
}

} // verus!
