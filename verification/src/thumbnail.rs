//! Rendering a captured window icon as a display thumbnail.
//!
//! The enumerator draws each window's icon into a 32x32 BGRA bitmap (a
//! native call made by the surrounding program); here the raw bytes are
//! brought into canonical RGBA order, PNG-encoded and base64-encoded into
//! the string attached to the target for display.  The thumbnail is
//! informational only and plays no role in change detection.

use vstd::prelude::*;
use crate::pixels::{bgra_to_rgba, swapped_rb};

verus! {

/// Side length of an icon thumbnail, in pixels.
pub const ICON_SIDE: u32 = 32;

/// The PNG encoding of an RGBA pixel buffer of the given dimensions.
pub uninterp spec fn png_of(width: u32, height: u32, rgba: Seq<u8>) -> Seq<u8>;

/// Relies on the image crate's PNG encoder: the encoding is a function of
/// the dimensions and pixel bytes alone.  The buffer must hold exactly
/// four bytes per pixel: the constructor tolerates a longer one, but the
/// PNG codec then asserts the exact length and panics.  For the icon's
/// own 32-by-32 shape the encode always succeeds: the dimensions are not
/// zero, the codec supports eight-bit RGBA, and the in-memory writer
/// cannot fail; the deflate-compressed output of such a 4096-byte image
/// stays far below 64 KiB (deflate expands its input by at most a few
/// bytes per block).
#[verifier::external_body]
fn encode_png_rgba(width: u32, height: u32, rgba: &Vec<u8>) -> (r: Option<Vec<u8>>)
    requires
        rgba@.len() == width * height * 4,
    ensures
        r matches Some(png) ==> png@ == png_of(width, height, rgba@) && (width == 32 && height
            == 32 ==> png@.len() <= 65536),
        width == 32 && height == 32 ==> r is Some,
{
    let buffer = image::ImageBuffer::<image::Rgba<u8>, Vec<u8>>::from_raw(
        width,
        height,
        rgba.clone(),
    )?;
    let mut out: Vec<u8> = Vec::new();
    let img = image::DynamicImage::ImageRgba8(buffer);
    match img.write_to(&mut std::io::Cursor::new(&mut out), image::ImageFormat::Png) {
        Ok(()) => Some(out),
        Err(_) => None,
    }
}

/// The standard, padded base64 encoding of a byte sequence.
pub uninterp spec fn base64_of(bytes: Seq<u8>) -> Seq<char>;

/// Relies on the base64 crate's standard engine with padding: the
/// encoding is a function of the input bytes alone, four output
/// characters for every started group of three input bytes.  The engine
/// panics when the output length overflows `usize`, so oversized inputs
/// are excluded.
#[verifier::external_body]
fn encode_base64(bytes: &Vec<u8>) -> (r: String)
    requires
        bytes@.len() <= usize::MAX / 2,
    ensures
        r@ == base64_of(bytes@),
        r@.len() == 4 * ((bytes@.len() + 2) / 3),
{
    base64::Engine::encode(&base64::engine::general_purpose::STANDARD, bytes)
}

/// Renders a 32x32 icon capture, given in native BGRA order, as a
/// base64-encoded PNG.  Encoding a buffer of the icon's shape always
/// succeeds; only the native icon drawing before this call can fail,
/// and a target whose icon could not be drawn is still listed, just
/// without a thumbnail.
pub fn icon_thumbnail_base64(bgra: Vec<u8>) -> (r: String)
    requires
        bgra@.len() == ICON_SIDE * ICON_SIDE * 4,
    ensures
        r@ == base64_of(png_of(ICON_SIDE, ICON_SIDE, swapped_rb(bgra@))),
{
    let mut pixels = bgra;
    bgra_to_rgba(&mut pixels);
    match encode_png_rgba(ICON_SIDE, ICON_SIDE, &pixels) {
        Some(png) => encode_base64(&png),
        None => {
            proof {
                assert(false);
            }
            String::new()
        },
    }
}

} // verus!
