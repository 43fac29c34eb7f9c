//! Decoding bundled image bytes into RGBA pixels for textures and the window
//! icon. The image formats themselves are decoded by the `image` crate.

use vstd::prelude::*;

verus! {

/// What `image::load_from_memory` decodes from these bytes, converted to
/// 8-bit RGBA: width, height and pixels, row by row; none when the bytes are
/// not an image it can read.
pub uninterp spec fn decoded_rgba(data: Seq<u8>) -> Option<(u32, u32, Seq<u8>)>;

/// Decodes image bytes through `image::load_from_memory` (which guesses the
/// format from the bytes) and converts the image with `to_rgba8`. The
/// contract names the result (`decoded_rgba`) and claims only what the
/// crate's source shows of every image it gives: four bytes per pixel,
/// `to_rgba8` building its buffer with `ImageBuffer::new` of that size.
#[verifier::external_body]
fn decode_rgba(data: &[u8]) -> (r: Option<(u32, u32, Vec<u8>)>)
    ensures
        match r {
            Some(p) => decoded_rgba(data@) == Some((p.0, p.1, p.2@)) && p.2@.len() == 4 * p.0 * p.1,
            None => decoded_rgba(data@) is None,
        },
{
    match image::load_from_memory(data) {
        Ok(i) => {
            let b = i.to_rgba8();
            Some((b.width(), b.height(), b.into_raw()))
        },
        Err(_) => None,
    }
}

/// The pixels a texture is made of: the decoded image, or a single magenta
/// pixel when the bytes could not be decoded.
pub fn texture_pixels(decoded: Option<(u32, u32, Vec<u8>)>) -> (r: (u32, u32, Vec<u8>))
    ensures
        match decoded {
            Some(p) => r.0 == p.0 && r.1 == p.1 && r.2@ == p.2@,
            None => r.0 == 1 && r.1 == 1 && r.2@ == seq![255u8, 0, 255, 255],
        },
{
    match decoded {
        Some(p) => p,
        None => {
            let v: Vec<u8> = vec![255u8, 0, 255, 255];
            (1, 1, v)
        },
    }
}

/// The pixels of a texture made from image bytes: the decoded image, or a
/// single magenta pixel when the bytes are not an image.
pub fn texture_rgba(data: &[u8]) -> (r: (u32, u32, Vec<u8>))
    ensures
        match decoded_rgba(data@) {
            Some(p) => r.0 == p.0 && r.1 == p.1 && r.2@ == p.2,
            None => r.0 == 1 && r.1 == 1 && r.2@ == seq![255u8, 0, 255, 255],
        },
        r.2@.len() == 4 * r.0 * r.1,
{
    texture_pixels(decode_rgba(data))
}

/// The pixels of an image given as bytes (a window icon, an image file);
/// none when the bytes are not an image.
pub fn decoded_pixels(data: &[u8]) -> (r: Option<(u32, u32, Vec<u8>)>)
    ensures
        match r {
            Some(p) => decoded_rgba(data@) == Some((p.0, p.1, p.2@)) && p.2@.len() == 4 * p.0 * p.1,
            None => decoded_rgba(data@) is None,
        },
{
    decode_rgba(data)
}

} // verus!
