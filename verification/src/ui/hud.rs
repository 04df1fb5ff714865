//! The pixels of the heads-up display's textures: a decoded PNG file, or a
//! single transparent pixel where the file is missing or does not decode.

use vstd::prelude::*;

verus! {

/// What the `image` crate decodes from the bytes of a PNG file, converted to
/// 8-bit RGBA: the pixels, the width and the height, or `None` where decoding
/// fails.
pub uninterp spec fn png_rgba8(bytes: Seq<u8>) -> Option<(Seq<u8>, u32, u32)>;

/// Decodes a PNG file with `image::load_from_memory_with_format` (format PNG),
/// converts the image with `DynamicImage::to_rgba8`, and hands out
/// `ImageBuffer::into_raw` with the width and height. The result is
/// `png_rgba8` of the bytes; how the `image` crate decodes is not restated here.
#[verifier::external_body]
fn decode_png_rgba8(bytes: &[u8]) -> (r: Option<(Vec<u8>, u32, u32)>)
    ensures
        r matches Some((p, w, h)) ==> png_rgba8(bytes@) == Some((p@, w, h)),
        r is None ==> png_rgba8(bytes@) is None,
{
    let rgba = image::load_from_memory_with_format(bytes, image::ImageFormat::Png).ok()?.to_rgba8();
    let (width, height) = (rgba.width(), rgba.height());
    Some((rgba.into_raw(), width, height))
}

/// The texture of a decoded image, or one fully transparent black pixel where
/// there is none.
pub fn hud_texture_pixels(decoded: Option<(Vec<u8>, u32, u32)>) -> (r: (Vec<u8>, u32, u32))
    ensures
        decoded matches Some((p, w, h)) ==> r.0@ == p@ && r.1 == w && r.2 == h,
        decoded is None ==> r.0@ == seq![0u8, 0, 0, 0] && r.1 == 1 && r.2 == 1,
{
    match decoded {
        Some(image) => image,
        None => {
            let mut pixels: Vec<u8> = Vec::new();
            pixels.push(0);
            pixels.push(0);
            pixels.push(0);
            pixels.push(0);
            assert(pixels@ =~= seq![0u8, 0, 0, 0]);
            (pixels, 1, 1)
        },
    }
}

/// The RGBA pixels, width and height of a HUD texture whose file held
/// `bytes`: the decoded PNG where the file was read (`Some`) and decodes,
/// else one transparent pixel.
pub fn hud_texture_rgba(bytes: Option<&[u8]>) -> (r: (Vec<u8>, u32, u32))
    ensures
        match bytes {
            Some(b) => match png_rgba8(b@) {
                Some((p, w, h)) => r.0@ == p && r.1 == w && r.2 == h,
                None => r.0@ == seq![0u8, 0, 0, 0] && r.1 == 1 && r.2 == 1,
            },
            None => r.0@ == seq![0u8, 0, 0, 0] && r.1 == 1 && r.2 == 1,
        },
{
    let decoded = match bytes {
        Some(b) => decode_png_rgba8(b),
        None => None,
    };
    hud_texture_pixels(decoded)
}

} // verus!
