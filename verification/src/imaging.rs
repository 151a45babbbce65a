//! Raw RGBA pixels and the PNG encoding and image decoding of the `image`
//! crate.

use vstd::prelude::*;
use image::ImageEncoder;

verus! {

/// The PNG file that the `image` crate's PNG encoder writes for RGBA pixels of
/// the given size, or `None` when the pixels do not fill the size.
pub uninterp spec fn png_of_rgba(width: u32, height: u32, rgba: Seq<u8>) -> Option<Seq<u8>>;

/// The size and RGBA pixels that the `image` crate decodes from an image file,
/// or `None` when it cannot decode it.
pub uninterp spec fn rgba_of_image(data: Seq<u8>) -> Option<(u32, u32, Seq<u8>)>;

/// An image as RGBA pixels, four bytes per pixel, row by row.
#[derive(Debug, Clone)]
pub struct RgbaImage {
    pub width: u32,
    pub height: u32,
    pub pixels: Vec<u8>,
}

/// `image::RgbaImage::from_raw` followed by `PngEncoder::write_image` with
/// `Rgba8`. `from_raw` refuses a buffer shorter than the size needs;
/// `write_image` panics on a buffer longer than that, which the bound rules
/// out. The result is named by `png_of_rgba`. PNG is lossless and the file
/// records the width, the height and the RGBA8 colour type, so the crate's
/// decoder (`load_from_memory`, then `to_rgba8`) reads back that width,
/// height and those pixels. The decoder refuses to allocate more than 512 MiB
/// by default (`Limits::default`, `max_alloc`), so this is stated for pixel
/// buffers of at most 256 MiB.
#[verifier::external_body]
pub(crate) fn encode_png_rgba(width: u32, height: u32, rgba: &[u8]) -> (r: Option<Vec<u8>>)
    requires
        rgba@.len() <= width as int * height as int * 4,
    ensures
        match r {
            Some(p) => png_of_rgba(width, height, rgba@) == Some(p@),
            None => png_of_rgba(width, height, rgba@) is None,
        },
        rgba@.len() <= 268435456 ==> (r matches Some(p) ==> rgba_of_image(p@) == Some((width, height, rgba@))),
{
    let img = image::RgbaImage::from_raw(width, height, rgba.to_vec())?;
    let mut out: Vec<u8> = Vec::new();
    image::codecs::png::PngEncoder::new(&mut out)
        .write_image(&img, width, height, image::ExtendedColorType::Rgba8)
        .ok()?;
    Some(out)
}

/// `image::load_from_memory` followed by `to_rgba8`; the result is named by
/// `rgba_of_image`. On failure the crate's error is turned into its `Display`
/// text, which is not stated here.
#[verifier::external_body]
pub(crate) fn decode_image_rgba(data: &[u8]) -> (r: Result<RgbaImage, String>)
    ensures
        r matches Ok(img) ==> rgba_of_image(data@) == Some((img.width, img.height, img.pixels@)),
        r is Err ==> rgba_of_image(data@) is None,
{
    let img = image::load_from_memory(data).map_err(|e| e.to_string())?.to_rgba8();
    let (width, height) = img.dimensions();
    Ok(RgbaImage { width, height, pixels: img.into_raw() })
}

} // verus!
