//! Recognising image formats by their leading bytes.

use vstd::prelude::*;
use crate::encoding::{base64_text, encode_standard};
use crate::text::{has_suffix, owned, str_ends_with};

verus! {

/// JPEG: `FF D8 FF`.
pub open spec fn is_jpeg(d: Seq<u8>) -> bool {
    d.len() >= 3 && d[0] == 0xFF && d[1] == 0xD8 && d[2] == 0xFF
}

/// The first four bytes of the PNG signature, `89 'P' 'N' 'G'`.
pub open spec fn has_png_magic(d: Seq<u8>) -> bool {
    d.len() >= 4 && d[0] == 0x89 && d[1] == 0x50 && d[2] == 0x4E && d[3] == 0x47
}

/// The full eight-byte PNG signature `89 'P' 'N' 'G' CR LF 1A LF`.
pub open spec fn has_png_signature(d: Seq<u8>) -> bool {
    has_png_magic(d) && d.len() >= 8 && d[4] == 0x0D && d[5] == 0x0A && d[6] == 0x1A && d[7] == 0x0A
}

/// GIF: `GIF87a` or `GIF89a`.
pub open spec fn is_gif(d: Seq<u8>) -> bool {
    d.len() >= 6 && d[0] == 0x47 && d[1] == 0x49 && d[2] == 0x46 && d[3] == 0x38
        && (d[4] == 0x37 || d[4] == 0x39) && d[5] == 0x61
}

/// `RIFF` at the start and `WEBP` at offset 8 (the caller checks the length).
pub open spec fn has_webp_tags(d: Seq<u8>) -> bool {
    d.len() >= 12 && d[0] == 0x52 && d[1] == 0x49 && d[2] == 0x46 && d[3] == 0x46
        && d[8] == 0x57 && d[9] == 0x45 && d[10] == 0x42 && d[11] == 0x50
}

/// BMP: `BM`.
pub open spec fn is_bmp(d: Seq<u8>) -> bool {
    d.len() >= 2 && d[0] == 0x42 && d[1] == 0x4D
}

/// The file extension for image bytes: jpg, png, gif, webp or bmp by their
/// leading bytes (PNG needs at least eight bytes), png when none matches.
pub open spec fn image_extension(d: Seq<u8>) -> Seq<char> {
    if is_jpeg(d) {
        "jpg"@
    } else if d.len() >= 8 && has_png_magic(d) {
        "png"@
    } else if is_gif(d) {
        "gif"@
    } else if has_webp_tags(d) {
        "webp"@
    } else if is_bmp(d) {
        "bmp"@
    } else {
        "png"@
    }
}

/// The MIME type under which a stored image file is served: by its leading
/// bytes (PNG first), else by the extension of its name, else JPEG.
pub open spec fn served_image_mime(d: Seq<u8>, name: Seq<char>) -> Seq<char> {
    if d.len() >= 8 && has_png_magic(d) {
        "image/png"@
    } else if is_jpeg(d) {
        "image/jpeg"@
    } else if is_gif(d) {
        "image/gif"@
    } else if has_webp_tags(d) {
        "image/webp"@
    } else if is_bmp(d) {
        "image/bmp"@
    } else if has_suffix(name, ".png"@) {
        "image/png"@
    } else if has_suffix(name, ".gif"@) {
        "image/gif"@
    } else if has_suffix(name, ".webp"@) {
        "image/webp"@
    } else {
        "image/jpeg"@
    }
}

/// The MIME type put in a `data:` URL for image bytes: JPEG, PNG (full
/// signature), GIF, WebP (more than twelve bytes), else JPEG.
pub open spec fn data_url_mime(d: Seq<u8>) -> Seq<char> {
    if is_jpeg(d) {
        "image/jpeg"@
    } else if has_png_signature(d) {
        "image/png"@
    } else if is_gif(d) {
        "image/gif"@
    } else if d.len() > 12 && has_webp_tags(d) {
        "image/webp"@
    } else {
        "image/jpeg"@
    }
}

fn jpeg_at(d: &[u8]) -> (b: bool)
    ensures
        b == is_jpeg(d@),
{
    d.len() >= 3 && d[0] == 0xFF && d[1] == 0xD8 && d[2] == 0xFF
}

fn png_magic_at(d: &[u8]) -> (b: bool)
    ensures
        b == has_png_magic(d@),
{
    d.len() >= 4 && d[0] == 0x89 && d[1] == 0x50 && d[2] == 0x4E && d[3] == 0x47
}

fn gif_at(d: &[u8]) -> (b: bool)
    ensures
        b == is_gif(d@),
{
    d.len() >= 6 && d[0] == 0x47 && d[1] == 0x49 && d[2] == 0x46 && d[3] == 0x38
        && (d[4] == 0x37 || d[4] == 0x39) && d[5] == 0x61
}

fn webp_at(d: &[u8]) -> (b: bool)
    ensures
        b == has_webp_tags(d@),
{
    d.len() >= 12 && d[0] == 0x52 && d[1] == 0x49 && d[2] == 0x46 && d[3] == 0x46
        && d[8] == 0x57 && d[9] == 0x45 && d[10] == 0x42 && d[11] == 0x50
}

fn bmp_at(d: &[u8]) -> (b: bool)
    ensures
        b == is_bmp(d@),
{
    d.len() >= 2 && d[0] == 0x42 && d[1] == 0x4D
}

/// The file extension for image bytes (see `image_extension`).
pub fn detect_image_extension(data: &[u8]) -> (e: &'static str)
    ensures
        e@ == image_extension(data@),
{
    if jpeg_at(data) {
        "jpg"
    } else if data.len() >= 8 && png_magic_at(data) {
        "png"
    } else if gif_at(data) {
        "gif"
    } else if webp_at(data) {
        "webp"
    } else if bmp_at(data) {
        "bmp"
    } else {
        "png"
    }
}

/// The MIME type under which an image file named `filename` is served.
pub fn served_mime_type(data: &[u8], filename: &str) -> (m: &'static str)
    ensures
        m@ == served_image_mime(data@, filename@),
{
    if data.len() >= 8 && png_magic_at(data) {
        "image/png"
    } else if jpeg_at(data) {
        "image/jpeg"
    } else if gif_at(data) {
        "image/gif"
    } else if webp_at(data) {
        "image/webp"
    } else if bmp_at(data) {
        "image/bmp"
    } else if str_ends_with(filename, ".png") {
        "image/png"
    } else if str_ends_with(filename, ".gif") {
        "image/gif"
    } else if str_ends_with(filename, ".webp") {
        "image/webp"
    } else {
        "image/jpeg"
    }
}

/// The MIME type for a `data:` URL of image bytes.
pub fn data_url_mime_type(data: &[u8]) -> (m: &'static str)
    ensures
        m@ == data_url_mime(data@),
{
    if jpeg_at(data) {
        "image/jpeg"
    } else if png_magic_at(data) && data.len() >= 8 && data[4] == 0x0D && data[5] == 0x0A && data[6] == 0x1A
        && data[7] == 0x0A {
        "image/png"
    } else if gif_at(data) {
        "image/gif"
    } else if data.len() > 12 && webp_at(data) {
        "image/webp"
    } else {
        "image/jpeg"
    }
}

/// The `data:` URL of image bytes: their MIME type and padded base64.
pub open spec fn data_url_text(d: Seq<u8>) -> Seq<char> {
    "data:"@ + data_url_mime(d) + ";base64,"@ + base64_text(d, true)
}

/// The `data:` URL of image bytes.
pub fn image_data_url(data: &[u8]) -> (u: String)
    requires
        data@.len() <= usize::MAX / 2,
    ensures
        u@ == data_url_text(data@),
{
    let mut u = owned("data:");
    u.append(data_url_mime_type(data));
    u.append(";base64,");
    u.append(encode_standard(data).as_str());
    u
}

} // verus!
