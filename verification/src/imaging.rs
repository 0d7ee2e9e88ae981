//! The resize operation, behind a trusted call into the `image` crate.

use vstd::prelude::*;

verus! {

/// Largest accepted square dimension: keeps the decoded target buffer small
/// enough that the codec cannot overflow its size computation.
pub const MAX_ICON_SIZE: u32 = 4096;

/// The PNG encoding of `data` decoded and scaled to a `size`-by-`size`
/// square, or nothing when `data` does not decode or the result does not
/// encode. A function of the bytes and the size alone.
pub uninterp spec fn resized_png(data: Seq<u8>, size: u32) -> Option<Seq<u8>>;

/// Relies on `image::load_from_memory`, `DynamicImage::resize_exact` with the
/// Lanczos3 filter, and `DynamicImage::write_to` with the PNG format: decodes
/// the bytes (format auto-detected), scales them to a size-by-size square
/// without keeping the aspect ratio, and re-encodes as PNG.
#[verifier::external_body]
pub fn resize_image(img_data: &[u8], size: u32) -> (r: Option<Vec<u8>>)
    requires
        1 <= size <= MAX_ICON_SIZE,
    ensures
        (r is Some) == (resized_png(img_data@, size) is Some),
        r matches Some(v) ==> resized_png(img_data@, size) == Some(v@),
{
    match image::load_from_memory(img_data) {
        Ok(img) => {
            let resized = img.resize_exact(size, size, image::imageops::FilterType::Lanczos3);
            let mut buffer: std::vec::Vec<u8> = std::vec::Vec::new();
            match resized.write_to(&mut std::io::Cursor::new(&mut buffer), image::ImageFormat::Png) {
                Ok(_) => Some(buffer),
                Err(_) => None,
            }
        },
        Err(_) => None,
    }
}

} // verus!
