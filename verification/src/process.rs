use vstd::prelude::*;

use fast_image_resize::images::Image;
use fast_image_resize::{PixelType, ResizeAlg, ResizeOptions, Resizer};

verus! {

/// The RGBA bytes, row by row, that `fast_image_resize` gives for an RGBA
/// image of the given size resized to the new size with its nearest-pixel
/// algorithm.
pub uninterp spec fn nearest_resized(
    pixels: Seq<u8>,
    width: u32,
    height: u32,
    new_width: u32,
    new_height: u32,
) -> Seq<u8>;

/// `fast_image_resize::Resizer::resize` with `ResizeAlg::Nearest`, from an RGBA
/// image given by its size and bytes into a new RGBA image of the new size.
/// The result is named by `nearest_resized`; it holds four bytes for each pixel
/// of the new size.
#[verifier::external_body]
fn resize_nearest(pixels: Vec<u8>, width: u32, height: u32, new_width: u32, new_height: u32) -> (res: Vec<u8>)
    requires
        pixels@.len() == width * height * 4,
        new_width * new_height * 4 <= usize::MAX,
    ensures
        res@ == nearest_resized(pixels@, width, height, new_width, new_height),
        res@.len() == new_width * new_height * 4,
{
    let mut dst = Image::new(new_width, new_height, PixelType::U8x4);
    let options = ResizeOptions::new().resize_alg(ResizeAlg::Nearest);
    if let Ok(src) = Image::from_vec_u8(width, height, pixels, PixelType::U8x4) {
        let _ = Resizer::new().resize(&src, &mut dst, &options);
    }
    dst.into_vec()
}

/// The shorter side of an image.
pub open spec fn smallest_side(width: int, height: int) -> int {
    if width < height {
        width
    } else {
        height
    }
}

/// The size an image is downscaled to: `size` pixels for each whole multiple
/// of its shorter side that fits in each side.
pub open spec fn downscaled_size(width: int, height: int, size: int) -> (int, int) {
    let s = smallest_side(width, height);
    ((width / s) * size, (height / s) * size)
}

/// Downscales an RGBA image (given by its size and its bytes row by row) so
/// that its shorter side is `size` pixels, picking the nearest pixel. Gives the
/// new size and bytes.
pub fn downscale(width: u32, height: u32, pixels: Vec<u8>, size: u32) -> (res: (u32, u32, Vec<u8>))
    requires
        pixels@.len() == width * height * 4,
        width > 0,
        height > 0,
        downscaled_size(width as int, height as int, size as int).0 <= u32::MAX,
        downscaled_size(width as int, height as int, size as int).1 <= u32::MAX,
        downscaled_size(width as int, height as int, size as int).0 * downscaled_size(
            width as int,
            height as int,
            size as int,
        ).1 * 4 <= usize::MAX,
    ensures
        (res.0 as int, res.1 as int) == downscaled_size(width as int, height as int, size as int),
        res.2@ == nearest_resized(pixels@, width, height, res.0, res.1),
        res.2@.len() == res.0 * res.1 * 4,
{
    let smallest: u32 = if width < height {
        width
    } else {
        height
    };
    let new_width: u32 = (width / smallest) * size;
    let new_height: u32 = (height / smallest) * size;
    let resized = resize_nearest(pixels, width, height, new_width, new_height);
    (new_width, new_height, resized)
}

} // verus!
