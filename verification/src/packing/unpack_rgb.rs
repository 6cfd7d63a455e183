use crate::packing::channels::{deinterleaved, gather_channel};
use crate::packing::unpacked::UnpackedRgbImage;
use crate::img_size::ImageSize;
use vstd::prelude::*;

verus! {

/// Splits an image of 3 interleaved samples per pixel (R, G, B) into one
/// plane per channel. The image must hold exactly `width * height` pixels.
pub fn deinterleave_rgb_naive<T: Copy>(image: &[T], width: usize, height: usize) -> (r: UnpackedRgbImage<T>)
    requires
        image@.len() == width * height * 3,
    ensures
        r.r_channel@ == deinterleaved(image@, 3, 0),
        r.g_channel@ == deinterleaved(image@, 3, 1),
        r.b_channel@ == deinterleaved(image@, 3, 2),
{
    let _len = image.len();
    assert(width * height <= usize::MAX) by (nonlinear_arith)
        requires
            width * height * 3 <= usize::MAX,
    ;
    let count = width * height;
    proof {
        vstd::arithmetic::div_mod::lemma_fundamental_div_mod_converse(
            image@.len() as int,
            3,
            count as int,
            0,
        );
        assert(3 * count == count * 3) by (nonlinear_arith);
    }
    let c0 = gather_channel(image, 0, 3, count);
    let c1 = gather_channel(image, 1, 3, count);
    let c2 = gather_channel(image, 2, 3, count);
    proof {
        assert(c0@ =~= deinterleaved(image@, 3, 0));
        assert(c1@ =~= deinterleaved(image@, 3, 1));
        assert(c2@ =~= deinterleaved(image@, 3, 2));
    }
    UnpackedRgbImage::new(c0, c1, c2)
}

} // verus!

verus! {

/// Splits an 8-bit RGB image into its R, G and B planes.
pub fn unpack_rgb(rgb_image: &[u8], image_size: ImageSize) -> (r: UnpackedRgbImage<u8>)
    requires
        rgb_image@.len() == image_size.width * image_size.height * 3,
    ensures
        r.r_channel@ == deinterleaved(rgb_image@, 3, 0),
        r.g_channel@ == deinterleaved(rgb_image@, 3, 1),
        r.b_channel@ == deinterleaved(rgb_image@, 3, 2),
{
    deinterleave_rgb_naive(rgb_image, image_size.width, image_size.height)
}

} // verus!
