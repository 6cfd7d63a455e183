use crate::packing::channels::{deinterleaved, gather_channel};
use crate::packing::unpacked::UnpackedRgbaImage;
use crate::img_size::ImageSize;
use vstd::prelude::*;

verus! {

/// Splits an image of 4 interleaved samples per pixel (R, G, B, A) into one
/// plane per channel. The image must hold exactly `width * height` pixels.
pub fn deinterleave_rgba_naive<T: Copy>(image: &[T], width: usize, height: usize) -> (r: UnpackedRgbaImage<T>)
    requires
        image@.len() == width * height * 4,
    ensures
        r.r_channel@ == deinterleaved(image@, 4, 0),
        r.g_channel@ == deinterleaved(image@, 4, 1),
        r.b_channel@ == deinterleaved(image@, 4, 2),
        r.a_channel@ == deinterleaved(image@, 4, 3),
{
    let _len = image.len();
    assert(width * height <= usize::MAX) by (nonlinear_arith)
        requires
            width * height * 4 <= usize::MAX,
    ;
    let count = width * height;
    proof {
        vstd::arithmetic::div_mod::lemma_fundamental_div_mod_converse(
            image@.len() as int,
            4,
            count as int,
            0,
        );
        assert(4 * count == count * 4) by (nonlinear_arith);
    }
    let c0 = gather_channel(image, 0, 4, count);
    let c1 = gather_channel(image, 1, 4, count);
    let c2 = gather_channel(image, 2, 4, count);
    let c3 = gather_channel(image, 3, 4, count);
    proof {
        assert(c0@ =~= deinterleaved(image@, 4, 0));
        assert(c1@ =~= deinterleaved(image@, 4, 1));
        assert(c2@ =~= deinterleaved(image@, 4, 2));
        assert(c3@ =~= deinterleaved(image@, 4, 3));
    }
    UnpackedRgbaImage::new(c0, c1, c2, c3)
}

} // verus!

verus! {

/// Splits an 8-bit RGBA image into its R, G, B and A planes.
pub fn unpack_rgba(rgba_image: &[u8], image_size: ImageSize) -> (r: UnpackedRgbaImage<u8>)
    requires
        rgba_image@.len() == image_size.width * image_size.height * 4,
    ensures
        r.r_channel@ == deinterleaved(rgba_image@, 4, 0),
        r.g_channel@ == deinterleaved(rgba_image@, 4, 1),
        r.b_channel@ == deinterleaved(rgba_image@, 4, 2),
        r.a_channel@ == deinterleaved(rgba_image@, 4, 3),
{
    deinterleave_rgba_naive(rgba_image, image_size.width, image_size.height)
}

} // verus!
