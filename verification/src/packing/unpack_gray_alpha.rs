use crate::packing::channels::{deinterleaved, gather_channel};
use crate::packing::unpacked::UnpackedGrayAlpha;
use vstd::prelude::*;

verus! {

/// Splits an image of 2 interleaved samples per pixel (gray, alpha) into one
/// plane per channel. The image must hold exactly `width * height` pixels.
pub fn unpack_gray_alpha_naive<T: Copy>(image: &[T], width: usize, height: usize) -> (r: UnpackedGrayAlpha<T>)
    requires
        image@.len() == width * height * 2,
    ensures
        r.gray_channel@ == deinterleaved(image@, 2, 0),
        r.alpha_channel@ == deinterleaved(image@, 2, 1),
{
    let _len = image.len();
    assert(width * height <= usize::MAX) by (nonlinear_arith)
        requires
            width * height * 2 <= usize::MAX,
    ;
    let count = width * height;
    proof {
        vstd::arithmetic::div_mod::lemma_fundamental_div_mod_converse(
            image@.len() as int,
            2,
            count as int,
            0,
        );
        assert(2 * count == count * 2) by (nonlinear_arith);
    }
    let c0 = gather_channel(image, 0, 2, count);
    let c1 = gather_channel(image, 1, 2, count);
    proof {
        assert(c0@ =~= deinterleaved(image@, 2, 0));
        assert(c1@ =~= deinterleaved(image@, 2, 1));
    }
    UnpackedGrayAlpha::new(c0, c1)
}

} // verus!
