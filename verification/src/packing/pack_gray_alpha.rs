use crate::packing::channels::{
    interleave_written, lemma_interleave_split, pixel_count, scatter_channel,
};
use crate::packing::unpacked::UnpackedGrayAlpha;
use vstd::prelude::*;

verus! {

/// Interleaves the channel planes into `dst_image`, 2 samples per pixel, for
/// as many pixels as both the planes and `dst_image` hold.
pub fn pack_gray_alpha_naive<T: Copy>(
    unpacked_image: &UnpackedGrayAlpha<T>,
    dst_image: &mut [T],
    width: usize,
    height: usize,
)
    ensures
        interleave_written(
            final(dst_image)@,
            old(dst_image)@,
            unpacked_image.channels(),
            2,
            pixel_count(old(dst_image)@.len() as int, unpacked_image.channels(), 2),
        ),
{
    let ghost chans = unpacked_image.channels();
    let mut count = dst_image.len() / 2;
    let n0 = unpacked_image.gray_channel.len(); let n1 = unpacked_image.alpha_channel.len();
    if n0 < count {
        count = n0;
    }
    if n1 < count {
        count = n1;
    }
    proof {
        reveal_with_fuel(pixel_count, 5);
        assert(chans == seq![unpacked_image.gray_channel@, unpacked_image.alpha_channel@]);
        assert(seq![unpacked_image.gray_channel@, unpacked_image.alpha_channel@].drop_last() =~= seq![unpacked_image.gray_channel@]);
        assert(seq![unpacked_image.gray_channel@].drop_last() =~= seq![]);
        assert(count == pixel_count(old(dst_image)@.len() as int, chans, 2));
        assert(2 * count <= dst_image@.len());
    }
    scatter_channel(dst_image, unpacked_image.gray_channel.as_slice(), 0, 2, count);
    let ghost d0 = dst_image@;
    scatter_channel(dst_image, unpacked_image.alpha_channel.as_slice(), 1, 2, count);
    let ghost d1 = dst_image@;
    proof {
        assert forall|j: int| 0 <= j < dst_image@.len() implies #[trigger] dst_image@[j] == if j < 2 * count {
            chans[j % 2][j / 2]
        } else {
            old(dst_image)@[j]
        } by {
            lemma_interleave_split(2, j);
        }
    }
}

} // verus!
