use crate::packing::channels::{
    interleave_written, lemma_interleave_split, pixel_count, scatter_channel,
};
use crate::packing::unpacked::UnpackedRgbImage;
use crate::img_size::ImageSize;
use vstd::prelude::*;

verus! {

/// Interleaves the channel planes into `dst_image`, 3 samples per pixel, for
/// as many pixels as both the planes and `dst_image` hold.
pub fn interleave_rgb_naive<T: Copy>(
    unpacked_image: &UnpackedRgbImage<T>,
    dst_image: &mut [T],
    width: usize,
    height: usize,
)
    ensures
        interleave_written(
            final(dst_image)@,
            old(dst_image)@,
            unpacked_image.channels(),
            3,
            pixel_count(old(dst_image)@.len() as int, unpacked_image.channels(), 3),
        ),
{
    let ghost chans = unpacked_image.channels();
    let mut count = dst_image.len() / 3;
    let n0 = unpacked_image.r_channel.len(); let n1 = unpacked_image.g_channel.len(); let n2 = unpacked_image.b_channel.len();
    if n0 < count {
        count = n0;
    }
    if n1 < count {
        count = n1;
    }
    if n2 < count {
        count = n2;
    }
    proof {
        reveal_with_fuel(pixel_count, 5);
        assert(chans == seq![unpacked_image.r_channel@, unpacked_image.g_channel@, unpacked_image.b_channel@]);
        assert(seq![unpacked_image.r_channel@, unpacked_image.g_channel@, unpacked_image.b_channel@].drop_last() =~= seq![unpacked_image.r_channel@, unpacked_image.g_channel@]);
        assert(seq![unpacked_image.r_channel@, unpacked_image.g_channel@].drop_last() =~= seq![unpacked_image.r_channel@]);
        assert(seq![unpacked_image.r_channel@].drop_last() =~= seq![]);
        assert(count == pixel_count(old(dst_image)@.len() as int, chans, 3));
        assert(3 * count <= dst_image@.len());
    }
    scatter_channel(dst_image, unpacked_image.r_channel.as_slice(), 0, 3, count);
    let ghost d0 = dst_image@;
    scatter_channel(dst_image, unpacked_image.g_channel.as_slice(), 1, 3, count);
    let ghost d1 = dst_image@;
    scatter_channel(dst_image, unpacked_image.b_channel.as_slice(), 2, 3, count);
    let ghost d2 = dst_image@;
    proof {
        assert forall|j: int| 0 <= j < dst_image@.len() implies #[trigger] dst_image@[j] == if j < 3 * count {
            chans[j % 3][j / 3]
        } else {
            old(dst_image)@[j]
        } by {
            lemma_interleave_split(3, j);
        }
    }
}

} // verus!

verus! {

/// Interleaves 8-bit channel planes into `dst_image`, 3 samples per pixel.
pub fn pack_rgb(unpacked_image: &UnpackedRgbImage<u8>, dst_image: &mut [u8], image_size: ImageSize)
    ensures
        interleave_written(
            final(dst_image)@,
            old(dst_image)@,
            unpacked_image.channels(),
            3,
            pixel_count(old(dst_image)@.len() as int, unpacked_image.channels(), 3),
        ),
{
    interleave_rgb_naive(unpacked_image, dst_image, image_size.width, image_size.height)
}

} // verus!
