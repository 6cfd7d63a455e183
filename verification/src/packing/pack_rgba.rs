use crate::packing::channels::{
    interleave_written, lemma_interleave_split, pixel_count, scatter_channel,
};
use crate::packing::unpacked::UnpackedRgbaImage;
use crate::img_size::ImageSize;
use vstd::prelude::*;

verus! {

/// Interleaves the channel planes into `dst_image`, 4 samples per pixel, for
/// as many pixels as both the planes and `dst_image` hold.
pub fn interleave_rgba_naive<T: Copy>(
    unpacked_image: &UnpackedRgbaImage<T>,
    dst_image: &mut [T],
    width: usize,
    height: usize,
)
    ensures
        interleave_written(
            final(dst_image)@,
            old(dst_image)@,
            unpacked_image.channels(),
            4,
            pixel_count(old(dst_image)@.len() as int, unpacked_image.channels(), 4),
        ),
{
    let ghost chans = unpacked_image.channels();
    let mut count = dst_image.len() / 4;
    let n0 = unpacked_image.r_channel.len(); let n1 = unpacked_image.g_channel.len(); let n2 = unpacked_image.b_channel.len(); let n3 = unpacked_image.a_channel.len();
    if n0 < count {
        count = n0;
    }
    if n1 < count {
        count = n1;
    }
    if n2 < count {
        count = n2;
    }
    if n3 < count {
        count = n3;
    }
    proof {
        reveal_with_fuel(pixel_count, 5);
        assert(chans == seq![unpacked_image.r_channel@, unpacked_image.g_channel@, unpacked_image.b_channel@, unpacked_image.a_channel@]);
        assert(seq![unpacked_image.r_channel@, unpacked_image.g_channel@, unpacked_image.b_channel@, unpacked_image.a_channel@].drop_last() =~= seq![unpacked_image.r_channel@, unpacked_image.g_channel@, unpacked_image.b_channel@]);
        assert(seq![unpacked_image.r_channel@, unpacked_image.g_channel@, unpacked_image.b_channel@].drop_last() =~= seq![unpacked_image.r_channel@, unpacked_image.g_channel@]);
        assert(seq![unpacked_image.r_channel@, unpacked_image.g_channel@].drop_last() =~= seq![unpacked_image.r_channel@]);
        assert(seq![unpacked_image.r_channel@].drop_last() =~= seq![]);
        assert(count == pixel_count(old(dst_image)@.len() as int, chans, 4));
        assert(4 * count <= dst_image@.len());
    }
    scatter_channel(dst_image, unpacked_image.r_channel.as_slice(), 0, 4, count);
    let ghost d0 = dst_image@;
    scatter_channel(dst_image, unpacked_image.g_channel.as_slice(), 1, 4, count);
    let ghost d1 = dst_image@;
    scatter_channel(dst_image, unpacked_image.b_channel.as_slice(), 2, 4, count);
    let ghost d2 = dst_image@;
    scatter_channel(dst_image, unpacked_image.a_channel.as_slice(), 3, 4, count);
    let ghost d3 = dst_image@;
    proof {
        assert forall|j: int| 0 <= j < dst_image@.len() implies #[trigger] dst_image@[j] == if j < 4 * count {
            chans[j % 4][j / 4]
        } else {
            old(dst_image)@[j]
        } by {
            lemma_interleave_split(4, j);
        }
    }
}

} // verus!

verus! {

/// Interleaves 8-bit channel planes into `dst_image`, 4 samples per pixel.
pub fn pack_rgba(unpacked_image: &UnpackedRgbaImage<u8>, dst_image: &mut [u8], image_size: ImageSize)
    ensures
        interleave_written(
            final(dst_image)@,
            old(dst_image)@,
            unpacked_image.channels(),
            4,
            pixel_count(old(dst_image)@.len() as int, unpacked_image.channels(), 4),
        ),
{
    interleave_rgba_naive(unpacked_image, dst_image, image_size.width, image_size.height)
}

} // verus!
