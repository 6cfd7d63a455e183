use crate::border_mode::BorderMode;
use crate::img_size::ImageSize;
use crate::morph_error::{channels_text, mismatch_text};
use crate::op_impl::morph_ex_image;
use crate::op_type::MorphExOp;
use crate::packing::{deinterleaved, interleaved};
use crate::pixel::MorphPixel;
use crate::structuring_element::KernelShape;
use vstd::prelude::*;

verus! {

/// The expected size that a slice size mismatch reports: `width * height *
/// channels`, except for four channels (RGBA), whose message reports
/// `width * height * 2`.
pub open spec fn reported_size(width: int, height: int, channels: int) -> int {
    if channels == 4 {
        width * height * 2
    } else {
        width * height * channels
    }
}

/// The error a morphology of an image with `channels` interleaved samples per
/// pixel reports, if any: slice sizes first, then the structuring element size.
pub open spec fn interleaved_error(
    src_len: int,
    dst_len: int,
    width: int,
    height: int,
    kw: int,
    kh: int,
    se_len: int,
    channels: int,
) -> Option<Seq<char>> {
    if src_len != dst_len || dst_len != width * height * channels {
        Some(channels_text(reported_size(width, height, channels) as nat, src_len as nat, dst_len as nat))
    } else if kh * kw != se_len {
        Some(mismatch_text("Structuring element"@, (kh * kw) as nat, se_len as nat))
    } else {
        None
    }
}

/// What such a morphology needs so that its arithmetic fits the machine.
pub open spec fn interleaved_limits(
    src_len: int,
    dst_len: int,
    width: int,
    height: int,
    kw: int,
    kh: int,
    se_len: int,
    channels: int,
) -> bool {
    &&& width * height * channels <= usize::MAX
    &&& src_len == dst_len && dst_len == width * height * channels ==> kw * kh <= usize::MAX
    &&& interleaved_error(src_len, dst_len, width, height, kw, kh, se_len, channels) is None ==> {
        &&& kw <= i32::MAX
        &&& kh <= i32::MAX
        &&& (width + 2 * (kw / 2)) * (height + 2 * (kh / 2)) <= isize::MAX
    }
}

/// The result of `op` on each channel of an interleaved image, channel `c`
/// with border constant `constants[c]`, interleaved again.
pub open spec fn interleaved_result<T: MorphPixel>(
    op: MorphExOp,
    src: Seq<T>,
    width: int,
    height: int,
    se: Seq<u8>,
    kw: int,
    kh: int,
    mode: BorderMode,
    constants: Seq<T>,
    channels: int,
) -> Seq<T> {
    interleaved(
        Seq::new(
            channels as nat,
            |c: int|
                morph_ex_image(
                    op,
                    deinterleaved(src, channels, c),
                    width,
                    height,
                    se,
                    kw,
                    kh,
                    mode,
                    constants[c],
                ),
        ),
        channels,
        width * height,
    )
}

/// What a morphology of an interleaved image reports and leaves in its
/// destination: the error of `interleaved_error` with the destination as it
/// was, or success with each channel processed on its own.
pub open spec fn interleaved_outcome<T: MorphPixel>(
    r: Result<(), String>,
    src: Seq<T>,
    old_dst: Seq<T>,
    new_dst: Seq<T>,
    op: MorphExOp,
    image_size: ImageSize,
    se: Seq<u8>,
    se_size: KernelShape,
    mode: BorderMode,
    constants: Seq<T>,
    channels: int,
) -> bool {
    let e = interleaved_error(
        src.len() as int,
        old_dst.len() as int,
        image_size.width as int,
        image_size.height as int,
        se_size.width as int,
        se_size.height as int,
        se.len() as int,
        channels,
    );
    &&& (r is Ok <==> e is None)
    &&& (r matches Err(m) ==> Some(m@) == e && new_dst == old_dst)
    &&& (r is Ok ==> new_dst == interleaved_result(
        op,
        src,
        image_size.width as int,
        image_size.height as int,
        se,
        se_size.width as int,
        se_size.height as int,
        mode,
        constants,
        channels,
    ))
}

} // verus!
