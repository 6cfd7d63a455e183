use crate::border_mode::BorderMode;
use crate::img_size::ImageSize;
use crate::morph_error::channels_mismatch_message;
use crate::morph_interleaved::{interleaved_limits, interleaved_outcome, interleaved_result};
use crate::op_impl::{make_morphology_ex, morph_ex_image};
use crate::op_type::MorphExOp;
use crate::packing::{RgbaPackable, UnpackedRgbaImage, deinterleaved, pixel_count};
use crate::pixel::MorphPixel;
use crate::structuring_element::KernelShape;
use crate::thread_policy::MorphologyThreadingPolicy;
use vstd::prelude::*;

verus! {

/// Morphology of an RGBA image.
///
/// The image is split into its R, G, B and A planes; each plane goes through the
/// planar operation with `border_values[c]` as the border constant of channel
/// `c`; the results are interleaved into `dst`. Sizes are checked first: the
/// slices must both hold `width * height` pixels of 4 samples (the message of
/// that error gives `width * height * 2` as the expected size).
pub fn make_morphology_rgba<T: MorphPixel + RgbaPackable<T>>(
    src: &[T],
    dst: &mut [T],
    op: MorphExOp,
    image_size: ImageSize,
    structuring_element: &[u8],
    structuring_element_size: KernelShape,
    border_mode: BorderMode,
    border_values: [T; 4],
    threading_policy: MorphologyThreadingPolicy,
) -> (r: Result<(), String>)
    requires
        interleaved_limits(
            src@.len() as int,
            old(dst)@.len() as int,
            image_size.width as int,
            image_size.height as int,
            structuring_element_size.width as int,
            structuring_element_size.height as int,
            structuring_element@.len() as int,
            4,
        ),
    ensures
        interleaved_outcome(
            r,
            src@,
            old(dst)@,
            final(dst)@,
            op,
            image_size,
            structuring_element@,
            structuring_element_size,
            border_mode,
            border_values@,
            4,
        ),
{
    let src_len = src.len();
    let dst_len = dst.len();
    let expected = image_size.width * image_size.height * 4;
    if src_len != dst_len || dst_len != expected {
        return Err(channels_mismatch_message(image_size.width * image_size.height * 2, src_len, dst_len));
    }
    let ghost w = image_size.width as int;
    let ghost h = image_size.height as int;
    assert(w * h <= usize::MAX) by (nonlinear_arith)
        requires
            w * h * 4 <= usize::MAX,
            w >= 0,
            h >= 0,
    ;
    let unpacked = T::unpack(src, image_size);
    let mut out = UnpackedRgbaImage::<T>::allocate(image_size);
    proof {
        vstd::arithmetic::div_mod::lemma_fundamental_div_mod_converse(
            src_len as int,
            4,
            w * h,
            0,
        );
    }
    let r0 = make_morphology_ex(
        unpacked.r_channel.as_slice(),
        out.r_channel.as_mut_slice(),
        op,
        image_size,
        structuring_element,
        structuring_element_size,
        border_mode,
        border_values[0],
        threading_policy,
    );
    match r0 {
        Err(e) => {
            return Err(e);
        },
        Ok(()) => {},
    }
    let r1 = make_morphology_ex(
        unpacked.g_channel.as_slice(),
        out.g_channel.as_mut_slice(),
        op,
        image_size,
        structuring_element,
        structuring_element_size,
        border_mode,
        border_values[1],
        threading_policy,
    );
    match r1 {
        Err(e) => {
            return Err(e);
        },
        Ok(()) => {},
    }
    let r2 = make_morphology_ex(
        unpacked.b_channel.as_slice(),
        out.b_channel.as_mut_slice(),
        op,
        image_size,
        structuring_element,
        structuring_element_size,
        border_mode,
        border_values[2],
        threading_policy,
    );
    match r2 {
        Err(e) => {
            return Err(e);
        },
        Ok(()) => {},
    }
    let r3 = make_morphology_ex(
        unpacked.a_channel.as_slice(),
        out.a_channel.as_mut_slice(),
        op,
        image_size,
        structuring_element,
        structuring_element_size,
        border_mode,
        border_values[3],
        threading_policy,
    );
    match r3 {
        Err(e) => {
            return Err(e);
        },
        Ok(()) => {},
    }
    let ghost before = dst@;
    T::pack(&out, dst, image_size);
    proof {
        reveal_with_fuel(pixel_count, 5);
        let chans = out.channels();
        let expected_chans = Seq::new(
            4,
            |c: int|
                morph_ex_image(
                    op,
                    deinterleaved(src@, 4, c),
                    w,
                    h,
                    structuring_element@,
                    structuring_element_size.width as int,
                    structuring_element_size.height as int,
                    border_mode,
                    border_values@[c],
                ),
        );
        assert(chans == seq![out.r_channel@, out.g_channel@, out.b_channel@, out.a_channel@]);
        assert(chans =~= expected_chans);
        assert(pixel_count(before.len() as int, chans, 4) == w * h);
        assert(dst@ =~= interleaved_result(
            op,
            src@,
            w,
            h,
            structuring_element@,
            structuring_element_size.width as int,
            structuring_element_size.height as int,
            border_mode,
            border_values@,
            4,
        ));
    }
    Ok(())
}

} // verus!
