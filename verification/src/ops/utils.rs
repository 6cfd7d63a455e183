use crate::ops::rgb::{Rgb, Rgba};
use crate::pixel::MorphPixel;
use vstd::prelude::*;

verus! {

/// The RGBA pixel whose channels are the first four samples of `slice`.
pub fn rgba_from_slice<T: MorphPixel>(slice: &[T]) -> (p: Rgba<T>)
    requires
        slice@.len() >= 4,
    ensures
        p.r == slice@[0],
        p.g == slice@[1],
        p.b == slice@[2],
        p.a == slice@[3],
{
    Rgba::new(slice[0], slice[1], slice[2], slice[3])
}

/// The RGB pixel whose channels are the first three samples of `slice`.
pub fn rgb_from_slice<T: MorphPixel>(slice: &[T]) -> (p: Rgb<T>)
    requires
        slice@.len() >= 3,
    ensures
        p.r == slice@[0],
        p.g == slice@[1],
        p.b == slice@[2],
{
    Rgb::new(slice[0], slice[1], slice[2])
}

/// Writes the four channels of `pixel` at `pos`, `pos + 1`, `pos + 2` and
/// `pos + 3`.
pub fn write_rgba_to_slice<T: MorphPixel>(dst: &mut [T], pos: usize, pixel: Rgba<T>)
    requires
        pos + 4 <= old(dst)@.len(),
    ensures
        final(dst)@ == old(dst)@.update(pos as int, pixel.r).update(pos + 1, pixel.g).update(
            pos + 2,
            pixel.b,
        ).update(pos + 3, pixel.a),
{
    dst[pos] = pixel.r;
    dst[pos + 1] = pixel.g;
    dst[pos + 2] = pixel.b;
    dst[pos + 3] = pixel.a;
}

/// Writes the three channels of `pixel` at `pos`, `pos + 1` and `pos + 2`.
pub fn write_rgb_to_slice<T: MorphPixel>(dst: &mut [T], pos: usize, pixel: Rgb<T>)
    requires
        pos + 3 <= old(dst)@.len(),
    ensures
        final(dst)@ == old(dst)@.update(pos as int, pixel.r).update(pos + 1, pixel.g).update(
            pos + 2,
            pixel.b,
        ),
{
    dst[pos] = pixel.r;
    dst[pos + 1] = pixel.g;
    dst[pos + 2] = pixel.b;
}

} // verus!
