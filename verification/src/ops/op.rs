use crate::op_type::{reduce_from, MorphOp};
use crate::ops::rgb::{rgb_channel, rgba_channel, Rgb, Rgba};
use crate::pixel::MorphPixel;
use vstd::prelude::*;

verus! {

/// The value that starts a combination under `op`: the lowest sample value for
/// dilation, the highest for erosion.
pub open spec fn neutral_value<T: MorphPixel>(op: MorphOp) -> int {
    match op {
        MorphOp::Dilate => T::lowest(),
        MorphOp::Erode => T::highest(),
    }
}

/// The values of a slice of samples.
pub open spec fn sample_values<T: MorphPixel>(s: Seq<T>) -> Seq<int> {
    Seq::new(s.len(), |i: int| s[i].value())
}

/// The maximum (dilation) or minimum (erosion) of a slice, starting from the
/// neutral value: the lowest value for an empty slice under dilation, the
/// highest under erosion.
pub fn fast_morph_op_1d<T: MorphPixel>(op: MorphOp, slice: &[T]) -> (r: T)
    ensures
        r.value() == reduce_from(
            op,
            neutral_value::<T>(op),
            sample_values(slice@),
            slice@.len() as int,
        ),
{
    let mut best_val = match op {
        MorphOp::Dilate => T::min_value(),
        MorphOp::Erode => T::max_value(),
    };
    let n = slice.len();
    let mut i: usize = 0;
    while i < n
        invariant
            n == slice@.len(),
            i <= n,
            best_val.value() == reduce_from(
                op,
                neutral_value::<T>(op),
                sample_values(slice@),
                i as int,
            ),
        decreases n - i,
    {
        best_val = match op {
            MorphOp::Dilate => best_val.s_max(slice[i]),
            MorphOp::Erode => best_val.s_min(slice[i]),
        };
        i = i + 1;
    }
    best_val
}

/// The channel-wise maximum (dilation) or minimum (erosion) of a slice of RGB
/// pixels, each channel starting from the neutral value.
pub fn fast_morph_op_3d<T: MorphPixel>(op: MorphOp, slice: &[Rgb<T>]) -> (r: Rgb<T>)
    ensures
        forall|c: int|
            0 <= c < 3 ==> #[trigger] r.channel(c) == reduce_from(
                op,
                neutral_value::<T>(op),
                rgb_channel(slice@, c),
                slice@.len() as int,
            ),
{
    let mut best_val = Rgb::dup(
        match op {
            MorphOp::Dilate => T::min_value(),
            MorphOp::Erode => T::max_value(),
        },
    );
    let n = slice.len();
    let mut i: usize = 0;
    while i < n
        invariant
            n == slice@.len(),
            i <= n,
            forall|c: int|
                0 <= c < 3 ==> #[trigger] best_val.channel(c) == reduce_from(
                    op,
                    neutral_value::<T>(op),
                    rgb_channel(slice@, c),
                    i as int,
                ),
        decreases n - i,
    {
        let element = slice[i];
        best_val = match op {
            MorphOp::Dilate => best_val.max_p(element),
            MorphOp::Erode => best_val.min_p(element),
        };
        proof {
            assert forall|c: int| 0 <= c < 3 implies #[trigger] best_val.channel(c) == reduce_from(
                op,
                neutral_value::<T>(op),
                rgb_channel(slice@, c),
                i + 1,
            ) by {
                assert(rgb_channel(slice@, c)[i as int] == element.channel(c));
            }
        }
        i = i + 1;
    }
    best_val
}

/// The channel-wise maximum (dilation) or minimum (erosion) of a slice of RGBA
/// pixels, each channel starting from the neutral value.
pub fn fast_morph_op_4d<T: MorphPixel>(op: MorphOp, slice: &[Rgba<T>]) -> (r: Rgba<T>)
    ensures
        forall|c: int|
            0 <= c < 4 ==> #[trigger] r.channel(c) == reduce_from(
                op,
                neutral_value::<T>(op),
                rgba_channel(slice@, c),
                slice@.len() as int,
            ),
{
    let mut best_val = Rgba::dup(
        match op {
            MorphOp::Dilate => T::min_value(),
            MorphOp::Erode => T::max_value(),
        },
    );
    let n = slice.len();
    let mut i: usize = 0;
    while i < n
        invariant
            n == slice@.len(),
            i <= n,
            forall|c: int|
                0 <= c < 4 ==> #[trigger] best_val.channel(c) == reduce_from(
                    op,
                    neutral_value::<T>(op),
                    rgba_channel(slice@, c),
                    i as int,
                ),
        decreases n - i,
    {
        let element = slice[i];
        best_val = match op {
            MorphOp::Dilate => best_val.max_p(element),
            MorphOp::Erode => best_val.min_p(element),
        };
        proof {
            assert forall|c: int| 0 <= c < 4 implies #[trigger] best_val.channel(c) == reduce_from(
                op,
                neutral_value::<T>(op),
                rgba_channel(slice@, c),
                i + 1,
            ) by {
                assert(rgba_channel(slice@, c)[i as int] == element.channel(c));
            }
        }
        i = i + 1;
    }
    best_val
}

} // verus!
