use crate::pixel::MorphPixel;
use vstd::prelude::*;

verus! {

/// `a - b` in the sample type `T`: the difference, or the lowest value where
/// the difference falls below it.
pub open spec fn saturating_diff_value<T: MorphPixel>(a: int, b: int) -> int {
    if a - b >= T::lowest() {
        a - b
    } else {
        T::lowest()
    }
}

/// `a - b` sample by sample, saturating, over the length of `a`.
pub open spec fn gradient_image<T: MorphPixel>(a: Seq<T>, b: Seq<T>) -> Seq<T> {
    Seq::new(a.len(), |i: int| T::from_value(saturating_diff_value::<T>(a[i].value(), b[i].value())))
}

/// `dst` holds `dilation - erosion` (saturating) over the shortest of the three
/// slices, and what `old` held after that.
pub open spec fn gradient_written<T: MorphPixel>(
    dst: Seq<T>,
    old: Seq<T>,
    dilation: Seq<T>,
    erosion: Seq<T>,
) -> bool {
    &&& dst.len() == old.len()
    &&& forall|i: int|
        0 <= i < dst.len() ==> #[trigger] dst[i] == if i < dilation.len() && i < erosion.len() {
            T::from_value(saturating_diff_value::<T>(dilation[i].value(), erosion[i].value()))
        } else {
            old[i]
        }
}

/// Morphological gradient of two results: `dilation - erosion`, saturating at
/// the lowest sample value.
pub trait MorphGradient<T: MorphPixel> {
    fn morph_gradient(dilation: &[T], erosion: &[T], dst: &mut [T])
        ensures
            gradient_written(final(dst)@, old(dst)@, dilation@, erosion@),
    ;
}

/// Writes `dilation[i] - erosion[i]` (saturating) into `dst[i]`, for every `i`
/// the three slices share.
pub fn make_morph_gradient_sat<T: MorphPixel>(dilation: &[T], erosion: &[T], dst: &mut [T])
    ensures
        gradient_written(final(dst)@, old(dst)@, dilation@, erosion@),
{
    let n = dst.len();
    let nd = dilation.len();
    let ne = erosion.len();
    let mut i: usize = 0;
    while i < n && i < nd && i < ne
        invariant
            n == dst@.len(),
            nd == dilation@.len(),
            ne == erosion@.len(),
            dst@.len() == old(dst)@.len(),
            i <= n,
            i <= nd,
            i <= ne,
            forall|j: int|
                0 <= j < n ==> #[trigger] dst@[j] == if j < i {
                    T::from_value(saturating_diff_value::<T>(dilation@[j].value(), erosion@[j].value()))
                } else {
                    old(dst)@[j]
                },
        decreases n - i,
    {
        let v = dilation[i].saturating_diff(erosion[i]);
        proof {
            let d = saturating_diff_value::<T>(dilation@[i as int].value(), erosion@[i as int].value());
            T::lemma_value_bounds(v);
            T::lemma_from_value(d);
            T::lemma_value_injective(v, T::from_value(d));
        }
        dst[i] = v;
        i = i + 1;
    }
}

impl MorphGradient<u8> for u8 {
    fn morph_gradient(dilation: &[u8], erosion: &[u8], dst: &mut [u8]) {
        make_morph_gradient_sat(dilation, erosion, dst)
    }
}

impl MorphGradient<u16> for u16 {
    fn morph_gradient(dilation: &[u16], erosion: &[u16], dst: &mut [u16]) {
        make_morph_gradient_sat(dilation, erosion, dst)
    }
}

} // verus!
