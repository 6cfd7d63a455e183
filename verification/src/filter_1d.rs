use crate::border_mode::BorderMode;
use crate::difference::{gradient_image, make_morph_gradient_sat};
use crate::filter_1d_padding::make_arena_1d;
use crate::morph_base::{morph_apply, morph_pixel, plane_sample, window_values};
use crate::morph_error::MorphError;
use crate::op_impl::{
    ex_op_rank, lemma_morph_result_image, morph_ex_image, morph_result, vec_filled,
};
use crate::op_type::{
    lemma_reduce_from_neutral, reduce_from, MorphExOp, MorphOp,
};
use crate::pixel::MorphPixel;
use crate::plane::{lemma_plane_index_inverse, plane_index};
use crate::se_scan::{lemma_se_points_within, se_points, structuring_points, ScanPoint};
use vstd::prelude::*;

verus! {

/// The points of a 1D kernel: one per non-zero entry, at its offset from the
/// centre entry.
pub fn scan_kernel(kernel: &[u8]) -> (r: Vec<ScanPoint>)
    requires
        kernel@.len() % 2 == 1,
        kernel@.len() <= i32::MAX,
    ensures
        r@ == structuring_points(kernel@, kernel@.len() as int, 1),
{
    let kernel_width = kernel.len();
    let ghost kw = kernel_width as int;
    let half_width = kernel_width / 2;
    let mut scan_points: Vec<ScanPoint> = Vec::new();
    let mut x: usize = 0;
    while x < kernel_width
        invariant
            kw == kernel_width,
            kw == kernel@.len(),
            kw <= i32::MAX,
            half_width == kw / 2,
            x <= kw,
            scan_points@ == se_points(kernel@, kw, 1, x as int),
        decreases kw - x,
    {
        proof {
            lemma_plane_index_inverse(kw, 0, x as int);
            assert(plane_index(kw, 0, x as int) == x);
        }
        if kernel[x] != 0 {
            scan_points.push(ScanPoint::new(x as i32 - half_width as i32, 0));
        }
        x = x + 1;
    }
    scan_points
}

/// Dilation (maximum) or erosion (minimum) of a padded line: sample `index` of
/// `dst` becomes the combination, from the neutral value, of
/// `src[index + point.x + pad]` over the points.
pub fn morph_1d_common<T: MorphPixel>(
    src: &[T],
    dst: &mut [T],
    pad: usize,
    points: &[ScanPoint],
    op: MorphOp,
)
    requires
        src@.len() == old(dst)@.len() + 2 * pad,
        src@.len() <= isize::MAX,
        forall|k: int| 0 <= k < points@.len() ==> 0 <= #[trigger] points@[k].x + pad <= 2 * pad,
    ensures
        final(dst)@.len() == old(dst)@.len(),
        forall|i: int|
            0 <= i < final(dst)@.len() ==> (#[trigger] final(dst)@[i]).value() == reduce_from(
                op,
                if op == MorphOp::Dilate {
                    T::lowest()
                } else {
                    T::highest()
                },
                Seq::new(points@.len(), |k: int| src@[i + points@[k].x + pad].value()),
                points@.len() as int,
            ),
{
    let n = dst.len();
    let np = points.len();
    let _src_len = src.len();
    let mut offsets: Vec<usize> = Vec::new();
    let mut k: usize = 0;
    while k < np
        invariant
            np == points@.len(),
            forall|j: int| 0 <= j < np ==> 0 <= #[trigger] points@[j].x + pad <= 2 * pad,
            src@.len() == n + 2 * pad,
            src@.len() <= isize::MAX,
            _src_len == src@.len(),
            k <= np,
            offsets@.len() == k,
            forall|j: int| 0 <= j < k ==> #[trigger] offsets@[j] == points@[j].x + pad,
        decreases np - k,
    {
        let p = points[k];
        assert(0 <= points@[k as int].x + pad <= 2 * pad);
        offsets.push((p.x as isize + pad as isize) as usize);
        k = k + 1;
    }
    let neutral = match op {
        MorphOp::Dilate => T::min_value(),
        MorphOp::Erode => T::max_value(),
    };
    let mut index: usize = 0;
    while index < n
        invariant
            n == dst@.len(),
            n == old(dst)@.len(),
            np == points@.len(),
            src@.len() == n + 2 * pad,
            _src_len == src@.len(),
            offsets@.len() == np,
            forall|j: int| 0 <= j < np ==> #[trigger] offsets@[j] == points@[j].x + pad,
            forall|j: int| 0 <= j < np ==> 0 <= #[trigger] points@[j].x + pad <= 2 * pad,
            neutral.value() == if op == MorphOp::Dilate {
                T::lowest()
            } else {
                T::highest()
            },
            index <= n,
            forall|i: int|
                0 <= i < index ==> (#[trigger] dst@[i]).value() == reduce_from(
                    op,
                    neutral.value(),
                    Seq::new(np as nat, |k: int| src@[i + points@[k].x + pad].value()),
                    np as int,
                ),
        decreases n - index,
    {
        let ghost s = Seq::new(np as nat, |k: int| src@[index + points@[k].x + pad].value());
        let mut acc = neutral;
        let mut j: usize = 0;
        while j < np
            invariant
                np == points@.len(),
                src@.len() == n + 2 * pad,
                _src_len == src@.len(),
                index < n,
                offsets@.len() == np,
                forall|jj: int| 0 <= jj < np ==> #[trigger] offsets@[jj] == points@[jj].x + pad,
                forall|jj: int| 0 <= jj < np ==> 0 <= #[trigger] points@[jj].x + pad <= 2 * pad,
                s == Seq::new(np as nat, |k: int| src@[index + points@[k].x + pad].value()),
                j <= np,
                acc.value() == reduce_from(op, neutral.value(), s, j as int),
            decreases np - j,
        {
            assert(0 <= points@[j as int].x + pad <= 2 * pad);
            let v = src[index + offsets[j]];
            acc = morph_apply(op, acc, v);
            j = j + 1;
        }
        let ghost before = dst@;
        dst[index] = acc;
        proof {
            assert forall|i: int| 0 <= i < index + 1 implies (#[trigger] dst@[i]).value() == reduce_from(
                op,
                neutral.value(),
                Seq::new(np as nat, |k: int| src@[i + points@[k].x + pad].value()),
                np as int,
            ) by {
                if i < index {
                    assert(dst@[i] == before[i]);
                }
            }
        }
        index = index + 1;
    }
}

/// The error a 1D filter reports, if any: an even kernel first, then slices of
/// different lengths.
pub open spec fn filter_1d_error(kernel_len: int, src_len: int, dst_len: int) -> Option<MorphError> {
    if kernel_len % 2 == 0 {
        Some(MorphError::KernelSizeMustBeOdd)
    } else if src_len != dst_len {
        Some(MorphError::SourceAndDestinationMustMatch)
    } else {
        None
    }
}

/// What a 1D filter needs: the kernel's offsets fit an `i32`, the padded line
/// fits an allocation, and a line that is read beyond its ends is not empty.
pub open spec fn filter_1d_limits(
    kernel: Seq<u8>,
    src_len: int,
    dst_len: int,
    mode: BorderMode,
) -> bool {
    filter_1d_error(kernel.len() as int, src_len, dst_len) is None ==> {
        &&& kernel.len() <= i32::MAX
        &&& src_len + 2 * (kernel.len() / 2) <= isize::MAX
        &&& structuring_points(kernel, kernel.len() as int, 1).len() > 0 && kernel.len() / 2 > 0
            && mode != BorderMode::Constant ==> src_len >= 1
    }
}

/// The result of an operation on a line: the operation on a plane one row high.
pub open spec fn morph_line_image<T: MorphPixel>(
    op: MorphExOp,
    src: Seq<T>,
    kernel: Seq<u8>,
    mode: BorderMode,
    constant: T,
) -> Seq<T> {
    morph_ex_image(op, src, src.len() as int, 1, kernel, kernel.len() as int, 1, mode, constant)
}

/// What a 1D filter reports and leaves in its destination.
pub open spec fn filter_1d_outcome<T: MorphPixel>(
    r: Result<(), MorphError>,
    src: Seq<T>,
    old_dst: Seq<T>,
    new_dst: Seq<T>,
    kernel: Seq<u8>,
    op: MorphExOp,
    mode: BorderMode,
    constant: T,
) -> bool {
    let e = filter_1d_error(kernel.len() as int, src.len() as int, old_dst.len() as int);
    &&& (r is Ok <==> e is None)
    &&& (r matches Err(m) ==> Some(m) == e && new_dst == old_dst)
    &&& (r is Ok ==> new_dst == morph_line_image(op, src, kernel, mode, constant))
}

/// Dilation or erosion of a line.
pub fn filter_1d_impl_base<T: MorphPixel>(
    src: &[T],
    dst: &mut [T],
    kernel: &[u8],
    op: MorphOp,
    border_mode: BorderMode,
    border_constant: T,
) -> (r: Result<(), MorphError>)
    requires
        filter_1d_limits(kernel@, src@.len() as int, old(dst)@.len() as int, border_mode),
    ensures
        r is Ok <==> filter_1d_error(kernel@.len() as int, src@.len() as int, old(dst)@.len() as int) is None,
        r matches Err(m) ==> Some(m) == filter_1d_error(
            kernel@.len() as int,
            src@.len() as int,
            old(dst)@.len() as int,
        ) && final(dst)@ == old(dst)@,
        r is Ok ==> morph_result(
            final(dst)@,
            op,
            src@,
            src@.len() as int,
            1,
            kernel@,
            kernel@.len() as int,
            1,
            border_mode,
            border_constant,
        ),
{
    let kernel_len = kernel.len();
    if kernel_len % 2 == 0 {
        return Err(MorphError::KernelSizeMustBeOdd);
    }
    let n = src.len();
    if n != dst.len() {
        return Err(MorphError::SourceAndDestinationMustMatch);
    }
    let ghost kw = kernel_len as int;
    let scanned_kernel = scan_kernel(kernel);
    let ghost pts = scanned_kernel@;
    if scanned_kernel.len() == 0 {
        let mut i: usize = 0;
        while i < n
            invariant
                n == src@.len(),
                dst@.len() == n,
                i <= n,
                forall|j: int| 0 <= j < i ==> dst@[j] == src@[j],
            decreases n - i,
        {
            dst[i] = src[i];
            i = i + 1;
        }
        assert(dst@ =~= src@);
        return Ok(());
    }
    let pad = kernel_len / 2;
    let arena_src = make_arena_1d(src, kernel_len, border_mode, border_constant);
    proof {
        lemma_se_points_within(kernel@, kw, 1, kw);
        assert forall|k: int| 0 <= k < pts.len() implies 0 <= #[trigger] pts[k].x + pad <= 2 * pad by {
            assert(0 <= pts[k].x + kw / 2 < kw);
        }
    }
    morph_1d_common(arena_src.as_slice(), dst, pad, scanned_kernel.as_slice(), op);
    proof {
        let neutral = if op == MorphOp::Dilate {
            T::lowest()
        } else {
            T::highest()
        };
        assert forall|y: int, x: int| 0 <= y < 1 && 0 <= x < n implies (
        #[trigger] dst@[plane_index(n as int, y, x)]).value() == morph_pixel(
            op,
            src@,
            n as int,
            1,
            border_mode,
            border_constant,
            pts,
            y,
            x,
        ) by {
            assert(plane_index(n as int, y, x) == x);
            let s = Seq::new(pts.len(), |k: int| arena_src@[x + pts[k].x + pad].value());
            let wv = window_values(src@, n as int, 1, border_mode, border_constant, pts, 0, x);
            assert forall|k: int| 0 <= k < pts.len() implies s[k] == wv[k] by {
                assert(0 <= pts[k].x + kw / 2 < kw && 0 <= pts[k].y + 1int / 2 < 1);
                assert(arena_src@[x + pts[k].x + pad] == plane_sample(
                    src@,
                    n as int,
                    1,
                    border_mode,
                    border_constant,
                    0,
                    x + pts[k].x + pad - pad,
                ));
            }
            assert(s =~= wv);
            assert forall|i: int| 0 <= i < s.len() implies T::lowest() <= #[trigger] s[i] <= T::highest() by {
                T::lemma_value_bounds(arena_src@[x + pts[i].x + pad]);
            }
            lemma_reduce_from_neutral(op, neutral, s, s.len() as int);
        }
    }
    Ok(())
}

/// Any operation of the library on a line, built from dilation and erosion as
/// on planes.
pub fn filter_1d_impl<T: MorphPixel>(
    src: &[T],
    dst: &mut [T],
    kernel: &[u8],
    op: MorphExOp,
    border_mode: BorderMode,
    border_constant: T,
) -> (r: Result<(), MorphError>)
    requires
        filter_1d_limits(kernel@, src@.len() as int, old(dst)@.len() as int, border_mode),
    ensures
        filter_1d_outcome(r, src@, old(dst)@, final(dst)@, kernel@, op, border_mode, border_constant),
    decreases ex_op_rank(op),
{
    let ghost w = src@.len() as int;
    let ghost kw = kernel@.len() as int;
    let ghost se = kernel@;
    let ghost img = src@;
    let n = dst.len();
    match op {
        MorphExOp::Dilate | MorphExOp::Erode => {
            let basic = if op == MorphExOp::Dilate {
                MorphOp::Dilate
            } else {
                MorphOp::Erode
            };
            let r = filter_1d_impl_base(src, dst, kernel, basic, border_mode, border_constant);
            if r.is_ok() {
                proof {
                    lemma_morph_result_image(dst@, basic, img, w, 1, se, kw, 1, border_mode, border_constant);
                }
            }
            r
        },
        MorphExOp::Opening | MorphExOp::Closing => {
            let (first, second) = if op == MorphExOp::Opening {
                (MorphOp::Erode, MorphOp::Dilate)
            } else {
                (MorphOp::Dilate, MorphOp::Erode)
            };
            let mut transient: Vec<T> = vec_filled(T::min_value(), n);
            let r = filter_1d_impl_base(src, transient.as_mut_slice(), kernel, first, border_mode, border_constant);
            match r {
                Err(e) => {
                    return Err(e);
                },
                Ok(()) => {},
            }
            proof {
                lemma_morph_result_image(transient@, first, img, w, 1, se, kw, 1, border_mode, border_constant);
            }
            let r2 = filter_1d_impl_base(transient.as_slice(), dst, kernel, second, border_mode, border_constant);
            proof {
                lemma_morph_result_image(dst@, second, transient@, w, 1, se, kw, 1, border_mode, border_constant);
            }
            r2
        },
        MorphExOp::Gradient => {
            let mut dilation: Vec<T> = vec_filled(T::min_value(), n);
            let r = filter_1d_impl_base(src, dilation.as_mut_slice(), kernel, MorphOp::Dilate, border_mode, border_constant);
            match r {
                Err(e) => {
                    return Err(e);
                },
                Ok(()) => {},
            }
            proof {
                lemma_morph_result_image(dilation@, MorphOp::Dilate, img, w, 1, se, kw, 1, border_mode, border_constant);
            }
            let mut erosion: Vec<T> = vec_filled(T::min_value(), n);
            let r2 = filter_1d_impl_base(src, erosion.as_mut_slice(), kernel, MorphOp::Erode, border_mode, border_constant);
            match r2 {
                Err(e) => {
                    return Err(e);
                },
                Ok(()) => {},
            }
            proof {
                lemma_morph_result_image(erosion@, MorphOp::Erode, img, w, 1, se, kw, 1, border_mode, border_constant);
            }
            make_morph_gradient_sat(dilation.as_slice(), erosion.as_slice(), dst);
            assert(dst@ =~= gradient_image(dilation@, erosion@));
            Ok(())
        },
        MorphExOp::TopHat | MorphExOp::BlackHat => {
            let inner = if op == MorphExOp::TopHat {
                MorphExOp::Opening
            } else {
                MorphExOp::Closing
            };
            let mut opened: Vec<T> = vec_filled(T::min_value(), n);
            let r = filter_1d_impl(src, opened.as_mut_slice(), kernel, inner, border_mode, border_constant);
            match r {
                Err(e) => {
                    return Err(e);
                },
                Ok(()) => {},
            }
            make_morph_gradient_sat(src, opened.as_slice(), dst);
            assert(dst@ =~= gradient_image(img, opened@));
            Ok(())
        },
    }
}

/// 1D morphology of a 16-bit line. `border_value` fills the border in
/// [BorderMode::Constant].
pub fn morph_1d_u16(
    src: &[u16],
    dst: &mut [u16],
    kernel: &[u8],
    op: MorphExOp,
    border_mode: BorderMode,
    border_value: u16,
) -> (r: Result<(), MorphError>)
    requires
        filter_1d_limits(kernel@, src@.len() as int, old(dst)@.len() as int, border_mode),
    ensures
        filter_1d_outcome(r, src@, old(dst)@, final(dst)@, kernel@, op, border_mode, border_value),
{
    filter_1d_impl(src, dst, kernel, op, border_mode, border_value)
}

/// 1D morphology of an 8-bit line. `border_value` fills the border in
/// [BorderMode::Constant].
pub fn morph_1d_u8(
    src: &[u8],
    dst: &mut [u8],
    kernel: &[u8],
    op: MorphExOp,
    border_mode: BorderMode,
    border_value: u8,
) -> (r: Result<(), MorphError>)
    requires
        filter_1d_limits(kernel@, src@.len() as int, old(dst)@.len() as int, border_mode),
    ensures
        filter_1d_outcome(r, src@, old(dst)@, final(dst)@, kernel@, op, border_mode, border_value),
{
    filter_1d_impl(src, dst, kernel, op, border_mode, border_value)
}

} // verus!
