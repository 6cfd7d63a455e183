use crate::border_mode::{border_source, lemma_border_source_in_range, BorderMode};
use crate::op_type::{combine, reduce_all, MorphOp};
use crate::pixel::MorphPixel;
use crate::plane::{lemma_plane_index_bounds, plane_index};
use crate::se_scan::ScanPoint;
use vstd::prelude::*;

verus! {

/// The sample that position `(y, x)` of a `width` x `height` plane reads under
/// `mode`: the plane's own sample inside it; outside it, the constant under
/// `Constant` and otherwise the sample the mode's rule points to on each axis.
pub open spec fn plane_sample<T>(
    img: Seq<T>,
    width: int,
    height: int,
    mode: BorderMode,
    constant: T,
    y: int,
    x: int,
) -> T {
    if mode == BorderMode::Constant && !(0 <= y < height && 0 <= x < width) {
        constant
    } else {
        img[plane_index(width, border_source(mode, y, height), border_source(mode, x, width))]
    }
}

/// Every point lies inside a `kw` x `kh` element anchored at its centre.
pub open spec fn points_within(pts: Seq<ScanPoint>, kw: int, kh: int) -> bool {
    forall|k: int|
        0 <= k < pts.len() ==> 0 <= #[trigger] pts[k].x + kw / 2 < kw && 0 <= pts[k].y + kh / 2
            < kh
}

/// The values under the structuring element placed at `(y, x)`, one per point.
pub open spec fn window_values<T: MorphPixel>(
    img: Seq<T>,
    width: int,
    height: int,
    mode: BorderMode,
    constant: T,
    pts: Seq<ScanPoint>,
    y: int,
    x: int,
) -> Seq<int> {
    Seq::new(
        pts.len(),
        |k: int| plane_sample(img, width, height, mode, constant, y + pts[k].y, x + pts[k].x).value(),
    )
}

/// The value that `op` gives at `(y, x)`: the maximum (dilation) or the minimum
/// (erosion) of the values under the structuring element placed there.
pub open spec fn morph_pixel<T: MorphPixel>(
    op: MorphOp,
    img: Seq<T>,
    width: int,
    height: int,
    mode: BorderMode,
    constant: T,
    pts: Seq<ScanPoint>,
    y: int,
    x: int,
) -> int {
    reduce_all(op, window_values(img, width, height, mode, constant, pts, y, x))
}

/// `out` holds the result of `op` on every pixel of the plane.
pub open spec fn morph_plane_holds<T: MorphPixel>(
    out: Seq<T>,
    op: MorphOp,
    img: Seq<T>,
    width: int,
    height: int,
    mode: BorderMode,
    constant: T,
    pts: Seq<ScanPoint>,
) -> bool {
    &&& out.len() == width * height
    &&& forall|y: int, x: int|
        0 <= y < height && 0 <= x < width ==> (#[trigger] out[plane_index(width, y, x)]).value()
            == morph_pixel(op, img, width, height, mode, constant, pts, y, x)
}

/// A sample read under any mode is a sample of the plane or the constant.
pub proof fn lemma_plane_sample_source<T>(
    img: Seq<T>,
    width: int,
    height: int,
    mode: BorderMode,
    constant: T,
    y: int,
    x: int,
)
    requires
        width >= 1,
        height >= 1,
        img.len() == width * height,
    ensures
        mode == BorderMode::Constant && !(0 <= y < height && 0 <= x < width) ==> plane_sample(
            img,
            width,
            height,
            mode,
            constant,
            y,
            x,
        ) == constant,
        !(mode == BorderMode::Constant && !(0 <= y < height && 0 <= x < width)) ==> {
            let sy = border_source(mode, y, height);
            let sx = border_source(mode, x, width);
            &&& 0 <= sy < height
            &&& 0 <= sx < width
            &&& 0 <= plane_index(width, sy, sx) < img.len()
            &&& plane_sample(img, width, height, mode, constant, y, x) == img[plane_index(
                width,
                sy,
                sx,
            )]
        },
{
    lemma_border_source_in_range(mode, y, height);
    lemma_border_source_in_range(mode, x, width);
    lemma_plane_index_bounds(
        width,
        height,
        border_source(mode, y, height),
        border_source(mode, x, width),
    );
}

} // verus!

verus! {

/// The values that the arena `a` (`aw` samples wide, padded by `pad_w` and
/// `pad_h`) holds under the structuring element placed at `(y, x)` of the
/// plane, one per point.
pub open spec fn arena_window<T: MorphPixel>(
    a: Seq<T>,
    aw: int,
    pad_w: int,
    pad_h: int,
    pts: Seq<ScanPoint>,
    y: int,
    x: int,
) -> Seq<int> {
    Seq::new(
        pts.len(),
        |k: int| a[plane_index(aw, y + pad_h + pts[k].y, x + pad_w + pts[k].x)].value(),
    )
}

/// Every point stays within `pad_w` columns and `pad_h` rows of the anchor.
pub open spec fn points_within_pad(pts: Seq<ScanPoint>, pad_w: int, pad_h: int) -> bool {
    forall|k: int|
        0 <= k < pts.len() ==> 0 <= #[trigger] pts[k].x + pad_w <= 2 * pad_w && 0 <= pts[k].y
            + pad_h <= 2 * pad_h
}

/// `a` and `b` combined under `op`.
pub fn morph_apply<T: MorphPixel>(op: MorphOp, a: T, b: T) -> (r: T)
    ensures
        r.value() == combine(op, a.value(), b.value()),
{
    match op {
        MorphOp::Dilate => a.s_max(b),
        MorphOp::Erode => a.s_min(b),
    }
}

} // verus!
