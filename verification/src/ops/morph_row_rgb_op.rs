use crate::arena::{lemma_pixel_index, pixel_index, Arena};
use crate::flat_se::AnalyzedSe;
use crate::img_size::ImageSize;
use crate::morph_base::points_within_pad;
use crate::op_type::{lemma_reduce_from_neutral, reduce_all, MorphOp};
use crate::ops::op::{fast_morph_op_3d, neutral_value};
use crate::ops::rgb::{rgb_channel, Rgb};
use crate::ops::utils::{rgb_from_slice, write_rgb_to_slice};
use crate::pixel::MorphPixel;
use crate::plane::plane_index;
use crate::se_scan::ScanPoint;
use vstd::prelude::*;

verus! {

/// The values of channel `c` that an arena `aw` pixels wide, of `cn`
/// interleaved channels and padded by `pad_w` and `pad_h`, holds under the
/// structuring element placed at `(y, x)` of the image, one per point.
pub open spec fn pixel_window<T: MorphPixel>(
    a: Seq<T>,
    aw: int,
    cn: int,
    c: int,
    pad_w: int,
    pad_h: int,
    pts: Seq<ScanPoint>,
    y: int,
    x: int,
) -> Seq<int> {
    Seq::new(
        pts.len(),
        |k: int| a[pixel_index(aw, cn, y + pad_h + pts[k].y, x + pad_w + pts[k].x, c)].value(),
    )
}

/// What the RGB row filter needs of the arena (three interleaved channels), the
/// points and the destination.
pub open spec fn rgb_row_ready<T>(
    arena: Arena<T>,
    dst_len: int,
    width: int,
    height: int,
    pts: Seq<ScanPoint>,
) -> bool {
    &&& width >= 1
    &&& height >= 1
    &&& arena.width == width + 2 * arena.pad_w
    &&& arena.height == height + 2 * arena.pad_h
    &&& arena.arena@.len() == 3 * (arena.width * arena.height)
    &&& 3 * (arena.width * arena.height) <= isize::MAX
    &&& dst_len == 3 * (width * height)
    &&& pts.len() >= 1
    &&& points_within_pad(pts, arena.pad_w as int, arena.pad_h as int)
}

/// `dst` holds row `y` of the result of `op` computed channel by channel on the
/// RGB arena, and outside that row holds what `old` held.
pub open spec fn rgb_row_written<T: MorphPixel>(
    dst: Seq<T>,
    old: Seq<T>,
    op: MorphOp,
    arena: Arena<T>,
    width: int,
    pts: Seq<ScanPoint>,
    y: int,
) -> bool {
    &&& dst.len() == old.len()
    &&& forall|x: int, c: int|
        0 <= x < width && 0 <= c < 3 ==> (#[trigger] dst[pixel_index(width, 3, y, x, c)]).value()
            == reduce_all(
            op,
            pixel_window(
                arena.arena@,
                arena.width as int,
                3,
                c,
                arena.pad_w as int,
                arena.pad_h as int,
                pts,
                y,
                x,
            ),
        )
    &&& forall|i: int|
        0 <= i < dst.len() && !(3 * (y * width) <= i < 3 * (y * width + width)) ==> #[trigger] dst[i]
            == old[i]
}

/// Computes one row of dilation or erosion on a padded image of interleaved
/// RGB pixels.
#[derive(Clone, Copy)]
pub struct MorphOpFilterRgb2DRow {
    pub op: MorphOp,
}

impl MorphOpFilterRgb2DRow {
    pub fn new(op: MorphOp) -> (r: MorphOpFilterRgb2DRow)
        ensures
            r.op == op,
    {
        MorphOpFilterRgb2DRow { op }
    }

    /// Writes row `y` of the result into `dst`: each pixel gathers the arena
    /// pixels under the points and takes their channel-wise maximum
    /// (dilation) or minimum (erosion).
    pub fn dispatch_row<T: MorphPixel>(
        &self,
        arena: &Arena<T>,
        dst: &mut [T],
        image_size: ImageSize,
        analyzed_se: &AnalyzedSe,
        y: usize,
    )
        requires
            rgb_row_ready(
                *arena,
                old(dst)@.len() as int,
                image_size.width as int,
                image_size.height as int,
                analyzed_se.left_front.element_offsets@,
            ),
            y < image_size.height,
        ensures
            rgb_row_written(
                final(dst)@,
                old(dst)@,
                self.op,
                *arena,
                image_size.width as int,
                analyzed_se.left_front.element_offsets@,
                y as int,
            ),
    {
        let op = self.op;
        let width = image_size.width;
        let height = image_size.height;
        let points = &analyzed_se.left_front.element_offsets;
        let ghost pts = points@;
        let aw = arena.width;
        let ghost ah = arena.height as int;
        let pad_w = arena.pad_w;
        let pad_h = arena.pad_h;
        let n = points.len();
        let dst_len = dst.len();
        let src = arena.arena.as_slice();
        let src_len = src.len();
        assert(aw <= isize::MAX && ah <= isize::MAX && aw * ah <= isize::MAX) by (nonlinear_arith)
            requires
                3 * (aw * ah) <= isize::MAX,
                aw >= 1,
                ah >= 1,
        ;
        assert(3 * (width * height) <= isize::MAX) by (nonlinear_arith)
            requires
                3 * (aw * ah) <= isize::MAX,
                width <= aw,
                height <= ah,
        ;

        let mut offsets: Vec<usize> = Vec::new();
        let mut k: usize = 0;
        while k < n
            invariant
                n == pts.len(),
                pts == points@,
                rgb_row_ready(*arena, dst_len as int, width as int, height as int, pts),
                aw == arena.width,
                ah == arena.height,
                pad_w == arena.pad_w,
                pad_h == arena.pad_h,
                aw <= isize::MAX,
                ah <= isize::MAX,
                y < height,
                k <= n,
                offsets@.len() == k,
                forall|j: int|
                    0 <= j < k ==> #[trigger] offsets@[j] == pixel_index(
                        aw as int,
                        3,
                        y + pad_h + pts[j].y,
                        pad_w + pts[j].x,
                        0,
                    ),
            decreases n - k,
        {
            let p = points[k];
            assert(0 <= pts[k as int].x + pad_w <= 2 * pad_w);
            let oy = (p.y as isize + pad_h as isize) as usize;
            let ox = (p.x as isize + pad_w as isize) as usize;
            proof {
                lemma_pixel_index(aw as int, ah, 3, (y + oy) as int, ox as int, 0);
            }
            offsets.push(3 * ((y + oy) * aw + ox));
            k = k + 1;
        }

        let mut x: usize = 0;
        while x < width
            invariant
                n == pts.len(),
                pts == points@,
                rgb_row_ready(*arena, dst_len as int, width as int, height as int, pts),
                dst_len == dst@.len(),
                src@ == arena.arena@,
                src_len == src@.len(),
                aw == arena.width,
                ah == arena.height,
                pad_w == arena.pad_w,
                pad_h == arena.pad_h,
                aw <= isize::MAX,
                ah <= isize::MAX,
                3 * (width * height) <= isize::MAX,
                y < height,
                x <= width,
                offsets@.len() == n,
                forall|j: int|
                    0 <= j < n ==> #[trigger] offsets@[j] == pixel_index(
                        aw as int,
                        3,
                        y + pad_h + pts[j].y,
                        pad_w + pts[j].x,
                        0,
                    ),
                dst@.len() == old(dst)@.len(),
                forall|xx: int, c: int|
                    0 <= xx < x && 0 <= c < 3 ==> (#[trigger] dst@[pixel_index(
                        width as int,
                        3,
                        y as int,
                        xx,
                        c,
                    )]).value() == reduce_all(
                        op,
                        pixel_window(
                            arena.arena@,
                            aw as int,
                            3,
                            c,
                            pad_w as int,
                            pad_h as int,
                            pts,
                            y as int,
                            xx,
                        ),
                    ),
                forall|i: int|
                    0 <= i < dst@.len() && !(3 * (y * width) <= i < 3 * (y * width + x))
                        ==> #[trigger] dst@[i] == old(dst)@[i],
            decreases width - x,
        {
            let mut items: Vec<Rgb<T>> = Vec::new();
            let mut j: usize = 0;
            while j < n
                invariant
                    n == pts.len(),
                    pts == points@,
                    rgb_row_ready(*arena, dst_len as int, width as int, height as int, pts),
                    src@ == arena.arena@,
                    src_len == src@.len(),
                    aw == arena.width,
                    ah == arena.height,
                    pad_w == arena.pad_w,
                    pad_h == arena.pad_h,
                    y < height,
                    x < width,
                    offsets@.len() == n,
                    forall|jj: int|
                        0 <= jj < n ==> #[trigger] offsets@[jj] == pixel_index(
                            aw as int,
                            3,
                            y + pad_h + pts[jj].y,
                            pad_w + pts[jj].x,
                            0,
                        ),
                    j <= n,
                    items@.len() == j,
                    forall|jj: int, c: int|
                        0 <= jj < j && 0 <= c < 3 ==> #[trigger] items@[jj].channel(c)
                            == pixel_window(
                            arena.arena@,
                            aw as int,
                            3,
                            c,
                            pad_w as int,
                            pad_h as int,
                            pts,
                            y as int,
                            x as int,
                        )[jj],
                decreases n - j,
            {
                let ghost yy = y + pad_h + pts[j as int].y;
                let ghost xx = x + pad_w + pts[j as int].x;
                assert(0 <= pts[j as int].x + pad_w <= 2 * pad_w);
                proof {
                    lemma_pixel_index(aw as int, ah, 3, yy, xx, 0);
                    lemma_pixel_index(aw as int, ah, 3, yy, xx, 2);
                    assert(offsets@[j as int] + 3 * x == pixel_index(aw as int, 3, yy, xx, 0));
                }
                let base = offsets[j] + 3 * x;
                let pixel = rgb_from_slice(&src[base..base + 3]);
                let ghost before = items@;
                items.push(pixel);
                proof {
                    assert forall|jj: int, c: int| 0 <= jj < j + 1 && 0 <= c < 3 implies
                        #[trigger] items@[jj].channel(c) == pixel_window(
                        arena.arena@,
                        aw as int,
                        3,
                        c,
                        pad_w as int,
                        pad_h as int,
                        pts,
                        y as int,
                        x as int,
                    )[jj] by {
                        if jj < j {
                            assert(items@[jj] == before[jj]);
                        } else {
                            assert(pixel_index(aw as int, 3, yy, xx, c) == base + c);
                        }
                    }
                }
                j = j + 1;
            }
            let value = fast_morph_op_3d(op, items.as_slice());
            proof {
                assert forall|c: int| 0 <= c < 3 implies #[trigger] value.channel(c) == reduce_all(
                    op,
                    pixel_window(
                        arena.arena@,
                        aw as int,
                        3,
                        c,
                        pad_w as int,
                        pad_h as int,
                        pts,
                        y as int,
                        x as int,
                    ),
                ) by {
                    let win = pixel_window(
                        arena.arena@,
                        aw as int,
                        3,
                        c,
                        pad_w as int,
                        pad_h as int,
                        pts,
                        y as int,
                        x as int,
                    );
                    assert(rgb_channel(items@, c) =~= win);
                    assert forall|i: int| 0 <= i < win.len() implies T::lowest() <= #[trigger] win[i]
                        <= T::highest() by {
                        T::lemma_value_bounds(items@[i].r);
                        T::lemma_value_bounds(items@[i].g);
                        T::lemma_value_bounds(items@[i].b);
                        assert(win[i] == items@[i].channel(c));
                    }
                    lemma_reduce_from_neutral(op, neutral_value::<T>(op), win, n as int);
                }
                lemma_pixel_index(width as int, height as int, 3, y as int, x as int, 0);
                lemma_pixel_index(width as int, height as int, 3, y as int, x as int, 2);
            }
            let pos = 3 * (y * width + x);
            let ghost before = dst@;
            write_rgb_to_slice(dst, pos, value);
            proof {
                assert(pos == pixel_index(width as int, 3, y as int, x as int, 0));
                assert(3 * (y * width + x) + 3 == 3 * (y * width + (x + 1)));
                assert forall|i: int|
                    0 <= i < dst@.len() && !(3 * (y * width) <= i < 3 * (y * width + (x + 1)))
                        implies #[trigger] dst@[i] == old(dst)@[i] by {
                    assert(dst@[i] == before[i]);
                }
                assert forall|xx: int, c: int| 0 <= xx < x + 1 && 0 <= c < 3 implies (
                #[trigger] dst@[pixel_index(width as int, 3, y as int, xx, c)]).value()
                    == reduce_all(
                    op,
                    pixel_window(
                        arena.arena@,
                        aw as int,
                        3,
                        c,
                        pad_w as int,
                        pad_h as int,
                        pts,
                        y as int,
                        xx,
                    ),
                ) by {
                    if xx < x {
                        assert(pixel_index(width as int, 3, y as int, xx, c) < pos);
                        assert(dst@[pixel_index(width as int, 3, y as int, xx, c)]
                            == before[pixel_index(width as int, 3, y as int, xx, c)]);
                    } else {
                        assert(pixel_index(width as int, 3, y as int, xx, c) == pos + c);
                        assert(value.channel(c) == reduce_all(
                            op,
                            pixel_window(
                                arena.arena@,
                                aw as int,
                                3,
                                c,
                                pad_w as int,
                                pad_h as int,
                                pts,
                                y as int,
                                x as int,
                            ),
                        ));
                    }
                }
            }
            x = x + 1;
        }
    }
}

} // verus!
