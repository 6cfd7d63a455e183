use crate::arena::Arena;
use crate::flat_se::AnalyzedSe;
use crate::img_size::ImageSize;
use crate::morph_base::arena_window;
use crate::op_type::{lemma_reduce_from_neutral, reduce_all, MorphOp};
use crate::ops::op::{fast_morph_op_1d, neutral_value, sample_values};
use crate::se_scan::ScanPoint;
use crate::ops::morph_row_op::{point_offsets, row_filter_ready, row_written};
use crate::pixel::MorphPixel;
use crate::plane::{lemma_plane_index_bounds, plane_index};
use vstd::prelude::*;

verus! {

/// Computes row `y` of `op` on the arena into `dst`, gathering the arena
/// samples under the points of each pixel and resolving them with
/// `fast_morph_op_1d`.
pub fn write_morph_row_resolved<T: MorphPixel>(
    op: MorphOp,
    arena: &Arena<T>,
    dst: &mut [T],
    width: usize,
    height: usize,
    points: &Vec<ScanPoint>,
    y: usize,
)
    requires
        row_filter_ready(*arena, old(dst)@.len() as int, width as int, height as int, points@),
        y < height,
    ensures
        row_written(final(dst)@, old(dst)@, op, *arena, width as int, points@, y as int),
{
    let ghost pts = points@;
    let aw = arena.width;
    let ghost ah = arena.height as int;
    let pad_w = arena.pad_w;
    let pad_h = arena.pad_h;
    let n = points.len();
    let dst_len = dst.len();
    let arena_len = arena.arena.len();
    assert(aw <= isize::MAX && ah <= isize::MAX) by (nonlinear_arith)
        requires
            aw * ah <= isize::MAX,
            aw >= 1,
            ah >= 1,
    ;

    let offsets = point_offsets(arena, width, height, points, y);

    let mut x: usize = 0;
    while x < width
        invariant
            n == pts.len(),
            pts == points@,
            row_filter_ready(*arena, dst_len as int, width as int, height as int, pts),
            dst_len == dst@.len(),
            arena_len == arena.arena@.len(),
            aw == arena.width,
            ah == arena.height,
            pad_w == arena.pad_w,
            pad_h == arena.pad_h,
            aw <= isize::MAX,
            ah <= isize::MAX,
            y < height,
            x <= width,
            offsets@.len() == n,
            forall|j: int|
                0 <= j < n ==> #[trigger] offsets@[j] == plane_index(
                    aw as int,
                    y + pad_h + pts[j].y,
                    pad_w + pts[j].x,
                ),
            dst@.len() == old(dst)@.len(),
            forall|xx: int|
                0 <= xx < x ==> (#[trigger] dst@[plane_index(width as int, y as int, xx)]).value()
                    == reduce_all(
                    op,
                    arena_window(arena.arena@, aw as int, pad_w as int, pad_h as int, pts, y as int, xx),
                ),
            forall|i: int|
                0 <= i < dst@.len() && !(y * width <= i < y * width + x) ==> #[trigger] dst@[i]
                    == old(dst)@[i],
        decreases width - x,
    {
        let ghost win = arena_window(
            arena.arena@,
            aw as int,
            pad_w as int,
            pad_h as int,
            pts,
            y as int,
            x as int,
        );
        let mut items: Vec<T> = Vec::new();
        let mut j: usize = 0;
        while j < n
            invariant
                n == pts.len(),
                pts == points@,
                row_filter_ready(*arena, dst_len as int, width as int, height as int, pts),
                arena_len == arena.arena@.len(),
                aw == arena.width,
                ah == arena.height,
                pad_w == arena.pad_w,
                pad_h == arena.pad_h,
                y < height,
                x < width,
                offsets@.len() == n,
                forall|jj: int|
                    0 <= jj < n ==> #[trigger] offsets@[jj] == plane_index(
                        aw as int,
                        y + pad_h + pts[jj].y,
                        pad_w + pts[jj].x,
                    ),
                win == arena_window(arena.arena@, aw as int, pad_w as int, pad_h as int, pts, y as int, x as int),
                j <= n,
                items@.len() == j,
                forall|jj: int| 0 <= jj < j ==> (#[trigger] items@[jj]).value() == win[jj],
            decreases n - j,
        {
            assert(0 <= pts[j as int].x + pad_w <= 2 * pad_w);
            proof {
                lemma_plane_index_bounds(
                    aw as int,
                    ah,
                    y + pad_h + pts[j as int].y,
                    pad_w + pts[j as int].x + x,
                );
            }
            items.push(arena.arena[offsets[j] + x]);
            j = j + 1;
        }
        let acc = fast_morph_op_1d(op, items.as_slice());
        proof {
            let vals = sample_values(items@);
            assert(vals =~= win);
            assert forall|i: int| 0 <= i < win.len() implies T::lowest() <= #[trigger] win[i] <= T::highest() by {
                T::lemma_value_bounds(items@[i]);
            }
            lemma_reduce_from_neutral(op, neutral_value::<T>(op), win, n as int);
        }
        proof {
            lemma_plane_index_bounds(width as int, height as int, y as int, x as int);
        }
        let ghost before = dst@;
        dst[y * width + x] = acc;
        proof {
            assert forall|i: int|
                0 <= i < dst@.len() && !(y * width <= i < y * width + x + 1) implies #[trigger] dst@[i]
                == old(dst)@[i] by {
                assert(dst@[i] == before[i]);
            }
            assert forall|xx: int|
                0 <= xx < x + 1 implies (#[trigger] dst@[plane_index(width as int, y as int, xx)]).value()
                == reduce_all(
                op,
                arena_window(arena.arena@, aw as int, pad_w as int, pad_h as int, pts, y as int, xx),
            ) by {
                if xx < x {
                    assert(dst@[plane_index(width as int, y as int, xx)] == before[plane_index(width as int, y as int, xx)]);
                }
            }
        }
        x = x + 1;
    }
}


/// Computes six consecutive rows of dilation or erosion on a padded plane.
#[derive(Clone, Copy)]
pub struct MorphFilterFlat2D4Rows {
    pub op: MorphOp,
}

impl MorphFilterFlat2D4Rows {
    pub fn new(op: MorphOp) -> (r: MorphFilterFlat2D4Rows)
        ensures
            r.op == op,
    {
        MorphFilterFlat2D4Rows { op }
    }

    /// Writes rows `y .. y + 6` of the result into `dst`, and nothing else.
    pub fn dispatch_row<T: MorphPixel>(
        &self,
        arena: &Arena<T>,
        dst: &mut [T],
        image_size: ImageSize,
        analyzed_se: &AnalyzedSe,
        y: usize,
    )
        requires
            row_filter_ready(
                *arena,
                old(dst)@.len() as int,
                image_size.width as int,
                image_size.height as int,
                analyzed_se.left_front.element_offsets@,
            ),
            y + 6 <= image_size.height,
        ensures
            final(dst)@.len() == old(dst)@.len(),
            forall|yy: int, x: int|
                y <= yy < y + 6 && 0 <= x < image_size.width ==> (#[trigger] final(dst)@[plane_index(
                    image_size.width as int,
                    yy,
                    x,
                )]).value() == reduce_all(
                    self.op,
                    arena_window(
                        arena.arena@,
                        arena.width as int,
                        arena.pad_w as int,
                        arena.pad_h as int,
                        analyzed_se.left_front.element_offsets@,
                        yy,
                        x,
                    ),
                ),
            forall|i: int|
                0 <= i < final(dst)@.len() && !(y * image_size.width <= i < (y + 6)
                    * image_size.width) ==> #[trigger] final(dst)@[i] == old(dst)@[i],
    {
        let width = image_size.width;
        let height = image_size.height;
        let ghost w = width as int;
        let ghost pts = analyzed_se.left_front.element_offsets@;
        let mut r: usize = 0;
        while r < 6
            invariant
                row_filter_ready(*arena, dst@.len() as int, w, height as int, pts),
                pts == analyzed_se.left_front.element_offsets@,
                w == width,
                height == image_size.height,
                y + 6 <= height,
                r <= 6,
                dst@.len() == old(dst)@.len(),
                forall|yy: int, x: int|
                    y <= yy < y + r && 0 <= x < w ==> (#[trigger] dst@[plane_index(w, yy, x)]).value()
                        == reduce_all(
                        self.op,
                        arena_window(arena.arena@, arena.width as int, arena.pad_w as int, arena.pad_h as int, pts, yy, x),
                    ),
                forall|i: int|
                    0 <= i < dst@.len() && !(y * w <= i < (y + r) * w) ==> #[trigger] dst@[i]
                        == old(dst)@[i],
            decreases 6 - r,
        {
            let ghost before = dst@;
            write_morph_row_resolved(
                self.op,
                arena,
                dst,
                width,
                height,
                &analyzed_se.left_front.element_offsets,
                y + r,
            );
            proof {
                assert((y + r) * w + w == (y + r + 1) * w) by (nonlinear_arith);
                assert(y * w <= (y + r) * w) by (nonlinear_arith)
                    requires
                        r >= 0,
                        w >= 1,
                ;
                assert forall|yy: int, x: int|
                    y <= yy < y + r + 1 && 0 <= x < w implies (#[trigger] dst@[plane_index(w, yy, x)]).value()
                    == reduce_all(
                    self.op,
                    arena_window(arena.arena@, arena.width as int, arena.pad_w as int, arena.pad_h as int, pts, yy, x),
                ) by {
                    if yy < y + r {
                        lemma_plane_index_bounds(w, (y + r) as int, yy, x);
                        lemma_plane_index_bounds(w, height as int, yy, x);
                        assert(dst@[plane_index(w, yy, x)] == before[plane_index(w, yy, x)]);
                    }
                }
                assert forall|i: int|
                    0 <= i < dst@.len() && !(y * w <= i < (y + r + 1) * w) implies #[trigger] dst@[i]
                    == old(dst)@[i] by {
                    assert(dst@[i] == before[i]);
                }
            }
            r = r + 1;
        }
    }
}

} // verus!
