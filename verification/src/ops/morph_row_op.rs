use crate::arena::Arena;
use crate::flat_se::AnalyzedSe;
use crate::img_size::ImageSize;
use crate::morph_base::{arena_window, morph_apply, points_within_pad};
use crate::op_type::{reduce_all, reduce_upto, MorphOp};
use crate::pixel::MorphPixel;
use crate::plane::{lemma_plane_index_bounds, plane_index};
use crate::se_scan::ScanPoint;
use vstd::prelude::*;

verus! {

/// What a row filter needs of the arena, the points and the destination.
pub open spec fn row_filter_ready<T>(
    arena: Arena<T>,
    dst_len: int,
    width: int,
    height: int,
    pts: Seq<ScanPoint>,
) -> bool {
    &&& width >= 1
    &&& height >= 1
    &&& arena.width == width + 2 * arena.pad_w
    &&& arena.height == height + 2 * arena.pad_h
    &&& arena.arena@.len() == arena.width * arena.height
    &&& arena.width * arena.height <= isize::MAX
    &&& dst_len == width * height
    &&& pts.len() >= 1
    &&& points_within_pad(pts, arena.pad_w as int, arena.pad_h as int)
}

/// `dst` holds row `y` of the result of `op` computed on `arena`, and outside
/// that row holds what `old` held.
pub open spec fn row_written<T: MorphPixel>(
    dst: Seq<T>,
    old: Seq<T>,
    op: MorphOp,
    arena: Arena<T>,
    width: int,
    pts: Seq<ScanPoint>,
    y: int,
) -> bool {
    &&& dst.len() == old.len()
    &&& forall|x: int|
        0 <= x < width ==> (#[trigger] dst[plane_index(width, y, x)]).value() == reduce_all(
            op,
            arena_window(
                arena.arena@,
                arena.width as int,
                arena.pad_w as int,
                arena.pad_h as int,
                pts,
                y,
                x,
            ),
        )
    &&& forall|i: int|
        0 <= i < dst.len() && !(y * width <= i < y * width + width) ==> #[trigger] dst[i]
            == old[i]
}

/// For each point, where in the arena the sample that it reads for the pixel
/// at column 0 of row `y` lies; column `x` reads `x` further.
pub fn point_offsets<T>(
    arena: &Arena<T>,
    width: usize,
    height: usize,
    points: &Vec<ScanPoint>,
    y: usize,
) -> (offsets: Vec<usize>)
    requires
        row_filter_ready(*arena, width * height, width as int, height as int, points@),
        y < height,
    ensures
        offsets@.len() == points@.len(),
        forall|j: int|
            0 <= j < points@.len() ==> #[trigger] offsets@[j] == plane_index(
                arena.width as int,
                y + arena.pad_h + points@[j].y,
                arena.pad_w + points@[j].x,
            ),
{
    let ghost pts = points@;
    let aw = arena.width;
    let ghost ah = arena.height as int;
    let pad_w = arena.pad_w;
    let pad_h = arena.pad_h;
    let n = points.len();
    assert(aw <= isize::MAX && ah <= isize::MAX) by (nonlinear_arith)
        requires
            aw * ah <= isize::MAX,
            aw >= 1,
            ah >= 1,
    ;
    let mut offsets: Vec<usize> = Vec::new();
    let mut k: usize = 0;
    while k < n
        invariant
            n == pts.len(),
            pts == points@,
            row_filter_ready(*arena, width * height, width as int, height as int, pts),
            aw == arena.width,
            ah == arena.height,
            pad_w == arena.pad_w,
            pad_h == arena.pad_h,
            aw <= isize::MAX,
            ah <= isize::MAX,
            y < height,
            k <= n,
            offsets@.len() == k,
            forall|j: int|
                0 <= j < k ==> #[trigger] offsets@[j] == plane_index(
                    aw as int,
                    y + pad_h + pts[j].y,
                    pad_w + pts[j].x,
                ),
        decreases n - k,
    {
        let p = points[k];
        assert(0 <= pts[k as int].x + pad_w <= 2 * pad_w);
        let oy = (p.y as isize + pad_h as isize) as usize;
        let ox = (p.x as isize + pad_w as isize) as usize;
        proof {
            lemma_plane_index_bounds(aw as int, ah, (y + oy) as int, ox as int);
        }
        offsets.push((y + oy) * aw + ox);
        k = k + 1;
    }
    offsets
}

/// Computes row `y` of `op` on the arena into `dst`: each pixel becomes the
/// maximum (dilation) or minimum (erosion) of the arena samples under the
/// points.
pub fn write_morph_row<T: MorphPixel>(
    op: MorphOp,
    arena: &Arena<T>,
    dst: &mut [T],
    width: usize,
    height: usize,
    points: &Vec<ScanPoint>,
    y: usize,
)
    requires
        row_filter_ready(*arena, old(dst)@.len() as int, width as int, height as int, points@),
        y < height,
    ensures
        row_written(final(dst)@, old(dst)@, op, *arena, width as int, points@, y as int),
{
    let ghost pts = points@;
    let aw = arena.width;
    let ghost ah = arena.height as int;
    let pad_w = arena.pad_w;
    let pad_h = arena.pad_h;
    let n = points.len();
    let dst_len = dst.len();
    let arena_len = arena.arena.len();
    assert(aw <= isize::MAX && ah <= isize::MAX) by (nonlinear_arith)
        requires
            aw * ah <= isize::MAX,
            aw >= 1,
            ah >= 1,
    ;

    let offsets = point_offsets(arena, width, height, points, y);

    let mut x: usize = 0;
    while x < width
        invariant
            n == pts.len(),
            pts == points@,
            row_filter_ready(*arena, dst_len as int, width as int, height as int, pts),
            dst_len == dst@.len(),
            arena_len == arena.arena@.len(),
            aw == arena.width,
            ah == arena.height,
            pad_w == arena.pad_w,
            pad_h == arena.pad_h,
            aw <= isize::MAX,
            ah <= isize::MAX,
            y < height,
            x <= width,
            offsets@.len() == n,
            forall|j: int|
                0 <= j < n ==> #[trigger] offsets@[j] == plane_index(
                    aw as int,
                    y + pad_h + pts[j].y,
                    pad_w + pts[j].x,
                ),
            dst@.len() == old(dst)@.len(),
            forall|xx: int|
                0 <= xx < x ==> (#[trigger] dst@[plane_index(width as int, y as int, xx)]).value()
                    == reduce_all(
                    op,
                    arena_window(arena.arena@, aw as int, pad_w as int, pad_h as int, pts, y as int, xx),
                ),
            forall|i: int|
                0 <= i < dst@.len() && !(y * width <= i < y * width + x) ==> #[trigger] dst@[i]
                    == old(dst)@[i],
        decreases width - x,
    {
        let ghost win = arena_window(
            arena.arena@,
            aw as int,
            pad_w as int,
            pad_h as int,
            pts,
            y as int,
            x as int,
        );
        assert(0 <= pts[0].x + pad_w <= 2 * pad_w);
        proof {
            lemma_plane_index_bounds(
                aw as int,
                ah,
                y + pad_h + pts[0].y,
                pad_w + pts[0].x + x,
            );
        }
        let mut acc = arena.arena[offsets[0] + x];
        let mut j: usize = 1;
        while j < n
            invariant
                n == pts.len(),
                pts == points@,
                row_filter_ready(*arena, dst_len as int, width as int, height as int, pts),
                arena_len == arena.arena@.len(),
                aw == arena.width,
                ah == arena.height,
                pad_w == arena.pad_w,
                pad_h == arena.pad_h,
                y < height,
                x < width,
                offsets@.len() == n,
                forall|jj: int|
                    0 <= jj < n ==> #[trigger] offsets@[jj] == plane_index(
                        aw as int,
                        y + pad_h + pts[jj].y,
                        pad_w + pts[jj].x,
                    ),
                win == arena_window(arena.arena@, aw as int, pad_w as int, pad_h as int, pts, y as int, x as int),
                1 <= j <= n,
                acc.value() == reduce_upto(op, win, j as int),
            decreases n - j,
        {
            assert(0 <= pts[j as int].x + pad_w <= 2 * pad_w);
            proof {
                lemma_plane_index_bounds(
                    aw as int,
                    ah,
                    y + pad_h + pts[j as int].y,
                    pad_w + pts[j as int].x + x,
                );
            }
            let v = arena.arena[offsets[j] + x];
            acc = morph_apply(op, acc, v);
            j = j + 1;
        }
        proof {
            lemma_plane_index_bounds(width as int, height as int, y as int, x as int);
        }
        let ghost before = dst@;
        dst[y * width + x] = acc;
        proof {
            assert forall|i: int|
                0 <= i < dst@.len() && !(y * width <= i < y * width + x + 1) implies #[trigger] dst@[i]
                == old(dst)@[i] by {
                assert(dst@[i] == before[i]);
            }
            assert forall|xx: int|
                0 <= xx < x + 1 implies (#[trigger] dst@[plane_index(width as int, y as int, xx)]).value()
                == reduce_all(
                op,
                arena_window(arena.arena@, aw as int, pad_w as int, pad_h as int, pts, y as int, xx),
            ) by {
                if xx < x {
                    assert(dst@[plane_index(width as int, y as int, xx)] == before[plane_index(width as int, y as int, xx)]);
                }
            }
        }
        x = x + 1;
    }
}

/// Computes one row of dilation or erosion on a padded plane.
#[derive(Clone, Copy)]
pub struct MorphFilterFlat2DRow {
    pub op: MorphOp,
}

impl MorphFilterFlat2DRow {
    pub fn new(op: MorphOp) -> (r: MorphFilterFlat2DRow)
        ensures
            r.op == op,
    {
        MorphFilterFlat2DRow { op }
    }

    /// Writes row `y` of the result into `dst`.
    pub fn dispatch_row<T: MorphPixel>(
        &self,
        arena: &Arena<T>,
        dst: &mut [T],
        image_size: ImageSize,
        analyzed_se: &AnalyzedSe,
        y: usize,
    )
        requires
            row_filter_ready(
                *arena,
                old(dst)@.len() as int,
                image_size.width as int,
                image_size.height as int,
                analyzed_se.left_front.element_offsets@,
            ),
            y < image_size.height,
        ensures
            row_written(
                final(dst)@,
                old(dst)@,
                self.op,
                *arena,
                image_size.width as int,
                analyzed_se.left_front.element_offsets@,
                y as int,
            ),
    {
        write_morph_row(
            self.op,
            arena,
            dst,
            image_size.width,
            image_size.height,
            &analyzed_se.left_front.element_offsets,
            y,
        );
    }
}

} // verus!
