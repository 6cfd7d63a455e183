use crate::arena::Arena;
use crate::flat_se::AnalyzedSe;
use crate::img_size::ImageSize;
use crate::morph_base::arena_window;
use crate::op_type::{reduce_all, MorphOp};
use crate::ops::{MorphFilterFlat2D4Rows, MorphFilterFlat2DRow};
use crate::ops::{row_filter_ready, row_written};
use crate::pixel::MorphPixel;
use crate::plane::plane_index;
use vstd::prelude::*;

verus! {

/// The one-row filter chosen for an operation.
pub struct MorthFilterFlat2DRow {
    pub handler: MorphFilterFlat2DRow,
}

impl MorthFilterFlat2DRow {
    pub fn new(op: MorphOp) -> (r: MorthFilterFlat2DRow)
        ensures
            r.handler.op == op,
    {
        MorthFilterFlat2DRow {
            handler: match op {
                MorphOp::Dilate => MorphFilterFlat2DRow::new(MorphOp::Dilate),
                MorphOp::Erode => MorphFilterFlat2DRow::new(MorphOp::Erode),
            },
        }
    }

    /// Writes row `y` of the result into `dst`.
    pub fn dispatch_row<T: MorphPixel>(
        &self,
        arena: &Arena<T>,
        dst: &mut [T],
        image_size: ImageSize,
        analyzed_se: &AnalyzedSe,
        y: usize,
    )
        requires
            row_filter_ready(
                *arena,
                old(dst)@.len() as int,
                image_size.width as int,
                image_size.height as int,
                analyzed_se.left_front.element_offsets@,
            ),
            y < image_size.height,
        ensures
            row_written(
                final(dst)@,
                old(dst)@,
                self.handler.op,
                *arena,
                image_size.width as int,
                analyzed_se.left_front.element_offsets@,
                y as int,
            ),
    {
        self.handler.dispatch_row(arena, dst, image_size, analyzed_se, y)
    }
}

/// The six-row filter chosen for an operation.
pub struct MorthFilterFlat2D4Rows {
    pub handler: MorphFilterFlat2D4Rows,
}

impl MorthFilterFlat2D4Rows {
    pub fn new(op: MorphOp) -> (r: MorthFilterFlat2D4Rows)
        ensures
            r.handler.op == op,
    {
        MorthFilterFlat2D4Rows {
            handler: match op {
                MorphOp::Dilate => MorphFilterFlat2D4Rows::new(MorphOp::Dilate),
                MorphOp::Erode => MorphFilterFlat2D4Rows::new(MorphOp::Erode),
            },
        }
    }

    /// Writes rows `y .. y + 6` of the result into `dst`, and nothing else.
    pub fn dispatch_row<T: MorphPixel>(
        &self,
        arena: &Arena<T>,
        dst: &mut [T],
        image_size: ImageSize,
        analyzed_se: &AnalyzedSe,
        y: usize,
    )
        requires
            row_filter_ready(
                *arena,
                old(dst)@.len() as int,
                image_size.width as int,
                image_size.height as int,
                analyzed_se.left_front.element_offsets@,
            ),
            y + 6 <= image_size.height,
        ensures
            final(dst)@.len() == old(dst)@.len(),
            forall|yy: int, x: int|
                y <= yy < y + 6 && 0 <= x < image_size.width ==> (#[trigger] final(dst)@[plane_index(
                    image_size.width as int,
                    yy,
                    x,
                )]).value() == reduce_all(
                    self.handler.op,
                    arena_window(
                        arena.arena@,
                        arena.width as int,
                        arena.pad_w as int,
                        arena.pad_h as int,
                        analyzed_se.left_front.element_offsets@,
                        yy,
                        x,
                    ),
                ),
            forall|i: int|
                0 <= i < final(dst)@.len() && !(y * image_size.width <= i < (y + 6)
                    * image_size.width) ==> #[trigger] final(dst)@[i] == old(dst)@[i],
    {
        self.handler.dispatch_row(arena, dst, image_size, analyzed_se, y)
    }
}

} // verus!
