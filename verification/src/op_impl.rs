use crate::arena::{lemma_arena_holds_plane, lemma_arena_window_matches, make_arena};
use crate::border_mode::BorderMode;
use crate::filter::{MorthFilterFlat2D4Rows, MorthFilterFlat2DRow};
use crate::img_size::ImageSize;
use crate::morph_base::{arena_window, morph_pixel, morph_plane_holds, plane_sample, window_values};
use crate::morph_error::{mismatch_message, mismatch_text};
use crate::difference::{gradient_image, make_morph_gradient_sat};
use crate::op_type::{lemma_reduce_member, reduce_all, MorphExOp, MorphOp};
use crate::pixel::MorphPixel;
use crate::plane::{lemma_plane_index_bounds, plane_index};
use crate::se_scan::{
    lemma_cell_coordinates, lemma_se_points_within, scan_se, structuring_points, ScanPoint,
};
use crate::structuring_element::KernelShape;
use crate::thread_policy::MorphologyThreadingPolicy;
use vstd::prelude::*;

verus! {

/// The error that a planar morphology reports, if any: the first of the slice
/// sizes, the structuring element size and the image size that does not match.
pub open spec fn plane_error(
    src_len: int,
    dst_len: int,
    width: int,
    height: int,
    kw: int,
    kh: int,
    se_len: int,
) -> Option<Seq<char>> {
    if src_len != dst_len {
        Some("Source slice size and destination must match"@)
    } else if kh * kw != se_len {
        Some(mismatch_text("Structuring element"@, (kh * kw) as nat, se_len as nat))
    } else if src_len != width * height {
        Some(mismatch_text("Image size"@, (width * height) as nat, src_len as nat))
    } else {
        None
    }
}

/// What a planar morphology needs so that its arithmetic fits the machine:
/// the products it computes fit a `usize`, element sides fit an `i32`, and
/// the padded plane fits an allocation.
pub open spec fn plane_limits(
    src_len: int,
    dst_len: int,
    width: int,
    height: int,
    kw: int,
    kh: int,
    se_len: int,
) -> bool {
    &&& src_len == dst_len ==> kw * kh <= usize::MAX
    &&& src_len == dst_len && kh * kw == se_len ==> width * height <= usize::MAX
    &&& plane_error(src_len, dst_len, width, height, kw, kh, se_len) is None ==> {
        &&& kw <= i32::MAX
        &&& kh <= i32::MAX
        &&& (width + 2 * (kw / 2)) * (height + 2 * (kh / 2)) <= isize::MAX
    }
}

/// `out` is the result of `op` on the `width` x `height` plane `img` with the
/// `kw` x `kh` structuring element `se`: a copy of `img` when the element has
/// no point.
pub open spec fn morph_result<T: MorphPixel>(
    out: Seq<T>,
    op: MorphOp,
    img: Seq<T>,
    width: int,
    height: int,
    se: Seq<u8>,
    kw: int,
    kh: int,
    mode: BorderMode,
    constant: T,
) -> bool {
    let pts = structuring_points(se, kw, kh);
    if pts.len() == 0 {
        out == img
    } else {
        morph_plane_holds(out, op, img, width, height, mode, constant, pts)
    }
}

/// Dilation or erosion of one plane.
///
/// Reports an error, and leaves `dst` as it was, where the slice sizes, the
/// structuring element size or the image size do not match. Otherwise each
/// pixel of `dst` becomes the maximum (dilation) or minimum (erosion) of the
/// samples under the structuring element placed on it, the samples outside the
/// plane read under `border_mode` (`border_constant` under `Constant`). The
/// result does not depend on `threading_policy`.
pub fn make_morphology<T: MorphPixel>(
    src: &[T],
    dst: &mut [T],
    op: MorphOp,
    image_size: ImageSize,
    structuring_element: &[u8],
    structuring_element_size: KernelShape,
    border_mode: BorderMode,
    border_constant: T,
    threading_policy: MorphologyThreadingPolicy,
) -> (r: Result<(), String>)
    requires
        plane_limits(
            src@.len() as int,
            old(dst)@.len() as int,
            image_size.width as int,
            image_size.height as int,
            structuring_element_size.width as int,
            structuring_element_size.height as int,
            structuring_element@.len() as int,
        ),
    ensures
        r is Ok <==> plane_error(
            src@.len() as int,
            old(dst)@.len() as int,
            image_size.width as int,
            image_size.height as int,
            structuring_element_size.width as int,
            structuring_element_size.height as int,
            structuring_element@.len() as int,
        ) is None,
        r matches Err(e) ==> Some(e@) == plane_error(
            src@.len() as int,
            old(dst)@.len() as int,
            image_size.width as int,
            image_size.height as int,
            structuring_element_size.width as int,
            structuring_element_size.height as int,
            structuring_element@.len() as int,
        ) && final(dst)@ == old(dst)@,
        r is Ok ==> morph_result(
            final(dst)@,
            op,
            src@,
            image_size.width as int,
            image_size.height as int,
            structuring_element@,
            structuring_element_size.width as int,
            structuring_element_size.height as int,
            border_mode,
            border_constant,
        ),
{
    let src_len = src.len();
    let dst_len = dst.len();
    let se_len = structuring_element.len();
    if src_len != dst_len {
        return Err(String::from_str("Source slice size and destination must match"));
    }
    let kernel_width = structuring_element_size.width;
    let kernel_height = structuring_element_size.height;
    let ghost kw = kernel_width as int;
    let ghost kh = kernel_height as int;
    assert(kh * kw == kw * kh) by (nonlinear_arith);
    if kernel_height * kernel_width != se_len {
        return Err(mismatch_message("Structuring element", kernel_height * kernel_width, se_len));
    }
    let width = image_size.width;
    let height = image_size.height;
    let ghost w = width as int;
    let ghost h = height as int;
    if src_len != width * height {
        return Err(mismatch_message("Image size", width * height, src_len));
    }

    let analyzed_se = scan_se(structuring_element, structuring_element_size);
    let ghost pts = analyzed_se.left_front.element_offsets@;

    if analyzed_se.is_empty {
        let mut i: usize = 0;
        while i < src_len
            invariant
                src_len == src@.len(),
                dst@.len() == src_len,
                i <= src_len,
                forall|j: int| 0 <= j < i ==> dst@[j] == src@[j],
            decreases src_len - i,
        {
            dst[i] = src[i];
            i = i + 1;
        }
        assert(dst@ =~= src@);
        return Ok(());
    }
    if width == 0 || height == 0 {
        assert(w * h == 0) by (nonlinear_arith)
            requires
                w == 0 || h == 0,
        ;
        return Ok(());
    }

    assert(1 * (w * h) == w * h);
    let arena = make_arena::<T, 1>(
        src,
        width,
        height,
        structuring_element_size,
        border_mode,
        [border_constant],
    );
    proof {
        lemma_arena_holds_plane(arena, src@, w, h, border_mode, [border_constant]@);
        lemma_se_points_within(structuring_element@, kw, kh, kw * kh);
        assert forall|k: int| 0 <= k < pts.len() implies 0 <= #[trigger] pts[k].x + arena.pad_w
            <= 2 * arena.pad_w && 0 <= pts[k].y + arena.pad_h <= 2 * arena.pad_h by {
            assert(0 <= pts[k].x + kw / 2 < kw && 0 <= pts[k].y + kh / 2 < kh);
        }
        assert(arena.width * arena.height == (w + 2 * (kw / 2)) * (h + 2 * (kh / 2)));
        assert(crate::ops::row_filter_ready(arena, w * h, w, h, pts));
    }

    let filter = MorthFilterFlat2DRow::new(op);
    let filter_4_rows = MorthFilterFlat2D4Rows::new(op);

    let mut y: usize = 0;
    while y < height && height - y >= 6
        invariant
            dst@.len() == w * h,
            w == width,
            h == height,
            width == image_size.width,
            height == image_size.height,
            w >= 1,
            h >= 1,
            y <= height,
            pts == analyzed_se.left_front.element_offsets@,
            filter.handler.op == op,
            filter_4_rows.handler.op == op,
            crate::ops::row_filter_ready(arena, w * h, w, h, pts),
            forall|yy: int, x: int|
                0 <= yy < y && 0 <= x < w ==> (#[trigger] dst@[plane_index(w, yy, x)]).value()
                    == reduce_all(
                    op,
                    arena_window(arena.arena@, arena.width as int, arena.pad_w as int, arena.pad_h as int, pts, yy, x),
                ),
        decreases height - y,
    {
        let ghost before = dst@;
        filter_4_rows.dispatch_row(&arena, dst, image_size, &analyzed_se, y);
        proof {
            assert forall|yy: int, x: int|
                0 <= yy < y + 6 && 0 <= x < w implies (#[trigger] dst@[plane_index(w, yy, x)]).value()
                == reduce_all(
                op,
                arena_window(arena.arena@, arena.width as int, arena.pad_w as int, arena.pad_h as int, pts, yy, x),
            ) by {
                if yy < y {
                    lemma_plane_index_bounds(w, y as int, yy, x);
                    lemma_plane_index_bounds(w, h, yy, x);
                    assert(dst@[plane_index(w, yy, x)] == before[plane_index(w, yy, x)]);
                }
            }
        }
        y = y + 6;
    }
    while y < height
        invariant
            dst@.len() == w * h,
            w == width,
            h == height,
            width == image_size.width,
            height == image_size.height,
            w >= 1,
            h >= 1,
            y <= height,
            pts == analyzed_se.left_front.element_offsets@,
            filter.handler.op == op,
            crate::ops::row_filter_ready(arena, w * h, w, h, pts),
            forall|yy: int, x: int|
                0 <= yy < y && 0 <= x < w ==> (#[trigger] dst@[plane_index(w, yy, x)]).value()
                    == reduce_all(
                    op,
                    arena_window(arena.arena@, arena.width as int, arena.pad_w as int, arena.pad_h as int, pts, yy, x),
                ),
        decreases height - y,
    {
        let ghost before = dst@;
        filter.dispatch_row(&arena, dst, image_size, &analyzed_se, y);
        proof {
            assert forall|yy: int, x: int|
                0 <= yy < y + 1 && 0 <= x < w implies (#[trigger] dst@[plane_index(w, yy, x)]).value()
                == reduce_all(
                op,
                arena_window(arena.arena@, arena.width as int, arena.pad_w as int, arena.pad_h as int, pts, yy, x),
            ) by {
                if yy < y {
                    lemma_plane_index_bounds(w, y as int, yy, x);
                    lemma_plane_index_bounds(w, h, yy, x);
                    assert(dst@[plane_index(w, yy, x)] == before[plane_index(w, yy, x)]);
                }
            }
        }
        y = y + 1;
    }
    proof {
        assert forall|yy: int, x: int| 0 <= yy < h && 0 <= x < w implies (
        #[trigger] dst@[plane_index(w, yy, x)]).value() == morph_pixel(
            op,
            src@,
            w,
            h,
            border_mode,
            border_constant,
            pts,
            yy,
            x,
        ) by {
            lemma_arena_window_matches(arena, src@, w, h, border_mode, border_constant, pts, yy, x);
        }
    }
    Ok(())
}

} // verus!

verus! {

/// The result of `op` on the plane, as an image: a copy of `img` when the
/// element has no point.
pub open spec fn morph_image<T: MorphPixel>(
    op: MorphOp,
    img: Seq<T>,
    width: int,
    height: int,
    se: Seq<u8>,
    kw: int,
    kh: int,
    mode: BorderMode,
    constant: T,
) -> Seq<T> {
    let pts = structuring_points(se, kw, kh);
    if pts.len() == 0 {
        img
    } else {
        Seq::new(
            (width * height) as nat,
            |i: int|
                T::from_value(
                    morph_pixel(op, img, width, height, mode, constant, pts, i / width, i % width),
                ),
        )
    }
}

/// The result of an operation of the library on the plane, as an image.
pub open spec fn morph_ex_image<T: MorphPixel>(
    op: MorphExOp,
    img: Seq<T>,
    width: int,
    height: int,
    se: Seq<u8>,
    kw: int,
    kh: int,
    mode: BorderMode,
    constant: T,
) -> Seq<T> {
    let dilated = morph_image(MorphOp::Dilate, img, width, height, se, kw, kh, mode, constant);
    let eroded = morph_image(MorphOp::Erode, img, width, height, se, kw, kh, mode, constant);
    match op {
        MorphExOp::Dilate => dilated,
        MorphExOp::Erode => eroded,
        MorphExOp::Opening => morph_image(
            MorphOp::Dilate,
            eroded,
            width,
            height,
            se,
            kw,
            kh,
            mode,
            constant,
        ),
        MorphExOp::Closing => morph_image(
            MorphOp::Erode,
            dilated,
            width,
            height,
            se,
            kw,
            kh,
            mode,
            constant,
        ),
        MorphExOp::Gradient => gradient_image(dilated, eroded),
        MorphExOp::TopHat => gradient_image(
            img,
            morph_image(MorphOp::Dilate, eroded, width, height, se, kw, kh, mode, constant),
        ),
        MorphExOp::BlackHat => gradient_image(
            img,
            morph_image(MorphOp::Erode, dilated, width, height, se, kw, kh, mode, constant),
        ),
    }
}

/// Each value a morphology gives is a value of the sample type.
pub proof fn lemma_morph_pixel_in_range<T: MorphPixel>(
    op: MorphOp,
    img: Seq<T>,
    width: int,
    height: int,
    mode: BorderMode,
    constant: T,
    pts: Seq<ScanPoint>,
    y: int,
    x: int,
)
    requires
        pts.len() >= 1,
    ensures
        T::lowest() <= morph_pixel(op, img, width, height, mode, constant, pts, y, x)
            <= T::highest(),
{
    let s = window_values(img, width, height, mode, constant, pts, y, x);
    let j = lemma_reduce_member(op, s, s.len() as int);
    T::lemma_value_bounds(
        plane_sample(img, width, height, mode, constant, y + pts[j].y, x + pts[j].x),
    );
}

/// A plane that holds the result of `op` pixel by pixel is the result image.
pub proof fn lemma_morph_result_image<T: MorphPixel>(
    out: Seq<T>,
    op: MorphOp,
    img: Seq<T>,
    width: int,
    height: int,
    se: Seq<u8>,
    kw: int,
    kh: int,
    mode: BorderMode,
    constant: T,
)
    requires
        width >= 0,
        height >= 0,
        img.len() == width * height,
        morph_result(out, op, img, width, height, se, kw, kh, mode, constant),
    ensures
        out == morph_image(op, img, width, height, se, kw, kh, mode, constant),
{
    let pts = structuring_points(se, kw, kh);
    if pts.len() > 0 {
        let m = morph_image(op, img, width, height, se, kw, kh, mode, constant);
        assert forall|i: int| 0 <= i < out.len() implies out[i] == m[i] by {
            assert(width >= 1) by (nonlinear_arith)
                requires
                    0 <= i < width * height,
                    width >= 0,
                    height >= 0,
            ;
            lemma_cell_coordinates(width, height, i);
            let y = i / width;
            let x = i % width;
            assert(plane_index(width, y, x) == i);
            let v = morph_pixel(op, img, width, height, mode, constant, pts, y, x);
            lemma_morph_pixel_in_range(op, img, width, height, mode, constant, pts, y, x);
            T::lemma_from_value(v);
            T::lemma_value_injective(out[i], T::from_value(v));
        }
        assert(out =~= m);
    }
}

/// `plane_error` with the kernel product in either order.
proof fn lemma_plane_error_sizes(
    src_len: int,
    dst_len: int,
    width: int,
    height: int,
    kw: int,
    kh: int,
    se_len: int,
)
    requires
        plane_error(src_len, dst_len, width, height, kw, kh, se_len) is None,
    ensures
        src_len == dst_len,
        src_len == width * height,
        se_len == kh * kw,
{
}

/// Any operation of the library on one plane: dilation and erosion directly;
/// opening, closing, gradient, top hat and black hat through a transient plane
/// of the destination's length.
///
/// Errors are those of `make_morphology` on the same sizes, and leave `dst` as
/// it was.
pub fn make_morphology_ex<T: MorphPixel>(
    src: &[T],
    dst: &mut [T],
    op: MorphExOp,
    image_size: ImageSize,
    structuring_element: &[u8],
    structuring_element_size: KernelShape,
    border_mode: BorderMode,
    border_constant: T,
    threading_policy: MorphologyThreadingPolicy,
) -> (r: Result<(), String>)
    requires
        plane_limits(
            src@.len() as int,
            old(dst)@.len() as int,
            image_size.width as int,
            image_size.height as int,
            structuring_element_size.width as int,
            structuring_element_size.height as int,
            structuring_element@.len() as int,
        ),
    ensures
        r is Ok <==> plane_error(
            src@.len() as int,
            old(dst)@.len() as int,
            image_size.width as int,
            image_size.height as int,
            structuring_element_size.width as int,
            structuring_element_size.height as int,
            structuring_element@.len() as int,
        ) is None,
        r matches Err(e) ==> Some(e@) == plane_error(
            src@.len() as int,
            old(dst)@.len() as int,
            image_size.width as int,
            image_size.height as int,
            structuring_element_size.width as int,
            structuring_element_size.height as int,
            structuring_element@.len() as int,
        ) && final(dst)@ == old(dst)@,
        r is Ok ==> final(dst)@ == morph_ex_image(
            op,
            src@,
            image_size.width as int,
            image_size.height as int,
            structuring_element@,
            structuring_element_size.width as int,
            structuring_element_size.height as int,
            border_mode,
            border_constant,
        ),
    decreases ex_op_rank(op),
{
    let ghost w = image_size.width as int;
    let ghost h = image_size.height as int;
    let ghost kw = structuring_element_size.width as int;
    let ghost kh = structuring_element_size.height as int;
    let ghost se = structuring_element@;
    let ghost img = src@;
    let n = dst.len();
    match op {
        MorphExOp::Dilate | MorphExOp::Erode => {
            let basic = if op == MorphExOp::Dilate {
                MorphOp::Dilate
            } else {
                MorphOp::Erode
            };
            let r = make_morphology(
                src,
                dst,
                basic,
                image_size,
                structuring_element,
                structuring_element_size,
                border_mode,
                border_constant,
                threading_policy,
            );
            if r.is_ok() {
                proof {
                    lemma_morph_result_image(dst@, basic, img, w, h, se, kw, kh, border_mode, border_constant);
                }
            }
            r
        },
        MorphExOp::Opening | MorphExOp::Closing => {
            let (first, second) = if op == MorphExOp::Opening {
                (MorphOp::Erode, MorphOp::Dilate)
            } else {
                (MorphOp::Dilate, MorphOp::Erode)
            };
            let mut transient: Vec<T> = vec_filled(T::min_value(), n);
            let r = make_morphology(
                src,
                transient.as_mut_slice(),
                first,
                image_size,
                structuring_element,
                structuring_element_size,
                border_mode,
                border_constant,
                threading_policy,
            );
            match r {
                Err(e) => { return Err(e); },
                Ok(()) => {},
            }
            proof {
                lemma_plane_error_sizes(img.len() as int, n as int, w, h, kw, kh, se.len() as int);
                lemma_morph_result_image(transient@, first, img, w, h, se, kw, kh, border_mode, border_constant);
            }
            let r2 = make_morphology(
                transient.as_slice(),
                dst,
                second,
                image_size,
                structuring_element,
                structuring_element_size,
                border_mode,
                border_constant,
                threading_policy,
            );
            proof {
                lemma_morph_result_image(dst@, second, transient@, w, h, se, kw, kh, border_mode, border_constant);
            }
            r2
        },
        MorphExOp::Gradient => {
            let mut dilation: Vec<T> = vec_filled(T::min_value(), n);
            let r = make_morphology(
                src,
                dilation.as_mut_slice(),
                MorphOp::Dilate,
                image_size,
                structuring_element,
                structuring_element_size,
                border_mode,
                border_constant,
                threading_policy,
            );
            match r {
                Err(e) => { return Err(e); },
                Ok(()) => {},
            }
            proof {
                lemma_plane_error_sizes(img.len() as int, n as int, w, h, kw, kh, se.len() as int);
                lemma_morph_result_image(dilation@, MorphOp::Dilate, img, w, h, se, kw, kh, border_mode, border_constant);
            }
            let mut erosion: Vec<T> = vec_filled(T::min_value(), n);
            let r2 = make_morphology(
                src,
                erosion.as_mut_slice(),
                MorphOp::Erode,
                image_size,
                structuring_element,
                structuring_element_size,
                border_mode,
                border_constant,
                threading_policy,
            );
            match r2 {
                Err(e) => { return Err(e); },
                Ok(()) => {},
            }
            proof {
                lemma_morph_result_image(erosion@, MorphOp::Erode, img, w, h, se, kw, kh, border_mode, border_constant);
            }
            make_morph_gradient_sat(dilation.as_slice(), erosion.as_slice(), dst);
            proof {
                let g = gradient_image(dilation@, erosion@);
                assert(dst@ =~= g);
            }
            Ok(())
        },
        MorphExOp::TopHat | MorphExOp::BlackHat => {
            let inner = if op == MorphExOp::TopHat {
                MorphExOp::Opening
            } else {
                MorphExOp::Closing
            };
            let mut opened: Vec<T> = vec_filled(T::min_value(), n);
            let r = make_morphology_ex(
                src,
                opened.as_mut_slice(),
                inner,
                image_size,
                structuring_element,
                structuring_element_size,
                border_mode,
                border_constant,
                threading_policy,
            );
            match r {
                Err(e) => { return Err(e); },
                Ok(()) => {},
            }
            proof {
                lemma_plane_error_sizes(img.len() as int, n as int, w, h, kw, kh, se.len() as int);
            }
            make_morph_gradient_sat(src, opened.as_slice(), dst);
            proof {
                let g = gradient_image(img, opened@);
                assert(dst@ =~= g);
            }
            Ok(())
        },
    }
}

/// Top hat and black hat are built from opening and closing.
pub open spec fn ex_op_rank(op: MorphExOp) -> nat {
    match op {
        MorphExOp::TopHat | MorphExOp::BlackHat => 1,
        _ => 0,
    }
}

/// A vector of `n` copies of `value`.
pub fn vec_filled<T: Copy>(value: T, n: usize) -> (v: Vec<T>)
    ensures
        v@ == Seq::new(n as nat, |i: int| value),
{
    let mut v: Vec<T> = Vec::new();
    let mut i: usize = 0;
    while i < n
        invariant
            i <= n,
            v@ == Seq::new(i as nat, |j: int| value),
        decreases n - i,
    {
        v.push(value);
        i = i + 1;
        assert(v@ =~= Seq::new(i as nat, |j: int| value));
    }
    v
}

} // verus!

verus! {

/// What a planar morphology reports and leaves in its destination: the error
/// of `plane_error` with the destination as it was, or success with the result
/// image of `op`.
pub open spec fn planar_outcome<T: MorphPixel>(
    r: Result<(), String>,
    src: Seq<T>,
    old_dst: Seq<T>,
    new_dst: Seq<T>,
    op: MorphExOp,
    image_size: ImageSize,
    se: Seq<u8>,
    se_size: KernelShape,
    mode: BorderMode,
    constant: T,
) -> bool {
    let e = plane_error(
        src.len() as int,
        old_dst.len() as int,
        image_size.width as int,
        image_size.height as int,
        se_size.width as int,
        se_size.height as int,
        se.len() as int,
    );
    &&& (r is Ok <==> e is None)
    &&& (r matches Err(m) ==> Some(m@) == e && new_dst == old_dst)
    &&& (r is Ok ==> new_dst == morph_ex_image(
        op,
        src,
        image_size.width as int,
        image_size.height as int,
        se,
        se_size.width as int,
        se_size.height as int,
        mode,
        constant,
    ))
}

/// An operation on a `width` x `height` plane gives a plane of the same size.
pub proof fn lemma_morph_ex_image_len<T: MorphPixel>(
    op: MorphExOp,
    img: Seq<T>,
    width: int,
    height: int,
    se: Seq<u8>,
    kw: int,
    kh: int,
    mode: BorderMode,
    constant: T,
)
    requires
        width >= 0,
        height >= 0,
        img.len() == width * height,
    ensures
        morph_image(MorphOp::Dilate, img, width, height, se, kw, kh, mode, constant).len() == width
            * height,
        morph_image(MorphOp::Erode, img, width, height, se, kw, kh, mode, constant).len() == width
            * height,
        morph_ex_image(op, img, width, height, se, kw, kh, mode, constant).len() == width * height,
{
    assert(width * height >= 0) by (nonlinear_arith)
        requires
            width >= 0,
            height >= 0,
    ;
}

} // verus!
