use crate::border_mode::{
    border_source, lemma_border_source_in_range, reflect_index, reflect_index_101, BorderMode,
};
use crate::morph_base::{
    arena_window, lemma_plane_sample_source, plane_sample, points_within_pad, window_values,
};
use crate::pixel::MorphPixel;
use crate::se_scan::ScanPoint;
use crate::ops::pixel_window;
use crate::packing::{deinterleaved, lemma_interleave_index};
use crate::plane::{
    lemma_plane_index_bounds, lemma_plane_index_inverse, lemma_plane_row_step, plane_index,
};
use crate::structuring_element::KernelShape;
use vstd::prelude::*;

verus! {

/// A plane padded on every side, so that a structuring element placed on any
/// of its pixels stays inside.
pub struct Arena<T> {
    pub arena: Vec<T>,
    pub width: usize,
    pub height: usize,
    pub pad_w: usize,
    pub pad_h: usize,
}

impl<T> Arena<T> {
    pub fn new(arena: Vec<T>, width: usize, height: usize, pad_w: usize, pad_h: usize) -> (r:
        Arena<T>)
        ensures
            r.arena@ == arena@,
            r.width == width,
            r.height == height,
            r.pad_w == pad_w,
            r.pad_h == pad_h,
    {
        Arena { arena, width, height, pad_w, pad_h }
    }
}

/// `a` is the `width` x `height` plane `img` padded by `pad_w` columns and
/// `pad_h` rows on each side, the padding read under `mode`.
pub open spec fn arena_holds<T>(
    a: Arena<T>,
    img: Seq<T>,
    width: int,
    height: int,
    mode: BorderMode,
    constant: T,
) -> bool {
    &&& a.width == width + 2 * a.pad_w
    &&& a.height == height + 2 * a.pad_h
    &&& a.arena@.len() == a.width * a.height
    &&& forall|ay: int, ax: int|
        0 <= ay < a.height && 0 <= ax < a.width ==> #[trigger] a.arena@[plane_index(
            a.width as int,
            ay,
            ax,
        )] == plane_sample(img, width, height, mode, constant, ay - a.pad_h, ax - a.pad_w)
}

/// The sample of a line of `n` that position `i` reads under `mode` (not `Constant`).
pub fn border_index(mode: BorderMode, i: isize, n: usize) -> (r: usize)
    requires
        1 <= n <= isize::MAX,
        mode != BorderMode::Constant,
    ensures
        r as int == border_source(mode, i as int, n as int),
        r < n,
{
    let ni = n as isize;
    if 0 <= i && i < ni {
        i as usize
    } else {
        match mode {
            BorderMode::Clamp => {
                if i < 0 {
                    0
                } else {
                    n - 1
                }
            },
            BorderMode::Wrap => {
                let m = match i.checked_rem_euclid(ni) {
                    Some(m) => m,
                    None => 0,
                };
                assert(0 <= (i as int) % (ni as int) < ni);
                m as usize
            },
            BorderMode::Reflect => reflect_index(i, ni),
            BorderMode::Reflect101 => reflect_index_101(i, ni),
            BorderMode::Constant => 0,
        }
    }
}

proof fn lemma_factor_bound(a: int, b: int, m: int)
    requires
        a * b <= m,
        a >= 1,
        b >= 1,
    ensures
        a <= m,
        b <= m,
{
    assert(a <= a * b) by (nonlinear_arith)
        requires
            b >= 1,
            a >= 1,
    ;
    assert(b <= a * b) by (nonlinear_arith)
        requires
            b >= 1,
            a >= 1,
    ;
}

/// Position of channel `c` of pixel `(y, x)` in an image `width` pixels wide
/// that interleaves `cn` channels per pixel.
pub open spec fn pixel_index(width: int, cn: int, y: int, x: int, c: int) -> int {
    cn * plane_index(width, y, x) + c
}

/// Channel `c` of the sample that position `(y, x)` of a `width` x `height`
/// image of `cn` interleaved channels reads under `mode`: the image's own
/// sample inside it; outside it, `constants[c]` under `Constant` and otherwise
/// the sample the mode's rule points to on each axis.
pub open spec fn image_sample<T>(
    img: Seq<T>,
    cn: int,
    width: int,
    height: int,
    mode: BorderMode,
    constants: Seq<T>,
    y: int,
    x: int,
    c: int,
) -> T {
    if mode == BorderMode::Constant && !(0 <= y < height && 0 <= x < width) {
        constants[c]
    } else {
        img[pixel_index(
            width,
            cn,
            border_source(mode, y, height),
            border_source(mode, x, width),
            c,
        )]
    }
}

/// `a` is the `width` x `height` image `img` of `cn` interleaved channels,
/// padded by `pad_w` pixels left and right and `pad_h` rows above and below,
/// the padding read under `mode` with `constants[c]` as the constant of
/// channel `c`.
pub open spec fn arena_holds_channels<T>(
    a: Arena<T>,
    img: Seq<T>,
    cn: int,
    width: int,
    height: int,
    mode: BorderMode,
    constants: Seq<T>,
) -> bool {
    &&& a.width == width + 2 * a.pad_w
    &&& a.height == height + 2 * a.pad_h
    &&& a.arena@.len() == cn * (a.width * a.height)
    &&& forall|ay: int, ax: int, c: int|
        0 <= ay < a.height && 0 <= ax < a.width && 0 <= c < cn ==> #[trigger] a.arena@[pixel_index(
            a.width as int,
            cn,
            ay,
            ax,
            c,
        )] == image_sample(img, cn, width, height, mode, constants, ay - a.pad_h, ax - a.pad_w, c)
}

pub proof fn lemma_pixel_index(width: int, height: int, cn: int, y: int, x: int, c: int)
    requires
        0 <= y < height,
        0 <= x < width,
        0 <= c < cn,
    ensures
        0 <= pixel_index(width, cn, y, x, c) < cn * (width * height),
        pixel_index(width, cn, y, x, c) % cn == c,
        pixel_index(width, cn, y, x, c) / cn == plane_index(width, y, x),
        plane_index(width, y, x) / width == y,
        plane_index(width, y, x) % width == x,
        0 <= plane_index(width, y, x) < width * height,
{
    lemma_plane_index_bounds(width, height, y, x);
    lemma_plane_index_inverse(width, y, x);
    let p = plane_index(width, y, x);
    lemma_interleave_index(cn, p, c);
    assert(cn * (p + 1) <= cn * (width * height)) by (nonlinear_arith)
        requires
            p + 1 <= width * height,
            cn >= 1,
    ;
}

/// Channel `c` of the sample at position `(ay, ax)` of the padded image.
fn arena_sample<T: Copy, const COMPONENTS: usize>(
    image: &[T],
    width: usize,
    height: usize,
    border_mode: BorderMode,
    border_constant: &[T; COMPONENTS],
    ay: usize,
    ax: usize,
    c: usize,
    pad_w: usize,
    pad_h: usize,
) -> (r: T)
    requires
        image@.len() == COMPONENTS * (width * height),
        width >= 1,
        height >= 1,
        c < COMPONENTS,
        ay < height + 2 * pad_h <= isize::MAX,
        ax < width + 2 * pad_w <= isize::MAX,
    ensures
        r == image_sample(
            image@,
            COMPONENTS as int,
            width as int,
            height as int,
            border_mode,
            border_constant@,
            ay - pad_h,
            ax - pad_w,
            c as int,
        ),
{
    let _n = image.len();
    let sy = ay as isize - pad_h as isize;
    let sx = ax as isize - pad_w as isize;
    let inside = 0 <= sy && sy < height as isize && 0 <= sx && sx < width as isize;
    if border_mode == BorderMode::Constant && !inside {
        border_constant[c]
    } else {
        proof {
            lemma_border_source_in_range(border_mode, sy as int, height as int);
            lemma_border_source_in_range(border_mode, sx as int, width as int);
        }
        let (yy, xx) = if inside {
            (sy as usize, sx as usize)
        } else {
            (border_index(border_mode, sy, height), border_index(border_mode, sx, width))
        };
        proof {
            lemma_pixel_index(
                width as int,
                height as int,
                COMPONENTS as int,
                yy as int,
                xx as int,
                c as int,
            );
        }
        image[COMPONENTS * (yy * width + xx) + c]
    }
}

/// The expected sample at flat position `j` of an arena `aw` pixels wide.
spec fn arena_expected<T>(
    img: Seq<T>,
    cn: int,
    width: int,
    height: int,
    mode: BorderMode,
    constants: Seq<T>,
    aw: int,
    pad_w: int,
    pad_h: int,
    j: int,
) -> T {
    image_sample(
        img,
        cn,
        width,
        height,
        mode,
        constants,
        (j / cn) / aw - pad_h,
        (j / cn) % aw - pad_w,
        j % cn,
    )
}

/// Pads an image of `COMPONENTS` interleaved channels with the chosen border
/// strategy: `kernel_size.width / 2` pixels left and right,
/// `kernel_size.height / 2` rows above and below; channel `c` of the padding
/// is `border_constant[c]` under `Constant`.
pub fn make_arena<T: Copy, const COMPONENTS: usize>(
    image: &[T],
    width: usize,
    height: usize,
    kernel_size: KernelShape,
    border_mode: BorderMode,
    border_constant: [T; COMPONENTS],
) -> (r: Arena<T>)
    requires
        COMPONENTS >= 1,
        image@.len() == COMPONENTS * (width * height),
        width >= 1,
        height >= 1,
        COMPONENTS * ((width + 2 * (kernel_size.width / 2)) * (height + 2 * (kernel_size.height
            / 2))) <= isize::MAX,
    ensures
        r.pad_w == kernel_size.width / 2,
        r.pad_h == kernel_size.height / 2,
        arena_holds_channels(
            r,
            image@,
            COMPONENTS as int,
            width as int,
            height as int,
            border_mode,
            border_constant@,
        ),
{
    let pad_w = kernel_size.width / 2;
    let pad_h = kernel_size.height / 2;
    let ghost cn = COMPONENTS as int;
    proof {
        assert((width + 2 * pad_w) * (height + 2 * pad_h) >= 1) by (nonlinear_arith)
            requires
                width >= 1,
                height >= 1,
        ;
        lemma_factor_bound(
            cn,
            (width + 2 * pad_w) * (height + 2 * pad_h),
            isize::MAX as int,
        );
        lemma_factor_bound(
            width + 2 * pad_w,
            height + 2 * pad_h,
            isize::MAX as int,
        );
    }
    let new_width = width + 2 * pad_w;
    let new_height = height + 2 * pad_h;
    let ghost aw = new_width as int;
    let ghost ah = new_height as int;
    let ghost img = image@;
    let ghost consts = border_constant@;

    let mut padded: Vec<T> = Vec::new();
    let mut ay: usize = 0;
    assert(cn * (0 * aw) == 0) by (nonlinear_arith);
    while ay < new_height
        invariant
            img == image@,
            consts == border_constant@,
            cn == COMPONENTS,
            cn >= 1,
            img.len() == cn * (width * height),
            width >= 1,
            height >= 1,
            aw == new_width,
            ah == new_height,
            new_width == width + 2 * pad_w,
            new_height == height + 2 * pad_h,
            cn * (new_width * new_height) <= isize::MAX,
            new_width <= isize::MAX,
            new_height <= isize::MAX,
            ay <= ah,
            padded@.len() == cn * (ay * aw),
            forall|j: int|
                0 <= j < padded@.len() ==> #[trigger] padded@[j] == arena_expected(
                    img,
                    cn,
                    width as int,
                    height as int,
                    border_mode,
                    consts,
                    aw,
                    pad_w as int,
                    pad_h as int,
                    j,
                ),
        decreases ah - ay,
    {
        let mut ax: usize = 0;
        while ax < new_width
            invariant
                img == image@,
                consts == border_constant@,
                cn == COMPONENTS,
                cn >= 1,
                img.len() == cn * (width * height),
                width >= 1,
                height >= 1,
                aw == new_width,
                ah == new_height,
                new_width == width + 2 * pad_w,
                new_height == height + 2 * pad_h,
                cn * (new_width * new_height) <= isize::MAX,
                new_width <= isize::MAX,
                new_height <= isize::MAX,
                ay < ah,
                ax <= aw,
                padded@.len() == cn * (ay * aw + ax),
                forall|j: int|
                    0 <= j < padded@.len() ==> #[trigger] padded@[j] == arena_expected(
                        img,
                        cn,
                        width as int,
                        height as int,
                        border_mode,
                        consts,
                        aw,
                        pad_w as int,
                        pad_h as int,
                        j,
                    ),
            decreases aw - ax,
        {
            let mut c: usize = 0;
            while c < COMPONENTS
                invariant
                    img == image@,
                    consts == border_constant@,
                    cn == COMPONENTS,
                    cn >= 1,
                    img.len() == cn * (width * height),
                    width >= 1,
                    height >= 1,
                    aw == new_width,
                    ah == new_height,
                    new_width == width + 2 * pad_w,
                    new_height == height + 2 * pad_h,
                    cn * (new_width * new_height) <= isize::MAX,
                    new_width <= isize::MAX,
                    new_height <= isize::MAX,
                    ay < ah,
                    ax < aw,
                    c <= cn,
                    padded@.len() == cn * (ay * aw + ax) + c,
                    forall|j: int|
                        0 <= j < padded@.len() ==> #[trigger] padded@[j] == arena_expected(
                            img,
                            cn,
                            width as int,
                            height as int,
                            border_mode,
                            consts,
                            aw,
                            pad_w as int,
                            pad_h as int,
                            j,
                        ),
                decreases cn - c,
            {
                proof {
                    lemma_pixel_index(aw, ah, cn, ay as int, ax as int, c as int);
                }
                let v = arena_sample(
                    image,
                    width,
                    height,
                    border_mode,
                    &border_constant,
                    ay,
                    ax,
                    c,
                    pad_w,
                    pad_h,
                );
                let ghost before = padded@;
                padded.push(v);
                proof {
                    assert forall|j: int| 0 <= j < padded@.len() implies #[trigger] padded@[j]
                        == arena_expected(
                        img,
                        cn,
                        width as int,
                        height as int,
                        border_mode,
                        consts,
                        aw,
                        pad_w as int,
                        pad_h as int,
                        j,
                    ) by {
                        if j < before.len() {
                            assert(padded@[j] == before[j]);
                        }
                    }
                }
                c = c + 1;
            }
            proof {
                assert(cn * (ay * aw + ax) + cn == cn * (ay * aw + ax + 1)) by (nonlinear_arith);
            }
            ax = ax + 1;
        }
        proof {
            lemma_plane_row_step(aw, ay as int);
        }
        ay = ay + 1;
    }
    proof {
        assert(ah * aw == aw * ah) by (nonlinear_arith);
        assert forall|yy: int, xx: int, c: int|
            0 <= yy < ah && 0 <= xx < aw && 0 <= c < cn implies #[trigger] padded@[pixel_index(
            aw,
            cn,
            yy,
            xx,
            c,
        )] == image_sample(
            img,
            cn,
            width as int,
            height as int,
            border_mode,
            consts,
            yy - pad_h,
            xx - pad_w,
            c,
        ) by {
            lemma_pixel_index(aw, ah, cn, yy, xx, c);
        }
    }
    Arena::new(padded, new_width, new_height, pad_w, pad_h)
}

/// An arena of one channel holds the plane padded under the same rule.
pub proof fn lemma_arena_holds_plane<T>(
    a: Arena<T>,
    img: Seq<T>,
    width: int,
    height: int,
    mode: BorderMode,
    constants: Seq<T>,
)
    requires
        arena_holds_channels(a, img, 1, width, height, mode, constants),
    ensures
        arena_holds(a, img, width, height, mode, constants[0]),
{
    assert(a.arena@.len() == a.width * a.height);
    assert forall|ay: int, ax: int|
        0 <= ay < a.height && 0 <= ax < a.width implies #[trigger] a.arena@[plane_index(
        a.width as int,
        ay,
        ax,
    )] == plane_sample(img, width, height, mode, constants[0], ay - a.pad_h, ax - a.pad_w) by {
        assert(pixel_index(a.width as int, 1, ay, ax, 0) == plane_index(a.width as int, ay, ax));
        let sy = border_source(mode, ay - a.pad_h, height);
        let sx = border_source(mode, ax - a.pad_w, width);
        assert(pixel_index(width, 1, sy, sx, 0) == plane_index(width, sy, sx));
    }
}

} // verus!

verus! {

/// Reading the arena under the points placed at `(y, x)` gives the values the
/// plane reads there under the border mode.
pub proof fn lemma_arena_window_matches<T: MorphPixel>(
    a: Arena<T>,
    img: Seq<T>,
    width: int,
    height: int,
    mode: BorderMode,
    constant: T,
    pts: Seq<ScanPoint>,
    y: int,
    x: int,
)
    requires
        arena_holds(a, img, width, height, mode, constant),
        points_within_pad(pts, a.pad_w as int, a.pad_h as int),
        0 <= y < height,
        0 <= x < width,
    ensures
        arena_window(a.arena@, a.width as int, a.pad_w as int, a.pad_h as int, pts, y, x)
            == window_values(img, width, height, mode, constant, pts, y, x),
{
    let aw = arena_window(a.arena@, a.width as int, a.pad_w as int, a.pad_h as int, pts, y, x);
    let wv = window_values(img, width, height, mode, constant, pts, y, x);
    assert forall|k: int| 0 <= k < pts.len() implies aw[k] == wv[k] by {
        assert(0 <= pts[k].x + a.pad_w <= 2 * a.pad_w);
        let ay = y + a.pad_h + pts[k].y;
        let ax = x + a.pad_w + pts[k].x;
        assert(a.arena@[plane_index(a.width as int, ay, ax)] == plane_sample(
            img,
            width,
            height,
            mode,
            constant,
            ay - a.pad_h,
            ax - a.pad_w,
        ));
    }
    assert(aw =~= wv);
}

/// Channel `c` of an image sample is the sample of the plane of channel `c`,
/// read under the same rule with that channel's constant.
pub proof fn lemma_image_sample_channel<T>(
    img: Seq<T>,
    cn: int,
    width: int,
    height: int,
    mode: BorderMode,
    constants: Seq<T>,
    y: int,
    x: int,
    c: int,
)
    requires
        cn >= 1,
        width >= 1,
        height >= 1,
        0 <= c < cn,
        img.len() == cn * (width * height),
    ensures
        image_sample(img, cn, width, height, mode, constants, y, x, c) == plane_sample(
            deinterleaved(img, cn, c),
            width,
            height,
            mode,
            constants[c],
            y,
            x,
        ),
{
    if !(mode == BorderMode::Constant && !(0 <= y < height && 0 <= x < width)) {
        let sy = border_source(mode, y, height);
        let sx = border_source(mode, x, width);
        lemma_border_source_in_range(mode, y, height);
        lemma_border_source_in_range(mode, x, width);
        lemma_pixel_index(width, height, cn, sy, sx, c);
        vstd::arithmetic::div_mod::lemma_div_multiples_vanish(width * height, cn);
        assert(deinterleaved(img, cn, c).len() == width * height);
    }
}

/// Reading channel `c` of the arena under the points placed at `(y, x)` gives
/// the values the plane of channel `c` reads there under the border mode.
pub proof fn lemma_pixel_window_matches<T: MorphPixel>(
    a: Arena<T>,
    img: Seq<T>,
    cn: int,
    width: int,
    height: int,
    mode: BorderMode,
    constants: Seq<T>,
    pts: Seq<ScanPoint>,
    y: int,
    x: int,
    c: int,
)
    requires
        arena_holds_channels(a, img, cn, width, height, mode, constants),
        img.len() == cn * (width * height),
        cn >= 1,
        width >= 1,
        height >= 1,
        points_within_pad(pts, a.pad_w as int, a.pad_h as int),
        0 <= y < height,
        0 <= x < width,
        0 <= c < cn,
    ensures
        pixel_window(a.arena@, a.width as int, cn, c, a.pad_w as int, a.pad_h as int, pts, y, x)
            == window_values(deinterleaved(img, cn, c), width, height, mode, constants[c], pts, y, x),
{
    let pw = pixel_window(a.arena@, a.width as int, cn, c, a.pad_w as int, a.pad_h as int, pts, y, x);
    let wv = window_values(deinterleaved(img, cn, c), width, height, mode, constants[c], pts, y, x);
    assert forall|k: int| 0 <= k < pts.len() implies pw[k] == wv[k] by {
        assert(0 <= pts[k].x + a.pad_w <= 2 * a.pad_w);
        let ay = y + a.pad_h + pts[k].y;
        let ax = x + a.pad_w + pts[k].x;
        assert(a.arena@[pixel_index(a.width as int, cn, ay, ax, c)] == image_sample(
            img,
            cn,
            width,
            height,
            mode,
            constants,
            ay - a.pad_h,
            ax - a.pad_w,
            c,
        ));
        lemma_image_sample_channel(img, cn, width, height, mode, constants, ay - a.pad_h, ax - a.pad_w, c);
    }
    assert(pw =~= wv);
}

} // verus!
