//! Properties that hold of every input: what the documentation promises of the
//! border modes, what dilation and erosion do to the pixel under the centre of
//! the structuring element, how results follow their inputs, and how splitting
//! an image into planes and interleaving them back undo each other.
use crate::arena::{arena_holds_channels, lemma_pixel_window_matches, pixel_index, Arena};
use crate::border_mode::{border_source, BorderMode};
use crate::morph_base::{morph_pixel, points_within_pad, window_values};
use crate::ops::rgb_row_written;
use crate::difference::{gradient_image, saturating_diff_value};
use crate::filter_1d::filter_1d_outcome;
use crate::img_size::ImageSize;
use crate::morph_base::{lemma_plane_sample_source, plane_sample};
use crate::morph_error::MorphError;
use crate::morph_interleaved::interleaved_outcome;
use crate::op_impl::{
    lemma_morph_ex_image_len, lemma_morph_pixel_in_range, morph_ex_image, morph_image,
    planar_outcome,
};
use crate::structuring_element::KernelShape;
use crate::op_type::{
    lemma_reduce_bounds, lemma_reduce_duality, lemma_reduce_monotone, MorphExOp, MorphOp,
};
use crate::packing::{deinterleaved, interleaved};
use crate::pixel::MorphPixel;
use crate::plane::{lemma_plane_index_bounds, lemma_plane_index_inverse, plane_index};
use crate::se_scan::{
    closes_last, expand_run, expand_runs, sorted_yx,
    group_runs, insert_pos, insert_sorted, lemma_cell_coordinates, run_of, runs_state, se_cell_point, se_points,
    sort_yx, structuring_points, yx_le, FilterBoundsProcess, ScanPoint,
};
use vstd::arithmetic::div_mod::lemma_fundamental_div_mod_converse;
use vstd::prelude::*;

verus! {

/// The border modes read outside a line of `n` samples `a b c ... g h` as
/// documented: `Clamp` repeats the edge sample, `Wrap` continues from the other
/// end (`...gh|ab...gh|ab...`), `Reflect` mirrors including the edge sample
/// (`...ba|ab...gh|hg...`), and `Reflect101` mirrors without repeating it
/// (`...cb|ab...gh|gf...`, reaching the far end sample at `-(n - 1)` on the
/// left and the first sample at `2n - 2` on the right).
pub proof fn lemma_border_mode_rules(n: int)
    requires
        n >= 2,
    ensures
        border_source(BorderMode::Clamp, -1, n) == 0,
        border_source(BorderMode::Clamp, -2, n) == 0,
        border_source(BorderMode::Clamp, n, n) == n - 1,
        border_source(BorderMode::Clamp, n + 1, n) == n - 1,
        border_source(BorderMode::Wrap, -1, n) == n - 1,
        border_source(BorderMode::Wrap, n, n) == 0,
        border_source(BorderMode::Wrap, n + 1, n) == 1,
        border_source(BorderMode::Reflect, -1, n) == 0,
        border_source(BorderMode::Reflect, -2, n) == 1,
        border_source(BorderMode::Reflect, n, n) == n - 1,
        border_source(BorderMode::Reflect, n + 1, n) == n - 2,
        border_source(BorderMode::Reflect101, -1, n) == 1,
        border_source(BorderMode::Reflect101, -(n - 1), n) == n - 1,
        border_source(BorderMode::Reflect101, n, n) == n - 2,
        border_source(BorderMode::Reflect101, 2 * n - 2, n) == 0,
        forall|i: int| n <= i <= 2 * n - 2 ==> #[trigger] border_source(BorderMode::Reflect101, i, n)
            == 2 * n - 2 - i,
        forall|i: int| -(n - 1) <= i < 0 ==> #[trigger] border_source(BorderMode::Reflect101, i, n)
            == -i,
{
    assert forall|i: int| -(n - 1) <= i < 0 implies #[trigger] border_source(
        BorderMode::Reflect101,
        i,
        n,
    ) == -i by {
        lemma_fundamental_div_mod_converse(i, n - 1, -1, i + n - 1);
    }
    lemma_fundamental_div_mod_converse(-1, n, -1, n - 1);
    lemma_fundamental_div_mod_converse(-2, n, -1, n - 2);
    lemma_fundamental_div_mod_converse(n, n, 1, 0);
    lemma_fundamental_div_mod_converse(n + 1, n, 1, 1);
    lemma_fundamental_div_mod_converse(-1, n - 1, -1, n - 2);
}

/// Every non-zero cell before `n` gives a point of the element.
pub proof fn lemma_se_points_contains(se: Seq<u8>, kw: int, kh: int, n: int, c: int) -> (k: int)
    requires
        0 <= c < n,
        se[c] != 0,
    ensures
        0 <= k < se_points(se, kw, kh, n).len(),
        se_points(se, kw, kh, n)[k] == se_cell_point(kw, kh, c),
    decreases n,
{
    if c == n - 1 {
        se_points(se, kw, kh, n - 1).len() as int
    } else {
        let k = lemma_se_points_contains(se, kw, kh, n - 1, c);
        if se[n - 1] != 0 {
            assert(se_points(se, kw, kh, n) == se_points(se, kw, kh, n - 1).push(
                se_cell_point(kw, kh, n - 1),
            ));
        }
        k
    }
}

/// The centre cell of a `kw` x `kh` element, row `kh / 2`, column `kw / 2`.
pub open spec fn centre_cell(kw: int, kh: int) -> int {
    plane_index(kw, kh / 2, kw / 2)
}

/// An element whose centre cell is set has the point `(0, 0)`.
pub proof fn lemma_centre_point(se: Seq<u8>, kw: int, kh: int) -> (k: int)
    requires
        1 <= kw,
        1 <= kh,
        se.len() == kw * kh,
        se[centre_cell(kw, kh)] != 0,
    ensures
        0 <= k < structuring_points(se, kw, kh).len(),
        structuring_points(se, kw, kh)[k] == (ScanPoint { x: 0, y: 0 }),
{
    lemma_plane_index_bounds(kw, kh, kh / 2, kw / 2);
    lemma_plane_index_inverse(kw, kh / 2, kw / 2);
    lemma_se_points_contains(se, kw, kh, kw * kh, centre_cell(kw, kh))
}

/// The pixel `i` of a result image is the value that the operation gives at
/// its row and column.
proof fn lemma_morph_image_at<T: MorphPixel>(
    op: MorphOp,
    img: Seq<T>,
    width: int,
    height: int,
    se: Seq<u8>,
    kw: int,
    kh: int,
    mode: BorderMode,
    constant: T,
    y: int,
    x: int,
)
    requires
        width >= 1,
        height >= 1,
        0 <= y < height,
        0 <= x < width,
        structuring_points(se, kw, kh).len() >= 1,
    ensures
        morph_image(op, img, width, height, se, kw, kh, mode, constant)[plane_index(
            width,
            y,
            x,
        )].value() == morph_pixel(
            op,
            img,
            width,
            height,
            mode,
            constant,
            structuring_points(se, kw, kh),
            y,
            x,
        ),
        morph_image(op, img, width, height, se, kw, kh, mode, constant).len() == width * height,
{
    let pts = structuring_points(se, kw, kh);
    lemma_plane_index_bounds(width, height, y, x);
    lemma_plane_index_inverse(width, y, x);
    lemma_morph_pixel_in_range(op, img, width, height, mode, constant, pts, y, x);
    T::lemma_from_value(morph_pixel(op, img, width, height, mode, constant, pts, y, x));
}

/// Where the structuring element holds its centre, dilation never lowers a
/// pixel and erosion never raises one, under every border mode.
pub proof fn lemma_dilation_extensive_erosion_anti_extensive<T: MorphPixel>(
    img: Seq<T>,
    width: int,
    height: int,
    se: Seq<u8>,
    kw: int,
    kh: int,
    mode: BorderMode,
    constant: T,
    y: int,
    x: int,
)
    requires
        width >= 1,
        height >= 1,
        img.len() == width * height,
        1 <= kw,
        1 <= kh,
        se.len() == kw * kh,
        se[centre_cell(kw, kh)] != 0,
        0 <= y < height,
        0 <= x < width,
    ensures
        morph_ex_image(MorphExOp::Dilate, img, width, height, se, kw, kh, mode, constant)[plane_index(
            width,
            y,
            x,
        )].value() >= img[plane_index(width, y, x)].value(),
        morph_ex_image(MorphExOp::Erode, img, width, height, se, kw, kh, mode, constant)[plane_index(
            width,
            y,
            x,
        )].value() <= img[plane_index(width, y, x)].value(),
{
    let pts = structuring_points(se, kw, kh);
    let k = lemma_centre_point(se, kw, kh);
    lemma_morph_image_at(MorphOp::Dilate, img, width, height, se, kw, kh, mode, constant, y, x);
    lemma_morph_image_at(MorphOp::Erode, img, width, height, se, kw, kh, mode, constant, y, x);
    let s = window_values(img, width, height, mode, constant, pts, y, x);
    assert(s[k] == img[plane_index(width, y, x)].value());
    lemma_reduce_bounds(MorphOp::Dilate, s, s.len() as int, k);
    lemma_reduce_bounds(MorphOp::Erode, s, s.len() as int, k);
}

/// Sample by sample, `a` is at most `b`.
pub open spec fn pointwise_le<T: MorphPixel>(a: Seq<T>, b: Seq<T>) -> bool {
    &&& a.len() == b.len()
    &&& forall|i: int| 0 <= i < a.len() ==> (#[trigger] a[i]).value() <= b[i].value()
}

/// Dilation and erosion keep order: a plane that is nowhere brighter than
/// another, with a border constant that is not brighter, gives a result that
/// is nowhere brighter.
pub proof fn lemma_morph_image_monotone<T: MorphPixel>(
    op: MorphOp,
    img1: Seq<T>,
    img2: Seq<T>,
    width: int,
    height: int,
    se: Seq<u8>,
    kw: int,
    kh: int,
    mode: BorderMode,
    c1: T,
    c2: T,
)
    requires
        width >= 1,
        height >= 1,
        img1.len() == width * height,
        pointwise_le(img1, img2),
        c1.value() <= c2.value(),
        0 <= kw <= i32::MAX,
        0 <= kh <= i32::MAX,
        se.len() == kw * kh,
    ensures
        pointwise_le(
            morph_image(op, img1, width, height, se, kw, kh, mode, c1),
            morph_image(op, img2, width, height, se, kw, kh, mode, c2),
        ),
{
    let pts = structuring_points(se, kw, kh);
    if pts.len() >= 1 {
        let m1 = morph_image(op, img1, width, height, se, kw, kh, mode, c1);
        let m2 = morph_image(op, img2, width, height, se, kw, kh, mode, c2);
        assert forall|i: int| 0 <= i < m1.len() implies (#[trigger] m1[i]).value() <= m2[i].value() by {
            lemma_cell_coordinates(width, height, i);
            let y = i / width;
            let x = i % width;
            assert(plane_index(width, y, x) == i);
            lemma_morph_image_at(op, img1, width, height, se, kw, kh, mode, c1, y, x);
            lemma_morph_image_at(op, img2, width, height, se, kw, kh, mode, c2, y, x);
            let s1 = window_values(img1, width, height, mode, c1, pts, y, x);
            let s2 = window_values(img2, width, height, mode, c2, pts, y, x);
            assert forall|k: int| 0 <= k < s1.len() implies s1[k] <= s2[k] by {
                let yy = y + pts[k].y;
                let xx = x + pts[k].x;
                if !(mode == BorderMode::Constant && !(0 <= yy < height && 0 <= xx < width)) {
                    crate::morph_base::lemma_plane_sample_source(img1, width, height, mode, c1, yy, xx);
                    crate::morph_base::lemma_plane_sample_source(img2, width, height, mode, c2, yy, xx);
                }
            }
            lemma_reduce_monotone(op, s1, s2, s1.len() as int);
        }
    }
}

/// Opening and closing keep order too, as compositions of dilation and erosion.
pub proof fn lemma_opening_closing_monotone<T: MorphPixel>(
    img1: Seq<T>,
    img2: Seq<T>,
    width: int,
    height: int,
    se: Seq<u8>,
    kw: int,
    kh: int,
    mode: BorderMode,
    c1: T,
    c2: T,
)
    requires
        width >= 1,
        height >= 1,
        img1.len() == width * height,
        pointwise_le(img1, img2),
        c1.value() <= c2.value(),
        0 <= kw <= i32::MAX,
        0 <= kh <= i32::MAX,
        se.len() == kw * kh,
    ensures
        pointwise_le(
            morph_ex_image(MorphExOp::Opening, img1, width, height, se, kw, kh, mode, c1),
            morph_ex_image(MorphExOp::Opening, img2, width, height, se, kw, kh, mode, c2),
        ),
        pointwise_le(
            morph_ex_image(MorphExOp::Closing, img1, width, height, se, kw, kh, mode, c1),
            morph_ex_image(MorphExOp::Closing, img2, width, height, se, kw, kh, mode, c2),
        ),
{
    let e1 = morph_image(MorphOp::Erode, img1, width, height, se, kw, kh, mode, c1);
    let e2 = morph_image(MorphOp::Erode, img2, width, height, se, kw, kh, mode, c2);
    let d1 = morph_image(MorphOp::Dilate, img1, width, height, se, kw, kh, mode, c1);
    let d2 = morph_image(MorphOp::Dilate, img2, width, height, se, kw, kh, mode, c2);
    lemma_morph_image_monotone(MorphOp::Erode, img1, img2, width, height, se, kw, kh, mode, c1, c2);
    lemma_morph_image_monotone(MorphOp::Dilate, img1, img2, width, height, se, kw, kh, mode, c1, c2);
    if structuring_points(se, kw, kh).len() >= 1 {
        lemma_morph_image_at(MorphOp::Erode, img1, width, height, se, kw, kh, mode, c1, 0, 0);
        lemma_morph_image_at(MorphOp::Dilate, img1, width, height, se, kw, kh, mode, c1, 0, 0);
    }
    lemma_morph_image_monotone(MorphOp::Dilate, e1, e2, width, height, se, kw, kh, mode, c1, c2);
    lemma_morph_image_monotone(MorphOp::Erode, d1, d2, width, height, se, kw, kh, mode, c1, c2);
}

/// Interleaving the planes of an image gives the image back.
pub proof fn lemma_interleave_deinterleave<T>(src: Seq<T>, channels: int, count: int)
    requires
        channels >= 1,
        count >= 0,
        src.len() == channels * count,
    ensures
        interleaved(
            Seq::new(channels as nat, |c: int| deinterleaved(src, channels, c)),
            channels,
            count,
        ) == src,
{
    let chans = Seq::new(channels as nat, |c: int| deinterleaved(src, channels, c));
    let back = interleaved(chans, channels, count);
    assert(channels * count == count * channels) by (nonlinear_arith);
    vstd::arithmetic::div_mod::lemma_fundamental_div_mod_converse(
        src.len() as int,
        channels,
        count,
        0,
    );
    assert(channels * count == count * channels) by (nonlinear_arith);
    assert forall|j: int| 0 <= j < src.len() implies back[j] == src[j] by {
        crate::packing::lemma_interleave_split(channels, j);
        let q = j / channels;
        assert(q < count) by (nonlinear_arith)
            requires
                j == channels * q + j % channels,
                j < channels * count,
                0 <= j % channels,
                channels >= 1,
        ;
    }
    assert(back =~= src);
}

/// Splitting interleaved planes gives each plane back.
pub proof fn lemma_deinterleave_interleave<T>(chans: Seq<Seq<T>>, channels: int, count: int, c: int)
    requires
        channels >= 1,
        count >= 0,
        chans.len() == channels,
        forall|k: int| 0 <= k < channels ==> (#[trigger] chans[k]).len() == count,
        0 <= c < channels,
    ensures
        deinterleaved(interleaved(chans, channels, count), channels, c) == chans[c],
{
    let img = interleaved(chans, channels, count);
    let back = deinterleaved(img, channels, c);
    assert(channels * count == count * channels) by (nonlinear_arith);
    vstd::arithmetic::div_mod::lemma_fundamental_div_mod_converse(
        img.len() as int,
        channels,
        count,
        0,
    );
    assert(channels * count == count * channels) by (nonlinear_arith);
    assert forall|i: int| 0 <= i < count implies back[i] == chans[c][i] by {
        crate::packing::lemma_interleave_index(channels, i, c);
        assert(channels * (i + 1) <= channels * count) by (nonlinear_arith)
            requires
                i < count,
                channels >= 1,
        ;
    }
    assert(back =~= chans[c]);
}

} // verus!

verus! {

/// The open run `start_x ..= cur_x` on row `cur_y`, as points.
pub open spec fn open_run(start_x: int, cur_x: int, cur_y: int) -> Seq<ScanPoint> {
    Seq::new((cur_x - start_x + 1) as nat, |t: int| ScanPoint { x: (start_x + t) as i32, y: cur_y as i32 })
}

proof fn lemma_runs_state_expand(s: Seq<ScanPoint>, k: int)
    requires
        1 <= k <= s.len(),
        s.len() <= 65535,
    ensures
        ({
            let (done, start_x, cur_x, cur_y) = runs_state(s, k);
            &&& start_x <= cur_x
            &&& cur_x - start_x + 1 <= k
            &&& i32::MIN <= start_x
            &&& cur_x <= i32::MAX
            &&& i32::MIN <= cur_y <= i32::MAX
            &&& expand_runs(done) + open_run(start_x, cur_x, cur_y) == s.take(k)
        }),
    decreases k,
{
    if k == 1 {
        let (done, start_x, cur_x, cur_y) = runs_state(s, k);
        assert(expand_runs(done) =~= Seq::<ScanPoint>::empty());
        assert(open_run(start_x, cur_x, cur_y) =~= s.take(1));
    } else {
        lemma_runs_state_expand(s, k - 1);
        let (done, start_x, cur_x, cur_y) = runs_state(s, k - 1);
        let p = s[k - 1];
        assert(s.take(k) =~= s.take(k - 1).push(p));
        if p.x != cur_x + 1 || cur_y != p.y {
            let fb = run_of(start_x, cur_x, cur_y);
            assert(expand_run(fb) =~= open_run(start_x, cur_x, cur_y));
            let done2 = done.push(fb);
            assert(done2.drop_last() =~= done);
            assert(open_run(p.x as int, p.x as int, p.y as int) =~= seq![p]);
            assert(expand_runs(done2) + open_run(p.x as int, p.x as int, p.y as int) =~= s.take(k));
        } else {
            assert(open_run(start_x, p.x as int, p.y as int) =~= open_run(start_x, cur_x, cur_y).push(p));
            assert(expand_runs(done) + open_run(start_x, p.x as int, p.y as int) =~= s.take(k));
        }
    }
}

/// Grouping points into runs adds nothing and keeps their order: the runs,
/// expanded one after the other, are the points, except that a last point (of
/// two or more) that starts a run of its own gets no run (for fewer than 65536
/// points, so that no run is longer than a `u16` counts).
pub proof fn lemma_group_runs_expand(s: Seq<ScanPoint>)
    requires
        s.len() <= 65535,
    ensures
        expand_runs(group_runs(s)) == if closes_last(s) {
            s.drop_last()
        } else {
            s
        },
{
    if s.len() > 0 {
        if closes_last(s) {
            let n = s.len() as int;
            lemma_runs_state_expand(s, n - 1);
            let (done, start_x, cur_x, cur_y) = runs_state(s, n - 1);
            let fb = run_of(start_x, cur_x, cur_y);
            assert(expand_run(fb) =~= open_run(start_x, cur_x, cur_y));
            let all = done.push(fb);
            assert(all.drop_last() =~= done);
            assert(s.take(n - 1) =~= s.drop_last());
        } else {
            lemma_runs_state_expand(s, s.len() as int);
            let (done, start_x, cur_x, cur_y) = runs_state(s, s.len() as int);
            let fb = run_of(start_x, cur_x, cur_y);
            assert(expand_run(fb) =~= open_run(start_x, cur_x, cur_y));
            let all = done.push(fb);
            assert(all.drop_last() =~= done);
            assert(s.take(s.len() as int) =~= s);
        }
    } else {
        assert(group_runs(s) =~= Seq::<FilterBoundsProcess>::empty());
        assert(expand_runs(group_runs(s)) =~= s);
    }
}

} // verus!

verus! {

/// Sorting points that are already in order leaves them as they are.
pub proof fn lemma_sort_yx_identity(s: Seq<ScanPoint>)
    requires
        sorted_yx(s),
    ensures
        sort_yx(s) == s,
    decreases s.len(),
{
    if s.len() > 0 {
        let d = s.drop_last();
        assert(sorted_yx(d));
        lemma_sort_yx_identity(d);
        if d.len() > 0 {
            assert(yx_le(s[d.len() - 1], s[s.len() - 1]));
        }
        assert(insert_pos(d, s.last()) == d.len());
        assert(d.insert(d.len() as int, s.last()) =~= s);
    }
}

/// The last point among the first `n` cells comes from a cell before `n`.
proof fn lemma_se_points_last(se: Seq<u8>, kw: int, kh: int, n: int) -> (c: int)
    requires
        se_points(se, kw, kh, n).len() > 0,
    ensures
        0 <= c < n,
        se_points(se, kw, kh, n).last() == se_cell_point(kw, kh, c),
    decreases n,
{
    if se[n - 1] != 0 {
        n - 1
    } else {
        lemma_se_points_last(se, kw, kh, n - 1)
    }
}

/// Cells in row-major order give points in order by row, then by column.
proof fn lemma_cell_order(kw: int, kh: int, c1: int, c2: int)
    requires
        1 <= kw <= i32::MAX,
        0 <= kh <= i32::MAX,
        0 <= c1 < c2 < kw * kh,
    ensures
        yx_le(se_cell_point(kw, kh, c1), se_cell_point(kw, kh, c2)),
{
    lemma_cell_coordinates(kw, kh, c1);
    lemma_cell_coordinates(kw, kh, c2);
    let q1 = c1 / kw;
    let q2 = c2 / kw;
    let r1 = c1 % kw;
    let r2 = c2 % kw;
    assert(q1 <= q2) by (nonlinear_arith)
        requires
            c1 == q1 * kw + r1,
            c2 == q2 * kw + r2,
            0 <= r1 < kw,
            0 <= r2 < kw,
            c1 < c2,
    ;
    if q1 == q2 {
        assert(r1 < r2);
    }
}

/// The points of an element come in order by row, then by column.
pub proof fn lemma_se_points_sorted(se: Seq<u8>, kw: int, kh: int, n: int)
    requires
        1 <= kw <= i32::MAX,
        0 <= kh <= i32::MAX,
        n <= kw * kh,
    ensures
        sorted_yx(se_points(se, kw, kh, n)),
    decreases n,
{
    if n > 0 {
        lemma_se_points_sorted(se, kw, kh, n - 1);
        let prev = se_points(se, kw, kh, n - 1);
        if se[n - 1] != 0 && prev.len() > 0 {
            let c = lemma_se_points_last(se, kw, kh, n - 1);
            lemma_cell_order(kw, kh, c, n - 1);
            let cur = se_points(se, kw, kh, n);
            assert(cur == prev.push(se_cell_point(kw, kh, n - 1)));
            assert forall|i: int, j: int| 0 <= i < j < cur.len() implies yx_le(
                #[trigger] cur[i],
                #[trigger] cur[j],
            ) by {
                if j == cur.len() - 1 {
                    assert(cur[i] == prev[i]);
                    if i < prev.len() - 1 {
                        assert(yx_le(prev[i], prev[prev.len() - 1]));
                    }
                } else {
                    assert(cur[i] == prev[i] && cur[j] == prev[j]);
                }
            }
        } else if se[n - 1] != 0 {
            assert(se_points(se, kw, kh, n).len() == 1);
        } else {
            assert(se_points(se, kw, kh, n) == prev);
        }
    }
}

/// The runs of a scanned element stand for its points in order: the runs
/// expanded one after the other are the element's points, but for a last point
/// that starts a run of its own, which gets no run (for elements of fewer than
/// 65536 cells).
pub proof fn lemma_scanned_runs_cover_points(se: Seq<u8>, kw: int, kh: int)
    requires
        0 <= kw <= i32::MAX,
        0 <= kh <= i32::MAX,
        kw * kh <= 65535,
    ensures
        ({
            let pts = structuring_points(se, kw, kh);
            expand_runs(group_runs(sort_yx(pts))) == if closes_last(pts) {
                pts.drop_last()
            } else {
                pts
            }
        }),
{
    let pts = structuring_points(se, kw, kh);
    if kw >= 1 {
        lemma_se_points_sorted(se, kw, kh, kw * kh);
        lemma_sort_yx_identity(pts);
    } else {
        assert(pts =~= Seq::<ScanPoint>::empty());
        assert(sort_yx(pts) == pts);
    }
    lemma_se_points_len(se, kw, kh, kw * kh);
    lemma_group_runs_expand(pts);
}

/// An element has at most one point per cell.
proof fn lemma_se_points_len(se: Seq<u8>, kw: int, kh: int, n: int)
    ensures
        se_points(se, kw, kh, n).len() <= if n < 0 {
            0
        } else {
            n
        },
    decreases n,
{
    if n > 0 {
        lemma_se_points_len(se, kw, kh, n - 1);
    }
}

} // verus!

verus! {

/// In a sorted line, `p` belongs after every point up to `insert_pos` and
/// before every point from there on.
proof fn lemma_insert_pos_splits(s: Seq<ScanPoint>, p: ScanPoint)
    requires
        sorted_yx(s),
    ensures
        0 <= insert_pos(s, p) <= s.len(),
        forall|i: int| 0 <= i < insert_pos(s, p) ==> yx_le(#[trigger] s[i], p),
        forall|i: int| insert_pos(s, p) <= i < s.len() ==> !yx_le(#[trigger] s[i], p),
    decreases s.len(),
{
    if s.len() > 0 {
        if yx_le(s.last(), p) {
            assert forall|i: int| 0 <= i < s.len() implies yx_le(#[trigger] s[i], p) by {
                if i < s.len() - 1 {
                    assert(yx_le(s[i], s[s.len() - 1]));
                }
            }
        } else {
            let d = s.drop_last();
            assert(sorted_yx(d));
            lemma_insert_pos_splits(d, p);
            assert forall|i: int| 0 <= i < insert_pos(s, p) implies yx_le(#[trigger] s[i], p) by {
                assert(s[i] == d[i]);
            }
            assert forall|i: int| insert_pos(s, p) <= i < s.len() implies !yx_le(#[trigger] s[i], p) by {
                if i < s.len() - 1 {
                    assert(s[i] == d[i]);
                }
            }
        }
    }
}

/// Inserting a point where it belongs keeps a line sorted.
proof fn lemma_insert_sorted_sorted(s: Seq<ScanPoint>, p: ScanPoint)
    requires
        sorted_yx(s),
    ensures
        sorted_yx(insert_sorted(s, p)),
        insert_sorted(s, p).to_multiset() == s.to_multiset().insert(p),
{
    lemma_insert_pos_splits(s, p);
    let j = insert_pos(s, p);
    let r = insert_sorted(s, p);
    assert forall|a: int, b: int| 0 <= a < b < r.len() implies yx_le(#[trigger] r[a], #[trigger] r[b]) by {
        if b < j {
            assert(r[a] == s[a] && r[b] == s[b]);
        } else if b == j {
            assert(r[a] == s[a]);
        } else if a < j {
            assert(r[a] == s[a] && r[b] == s[b - 1]);
            assert(yx_le(s[a], p));
        } else if a == j {
            assert(r[b] == s[b - 1]);
        } else {
            assert(r[a] == s[a - 1] && r[b] == s[b - 1]);
        }
    }
    vstd::seq_lib::to_multiset_insert(s, j, p);
}

/// The order `group_scan_points` sorts by is a real sort: its result is in
/// order by row, then by column, and holds the same points as often as the
/// input does.
pub proof fn lemma_sort_yx_sorts(s: Seq<ScanPoint>)
    ensures
        sorted_yx(sort_yx(s)),
        sort_yx(s).to_multiset() == s.to_multiset(),
    decreases s.len(),
{
    if s.len() == 0 {
        assert(sort_yx(s) == s);
    } else {
        let d = s.drop_last();
        lemma_sort_yx_sorts(d);
        lemma_insert_sorted_sorted(sort_yx(d), s.last());
        vstd::seq_lib::to_multiset_build(d, s.last());
        assert(d.push(s.last()) =~= s);
    }
}

/// The RGB row filter, run on the arena into which `make_arena` pads an
/// interleaved RGB image, writes into each channel of row `y` the dilation or
/// erosion of that channel alone: what the planar filters give on the plane of
/// that channel, padded with that channel's constant.
pub proof fn lemma_rgb_row_per_channel<T: MorphPixel>(
    dst: Seq<T>,
    old: Seq<T>,
    op: MorphOp,
    a: Arena<T>,
    img: Seq<T>,
    width: int,
    height: int,
    mode: BorderMode,
    constants: Seq<T>,
    pts: Seq<ScanPoint>,
    y: int,
)
    requires
        arena_holds_channels(a, img, 3, width, height, mode, constants),
        img.len() == 3 * (width * height),
        width >= 1,
        height >= 1,
        points_within_pad(pts, a.pad_w as int, a.pad_h as int),
        rgb_row_written(dst, old, op, a, width, pts, y),
        0 <= y < height,
    ensures
        forall|x: int, c: int|
            0 <= x < width && 0 <= c < 3 ==> (#[trigger] dst[pixel_index(width, 3, y, x, c)]).value()
                == morph_pixel(op, deinterleaved(img, 3, c), width, height, mode, constants[c], pts, y, x),
{
    assert forall|x: int, c: int| 0 <= x < width && 0 <= c < 3 implies (#[trigger] dst[pixel_index(
        width,
        3,
        y,
        x,
        c,
    )]).value() == morph_pixel(op, deinterleaved(img, 3, c), width, height, mode, constants[c], pts, y, x) by {
        lemma_pixel_window_matches(a, img, 3, width, height, mode, constants, pts, y, x, c);
    }
}

} // verus!

verus! {

/// A planar morphology's outcome is fixed by its source, the previous content
/// of its destination, the operation, the sizes, the element and the border:
/// two runs that differ only in the threading policy (or in the number of
/// threads it gives) leave the same image and succeed or fail together with the
/// same message. `dilate` and `erode` have the outcome of `morphology` with
/// `Dilate` and `Erode`, so they agree with it in the same way.
pub proof fn lemma_planar_outcome_determined<T: MorphPixel>(
    r1: Result<(), String>,
    r2: Result<(), String>,
    src: Seq<T>,
    old_dst: Seq<T>,
    new1: Seq<T>,
    new2: Seq<T>,
    op: MorphExOp,
    image_size: ImageSize,
    se: Seq<u8>,
    se_size: KernelShape,
    mode: BorderMode,
    constant: T,
)
    requires
        planar_outcome(r1, src, old_dst, new1, op, image_size, se, se_size, mode, constant),
        planar_outcome(r2, src, old_dst, new2, op, image_size, se, se_size, mode, constant),
    ensures
        new1 == new2,
        r1 is Ok <==> r2 is Ok,
        match (r1, r2) {
            (Err(m1), Err(m2)) => m1@ == m2@,
            _ => true,
        },
{
}

/// The same for images of interleaved channels: the outcome does not depend on
/// the threading policy.
pub proof fn lemma_interleaved_outcome_determined<T: MorphPixel>(
    r1: Result<(), String>,
    r2: Result<(), String>,
    src: Seq<T>,
    old_dst: Seq<T>,
    new1: Seq<T>,
    new2: Seq<T>,
    op: MorphExOp,
    image_size: ImageSize,
    se: Seq<u8>,
    se_size: KernelShape,
    mode: BorderMode,
    constants: Seq<T>,
    channels: int,
)
    requires
        interleaved_outcome(r1, src, old_dst, new1, op, image_size, se, se_size, mode, constants, channels),
        interleaved_outcome(r2, src, old_dst, new2, op, image_size, se, se_size, mode, constants, channels),
    ensures
        new1 == new2,
        r1 is Ok <==> r2 is Ok,
        match (r1, r2) {
            (Err(m1), Err(m2)) => m1@ == m2@,
            _ => true,
        },
{
}

/// Each channel of an interleaved morphology (RGB with 3 channels, gray with
/// alpha with 2, RGBA with 4) is the planar morphology of that channel alone,
/// with that channel's border value: where the planar morphology of channel `c`
/// succeeds and the slices hold `channels * width * height` samples, the
/// interleaved one succeeds and channel `c` of its result is the planar result.
pub proof fn lemma_interleaved_channel_is_planar<T: MorphPixel>(
    r: Result<(), String>,
    src: Seq<T>,
    old_dst: Seq<T>,
    new_dst: Seq<T>,
    op: MorphExOp,
    image_size: ImageSize,
    se: Seq<u8>,
    se_size: KernelShape,
    mode: BorderMode,
    constants: Seq<T>,
    channels: int,
    c: int,
    rc: Result<(), String>,
    old_c: Seq<T>,
    new_c: Seq<T>,
)
    requires
        channels >= 1,
        0 <= c < channels,
        src.len() == old_dst.len(),
        src.len() == channels * (image_size.width * image_size.height),
        interleaved_outcome(r, src, old_dst, new_dst, op, image_size, se, se_size, mode, constants, channels),
        planar_outcome(rc, deinterleaved(src, channels, c), old_c, new_c, op, image_size, se, se_size, mode, constants[c]),
        rc is Ok,
    ensures
        r is Ok,
        deinterleaved(new_dst, channels, c) == new_c,
{
    let w = image_size.width as int;
    let h = image_size.height as int;
    let kw = se_size.width as int;
    let kh = se_size.height as int;
    assert(w * h >= 0) by (nonlinear_arith)
        requires
            w >= 0,
            h >= 0,
    ;
    assert(w * h * channels == channels * (w * h)) by (nonlinear_arith);
    vstd::arithmetic::div_mod::lemma_div_multiples_vanish(w * h, channels);
    assert(deinterleaved(src, channels, c).len() == w * h);
    let chans = Seq::new(
        channels as nat,
        |k: int|
            morph_ex_image(op, deinterleaved(src, channels, k), w, h, se, kw, kh, mode, constants[k]),
    );
    assert forall|k: int| 0 <= k < channels implies (#[trigger] chans[k]).len() == w * h by {
        assert(deinterleaved(src, channels, k).len() == w * h);
        lemma_morph_ex_image_len(op, deinterleaved(src, channels, k), w, h, se, kw, kh, mode, constants[k]);
    }
    lemma_deinterleave_interleave(chans, channels, w * h, c);
}

/// A 1D morphology's outcome is fixed by its line, the previous content of its
/// destination, the kernel, the operation and the border.
pub proof fn lemma_line_outcome_determined<T: MorphPixel>(
    r1: Result<(), MorphError>,
    r2: Result<(), MorphError>,
    src: Seq<T>,
    old_dst: Seq<T>,
    new1: Seq<T>,
    new2: Seq<T>,
    kernel: Seq<u8>,
    op: MorphExOp,
    mode: BorderMode,
    constant: T,
)
    requires
        filter_1d_outcome(r1, src, old_dst, new1, kernel, op, mode, constant),
        filter_1d_outcome(r2, src, old_dst, new2, kernel, op, mode, constant),
    ensures
        new1 == new2,
        r1 is Ok <==> r2 is Ok,
        match (r1, r2) {
            (Err(e1), Err(e2)) => e1 == e2,
            _ => true,
        },
{
}

/// 1D opening is the dilation of the erosion, and closing the erosion of the
/// dilation, each computed by its own call with the same kernel and border:
/// where both calls succeed and the destination is as long as the line, the
/// compound call succeeds with the second call's result.
pub proof fn lemma_line_opening_closing<T: MorphPixel>(
    op: MorphExOp,
    src: Seq<T>,
    kernel: Seq<u8>,
    mode: BorderMode,
    constant: T,
    r1: Result<(), MorphError>,
    old1: Seq<T>,
    first: Seq<T>,
    r2: Result<(), MorphError>,
    old2: Seq<T>,
    second: Seq<T>,
    r: Result<(), MorphError>,
    old_dst: Seq<T>,
    new_dst: Seq<T>,
)
    requires
        op == MorphExOp::Opening || op == MorphExOp::Closing,
        filter_1d_outcome(
            r1,
            src,
            old1,
            first,
            kernel,
            if op == MorphExOp::Opening { MorphExOp::Erode } else { MorphExOp::Dilate },
            mode,
            constant,
        ),
        r1 is Ok,
        filter_1d_outcome(
            r2,
            first,
            old2,
            second,
            kernel,
            if op == MorphExOp::Opening { MorphExOp::Dilate } else { MorphExOp::Erode },
            mode,
            constant,
        ),
        r2 is Ok,
        filter_1d_outcome(r, src, old_dst, new_dst, kernel, op, mode, constant),
        old_dst.len() == src.len(),
    ensures
        r is Ok,
        new_dst == second,
{
    let w = src.len() as int;
    let kw = kernel.len() as int;
    lemma_morph_ex_image_len(op, src, w, 1, kernel, kw, 1, mode, constant);
}

/// 1D gradient is the saturating difference of the dilation and the erosion,
/// each computed by its own call with the same kernel and border.
pub proof fn lemma_line_gradient<T: MorphPixel>(
    src: Seq<T>,
    kernel: Seq<u8>,
    mode: BorderMode,
    constant: T,
    rd: Result<(), MorphError>,
    old_d: Seq<T>,
    dilation: Seq<T>,
    re: Result<(), MorphError>,
    old_e: Seq<T>,
    erosion: Seq<T>,
    r: Result<(), MorphError>,
    old_dst: Seq<T>,
    new_dst: Seq<T>,
)
    requires
        filter_1d_outcome(rd, src, old_d, dilation, kernel, MorphExOp::Dilate, mode, constant),
        rd is Ok,
        filter_1d_outcome(re, src, old_e, erosion, kernel, MorphExOp::Erode, mode, constant),
        re is Ok,
        filter_1d_outcome(r, src, old_dst, new_dst, kernel, MorphExOp::Gradient, mode, constant),
        old_dst.len() == src.len(),
    ensures
        r is Ok,
        new_dst == gradient_image(dilation, erosion),
        forall|i: int|
            0 <= i < new_dst.len() ==> #[trigger] new_dst[i] == T::from_value(
                saturating_diff_value::<T>(dilation[i].value(), erosion[i].value()),
            ),
{
}

/// `v` turned upside down: the lowest value becomes the highest and back.
pub open spec fn inverted<T: MorphPixel>(v: T) -> T {
    T::from_value(T::lowest() + T::highest() - v.value())
}

/// Every sample of `img` turned upside down (`255 - v` for 8-bit samples).
pub open spec fn inverted_image<T: MorphPixel>(img: Seq<T>) -> Seq<T> {
    Seq::new(img.len(), |i: int| inverted(img[i]))
}

proof fn lemma_inverted_value<T: MorphPixel>(v: T)
    ensures
        inverted(v).value() == T::lowest() + T::highest() - v.value(),
        inverted(inverted(v)) == v,
{
    T::lemma_value_bounds(v);
    T::lemma_from_value(T::lowest() + T::highest() - v.value());
    T::lemma_from_value(v.value());
    T::lemma_value_injective(inverted(inverted(v)), v);
}

/// Erosion at a pixel is the inverted dilation of the inverted plane, the
/// border constant inverted too.
proof fn lemma_pixel_duality<T: MorphPixel>(
    img: Seq<T>,
    width: int,
    height: int,
    mode: BorderMode,
    constant: T,
    pts: Seq<ScanPoint>,
    y: int,
    x: int,
)
    requires
        width >= 1,
        height >= 1,
        img.len() == width * height,
        pts.len() >= 1,
    ensures
        morph_pixel(MorphOp::Erode, img, width, height, mode, constant, pts, y, x)
            == T::lowest() + T::highest() - morph_pixel(
            MorphOp::Dilate,
            inverted_image(img),
            width,
            height,
            mode,
            inverted(constant),
            pts,
            y,
            x,
        ),
{
    let s = window_values(img, width, height, mode, constant, pts, y, x);
    let inv = inverted_image(img);
    let t = window_values(inv, width, height, mode, inverted(constant), pts, y, x);
    assert forall|k: int| 0 <= k < s.len() implies #[trigger] t[k] == T::lowest() + T::highest()
        - s[k] by {
        let yy = y + pts[k].y;
        let xx = x + pts[k].x;
        lemma_plane_sample_source(img, width, height, mode, constant, yy, xx);
        lemma_plane_sample_source(inv, width, height, mode, inverted(constant), yy, xx);
        lemma_inverted_value(plane_sample(img, width, height, mode, constant, yy, xx));
    }
    lemma_reduce_duality(s, t, T::lowest() + T::highest(), s.len() as int);
}

/// Erosion is dilation upside down: eroding a plane gives the inverted
/// dilation of the inverted plane, with the border constant inverted (under
/// `Clamp`, `Wrap`, `Reflect` and `Reflect101` the constant plays no part).
pub proof fn lemma_erosion_dilation_duality<T: MorphPixel>(
    img: Seq<T>,
    width: int,
    height: int,
    se: Seq<u8>,
    kw: int,
    kh: int,
    mode: BorderMode,
    constant: T,
)
    requires
        width >= 0,
        height >= 0,
        img.len() == width * height,
    ensures
        morph_image(MorphOp::Erode, img, width, height, se, kw, kh, mode, constant)
            == inverted_image(
            morph_image(
                MorphOp::Dilate,
                inverted_image(img),
                width,
                height,
                se,
                kw,
                kh,
                mode,
                inverted(constant),
            ),
        ),
{
    let pts = structuring_points(se, kw, kh);
    let e = morph_image(MorphOp::Erode, img, width, height, se, kw, kh, mode, constant);
    let d = morph_image(
        MorphOp::Dilate,
        inverted_image(img),
        width,
        height,
        se,
        kw,
        kh,
        mode,
        inverted(constant),
    );
    lemma_morph_ex_image_len(MorphExOp::Erode, img, width, height, se, kw, kh, mode, constant);
    lemma_morph_ex_image_len(
        MorphExOp::Dilate,
        inverted_image(img),
        width,
        height,
        se,
        kw,
        kh,
        mode,
        inverted(constant),
    );
    assert forall|i: int| 0 <= i < e.len() implies e[i] == inverted_image(d)[i] by {
        if pts.len() == 0 {
            lemma_inverted_value(img[i]);
        } else {
            assert(width >= 1) by (nonlinear_arith)
                requires
                    0 <= i < width * height,
                    width >= 0,
                    height >= 0,
            ;
            lemma_cell_coordinates(width, height, i);
            let y = i / width;
            let x = i % width;
            assert(height >= 1);
            lemma_pixel_duality(img, width, height, mode, constant, pts, y, x);
            let dv = morph_pixel(
                MorphOp::Dilate,
                inverted_image(img),
                width,
                height,
                mode,
                inverted(constant),
                pts,
                y,
                x,
            );
            lemma_morph_pixel_in_range(
                MorphOp::Dilate,
                inverted_image(img),
                width,
                height,
                mode,
                inverted(constant),
                pts,
                y,
                x,
            );
            T::lemma_from_value(dv);
            lemma_inverted_value(T::from_value(dv));
        }
    }
    assert(e =~= inverted_image(d));
}

/// The same on lines: a successful 1D erosion gives the inverted result of a
/// successful 1D dilation of the inverted line, with the border value
/// inverted.
pub proof fn lemma_line_duality<T: MorphPixel>(
    src: Seq<T>,
    kernel: Seq<u8>,
    mode: BorderMode,
    constant: T,
    r1: Result<(), MorphError>,
    old1: Seq<T>,
    eroded: Seq<T>,
    r2: Result<(), MorphError>,
    old2: Seq<T>,
    dilated: Seq<T>,
)
    requires
        filter_1d_outcome(r1, src, old1, eroded, kernel, MorphExOp::Erode, mode, constant),
        r1 is Ok,
        filter_1d_outcome(
            r2,
            inverted_image(src),
            old2,
            dilated,
            kernel,
            MorphExOp::Dilate,
            mode,
            inverted(constant),
        ),
        r2 is Ok,
    ensures
        eroded == inverted_image(dilated),
{
    lemma_erosion_dilation_duality(
        src,
        src.len() as int,
        1,
        kernel,
        kernel.len() as int,
        1,
        mode,
        constant,
    );
}

} // verus!

verus! {

/// A planar morphology succeeds whenever the two slices have the same length,
/// the element holds `kw * kh` cells and the image holds `width * height`
/// samples, whatever the element's sides (odd or even) and the operation; its
/// result then has the image's length.
pub proof fn lemma_planar_succeeds_on_matching_sizes<T: MorphPixel>(
    r: Result<(), String>,
    src: Seq<T>,
    old_dst: Seq<T>,
    new_dst: Seq<T>,
    op: MorphExOp,
    image_size: ImageSize,
    se: Seq<u8>,
    se_size: KernelShape,
    mode: BorderMode,
    constant: T,
)
    requires
        planar_outcome(r, src, old_dst, new_dst, op, image_size, se, se_size, mode, constant),
        src.len() == old_dst.len(),
        se.len() == se_size.width * se_size.height,
        src.len() == image_size.width * image_size.height,
    ensures
        r is Ok,
        new_dst.len() == src.len(),
{
    let kw = se_size.width as int;
    let kh = se_size.height as int;
    assert(kh * kw == kw * kh) by (nonlinear_arith);
    lemma_morph_ex_image_len(
        op,
        src,
        image_size.width as int,
        image_size.height as int,
        se,
        kw,
        kh,
        mode,
        constant,
    );
}

/// An interleaved morphology succeeds whenever both slices hold `width *
/// height` pixels of `channels` samples and the element holds `kw * kh`
/// cells, whatever the element's sides.
pub proof fn lemma_interleaved_succeeds_on_matching_sizes<T: MorphPixel>(
    r: Result<(), String>,
    src: Seq<T>,
    old_dst: Seq<T>,
    new_dst: Seq<T>,
    op: MorphExOp,
    image_size: ImageSize,
    se: Seq<u8>,
    se_size: KernelShape,
    mode: BorderMode,
    constants: Seq<T>,
    channels: int,
)
    requires
        interleaved_outcome(r, src, old_dst, new_dst, op, image_size, se, se_size, mode, constants, channels),
        src.len() == old_dst.len(),
        src.len() == image_size.width * image_size.height * channels,
        se.len() == se_size.width * se_size.height,
    ensures
        r is Ok,
{
    let kw = se_size.width as int;
    let kh = se_size.height as int;
    assert(kh * kw == kw * kh) by (nonlinear_arith);
}

/// A 1D morphology succeeds whenever the kernel has an odd length and the two
/// slices have the same length; its result then has the line's length.
pub proof fn lemma_line_succeeds_on_matching_sizes<T: MorphPixel>(
    r: Result<(), MorphError>,
    src: Seq<T>,
    old_dst: Seq<T>,
    new_dst: Seq<T>,
    kernel: Seq<u8>,
    op: MorphExOp,
    mode: BorderMode,
    constant: T,
)
    requires
        filter_1d_outcome(r, src, old_dst, new_dst, kernel, op, mode, constant),
        kernel.len() % 2 == 1,
        src.len() == old_dst.len(),
    ensures
        r is Ok,
        new_dst.len() == src.len(),
{
    lemma_morph_ex_image_len(op, src, src.len() as int, 1, kernel, kernel.len() as int, 1, mode, constant);
}

/// Planar opening is the dilation of the erosion, and closing the erosion of
/// the dilation, each computed by its own call with the same element, border
/// mode and constant: where both calls succeed and the destination is as long
/// as the source, the compound call succeeds with the second call's result.
pub proof fn lemma_planar_opening_closing<T: MorphPixel>(
    op: MorphExOp,
    src: Seq<T>,
    image_size: ImageSize,
    se: Seq<u8>,
    se_size: KernelShape,
    mode: BorderMode,
    constant: T,
    r1: Result<(), String>,
    old1: Seq<T>,
    first: Seq<T>,
    r2: Result<(), String>,
    old2: Seq<T>,
    second: Seq<T>,
    r: Result<(), String>,
    old_dst: Seq<T>,
    new_dst: Seq<T>,
)
    requires
        op == MorphExOp::Opening || op == MorphExOp::Closing,
        planar_outcome(
            r1,
            src,
            old1,
            first,
            if op == MorphExOp::Opening { MorphExOp::Erode } else { MorphExOp::Dilate },
            image_size,
            se,
            se_size,
            mode,
            constant,
        ),
        r1 is Ok,
        planar_outcome(
            r2,
            first,
            old2,
            second,
            if op == MorphExOp::Opening { MorphExOp::Dilate } else { MorphExOp::Erode },
            image_size,
            se,
            se_size,
            mode,
            constant,
        ),
        r2 is Ok,
        planar_outcome(r, src, old_dst, new_dst, op, image_size, se, se_size, mode, constant),
        old_dst.len() == src.len(),
    ensures
        r is Ok,
        new_dst == second,
{
}

/// Planar gradient: each sample is the dilation's sample minus the erosion's,
/// or the lowest value where that falls below it, the dilation and the erosion
/// each computed by its own call with the same element, border mode and
/// constant.
pub proof fn lemma_planar_gradient<T: MorphPixel>(
    src: Seq<T>,
    image_size: ImageSize,
    se: Seq<u8>,
    se_size: KernelShape,
    mode: BorderMode,
    constant: T,
    rd: Result<(), String>,
    old_d: Seq<T>,
    dilation: Seq<T>,
    re: Result<(), String>,
    old_e: Seq<T>,
    erosion: Seq<T>,
    r: Result<(), String>,
    old_dst: Seq<T>,
    new_dst: Seq<T>,
)
    requires
        planar_outcome(rd, src, old_d, dilation, MorphExOp::Dilate, image_size, se, se_size, mode, constant),
        rd is Ok,
        planar_outcome(re, src, old_e, erosion, MorphExOp::Erode, image_size, se, se_size, mode, constant),
        re is Ok,
        planar_outcome(r, src, old_dst, new_dst, MorphExOp::Gradient, image_size, se, se_size, mode, constant),
        old_dst.len() == src.len(),
    ensures
        r is Ok,
        new_dst.len() == dilation.len(),
        forall|i: int|
            0 <= i < new_dst.len() ==> #[trigger] new_dst[i] == T::from_value(
                saturating_diff_value::<T>(dilation[i].value(), erosion[i].value()),
            ),
{
}

/// Planar top hat is the source minus its opening, and black hat the source
/// minus its closing, each sample saturating at the lowest value, the opening
/// or closing computed by its own call with the same element, border mode and
/// constant as the call.
pub proof fn lemma_planar_top_black_hat<T: MorphPixel>(
    op: MorphExOp,
    src: Seq<T>,
    image_size: ImageSize,
    se: Seq<u8>,
    se_size: KernelShape,
    mode: BorderMode,
    constant: T,
    ri: Result<(), String>,
    old_i: Seq<T>,
    inner: Seq<T>,
    r: Result<(), String>,
    old_dst: Seq<T>,
    new_dst: Seq<T>,
)
    requires
        op == MorphExOp::TopHat || op == MorphExOp::BlackHat,
        planar_outcome(
            ri,
            src,
            old_i,
            inner,
            if op == MorphExOp::TopHat { MorphExOp::Opening } else { MorphExOp::Closing },
            image_size,
            se,
            se_size,
            mode,
            constant,
        ),
        ri is Ok,
        planar_outcome(r, src, old_dst, new_dst, op, image_size, se, se_size, mode, constant),
        old_dst.len() == src.len(),
    ensures
        r is Ok,
        new_dst.len() == src.len(),
        forall|i: int|
            0 <= i < new_dst.len() ==> #[trigger] new_dst[i] == T::from_value(
                saturating_diff_value::<T>(src[i].value(), inner[i].value()),
            ),
{
}

/// 1D top hat is the line minus its opening, and black hat the line minus its
/// closing, each sample saturating at the lowest value, the opening or closing
/// computed by its own call with the same kernel, border mode and constant.
pub proof fn lemma_line_top_black_hat<T: MorphPixel>(
    op: MorphExOp,
    src: Seq<T>,
    kernel: Seq<u8>,
    mode: BorderMode,
    constant: T,
    ri: Result<(), MorphError>,
    old_i: Seq<T>,
    inner: Seq<T>,
    r: Result<(), MorphError>,
    old_dst: Seq<T>,
    new_dst: Seq<T>,
)
    requires
        op == MorphExOp::TopHat || op == MorphExOp::BlackHat,
        filter_1d_outcome(
            ri,
            src,
            old_i,
            inner,
            kernel,
            if op == MorphExOp::TopHat { MorphExOp::Opening } else { MorphExOp::Closing },
            mode,
            constant,
        ),
        ri is Ok,
        filter_1d_outcome(r, src, old_dst, new_dst, kernel, op, mode, constant),
        old_dst.len() == src.len(),
    ensures
        r is Ok,
        new_dst.len() == src.len(),
        forall|i: int|
            0 <= i < new_dst.len() ==> #[trigger] new_dst[i] == T::from_value(
                saturating_diff_value::<T>(src[i].value(), inner[i].value()),
            ),
{
}

} // verus!
