use crate::flat_se::{AnalyzedSe, FlatSe};
use crate::plane::{lemma_plane_index_bounds, lemma_plane_index_inverse, lemma_plane_row_step};
use crate::structuring_element::KernelShape;
use vstd::prelude::*;

verus! {

/// A point of a structuring element, relative to its anchor (its centre).
#[derive(Copy, Clone, Debug, Hash, Eq, PartialEq, Structural)]
pub struct ScanPoint {
    pub x: i32,
    pub y: i32,
}

/// A horizontal run of `size` points of a structuring element, starting at `(x, y)`.
#[derive(Copy, Clone, Debug, Hash, Eq, PartialEq, Structural)]
pub struct FilterBoundsProcess {
    pub x: i32,
    pub y: i32,
    pub size: u16,
}

impl ScanPoint {
    pub fn new(x: i32, y: i32) -> (r: ScanPoint)
        ensures
            r.x == x,
            r.y == y,
    {
        ScanPoint { x, y }
    }
}

impl Default for ScanPoint {
    fn default() -> (r: Self)
        ensures
            r.x == 0,
            r.y == 0,
    {
        ScanPoint::new(0, 0)
    }
}

/// `a` comes no later than `b` when points are ordered by row, then by column.
pub open spec fn yx_le(a: ScanPoint, b: ScanPoint) -> bool {
    a.y < b.y || (a.y == b.y && a.x <= b.x)
}

/// Where `p` goes in `s`: after the last element that comes no later than it
/// (counted from the back, so in a sorted `s` after all of them).
pub open spec fn insert_pos(s: Seq<ScanPoint>, p: ScanPoint) -> int
    decreases s.len(),
{
    if s.len() == 0 || yx_le(s.last(), p) {
        s.len() as int
    } else {
        insert_pos(s.drop_last(), p)
    }
}

pub open spec fn insert_sorted(s: Seq<ScanPoint>, p: ScanPoint) -> Seq<ScanPoint> {
    s.insert(insert_pos(s, p), p)
}

/// `s` sorted by row, then by column.
pub open spec fn sort_yx(s: Seq<ScanPoint>) -> Seq<ScanPoint>
    decreases s.len(),
{
    if s.len() == 0 {
        s
    } else {
        insert_sorted(sort_yx(s.drop_last()), s.last())
    }
}

pub proof fn lemma_insert_pos_range(s: Seq<ScanPoint>, p: ScanPoint)
    ensures
        0 <= insert_pos(s, p) <= s.len(),
    decreases s.len(),
{
    if s.len() > 0 && !yx_le(s.last(), p) {
        lemma_insert_pos_range(s.drop_last(), p);
    }
}

pub proof fn lemma_sort_yx_len(s: Seq<ScanPoint>)
    ensures
        sort_yx(s).len() == s.len(),
    decreases s.len(),
{
    if s.len() > 0 {
        lemma_sort_yx_len(s.drop_last());
        lemma_insert_pos_range(sort_yx(s.drop_last()), s.last());
    }
}

fn point_le(a: &ScanPoint, b: &ScanPoint) -> (r: bool)
    ensures
        r == yx_le(*a, *b),
{
    a.y < b.y || (a.y == b.y && a.x <= b.x)
}

fn insert_point_sorted(v: &mut Vec<ScanPoint>, p: ScanPoint)
    ensures
        final(v)@ == insert_sorted(old(v)@, p),
{
    let mut j = v.len();
    assert(v@.take(j as int) =~= v@);
    while j > 0 && !point_le(&v[j - 1], &p)
        invariant
            j <= v.len(),
            v@ == old(v)@,
            insert_pos(v@, p) == insert_pos(v@.take(j as int), p),
        decreases j,
    {
        assert(v@.take(j as int).drop_last() =~= v@.take(j - 1));
        j = j - 1;
    }
    v.insert(j, p);
}

/// The points sorted by row, then by column: the same points, as often as
/// they occur, in that order.
pub fn sort_points(points: &[ScanPoint]) -> (r: Vec<ScanPoint>)
    ensures
        r@ == sort_yx(points@),
        sorted_yx(r@),
        r@.to_multiset() == points@.to_multiset(),
{
    let mut r: Vec<ScanPoint> = Vec::new();
    let n = points.len();
    let mut i: usize = 0;
    assert(points@.take(0) =~= Seq::<ScanPoint>::empty());
    while i < n
        invariant
            n == points@.len(),
            i <= n,
            r@ == sort_yx(points@.take(i as int)),
        decreases n - i,
    {
        assert(points@.take(i + 1).drop_last() =~= points@.take(i as int));
        insert_point_sorted(&mut r, points[i]);
        i = i + 1;
    }
    assert(points@.take(n as int) =~= points@);
    proof {
        crate::laws::lemma_sort_yx_sorts(points@);
    }
    r
}

/// The run that starts at `start_x` and ends at `cur_x` on row `cur_y`.
pub open spec fn run_of(start_x: int, cur_x: int, cur_y: int) -> FilterBoundsProcess {
    FilterBoundsProcess { x: start_x as i32, y: cur_y as i32, size: (cur_x - start_x + 1) as u16 }
}

/// After the first `k` points of `s`: the runs closed so far, and the start,
/// the last column and the row of the open run.
pub open spec fn runs_state(s: Seq<ScanPoint>, k: int) -> (Seq<FilterBoundsProcess>, int, int, int)
    decreases k,
{
    if k <= 1 {
        (seq![], s[0].x as int, s[0].x as int, s[0].y as int)
    } else {
        let (done, start_x, cur_x, cur_y) = runs_state(s, k - 1);
        let p = s[k - 1];
        if p.x != cur_x + 1 || cur_y != p.y {
            (done.push(run_of(start_x, cur_x, cur_y)), p.x as int, p.x as int, p.y as int)
        } else {
            (done, start_x, p.x as int, p.y as int)
        }
    }
}

/// The last of two or more points does not follow the point before it on its
/// row, one column further: it starts a run of its own.
pub open spec fn closes_last(s: Seq<ScanPoint>) -> bool {
    s.len() >= 2 && {
        let (done, start_x, cur_x, cur_y) = runs_state(s, s.len() - 1);
        let p = s[s.len() - 1];
        p.x != cur_x + 1 || cur_y != p.y
    }
}

/// `s` cut into runs of points that follow each other on a row, one column
/// apart, each closed when the next point does not follow it. The run still
/// open after the last point is kept, unless the last point opened it (of two
/// or more points): then no run is kept for the last point.
pub open spec fn group_runs(s: Seq<ScanPoint>) -> Seq<FilterBoundsProcess> {
    if s.len() == 0 {
        seq![]
    } else {
        let (done, start_x, cur_x, cur_y) = runs_state(s, s.len() as int);
        if closes_last(s) {
            done
        } else {
            done.push(run_of(start_x, cur_x, cur_y))
        }
    }
}

/// The points a run stands for: `size` points from `(x, y)` rightwards.
pub open spec fn expand_run(fb: FilterBoundsProcess) -> Seq<ScanPoint> {
    Seq::new(fb.size as nat, |t: int| ScanPoint { x: (fb.x + t) as i32, y: fb.y })
}

/// The points runs stand for, run after run.
pub open spec fn expand_runs(runs: Seq<FilterBoundsProcess>) -> Seq<ScanPoint>
    decreases runs.len(),
{
    if runs.len() == 0 {
        seq![]
    } else {
        expand_runs(runs.drop_last()) + expand_run(runs.last())
    }
}

/// The points are in order by row, then by column.
pub open spec fn sorted_yx(s: Seq<ScanPoint>) -> bool {
    forall|i: int, j: int| 0 <= i < j < s.len() ==> yx_le(#[trigger] s[i], #[trigger] s[j])
}

/// Groups scan points into horizontal runs: the points are sorted by row, then
/// by column, and each stretch of points one column apart on a row becomes a
/// run when the next point does not continue it. After the last point the open
/// run is emitted only if the last point did not open it: when the last of two
/// or more points starts a run of its own, that point gets no run.
pub fn group_scan_points(scan_points: &[ScanPoint]) -> (r: Vec<FilterBoundsProcess>)
    ensures
        r@ == group_runs(sort_yx(scan_points@)),
        scan_points@.len() <= 65535 ==> expand_runs(r@) == if closes_last(sort_yx(scan_points@)) {
            sort_yx(scan_points@).drop_last()
        } else {
            sort_yx(scan_points@)
        },
{
    let mut filter_bounds: Vec<FilterBoundsProcess> = Vec::new();

    if scan_points.len() == 0 {
        assert(sort_yx(scan_points@) =~= scan_points@);
        return filter_bounds;
    }
    let sorted_points = sort_points(scan_points);
    proof {
        lemma_sort_yx_len(scan_points@);
    }
    let n = sorted_points.len();

    let mut current_x = sorted_points[0].x;
    let mut current_y = sorted_points[0].y;
    let mut start_x = sorted_points[0].x;

    let mut point_pushed = false;

    let mut i: usize = 1;
    while i < n
        invariant
            n == sorted_points@.len(),
            sorted_points@ == sort_yx(scan_points@),
            n >= 1,
            1 <= i <= n,
            runs_state(sorted_points@, i as int) == (
                filter_bounds@,
                start_x as int,
                current_x as int,
                current_y as int,
            ),
            point_pushed == closes_last(sorted_points@.take(i as int)),
        decreases n - i,
    {
        let point = sorted_points[i];
        proof {
            lemma_runs_state_prefix(sorted_points@, i as int + 1);
        }
        if point.x as i64 != current_x as i64 + 1 || current_y != point.y {
            let size = (current_x as i64 - start_x as i64 + 1) as u16;
            filter_bounds.push(FilterBoundsProcess { x: start_x, y: current_y, size });
            point_pushed = true;
            start_x = point.x;
        } else {
            point_pushed = false;
        }
        current_x = point.x;
        current_y = point.y;
        i = i + 1;
    }
    assert(sorted_points@.take(n as int) =~= sorted_points@);
    if !point_pushed {
        let size = (current_x as i64 - start_x as i64 + 1) as u16;
        filter_bounds.push(FilterBoundsProcess { x: start_x, y: current_y, size });
    }
    proof {
        if scan_points@.len() <= 65535 {
            crate::laws::lemma_group_runs_expand(sorted_points@);
        }
    }
    filter_bounds
}

/// The runs after the first `k` points depend on those points only.
proof fn lemma_runs_state_prefix(s: Seq<ScanPoint>, k: int)
    requires
        1 <= k <= s.len(),
    ensures
        forall|j: int| 1 <= j <= k ==> #[trigger] runs_state(s.take(k), j) == runs_state(s, j),
    decreases k,
{
    assert forall|j: int| 1 <= j <= k implies #[trigger] runs_state(s.take(k), j) == runs_state(s, j) by {
        lemma_runs_state_prefix_at(s, k, j);
    }
}

proof fn lemma_runs_state_prefix_at(s: Seq<ScanPoint>, k: int, j: int)
    requires
        1 <= j <= k <= s.len(),
    ensures
        runs_state(s.take(k), j) == runs_state(s, j),
    decreases j,
{
    if j > 1 {
        lemma_runs_state_prefix_at(s, k, j - 1);
    }
}

/// The point that cell `i` (row-major) of a `kw` x `kh` element stands for,
/// relative to the element's centre `(kw / 2, kh / 2)`.
pub open spec fn se_cell_point(kw: int, kh: int, i: int) -> ScanPoint {
    ScanPoint { x: (i % kw - kw / 2) as i32, y: (i / kw - kh / 2) as i32 }
}

/// The points of the non-zero cells among the first `n` cells of `se`, in
/// row-major order.
pub open spec fn se_points(se: Seq<u8>, kw: int, kh: int, n: int) -> Seq<ScanPoint>
    decreases n,
{
    if n <= 0 {
        seq![]
    } else if se[n - 1] != 0 {
        se_points(se, kw, kh, n - 1).push(se_cell_point(kw, kh, n - 1))
    } else {
        se_points(se, kw, kh, n - 1)
    }
}

/// All points of a `kw` x `kh` structuring element.
pub open spec fn structuring_points(se: Seq<u8>, kw: int, kh: int) -> Seq<ScanPoint> {
    se_points(se, kw, kh, kw * kh)
}

/// Scans a structuring element (row-major, `width` cells per row) into its
/// points relative to its centre, and groups them into runs.
pub fn scan_se(structuring_element: &[u8], structuring_element_size: KernelShape) -> (r:
    AnalyzedSe)
    requires
        structuring_element@.len() == structuring_element_size.width
            * structuring_element_size.height,
        structuring_element_size.width <= i32::MAX,
        structuring_element_size.height <= i32::MAX,
    ensures
        r.original_se@ == structuring_element@,
        r.left_front.element_offsets@ == structuring_points(
            structuring_element@,
            structuring_element_size.width as int,
            structuring_element_size.height as int,
        ),
        r.left_front.filter_bounds@ == group_runs(sort_yx(r.left_front.element_offsets@)),
        r.is_empty == (r.left_front.element_offsets@.len() == 0),
{
    let kernel_width = structuring_element_size.width;
    let kernel_height = structuring_element_size.height;
    let ghost kw = kernel_width as int;
    let ghost kh = kernel_height as int;
    let ghost se = structuring_element@;

    let half_kernel_width = (kernel_width / 2) as i32;
    let half_kernel_height = (kernel_height / 2) as i32;

    let total = structuring_element.len();
    let mut left_front: Vec<ScanPoint> = Vec::new();
    let mut y: usize = 0;
    assert(0 * kw == 0);
    while y < kernel_height
        invariant
            kw == kernel_width,
            kh == kernel_height,
            se == structuring_element@,
            se.len() == kw * kh,
            kw * kh <= usize::MAX,
            kw <= i32::MAX,
            kh <= i32::MAX,
            half_kernel_width == kw / 2,
            half_kernel_height == kh / 2,
            y <= kh,
            left_front@ == se_points(se, kw, kh, y * kw),
        decreases kh - y,
    {
        let mut x: usize = 0;
        while x < kernel_width
            invariant
                kw == kernel_width,
                kh == kernel_height,
                se == structuring_element@,
                se.len() == kw * kh,
                kw * kh <= usize::MAX,
                kw <= i32::MAX,
                kh <= i32::MAX,
                half_kernel_width == kw / 2,
                half_kernel_height == kh / 2,
                y < kh,
                x <= kw,
                left_front@ == se_points(se, kw, kh, y * kw + x),
            decreases kw - x,
        {
            proof {
                lemma_plane_index_bounds(kw, kh, y as int, x as int);
                lemma_plane_index_inverse(kw, y as int, x as int);
            }
            let index = y * kernel_width + x;
            let item = structuring_element[index];
            if item != 0 {
                left_front.push(
                    ScanPoint::new(x as i32 - half_kernel_width, y as i32 - half_kernel_height),
                );
            }
            x = x + 1;
        }
        proof {
            lemma_plane_row_step(kw, y as int);
        }
        y = y + 1;
    }
    assert(kh * kw == kw * kh) by (nonlinear_arith);
    let grouped_points = group_scan_points(left_front.as_slice());
    let original = vstd::slice::slice_to_vec(structuring_element);
    AnalyzedSe::new(original, FlatSe::new(left_front, grouped_points))
}

} // verus!

verus! {

/// The cell index `i` of a `kw` x `kh` element lies in a column below `kw` and a
/// row below `kh`.
pub proof fn lemma_cell_coordinates(kw: int, kh: int, i: int)
    requires
        kw >= 1,
        kh >= 0,
        0 <= i < kw * kh,
    ensures
        0 <= i % kw < kw,
        0 <= i / kw < kh,
        i == (i / kw) * kw + i % kw,
{
    vstd::arithmetic::div_mod::lemma_fundamental_div_mod(i, kw);
    let q = i / kw;
    let r = i % kw;
    assert(0 <= r < kw);
    assert(q * kw == kw * q) by (nonlinear_arith);
    assert(q >= 0) by (nonlinear_arith)
        requires
            i == kw * q + r,
            0 <= i,
            r < kw,
            kw >= 1,
    ;
    assert(q < kh) by (nonlinear_arith)
        requires
            i == kw * q + r,
            i < kw * kh,
            0 <= r,
            kw >= 1,
    ;
}

/// Every point of an element lies inside it: its column plus `kw / 2` is a
/// column of the element, and its row plus `kh / 2` a row.
pub proof fn lemma_se_points_within(se: Seq<u8>, kw: int, kh: int, n: int)
    requires
        0 <= kw <= i32::MAX,
        0 <= kh <= i32::MAX,
        n <= kw * kh,
    ensures
        forall|k: int|
            0 <= k < se_points(se, kw, kh, n).len() ==> 0 <= #[trigger] se_points(
                se,
                kw,
                kh,
                n,
            )[k].x + kw / 2 < kw && 0 <= se_points(se, kw, kh, n)[k].y + kh / 2 < kh,
    decreases n,
{
    if n > 0 {
        lemma_se_points_within(se, kw, kh, n - 1);
        if se[n - 1] != 0 {
            assert(kw >= 1) by (nonlinear_arith)
                requires
                    0 < n <= kw * kh,
                    kw >= 0,
                    kh >= 0,
            ;
            lemma_cell_coordinates(kw, kh, n - 1);
            let prev = se_points(se, kw, kh, n - 1);
            let p = se_cell_point(kw, kh, n - 1);
            let cur = se_points(se, kw, kh, n);
            assert(cur == prev.push(p));
            assert(p.x as int == (n - 1) % kw - kw / 2);
            assert(p.y as int == (n - 1) / kw - kh / 2);
            assert forall|k: int| 0 <= k < cur.len() implies 0 <= #[trigger] cur[k].x + kw / 2 < kw
                && 0 <= cur[k].y + kh / 2 < kh by {
                if k < prev.len() {
                    assert(cur[k] == prev[k]);
                }
            }
        } else {
            assert(se_points(se, kw, kh, n) == se_points(se, kw, kh, n - 1));
        }
    }
}

} // verus!
