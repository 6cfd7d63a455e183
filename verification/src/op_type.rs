use vstd::prelude::*;

verus! {

/// The two basic operations of flat morphology.
#[derive(Debug, Copy, Clone, PartialEq, Eq, Structural, Hash)]
pub enum MorphOp {
    /// Each sample becomes the largest sample under the structuring element.
    Dilate,
    /// Each sample becomes the smallest sample under the structuring element.
    Erode,
}

/// The operations of the library, built from dilation and erosion.
#[derive(Debug, Copy, Clone, PartialEq, Eq, Structural, Hash)]
pub enum MorphExOp {
    Dilate,
    Erode,
    /// Erosion, then dilation of the result.
    Opening,
    /// Dilation, then erosion of the result.
    Closing,
    /// Dilation minus erosion, saturating at the lowest sample value.
    Gradient,
    /// Source minus its opening, saturating at the lowest sample value.
    TopHat,
    /// Source minus its closing, saturating at the lowest sample value.
    BlackHat,
}

/// How two sample values combine under `op`: their maximum for dilation,
/// their minimum for erosion.
pub open spec fn combine(op: MorphOp, a: int, b: int) -> int {
    match op {
        MorphOp::Dilate => if a >= b {
            a
        } else {
            b
        },
        MorphOp::Erode => if a <= b {
            a
        } else {
            b
        },
    }
}

/// `s[0]` combined, left to right, with `s[1]`, ..., `s[k - 1]`.
pub open spec fn reduce_upto(op: MorphOp, s: Seq<int>, k: int) -> int
    decreases k,
{
    if k <= 1 {
        s[0]
    } else {
        combine(op, reduce_upto(op, s, k - 1), s[k - 1])
    }
}

/// All of `s` combined under `op` (the maximum or the minimum of a sequence that
/// is not empty).
pub open spec fn reduce_all(op: MorphOp, s: Seq<int>) -> int {
    reduce_upto(op, s, s.len() as int)
}

/// Each value of `s[0..k]` is at most (dilation) or at least (erosion) the
/// combination of them.
pub proof fn lemma_reduce_bounds(op: MorphOp, s: Seq<int>, k: int, j: int)
    requires
        0 <= j < k <= s.len(),
    ensures
        op == MorphOp::Dilate ==> s[j] <= reduce_upto(op, s, k),
        op == MorphOp::Erode ==> s[j] >= reduce_upto(op, s, k),
    decreases k,
{
    if k > 1 && j < k - 1 {
        lemma_reduce_bounds(op, s, k - 1, j);
    }
}

/// The combination of `s[0..k]` is one of those values.
pub proof fn lemma_reduce_member(op: MorphOp, s: Seq<int>, k: int) -> (j: int)
    requires
        1 <= k <= s.len(),
    ensures
        0 <= j < k,
        s[j] == reduce_upto(op, s, k),
    decreases k,
{
    if k <= 1 {
        0
    } else {
        let i = lemma_reduce_member(op, s, k - 1);
        if reduce_upto(op, s, k) == s[k - 1] {
            k - 1
        } else {
            i
        }
    }
}

/// Combining is monotone: where each value of `s` is at most the matching value
/// of `t`, so is the combination.
pub proof fn lemma_reduce_monotone(op: MorphOp, s: Seq<int>, t: Seq<int>, k: int)
    requires
        1 <= k <= s.len(),
        s.len() == t.len(),
        forall|i: int| 0 <= i < s.len() ==> s[i] <= t[i],
    ensures
        reduce_upto(op, s, k) <= reduce_upto(op, t, k),
    decreases k,
{
    if k > 1 {
        lemma_reduce_monotone(op, s, t, k - 1);
    }
}

/// Combining only looks at the first `k` values.
pub proof fn lemma_reduce_prefix(op: MorphOp, s: Seq<int>, t: Seq<int>, k: int)
    requires
        1 <= k <= s.len(),
        k <= t.len(),
        forall|i: int| 0 <= i < k ==> s[i] == t[i],
    ensures
        reduce_upto(op, s, k) == reduce_upto(op, t, k),
    decreases k,
{
    if k > 1 {
        lemma_reduce_prefix(op, s, t, k - 1);
    }
}


/// `v` combined, left to right, with the first `k` values of `s`.
pub open spec fn reduce_from(op: MorphOp, v: int, s: Seq<int>, k: int) -> int
    decreases k,
{
    if k <= 0 {
        v
    } else {
        combine(op, reduce_from(op, v, s, k - 1), s[k - 1])
    }
}

/// Starting from the neutral value of `op` (the lowest value for dilation, the
/// highest for erosion) changes nothing.
pub proof fn lemma_reduce_from_neutral(op: MorphOp, v: int, s: Seq<int>, k: int)
    requires
        1 <= k <= s.len(),
        op == MorphOp::Dilate ==> forall|i: int| 0 <= i < s.len() ==> v <= #[trigger] s[i],
        op == MorphOp::Erode ==> forall|i: int| 0 <= i < s.len() ==> v >= #[trigger] s[i],
    ensures
        reduce_from(op, v, s, k) == reduce_upto(op, s, k),
    decreases k,
{
    if k > 1 {
        lemma_reduce_from_neutral(op, v, s, k - 1);
    } else {
        assert(reduce_from(op, v, s, 0) == v);
        assert(v <= s[0] || v >= s[0]);
    }
}

/// Erosion is dilation seen upside down: where `t[i] == h - s[i]` for each
/// value, the minimum of `s` is `h` minus the maximum of `t`.
pub proof fn lemma_reduce_duality(s: Seq<int>, t: Seq<int>, h: int, k: int)
    requires
        1 <= k <= s.len(),
        s.len() == t.len(),
        forall|i: int| 0 <= i < s.len() ==> #[trigger] t[i] == h - s[i],
    ensures
        reduce_upto(MorphOp::Erode, s, k) == h - reduce_upto(MorphOp::Dilate, t, k),
    decreases k,
{
    if k > 1 {
        lemma_reduce_duality(s, t, h, k - 1);
        assert(t[k - 1] == h - s[k - 1]);
    } else {
        assert(t[0] == h - s[0]);
    }
}

} // verus!
