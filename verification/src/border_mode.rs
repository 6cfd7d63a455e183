use vstd::prelude::*;

verus! {

/// Declares an edge handling mode
#[derive(Debug, Copy, Clone, PartialEq, Eq, Structural, PartialOrd, Ord, Hash)]
pub enum BorderMode {
    /// If kernel goes out of bounds it will be clipped to an edge and edge pixel replicated across filter
    Clamp,
    /// If filter goes out of bounds image will be replicated with rule `cdefgh|abcdefgh|abcdefg`
    Wrap,
    /// If filter goes out of bounds image will be replicated with rule `fedcba|abcdefgh|hgfedcb`
    Reflect,
    /// If filter goes out of bounds image will be replicated with rule `gfedcb|abcdefgh|gfedcba`
    Reflect101,
    /// If filter goes out of bounds image will be replicated with provided constant
    Constant,
}

impl Default for BorderMode {
    fn default() -> (r: BorderMode)
        ensures
            r == BorderMode::Clamp,
    {
        BorderMode::Clamp
    }
}

/// Where a position `i` outside `0..n` reads from under `Reflect`.
pub open spec fn spec_reflect_index(i: int, n: int) -> int {
    n - i % n - 1
}

/// Where a position `i` outside `0..n` reads from under `Reflect101`: the
/// mirror image without the edge sample, `2n - 2 - i`, from `n` to `2n - 2`;
/// elsewhere `(n - 1) - i mod (n - 1)` (which is `-i` from `-(n - 1)` to `-1`);
/// and 0 on a line of one sample.
pub open spec fn spec_reflect_index_101(i: int, n: int) -> int {
    if n - 1 == 0 {
        0
    } else if n <= i <= 2 * n - 2 {
        2 * n - 2 - i
    } else {
        (n - 1) - i % (n - 1)
    }
}

/// The sample of a line of `n` samples that position `i` stands for under `mode`:
/// `i` itself inside the line, and the mode's rule outside it. Under `Constant`
/// a position outside the line reads the constant and stands for no sample.
pub open spec fn border_source(mode: BorderMode, i: int, n: int) -> int {
    if 0 <= i < n {
        i
    } else {
        match mode {
            BorderMode::Clamp => if i < 0 {
                0
            } else {
                n - 1
            },
            BorderMode::Wrap => i % n,
            BorderMode::Reflect => spec_reflect_index(i, n),
            BorderMode::Reflect101 => spec_reflect_index_101(i, n),
            BorderMode::Constant => 0,
        }
    }
}

/// Every rule maps a position to a sample of a line that is not empty.
pub proof fn lemma_border_source_in_range(mode: BorderMode, i: int, n: int)
    requires
        n >= 1,
    ensures
        0 <= border_source(mode, i, n) < n,
{
    if n > 1 {
        assert(0 <= i % (n - 1) < n - 1);
    }
    assert(0 <= i % n < n);
}

/// `n - i.rem_euclid(n) - 1`: the position that `i` reflects to in a line of `n`.
pub fn reflect_index(i: isize, n: isize) -> (r: usize)
    requires
        n > 0,
    ensures
        r as int == spec_reflect_index(i as int, n as int),
        r < n,
{
    let m = match i.checked_rem_euclid(n) {
        Some(m) => m,
        None => 0,
    };
    assert(0 <= (i as int) % (n as int) < n);
    (n - m - 1) as usize
}

/// Reflection that does not repeat the edge sample: `2n - 2 - i` for `i`
/// from `n` to `2n - 2`, otherwise `n - 1 - i.rem_euclid(n - 1)`, and 0 for a
/// line of one sample.
pub fn reflect_index_101(i: isize, n: isize) -> (r: usize)
    requires
        n > 0,
    ensures
        r as int == spec_reflect_index_101(i as int, n as int),
        r < n,
{
    let n_r = n - 1;
    if n_r == 0 {
        return 0;
    }
    if i >= n && i - n <= n - 2 {
        return (n - 2 - (i - n)) as usize;
    }
    let m = match i.checked_rem_euclid(n_r) {
        Some(m) => m,
        None => 0,
    };
    assert(0 <= (i as int) % (n_r as int) < n_r);
    (n_r - m) as usize
}

} // verus!
