use crate::arena::border_index;
use crate::border_mode::BorderMode;
use crate::morph_base::{lemma_plane_sample_source, plane_sample};
use vstd::prelude::*;

verus! {

/// `padded` is the line `data` with `pad` samples added on each side, read
/// under `mode` (the constant under `Constant`).
pub open spec fn line_padded<T>(
    padded: Seq<T>,
    data: Seq<T>,
    pad: int,
    mode: BorderMode,
    constant: T,
) -> bool {
    &&& padded.len() == data.len() + 2 * pad
    &&& forall|j: int|
        0 <= j < padded.len() ==> #[trigger] padded[j] == plane_sample(
            data,
            data.len() as int,
            1,
            mode,
            constant,
            0,
            j - pad,
        )
}

/// Pads a line with `kernel_size / 2` samples on each side, with the chosen
/// border strategy.
pub fn make_arena_1d<T: Copy>(
    data: &[T],
    kernel_size: usize,
    border_mode: BorderMode,
    border_constant: T,
) -> (r: Vec<T>)
    requires
        data@.len() + 2 * (kernel_size / 2) <= isize::MAX,
        kernel_size / 2 > 0 && border_mode != BorderMode::Constant ==> data@.len() >= 1,
    ensures
        line_padded(r@, data@, (kernel_size / 2) as int, border_mode, border_constant),
{
    let n = data.len();
    let pad = kernel_size / 2;
    let total = n + 2 * pad;
    let mut padded: Vec<T> = Vec::new();
    let mut j: usize = 0;
    while j < total
        invariant
            n == data@.len(),
            total == n + 2 * pad,
            total <= isize::MAX,
            pad == kernel_size / 2,
            pad > 0 && border_mode != BorderMode::Constant ==> n >= 1,
            j <= total,
            padded@.len() == j,
            forall|k: int|
                0 <= k < j ==> #[trigger] padded@[k] == plane_sample(
                    data@,
                    n as int,
                    1,
                    border_mode,
                    border_constant,
                    0,
                    k - pad,
                ),
        decreases total - j,
    {
        let i = j as isize - pad as isize;
        let v = if pad <= j && j < pad + n {
            proof {
                lemma_plane_sample_source(data@, n as int, 1, border_mode, border_constant, 0, i as int);
            }
            data[j - pad]
        } else if border_mode == BorderMode::Constant {
            border_constant
        } else {
            proof {
                lemma_plane_sample_source(data@, n as int, 1, border_mode, border_constant, 0, i as int);
            }
            let s = border_index(border_mode, i, n);
            data[s]
        };
        padded.push(v);
        j = j + 1;
    }
    padded
}

} // verus!
