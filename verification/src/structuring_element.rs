use vstd::prelude::*;

verus! {

/// Width and height of a structuring element.
#[derive(Debug, Copy, Clone, PartialEq, Eq, Structural, Hash)]
pub struct KernelShape {
    pub width: usize,
    pub height: usize,
}

impl KernelShape {
    pub fn new(width: usize, height: usize) -> (r: KernelShape)
        ensures
            r.width == width,
            r.height == height,
    {
        KernelShape { width, height }
    }
}

} // verus!
