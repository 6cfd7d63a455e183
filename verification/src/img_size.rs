use vstd::prelude::*;

verus! {

/// Width and height of an image, in pixels.
#[derive(Debug, Copy, Clone, PartialEq, Eq, Structural, Hash)]
pub struct ImageSize {
    pub width: usize,
    pub height: usize,
}

impl ImageSize {
    pub fn new(width: usize, height: usize) -> (r: ImageSize)
        ensures
            r.width == width,
            r.height == height,
    {
        ImageSize { width, height }
    }
}

} // verus!
