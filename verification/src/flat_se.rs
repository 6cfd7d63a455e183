use crate::se_scan::{FilterBoundsProcess, ScanPoint};
use vstd::prelude::*;

verus! {

/// A structuring element as the list of its points, and the same points
/// grouped into horizontal runs.
#[derive(Debug, Clone)]
pub struct FlatSe {
    /// Significant points { x, y }
    pub element_offsets: Vec<ScanPoint>,
    /// Precomputed filter bounds { x, y, horizontal_length }
    pub filter_bounds: Vec<FilterBoundsProcess>,
}

impl FlatSe {
    pub fn new(vec: Vec<ScanPoint>, filter_bounds_process: Vec<FilterBoundsProcess>) -> (r: FlatSe)
        ensures
            r.element_offsets@ == vec@,
            r.filter_bounds@ == filter_bounds_process@,
    {
        FlatSe { element_offsets: vec, filter_bounds: filter_bounds_process }
    }
}

/// A structuring element as given, and as scanned into points.
#[derive(Debug, Clone)]
pub struct AnalyzedSe {
    pub original_se: Vec<u8>,
    pub left_front: FlatSe,
    /// The element has no point.
    pub is_empty: bool,
}

impl AnalyzedSe {
    pub fn new(original_se: Vec<u8>, left_front: FlatSe) -> (r: AnalyzedSe)
        ensures
            r.original_se@ == original_se@,
            r.left_front.element_offsets@ == left_front.element_offsets@,
            r.left_front.filter_bounds@ == left_front.filter_bounds@,
            r.is_empty == (left_front.element_offsets@.len() == 0),
    {
        let is_empty = left_front.element_offsets.len() == 0;
        AnalyzedSe { original_se, left_front, is_empty }
    }
}

} // verus!
