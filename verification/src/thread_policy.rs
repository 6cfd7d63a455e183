use crate::img_size::ImageSize;
use vstd::prelude::*;

verus! {

/// How many threads a morphology may use. The count of `Fixed` is never zero.
#[derive(Copy, Clone, Debug, Ord, PartialOrd, Eq, PartialEq, Hash)]
pub enum MorphologyThreadingPolicy {
    Single,
    Fixed(usize),
    Adaptive,
}

impl Default for MorphologyThreadingPolicy {
    fn default() -> (r: Self)
        ensures
            r is Adaptive,
    {
        MorphologyThreadingPolicy::Adaptive
    }
}

/// One thread per 256 x 256 pixels, at least one and at most `available`.
pub open spec fn adaptive_thread_count(width: int, height: int, available: int) -> int {
    let wanted = width * height / 65536int;
    if wanted < 1 {
        1
    } else if wanted > available {
        available
    } else {
        wanted
    }
}

impl MorphologyThreadingPolicy {
    /// The number of threads for an image of `for_size`, where the machine
    /// offers `available_parallelism` threads.
    pub fn thread_count(&self, for_size: ImageSize, available_parallelism: usize) -> (r: usize)
        requires
            *self is Adaptive ==> for_size.width * for_size.height <= usize::MAX,
            *self is Adaptive ==> available_parallelism >= 1,
            *self is Fixed ==> self->0 >= 1,
        ensures
            r >= 1,
            *self is Single ==> r == 1,
            *self is Adaptive ==> r == adaptive_thread_count(
                for_size.width as int,
                for_size.height as int,
                available_parallelism as int,
            ),
            *self is Fixed ==> r == self->0,
    {
        match self {
            MorphologyThreadingPolicy::Single => 1,
            MorphologyThreadingPolicy::Adaptive => {
                let wanted = for_size.width * for_size.height / (256 * 256);
                if wanted < 1 {
                    1
                } else if wanted > available_parallelism {
                    available_parallelism
                } else {
                    wanted
                }
            },
            MorphologyThreadingPolicy::Fixed(fixed) => *fixed,
        }
    }
}

} // verus!
