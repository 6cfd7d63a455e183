use vstd::prelude::*;

verus! {

/// A sample type that morphology works on: it carries an integer value, and two
/// samples with the same value are the same sample.
pub trait MorphPixel: Copy + Sized {
    /// The integer that this sample stands for.
    spec fn value(self) -> int;

    /// The smallest value a sample can hold.
    spec fn lowest() -> int;

    /// The largest value a sample can hold.
    spec fn highest() -> int;

    /// The sample that stands for `v` (for `v` between the lowest and the highest value).
    spec fn from_value(v: int) -> Self;

    proof fn lemma_value_bounds(x: Self)
        ensures
            Self::lowest() <= x.value() <= Self::highest(),
    ;

    proof fn lemma_from_value(v: int)
        requires
            Self::lowest() <= v <= Self::highest(),
        ensures
            Self::from_value(v).value() == v,
    ;

    proof fn lemma_value_injective(x: Self, y: Self)
        requires
            x.value() == y.value(),
        ensures
            x == y,
    ;

    fn min_value() -> (r: Self)
        ensures
            r.value() == Self::lowest(),
    ;

    fn max_value() -> (r: Self)
        ensures
            r.value() == Self::highest(),
    ;

    fn s_max(self, other: Self) -> (r: Self)
        ensures
            r.value() == if self.value() >= other.value() { self.value() } else { other.value() },
    ;

    fn s_min(self, other: Self) -> (r: Self)
        ensures
            r.value() == if self.value() <= other.value() { self.value() } else { other.value() },
    ;

    /// `self - other`, or the lowest value where that would fall below it.
    fn saturating_diff(self, other: Self) -> (r: Self)
        ensures
            r.value() == if self.value() - other.value() >= Self::lowest() {
                self.value() - other.value()
            } else {
                Self::lowest()
            },
    ;
}

impl MorphPixel for u8 {
    open spec fn value(self) -> int {
        self as int
    }

    open spec fn lowest() -> int {
        0
    }

    open spec fn highest() -> int {
        255
    }

    open spec fn from_value(v: int) -> Self {
        v as u8
    }

    proof fn lemma_value_bounds(x: Self) {
    }

    proof fn lemma_from_value(v: int) {
    }

    proof fn lemma_value_injective(x: Self, y: Self) {
    }

    fn min_value() -> (r: Self) {
        u8::MIN
    }

    fn max_value() -> (r: Self) {
        u8::MAX
    }

    fn s_max(self, other: Self) -> (r: Self) {
        if self >= other {
            self
        } else {
            other
        }
    }

    fn s_min(self, other: Self) -> (r: Self) {
        if self <= other {
            self
        } else {
            other
        }
    }

    fn saturating_diff(self, other: Self) -> (r: Self) {
        self.saturating_sub(other)
    }
}

impl MorphPixel for u16 {
    open spec fn value(self) -> int {
        self as int
    }

    open spec fn lowest() -> int {
        0
    }

    open spec fn highest() -> int {
        65535
    }

    open spec fn from_value(v: int) -> Self {
        v as u16
    }

    proof fn lemma_value_bounds(x: Self) {
    }

    proof fn lemma_from_value(v: int) {
    }

    proof fn lemma_value_injective(x: Self, y: Self) {
    }

    fn min_value() -> (r: Self) {
        u16::MIN
    }

    fn max_value() -> (r: Self) {
        u16::MAX
    }

    fn s_max(self, other: Self) -> (r: Self) {
        if self >= other {
            self
        } else {
            other
        }
    }

    fn s_min(self, other: Self) -> (r: Self) {
        if self <= other {
            self
        } else {
            other
        }
    }

    fn saturating_diff(self, other: Self) -> (r: Self) {
        self.saturating_sub(other)
    }
}


impl MorphPixel for u32 {
    open spec fn value(self) -> int {
        self as int
    }

    open spec fn lowest() -> int {
        0
    }

    open spec fn highest() -> int {
        4294967295
    }

    open spec fn from_value(v: int) -> Self {
        v as u32
    }

    proof fn lemma_value_bounds(x: Self) {
    }

    proof fn lemma_from_value(v: int) {
    }

    proof fn lemma_value_injective(x: Self, y: Self) {
    }

    fn min_value() -> (r: Self) {
        u32::MIN
    }

    fn max_value() -> (r: Self) {
        u32::MAX
    }

    fn s_max(self, other: Self) -> (r: Self) {
        if self >= other {
            self
        } else {
            other
        }
    }

    fn s_min(self, other: Self) -> (r: Self) {
        if self <= other {
            self
        } else {
            other
        }
    }

    fn saturating_diff(self, other: Self) -> (r: Self) {
        self.saturating_sub(other)
    }
}

} // verus!
