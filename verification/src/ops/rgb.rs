use crate::pixel::MorphPixel;
use vstd::prelude::*;

verus! {

/// One pixel of an interleaved RGB image.
#[derive(Clone, Copy, Debug)]
pub struct Rgb<T> {
    pub r: T,
    pub g: T,
    pub b: T,
}

/// One pixel of an interleaved RGBA image.
#[derive(Clone, Copy, Debug)]
pub struct Rgba<T> {
    pub r: T,
    pub g: T,
    pub b: T,
    pub a: T,
}

impl<T: MorphPixel> Rgb<T> {
    /// The value of channel `c` (0 red, 1 green, 2 blue).
    pub open spec fn channel(self, c: int) -> int {
        if c == 0 {
            self.r.value()
        } else if c == 1 {
            self.g.value()
        } else {
            self.b.value()
        }
    }

    pub fn new(r: T, g: T, b: T) -> (p: Rgb<T>)
        ensures
            p.r == r,
            p.g == g,
            p.b == b,
    {
        Rgb { r, g, b }
    }

    /// A pixel with `v` in every channel.
    pub fn dup(v: T) -> (p: Rgb<T>)
        ensures
            p.r == v,
            p.g == v,
            p.b == v,
    {
        Rgb { r: v, g: v, b: v }
    }

    /// The channel-wise maximum of two pixels.
    pub fn max_p(self, other: Rgb<T>) -> (p: Rgb<T>)
        ensures
            forall|c: int|
                0 <= c < 3 ==> #[trigger] p.channel(c) == if self.channel(c) >= other.channel(c) {
                    self.channel(c)
                } else {
                    other.channel(c)
                },
    {
        Rgb { r: self.r.s_max(other.r), g: self.g.s_max(other.g), b: self.b.s_max(other.b) }
    }

    /// The channel-wise minimum of two pixels.
    pub fn min_p(self, other: Rgb<T>) -> (p: Rgb<T>)
        ensures
            forall|c: int|
                0 <= c < 3 ==> #[trigger] p.channel(c) == if self.channel(c) <= other.channel(c) {
                    self.channel(c)
                } else {
                    other.channel(c)
                },
    {
        Rgb { r: self.r.s_min(other.r), g: self.g.s_min(other.g), b: self.b.s_min(other.b) }
    }
}

impl<T: MorphPixel> Rgba<T> {
    /// The value of channel `c` (0 red, 1 green, 2 blue, 3 alpha).
    pub open spec fn channel(self, c: int) -> int {
        if c == 0 {
            self.r.value()
        } else if c == 1 {
            self.g.value()
        } else if c == 2 {
            self.b.value()
        } else {
            self.a.value()
        }
    }

    pub fn new(r: T, g: T, b: T, a: T) -> (p: Rgba<T>)
        ensures
            p.r == r,
            p.g == g,
            p.b == b,
            p.a == a,
    {
        Rgba { r, g, b, a }
    }

    /// A pixel with `v` in every channel.
    pub fn dup(v: T) -> (p: Rgba<T>)
        ensures
            p.r == v,
            p.g == v,
            p.b == v,
            p.a == v,
    {
        Rgba { r: v, g: v, b: v, a: v }
    }

    /// The channel-wise maximum of two pixels.
    pub fn max_p(self, other: Rgba<T>) -> (p: Rgba<T>)
        ensures
            forall|c: int|
                0 <= c < 4 ==> #[trigger] p.channel(c) == if self.channel(c) >= other.channel(c) {
                    self.channel(c)
                } else {
                    other.channel(c)
                },
    {
        Rgba {
            r: self.r.s_max(other.r),
            g: self.g.s_max(other.g),
            b: self.b.s_max(other.b),
            a: self.a.s_max(other.a),
        }
    }

    /// The channel-wise minimum of two pixels.
    pub fn min_p(self, other: Rgba<T>) -> (p: Rgba<T>)
        ensures
            forall|c: int|
                0 <= c < 4 ==> #[trigger] p.channel(c) == if self.channel(c) <= other.channel(c) {
                    self.channel(c)
                } else {
                    other.channel(c)
                },
    {
        Rgba {
            r: self.r.s_min(other.r),
            g: self.g.s_min(other.g),
            b: self.b.s_min(other.b),
            a: self.a.s_min(other.a),
        }
    }
}

/// Channel `c` of each pixel of `s`.
pub open spec fn rgb_channel<T: MorphPixel>(s: Seq<Rgb<T>>, c: int) -> Seq<int> {
    Seq::new(s.len(), |i: int| s[i].channel(c))
}

/// Channel `c` of each pixel of `s`.
pub open spec fn rgba_channel<T: MorphPixel>(s: Seq<Rgba<T>>, c: int) -> Seq<int> {
    Seq::new(s.len(), |i: int| s[i].channel(c))
}

} // verus!
