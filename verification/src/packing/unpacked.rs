use crate::img_size::ImageSize;
use crate::op_impl::vec_filled;
use crate::pixel::MorphPixel;
use vstd::prelude::*;

verus! {

/// An RGB image split into one plane per channel.
pub struct UnpackedRgbImage<T> {
    pub r_channel: Vec<T>,
    pub g_channel: Vec<T>,
    pub b_channel: Vec<T>,
}

impl<T> UnpackedRgbImage<T> {
    pub fn new(r_channel: Vec<T>, g_channel: Vec<T>, b_channel: Vec<T>) -> (r: UnpackedRgbImage<T>)
        ensures
            r.r_channel@ == r_channel@,
            r.g_channel@ == g_channel@,
            r.b_channel@ == b_channel@,
    {
        UnpackedRgbImage { r_channel, g_channel, b_channel }
    }

    pub open spec fn channels(self) -> Seq<Seq<T>> {
        seq![self.r_channel@, self.g_channel@, self.b_channel@]
    }
}

impl<T: MorphPixel> UnpackedRgbImage<T> {
    /// Three planes of `width * height` lowest samples.
    pub fn allocate(image_size: ImageSize) -> (r: UnpackedRgbImage<T>)
        requires
            image_size.width * image_size.height <= usize::MAX,
        ensures
            r.r_channel@.len() == image_size.width * image_size.height,
            r.g_channel@.len() == image_size.width * image_size.height,
            r.b_channel@.len() == image_size.width * image_size.height,
    {
        let n = image_size.width * image_size.height;
        UnpackedRgbImage::new(
            vec_filled(T::min_value(), n),
            vec_filled(T::min_value(), n),
            vec_filled(T::min_value(), n),
        )
    }
}

/// An RGBA image split into one plane per channel.
pub struct UnpackedRgbaImage<T> {
    pub r_channel: Vec<T>,
    pub g_channel: Vec<T>,
    pub b_channel: Vec<T>,
    pub a_channel: Vec<T>,
}

impl<T> UnpackedRgbaImage<T> {
    pub fn new(r_channel: Vec<T>, g_channel: Vec<T>, b_channel: Vec<T>, a_channel: Vec<T>) -> (r:
        UnpackedRgbaImage<T>)
        ensures
            r.r_channel@ == r_channel@,
            r.g_channel@ == g_channel@,
            r.b_channel@ == b_channel@,
            r.a_channel@ == a_channel@,
    {
        UnpackedRgbaImage { r_channel, g_channel, b_channel, a_channel }
    }

    pub open spec fn channels(self) -> Seq<Seq<T>> {
        seq![self.r_channel@, self.g_channel@, self.b_channel@, self.a_channel@]
    }
}

impl<T: MorphPixel> UnpackedRgbaImage<T> {
    /// Four planes of `width * height` lowest samples.
    pub fn allocate(image_size: ImageSize) -> (r: UnpackedRgbaImage<T>)
        requires
            image_size.width * image_size.height <= usize::MAX,
        ensures
            r.r_channel@.len() == image_size.width * image_size.height,
            r.g_channel@.len() == image_size.width * image_size.height,
            r.b_channel@.len() == image_size.width * image_size.height,
            r.a_channel@.len() == image_size.width * image_size.height,
    {
        let n = image_size.width * image_size.height;
        UnpackedRgbaImage::new(
            vec_filled(T::min_value(), n),
            vec_filled(T::min_value(), n),
            vec_filled(T::min_value(), n),
            vec_filled(T::min_value(), n),
        )
    }
}

/// A gray image with alpha split into a gray plane and an alpha plane.
pub struct UnpackedGrayAlpha<T> {
    pub gray_channel: Vec<T>,
    pub alpha_channel: Vec<T>,
}

impl<T> UnpackedGrayAlpha<T> {
    pub fn new(gray_channel: Vec<T>, alpha_channel: Vec<T>) -> (r: UnpackedGrayAlpha<T>)
        ensures
            r.gray_channel@ == gray_channel@,
            r.alpha_channel@ == alpha_channel@,
    {
        UnpackedGrayAlpha { gray_channel, alpha_channel }
    }

    pub open spec fn channels(self) -> Seq<Seq<T>> {
        seq![self.gray_channel@, self.alpha_channel@]
    }
}

impl<T: MorphPixel> UnpackedGrayAlpha<T> {
    /// Two planes of `width * height` lowest samples.
    pub fn allocate(image_size: ImageSize) -> (r: UnpackedGrayAlpha<T>)
        requires
            image_size.width * image_size.height <= usize::MAX,
        ensures
            r.gray_channel@.len() == image_size.width * image_size.height,
            r.alpha_channel@.len() == image_size.width * image_size.height,
    {
        let n = image_size.width * image_size.height;
        UnpackedGrayAlpha::new(vec_filled(T::min_value(), n), vec_filled(T::min_value(), n))
    }
}

} // verus!
