use crate::img_size::ImageSize;
use crate::packing::channels::{deinterleaved, interleave_written, pixel_count};
use crate::packing::pack_gray_alpha::pack_gray_alpha_naive;
use crate::packing::pack_rgb::{interleave_rgb_naive, pack_rgb};
use crate::packing::pack_rgba::{interleave_rgba_naive, pack_rgba};
use crate::packing::unpack_gray_alpha::unpack_gray_alpha_naive;
use crate::packing::unpack_rgb::{deinterleave_rgb_naive, unpack_rgb};
use crate::packing::unpack_rgba::{deinterleave_rgba_naive, unpack_rgba};
use crate::packing::unpacked::{UnpackedGrayAlpha, UnpackedRgbImage, UnpackedRgbaImage};
use vstd::prelude::*;

verus! {

/// Splitting RGB images into planes and interleaving them back.
pub trait RgbPackable<T> {
    fn unpack(src: &[T], image_size: ImageSize) -> (r: UnpackedRgbImage<T>)
        requires
            src@.len() == image_size.width * image_size.height * 3,
        ensures
            r.r_channel@ == deinterleaved(src@, 3, 0),
            r.g_channel@ == deinterleaved(src@, 3, 1),
            r.b_channel@ == deinterleaved(src@, 3, 2),
    ;

    fn pack(unpacked_image: &UnpackedRgbImage<T>, dst: &mut [T], image_size: ImageSize)
        ensures
            interleave_written(
                final(dst)@,
                old(dst)@,
                unpacked_image.channels(),
                3,
                pixel_count(old(dst)@.len() as int, unpacked_image.channels(), 3),
            ),
    ;
}

impl RgbPackable<u8> for u8 {
    fn unpack(src: &[u8], image_size: ImageSize) -> (r: UnpackedRgbImage<u8>) {
        unpack_rgb(src, image_size)
    }

    fn pack(unpacked_image: &UnpackedRgbImage<u8>, dst: &mut [u8], image_size: ImageSize) {
        pack_rgb(unpacked_image, dst, image_size)
    }
}

impl RgbPackable<u16> for u16 {
    fn unpack(src: &[u16], image_size: ImageSize) -> (r: UnpackedRgbImage<u16>) {
        deinterleave_rgb_naive(src, image_size.width, image_size.height)
    }

    fn pack(unpacked_image: &UnpackedRgbImage<u16>, dst: &mut [u16], image_size: ImageSize) {
        interleave_rgb_naive(unpacked_image, dst, image_size.width, image_size.height)
    }
}

impl RgbPackable<u32> for u32 {
    fn unpack(src: &[u32], image_size: ImageSize) -> (r: UnpackedRgbImage<u32>) {
        deinterleave_rgb_naive(src, image_size.width, image_size.height)
    }

    fn pack(unpacked_image: &UnpackedRgbImage<u32>, dst: &mut [u32], image_size: ImageSize) {
        interleave_rgb_naive(unpacked_image, dst, image_size.width, image_size.height)
    }
}

/// Splitting RGBA images into planes and interleaving them back.
pub trait RgbaPackable<T> {
    fn unpack(src: &[T], image_size: ImageSize) -> (r: UnpackedRgbaImage<T>)
        requires
            src@.len() == image_size.width * image_size.height * 4,
        ensures
            r.r_channel@ == deinterleaved(src@, 4, 0),
            r.g_channel@ == deinterleaved(src@, 4, 1),
            r.b_channel@ == deinterleaved(src@, 4, 2),
            r.a_channel@ == deinterleaved(src@, 4, 3),
    ;

    fn pack(unpacked_image: &UnpackedRgbaImage<T>, dst: &mut [T], image_size: ImageSize)
        ensures
            interleave_written(
                final(dst)@,
                old(dst)@,
                unpacked_image.channels(),
                4,
                pixel_count(old(dst)@.len() as int, unpacked_image.channels(), 4),
            ),
    ;
}

impl RgbaPackable<u8> for u8 {
    fn unpack(src: &[u8], image_size: ImageSize) -> (r: UnpackedRgbaImage<u8>) {
        unpack_rgba(src, image_size)
    }

    fn pack(unpacked_image: &UnpackedRgbaImage<u8>, dst: &mut [u8], image_size: ImageSize) {
        pack_rgba(unpacked_image, dst, image_size)
    }
}

impl RgbaPackable<u16> for u16 {
    fn unpack(src: &[u16], image_size: ImageSize) -> (r: UnpackedRgbaImage<u16>) {
        deinterleave_rgba_naive(src, image_size.width, image_size.height)
    }

    fn pack(unpacked_image: &UnpackedRgbaImage<u16>, dst: &mut [u16], image_size: ImageSize) {
        interleave_rgba_naive(unpacked_image, dst, image_size.width, image_size.height)
    }
}

impl RgbaPackable<u32> for u32 {
    fn unpack(src: &[u32], image_size: ImageSize) -> (r: UnpackedRgbaImage<u32>) {
        deinterleave_rgba_naive(src, image_size.width, image_size.height)
    }

    fn pack(unpacked_image: &UnpackedRgbaImage<u32>, dst: &mut [u32], image_size: ImageSize) {
        interleave_rgba_naive(unpacked_image, dst, image_size.width, image_size.height)
    }
}

/// Splitting gray with alpha images into planes and interleaving them back.
pub trait GrayAlphaPackable<T> {
    fn unpack(src: &[T], image_size: ImageSize) -> (r: UnpackedGrayAlpha<T>)
        requires
            src@.len() == image_size.width * image_size.height * 2,
        ensures
            r.gray_channel@ == deinterleaved(src@, 2, 0),
            r.alpha_channel@ == deinterleaved(src@, 2, 1),
    ;

    fn pack(unpacked_image: &UnpackedGrayAlpha<T>, dst: &mut [T], image_size: ImageSize)
        ensures
            interleave_written(
                final(dst)@,
                old(dst)@,
                unpacked_image.channels(),
                2,
                pixel_count(old(dst)@.len() as int, unpacked_image.channels(), 2),
            ),
    ;
}

impl GrayAlphaPackable<u8> for u8 {
    fn unpack(src: &[u8], image_size: ImageSize) -> (r: UnpackedGrayAlpha<u8>) {
        unpack_gray_alpha_naive(src, image_size.width, image_size.height)
    }

    fn pack(unpacked_image: &UnpackedGrayAlpha<u8>, dst: &mut [u8], image_size: ImageSize) {
        pack_gray_alpha_naive(unpacked_image, dst, image_size.width, image_size.height)
    }
}

impl GrayAlphaPackable<u16> for u16 {
    fn unpack(src: &[u16], image_size: ImageSize) -> (r: UnpackedGrayAlpha<u16>) {
        unpack_gray_alpha_naive(src, image_size.width, image_size.height)
    }

    fn pack(unpacked_image: &UnpackedGrayAlpha<u16>, dst: &mut [u16], image_size: ImageSize) {
        pack_gray_alpha_naive(unpacked_image, dst, image_size.width, image_size.height)
    }
}

impl GrayAlphaPackable<u32> for u32 {
    fn unpack(src: &[u32], image_size: ImageSize) -> (r: UnpackedGrayAlpha<u32>) {
        unpack_gray_alpha_naive(src, image_size.width, image_size.height)
    }

    fn pack(unpacked_image: &UnpackedGrayAlpha<u32>, dst: &mut [u32], image_size: ImageSize) {
        pack_gray_alpha_naive(unpacked_image, dst, image_size.width, image_size.height)
    }
}

} // verus!
