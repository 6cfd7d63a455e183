use crate::border_mode::BorderMode;
use crate::img_size::ImageSize;
use crate::morph_gray_alpha::make_morphology_gray_alpha;
use crate::morph_interleaved::{interleaved_limits, interleaved_outcome};
use crate::morph_rgb::make_morphology_rgb;
use crate::morph_rgba::make_morphology_rgba;
use crate::op_impl::{make_morphology_ex, plane_limits, planar_outcome};
use crate::op_type::MorphExOp;
use crate::structuring_element::KernelShape;
use crate::thread_policy::MorphologyThreadingPolicy;
use vstd::prelude::*;

verus! {

/// Dilate a gray (planar) image
///
/// # Arguments
///
/// * `src`: Source image slice
/// * `dst`: Destination image slice
/// * `image_size`: Image size declared by [ImageSize]
/// * `structuring_element`: 2D structuring element
/// * `structuring_element_size`: (W,H) structuring element size
/// * `border_mode`: Border handling mode, for reference see [BorderMode]
/// * `border_values`: per channel value that fills the border in [BorderMode::Constant]
/// * `threading_policy`: Threads usage policy; the result does not depend on it
///
pub fn dilate(
    src: &[u8],
    dst: &mut [u8],
    image_size: ImageSize,
    structuring_element: &[u8],
    structuring_element_size: KernelShape,
    border_mode: BorderMode,
    border_values: [u8; 4],
    threading_policy: MorphologyThreadingPolicy,
) -> (r: Result<(), String>)
    requires
        plane_limits(
            src@.len() as int,
            old(dst)@.len() as int,
            image_size.width as int,
            image_size.height as int,
            structuring_element_size.width as int,
            structuring_element_size.height as int,
            structuring_element@.len() as int,
        ),
    ensures
        planar_outcome(
            r,
            src@,
            old(dst)@,
            final(dst)@,
            MorphExOp::Dilate,
            image_size,
            structuring_element@,
            structuring_element_size,
            border_mode,
            border_values@[0],
        ),
{
    make_morphology_ex(
        src,
        dst,
        MorphExOp::Dilate,
        image_size,
        structuring_element,
        structuring_element_size,
        border_mode,
        border_values[0],
        threading_policy,
    )
}

/// Dilate an RGB image
///
/// # Arguments
///
/// * `src`: Source image slice
/// * `dst`: Destination image slice
/// * `image_size`: Image size declared by [ImageSize]
/// * `structuring_element`: 2D structuring element
/// * `structuring_element_size`: (W,H) structuring element size
/// * `border_mode`: Border handling mode, for reference see [BorderMode]
/// * `border_values`: per channel value that fills the border in [BorderMode::Constant]
/// * `threading_policy`: Threads usage policy; the result does not depend on it
///
pub fn dilate_rgb(
    src: &[u8],
    dst: &mut [u8],
    image_size: ImageSize,
    structuring_element: &[u8],
    structuring_element_size: KernelShape,
    border_mode: BorderMode,
    border_values: [u8; 4],
    threading_policy: MorphologyThreadingPolicy,
) -> (r: Result<(), String>)
    requires
        interleaved_limits(
            src@.len() as int,
            old(dst)@.len() as int,
            image_size.width as int,
            image_size.height as int,
            structuring_element_size.width as int,
            structuring_element_size.height as int,
            structuring_element@.len() as int,
            3,
        ),
    ensures
        interleaved_outcome(
            r,
            src@,
            old(dst)@,
            final(dst)@,
            MorphExOp::Dilate,
            image_size,
            structuring_element@,
            structuring_element_size,
            border_mode,
            border_values@,
            3,
        ),
{
    make_morphology_rgb(
        src,
        dst,
        MorphExOp::Dilate,
        image_size,
        structuring_element,
        structuring_element_size,
        border_mode,
        border_values,
        threading_policy,
    )
}

/// Erode a gray (planar) image
///
/// # Arguments
///
/// * `src`: Source image slice
/// * `dst`: Destination image slice
/// * `image_size`: Image size declared by [ImageSize]
/// * `structuring_element`: 2D structuring element
/// * `structuring_element_size`: (W,H) structuring element size
/// * `border_mode`: Border handling mode, for reference see [BorderMode]
/// * `border_values`: per channel value that fills the border in [BorderMode::Constant]
/// * `threading_policy`: Threads usage policy; the result does not depend on it
///
pub fn erode(
    src: &[u8],
    dst: &mut [u8],
    image_size: ImageSize,
    structuring_element: &[u8],
    structuring_element_size: KernelShape,
    border_mode: BorderMode,
    border_values: [u8; 4],
    threading_policy: MorphologyThreadingPolicy,
) -> (r: Result<(), String>)
    requires
        plane_limits(
            src@.len() as int,
            old(dst)@.len() as int,
            image_size.width as int,
            image_size.height as int,
            structuring_element_size.width as int,
            structuring_element_size.height as int,
            structuring_element@.len() as int,
        ),
    ensures
        planar_outcome(
            r,
            src@,
            old(dst)@,
            final(dst)@,
            MorphExOp::Erode,
            image_size,
            structuring_element@,
            structuring_element_size,
            border_mode,
            border_values@[0],
        ),
{
    make_morphology_ex(
        src,
        dst,
        MorphExOp::Erode,
        image_size,
        structuring_element,
        structuring_element_size,
        border_mode,
        border_values[0],
        threading_policy,
    )
}

/// Erode an RGB image
///
/// # Arguments
///
/// * `src`: Source image slice
/// * `dst`: Destination image slice
/// * `image_size`: Image size declared by [ImageSize]
/// * `structuring_element`: 2D structuring element
/// * `structuring_element_size`: (W,H) structuring element size
/// * `border_mode`: Border handling mode, for reference see [BorderMode]
/// * `border_values`: per channel value that fills the border in [BorderMode::Constant]
/// * `threading_policy`: Threads usage policy; the result does not depend on it
///
pub fn erode_rgb(
    src: &[u8],
    dst: &mut [u8],
    image_size: ImageSize,
    structuring_element: &[u8],
    structuring_element_size: KernelShape,
    border_mode: BorderMode,
    border_values: [u8; 4],
    threading_policy: MorphologyThreadingPolicy,
) -> (r: Result<(), String>)
    requires
        interleaved_limits(
            src@.len() as int,
            old(dst)@.len() as int,
            image_size.width as int,
            image_size.height as int,
            structuring_element_size.width as int,
            structuring_element_size.height as int,
            structuring_element@.len() as int,
            3,
        ),
    ensures
        interleaved_outcome(
            r,
            src@,
            old(dst)@,
            final(dst)@,
            MorphExOp::Erode,
            image_size,
            structuring_element@,
            structuring_element_size,
            border_mode,
            border_values@,
            3,
        ),
{
    make_morphology_rgb(
        src,
        dst,
        MorphExOp::Erode,
        image_size,
        structuring_element,
        structuring_element_size,
        border_mode,
        border_values,
        threading_policy,
    )
}

/// Erode an RGBA image
///
/// # Arguments
///
/// * `src`: Source image slice
/// * `dst`: Destination image slice
/// * `image_size`: Image size declared by [ImageSize]
/// * `structuring_element`: 2D structuring element
/// * `structuring_element_size`: (W,H) structuring element size
/// * `border_mode`: Border handling mode, for reference see [BorderMode]
/// * `border_values`: per channel value that fills the border in [BorderMode::Constant]
/// * `threading_policy`: Threads usage policy; the result does not depend on it
///
pub fn erode_rgba(
    src: &[u8],
    dst: &mut [u8],
    image_size: ImageSize,
    structuring_element: &[u8],
    structuring_element_size: KernelShape,
    border_mode: BorderMode,
    border_values: [u8; 4],
    threading_policy: MorphologyThreadingPolicy,
) -> (r: Result<(), String>)
    requires
        interleaved_limits(
            src@.len() as int,
            old(dst)@.len() as int,
            image_size.width as int,
            image_size.height as int,
            structuring_element_size.width as int,
            structuring_element_size.height as int,
            structuring_element@.len() as int,
            4,
        ),
    ensures
        interleaved_outcome(
            r,
            src@,
            old(dst)@,
            final(dst)@,
            MorphExOp::Erode,
            image_size,
            structuring_element@,
            structuring_element_size,
            border_mode,
            border_values@,
            4,
        ),
{
    make_morphology_rgba(
        src,
        dst,
        MorphExOp::Erode,
        image_size,
        structuring_element,
        structuring_element_size,
        border_mode,
        border_values,
        threading_policy,
    )
}

/// Dilate an RGBA image
///
/// # Arguments
///
/// * `src`: Source image slice
/// * `dst`: Destination image slice
/// * `image_size`: Image size declared by [ImageSize]
/// * `structuring_element`: 2D structuring element
/// * `structuring_element_size`: (W,H) structuring element size
/// * `border_mode`: Border handling mode, for reference see [BorderMode]
/// * `border_values`: per channel value that fills the border in [BorderMode::Constant]
/// * `threading_policy`: Threads usage policy; the result does not depend on it
///
pub fn dilate_rgba(
    src: &[u8],
    dst: &mut [u8],
    image_size: ImageSize,
    structuring_element: &[u8],
    structuring_element_size: KernelShape,
    border_mode: BorderMode,
    border_values: [u8; 4],
    threading_policy: MorphologyThreadingPolicy,
) -> (r: Result<(), String>)
    requires
        interleaved_limits(
            src@.len() as int,
            old(dst)@.len() as int,
            image_size.width as int,
            image_size.height as int,
            structuring_element_size.width as int,
            structuring_element_size.height as int,
            structuring_element@.len() as int,
            4,
        ),
    ensures
        interleaved_outcome(
            r,
            src@,
            old(dst)@,
            final(dst)@,
            MorphExOp::Dilate,
            image_size,
            structuring_element@,
            structuring_element_size,
            border_mode,
            border_values@,
            4,
        ),
{
    make_morphology_rgba(
        src,
        dst,
        MorphExOp::Dilate,
        image_size,
        structuring_element,
        structuring_element_size,
        border_mode,
        border_values,
        threading_policy,
    )
}

/// Erode Gray image with alpha
///
/// # Arguments
///
/// * `src`: Source image slice
/// * `dst`: Destination image slice
/// * `image_size`: Image size declared by [ImageSize]
/// * `structuring_element`: 2D structuring element
/// * `structuring_element_size`: (W,H) structuring element size
/// * `border_mode`: Border handling mode, for reference see [BorderMode]
/// * `border_values`: per channel value that fills the border in [BorderMode::Constant]
/// * `threading_policy`: Threads usage policy; the result does not depend on it
///
pub fn erode_gray_alpha(
    src: &[u8],
    dst: &mut [u8],
    image_size: ImageSize,
    structuring_element: &[u8],
    structuring_element_size: KernelShape,
    border_mode: BorderMode,
    border_values: [u8; 4],
    threading_policy: MorphologyThreadingPolicy,
) -> (r: Result<(), String>)
    requires
        interleaved_limits(
            src@.len() as int,
            old(dst)@.len() as int,
            image_size.width as int,
            image_size.height as int,
            structuring_element_size.width as int,
            structuring_element_size.height as int,
            structuring_element@.len() as int,
            2,
        ),
    ensures
        interleaved_outcome(
            r,
            src@,
            old(dst)@,
            final(dst)@,
            MorphExOp::Erode,
            image_size,
            structuring_element@,
            structuring_element_size,
            border_mode,
            border_values@,
            2,
        ),
{
    make_morphology_gray_alpha(
        src,
        dst,
        MorphExOp::Erode,
        image_size,
        structuring_element,
        structuring_element_size,
        border_mode,
        border_values,
        threading_policy,
    )
}

/// Dilate a Gray image with alpha
///
/// # Arguments
///
/// * `src`: Source image slice
/// * `dst`: Destination image slice
/// * `image_size`: Image size declared by [ImageSize]
/// * `structuring_element`: 2D structuring element
/// * `structuring_element_size`: (W,H) structuring element size
/// * `border_mode`: Border handling mode, for reference see [BorderMode]
/// * `border_values`: per channel value that fills the border in [BorderMode::Constant]
/// * `threading_policy`: Threads usage policy; the result does not depend on it
///
pub fn dilate_gray_alpha(
    src: &[u8],
    dst: &mut [u8],
    image_size: ImageSize,
    structuring_element: &[u8],
    structuring_element_size: KernelShape,
    border_mode: BorderMode,
    border_values: [u8; 4],
    threading_policy: MorphologyThreadingPolicy,
) -> (r: Result<(), String>)
    requires
        interleaved_limits(
            src@.len() as int,
            old(dst)@.len() as int,
            image_size.width as int,
            image_size.height as int,
            structuring_element_size.width as int,
            structuring_element_size.height as int,
            structuring_element@.len() as int,
            2,
        ),
    ensures
        interleaved_outcome(
            r,
            src@,
            old(dst)@,
            final(dst)@,
            MorphExOp::Dilate,
            image_size,
            structuring_element@,
            structuring_element_size,
            border_mode,
            border_values@,
            2,
        ),
{
    make_morphology_gray_alpha(
        src,
        dst,
        MorphExOp::Dilate,
        image_size,
        structuring_element,
        structuring_element_size,
        border_mode,
        border_values,
        threading_policy,
    )
}

/// Morphology a gray (planar) image: the operation given by `morph_op`
///
/// # Arguments
///
/// * `src`: Source image slice
/// * `dst`: Destination image slice
/// * `image_size`: Image size declared by [ImageSize]
/// * `structuring_element`: 2D structuring element
/// * `structuring_element_size`: (W,H) structuring element size
/// * `border_mode`: Border handling mode, for reference see [BorderMode]
/// * `border_values`: per channel value that fills the border in [BorderMode::Constant]
/// * `threading_policy`: Threads usage policy; the result does not depend on it
///
pub fn morphology(
    src: &[u8],
    dst: &mut [u8],
    morph_op: MorphExOp,
    image_size: ImageSize,
    structuring_element: &[u8],
    structuring_element_size: KernelShape,
    border_mode: BorderMode,
    border_values: [u8; 4],
    threading_policy: MorphologyThreadingPolicy,
) -> (r: Result<(), String>)
    requires
        plane_limits(
            src@.len() as int,
            old(dst)@.len() as int,
            image_size.width as int,
            image_size.height as int,
            structuring_element_size.width as int,
            structuring_element_size.height as int,
            structuring_element@.len() as int,
        ),
    ensures
        planar_outcome(
            r,
            src@,
            old(dst)@,
            final(dst)@,
            morph_op,
            image_size,
            structuring_element@,
            structuring_element_size,
            border_mode,
            border_values@[0],
        ),
{
    make_morphology_ex(
        src,
        dst,
        morph_op,
        image_size,
        structuring_element,
        structuring_element_size,
        border_mode,
        border_values[0],
        threading_policy,
    )
}

/// Morphology a RGB 8-bit image: the operation given by `morph_op`
///
/// # Arguments
///
/// * `src`: Source image slice
/// * `dst`: Destination image slice
/// * `image_size`: Image size declared by [ImageSize]
/// * `structuring_element`: 2D structuring element
/// * `structuring_element_size`: (W,H) structuring element size
/// * `border_mode`: Border handling mode, for reference see [BorderMode]
/// * `border_values`: per channel value that fills the border in [BorderMode::Constant]
/// * `threading_policy`: Threads usage policy; the result does not depend on it
///
pub fn morphology_rgb(
    src: &[u8],
    dst: &mut [u8],
    morph_op: MorphExOp,
    image_size: ImageSize,
    structuring_element: &[u8],
    structuring_element_size: KernelShape,
    border_mode: BorderMode,
    border_values: [u8; 4],
    threading_policy: MorphologyThreadingPolicy,
) -> (r: Result<(), String>)
    requires
        interleaved_limits(
            src@.len() as int,
            old(dst)@.len() as int,
            image_size.width as int,
            image_size.height as int,
            structuring_element_size.width as int,
            structuring_element_size.height as int,
            structuring_element@.len() as int,
            3,
        ),
    ensures
        interleaved_outcome(
            r,
            src@,
            old(dst)@,
            final(dst)@,
            morph_op,
            image_size,
            structuring_element@,
            structuring_element_size,
            border_mode,
            border_values@,
            3,
        ),
{
    make_morphology_rgb(
        src,
        dst,
        morph_op,
        image_size,
        structuring_element,
        structuring_element_size,
        border_mode,
        border_values,
        threading_policy,
    )
}

/// Morphology a Planar image with alpha 8-bit image: the operation given by `morph_op`
///
/// # Arguments
///
/// * `src`: Source image slice
/// * `dst`: Destination image slice
/// * `image_size`: Image size declared by [ImageSize]
/// * `structuring_element`: 2D structuring element
/// * `structuring_element_size`: (W,H) structuring element size
/// * `border_mode`: Border handling mode, for reference see [BorderMode]
/// * `border_values`: per channel value that fills the border in [BorderMode::Constant]
/// * `threading_policy`: Threads usage policy; the result does not depend on it
///
pub fn morphology_gray_alpha(
    src: &[u8],
    dst: &mut [u8],
    morph_op: MorphExOp,
    image_size: ImageSize,
    structuring_element: &[u8],
    structuring_element_size: KernelShape,
    border_mode: BorderMode,
    border_values: [u8; 4],
    threading_policy: MorphologyThreadingPolicy,
) -> (r: Result<(), String>)
    requires
        interleaved_limits(
            src@.len() as int,
            old(dst)@.len() as int,
            image_size.width as int,
            image_size.height as int,
            structuring_element_size.width as int,
            structuring_element_size.height as int,
            structuring_element@.len() as int,
            2,
        ),
    ensures
        interleaved_outcome(
            r,
            src@,
            old(dst)@,
            final(dst)@,
            morph_op,
            image_size,
            structuring_element@,
            structuring_element_size,
            border_mode,
            border_values@,
            2,
        ),
{
    make_morphology_gray_alpha(
        src,
        dst,
        morph_op,
        image_size,
        structuring_element,
        structuring_element_size,
        border_mode,
        border_values,
        threading_policy,
    )
}

/// Morphology a RGBA 8-bit image: the operation given by `morph_op`
///
/// # Arguments
///
/// * `src`: Source image slice
/// * `dst`: Destination image slice
/// * `image_size`: Image size declared by [ImageSize]
/// * `structuring_element`: 2D structuring element
/// * `structuring_element_size`: (W,H) structuring element size
/// * `border_mode`: Border handling mode, for reference see [BorderMode]
/// * `border_values`: per channel value that fills the border in [BorderMode::Constant]
/// * `threading_policy`: Threads usage policy; the result does not depend on it
///
pub fn morphology_rgba(
    src: &[u8],
    dst: &mut [u8],
    morph_op: MorphExOp,
    image_size: ImageSize,
    structuring_element: &[u8],
    structuring_element_size: KernelShape,
    border_mode: BorderMode,
    border_values: [u8; 4],
    threading_policy: MorphologyThreadingPolicy,
) -> (r: Result<(), String>)
    requires
        interleaved_limits(
            src@.len() as int,
            old(dst)@.len() as int,
            image_size.width as int,
            image_size.height as int,
            structuring_element_size.width as int,
            structuring_element_size.height as int,
            structuring_element@.len() as int,
            4,
        ),
    ensures
        interleaved_outcome(
            r,
            src@,
            old(dst)@,
            final(dst)@,
            morph_op,
            image_size,
            structuring_element@,
            structuring_element_size,
            border_mode,
            border_values@,
            4,
        ),
{
    make_morphology_rgba(
        src,
        dst,
        morph_op,
        image_size,
        structuring_element,
        structuring_element_size,
        border_mode,
        border_values,
        threading_policy,
    )
}

} // verus!
