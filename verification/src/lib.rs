//! Flat morphology (dilation, erosion and the operations built from them)
//! for planar, gray with alpha, RGB and RGBA images, and for 1D signals.

mod arena;
mod border_mode;
mod difference;
mod filter;
mod filter_1d;
mod filter_1d_padding;
mod flat_se;
mod img_size;
pub mod laws;
mod morph_base;
mod morph_error;
mod morph_gray_alpha;
mod morph_interleaved;
mod morph_rgb;
mod morph_rgba;
mod op;
mod op_impl;
mod op_type;
mod ops;
mod packing;
mod pixel;
mod plane;
mod se_scan;
mod structuring_element;
mod thread_policy;

pub use arena::{make_arena, Arena};
pub use border_mode::{border_source, reflect_index, reflect_index_101, BorderMode};
pub use difference::{make_morph_gradient_sat, MorphGradient};
pub use filter::{MorthFilterFlat2D4Rows, MorthFilterFlat2DRow};
pub use filter_1d::{
    filter_1d_impl, filter_1d_impl_base, morph_1d_common, morph_1d_u16, morph_1d_u8, scan_kernel,
};
pub use filter_1d_padding::make_arena_1d;
pub use flat_se::{AnalyzedSe, FlatSe};
pub use img_size::ImageSize;
pub use ops::{
    fast_morph_op_1d, fast_morph_op_3d, fast_morph_op_4d, rgb_from_slice, rgba_from_slice,
    write_morph_row, write_morph_row_resolved, write_rgb_to_slice, write_rgba_to_slice,
    MorphFilterFlat2D4Rows, MorphFilterFlat2DRow, MorphOpFilterRgb2DRow, Rgb, Rgba,
};
pub use morph_error::{mismatch_message, MorphError};
pub use morph_gray_alpha::make_morphology_gray_alpha;
pub use morph_rgb::make_morphology_rgb;
pub use morph_rgba::make_morphology_rgba;
pub use op::{
    dilate, dilate_gray_alpha, dilate_rgb, dilate_rgba, erode, erode_gray_alpha, erode_rgb,
    erode_rgba, morphology, morphology_gray_alpha, morphology_rgb, morphology_rgba,
};
pub use op_impl::{make_morphology, make_morphology_ex, vec_filled};
pub use op_type::{MorphExOp, MorphOp};
pub use packing::{
    deinterleave_rgb_naive, deinterleave_rgba_naive, interleave_rgb_naive, interleave_rgba_naive,
    pack_gray_alpha_naive, pack_rgb, pack_rgba, GrayAlphaPackable, RgbPackable, RgbaPackable, unpack_gray_alpha_naive, unpack_rgb, unpack_rgba,
    UnpackedGrayAlpha, UnpackedRgbImage, UnpackedRgbaImage,
};
pub use pixel::MorphPixel;
pub use se_scan::{group_scan_points, scan_se, sort_points, FilterBoundsProcess, ScanPoint};
pub use structuring_element::KernelShape;
pub use thread_policy::MorphologyThreadingPolicy;
