mod channels;
mod pack_gray_alpha;
mod pack_rgb;
mod pack_rgba;
mod traits;

mod unpack_gray_alpha;
mod unpack_rgb;
mod unpack_rgba;
mod unpacked;

pub use channels::{
    deinterleaved, gather_channel, interleave_written, interleaved, lemma_interleave_index,
    lemma_interleave_split, pixel_count, scatter_channel,
};
pub use pack_gray_alpha::pack_gray_alpha_naive;
pub use pack_rgb::{interleave_rgb_naive, pack_rgb};
pub use pack_rgba::{interleave_rgba_naive, pack_rgba};
pub use traits::{GrayAlphaPackable, RgbPackable, RgbaPackable};

pub use unpack_gray_alpha::unpack_gray_alpha_naive;
pub use unpack_rgb::{deinterleave_rgb_naive, unpack_rgb};
pub use unpack_rgba::{deinterleave_rgba_naive, unpack_rgba};
pub use unpacked::{UnpackedGrayAlpha, UnpackedRgbImage, UnpackedRgbaImage};
