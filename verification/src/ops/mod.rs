mod morph_row_op;
mod morph_row_rgb_op;
mod morph_rows_4_op;
mod op;
mod rgb;
mod utils;

pub use morph_row_rgb_op::{pixel_window, rgb_row_ready, rgb_row_written, MorphOpFilterRgb2DRow};
pub use morph_row_op::{point_offsets, row_filter_ready, row_written, write_morph_row, MorphFilterFlat2DRow};
pub use morph_rows_4_op::{write_morph_row_resolved, MorphFilterFlat2D4Rows};
pub use op::{fast_morph_op_1d, fast_morph_op_3d, fast_morph_op_4d, neutral_value, sample_values};
pub use rgb::{rgb_channel, rgba_channel, Rgb, Rgba};
pub use utils::{rgb_from_slice, rgba_from_slice, write_rgb_to_slice, write_rgba_to_slice};
