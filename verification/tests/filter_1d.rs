use fast_morphology::{morph_1d_u16, morph_1d_u8, BorderMode, MorphError, MorphExOp};

// A test signal of floating point values, scaled by 20 to integers.
fn scaled_signal() -> Vec<u16> {
    vec![
        0, 0, 0, 0, 10, 10, 30, 0, 30, 140, 180, 220, 300, 640, 15, 6, 5, 15, 20, 180, 120,
    ]
}

#[test]
fn dilation_1d_u16_scaled() {
    let kernel = vec![0u8, 1u8, 1u8, 1u8, 1u8];
    let data = scaled_signal();
    let mut dst = vec![0u16; data.len()];
    morph_1d_u16(&data, &mut dst, &kernel, MorphExOp::Dilate, BorderMode::Reflect, 0).unwrap();
    assert_eq!(dst[3], 10);
    assert_eq!(dst[7], 140);
    assert_eq!(dst[17], 180);
}

#[test]
fn erosion_1d_u16_scaled() {
    let kernel = vec![0u8, 1u8, 1u8, 1u8, 1u8];
    let data = scaled_signal();
    let mut dst = vec![0u16; data.len()];
    morph_1d_u16(&data, &mut dst, &kernel, MorphExOp::Erode, BorderMode::Reflect, 0).unwrap();
    assert_eq!(dst[3], 0);
    assert_eq!(dst[7], 0);
    assert_eq!(dst[12], 15);
    assert_eq!(dst[17], 5);
}

#[test]
fn dilation_1d_u8_every_sample() {
    let kernel = [1u8, 1, 1];
    let data = [1u8, 5, 2, 0, 9];
    let mut dst = [0u8; 5];
    morph_1d_u8(&data, &mut dst, &kernel, MorphExOp::Dilate, BorderMode::Clamp, 0).unwrap();
    assert_eq!(dst, [5, 5, 5, 9, 9]);
    morph_1d_u8(&data, &mut dst, &kernel, MorphExOp::Erode, BorderMode::Clamp, 0).unwrap();
    assert_eq!(dst, [1, 1, 0, 0, 0]);
}

#[test]
fn constant_border_1d() {
    let kernel = [1u8, 1, 1];
    let data = [1u8, 5, 2];
    let mut dst = [0u8; 3];
    morph_1d_u8(&data, &mut dst, &kernel, MorphExOp::Dilate, BorderMode::Constant, 7).unwrap();
    assert_eq!(dst, [7, 5, 7]);
    morph_1d_u8(&data, &mut dst, &kernel, MorphExOp::Erode, BorderMode::Constant, 0).unwrap();
    assert_eq!(dst, [0, 1, 0]);
}

#[test]
fn composite_ops_1d() {
    let kernel = [1u8, 1, 1];
    let data = [0u8, 0, 9, 0, 0, 5, 5, 5, 0];
    let mut dst = [0u8; 9];
    morph_1d_u8(&data, &mut dst, &kernel, MorphExOp::Opening, BorderMode::Clamp, 0).unwrap();
    assert_eq!(dst, [0, 0, 0, 0, 0, 5, 5, 5, 0]);
    morph_1d_u8(&data, &mut dst, &kernel, MorphExOp::Closing, BorderMode::Clamp, 0).unwrap();
    assert_eq!(dst, [0, 0, 9, 5, 5, 5, 5, 5, 5]);
    morph_1d_u8(&data, &mut dst, &kernel, MorphExOp::Gradient, BorderMode::Clamp, 0).unwrap();
    assert_eq!(dst, [0, 9, 9, 9, 5, 5, 0, 5, 5]);
    morph_1d_u8(&data, &mut dst, &kernel, MorphExOp::TopHat, BorderMode::Clamp, 0).unwrap();
    assert_eq!(dst, [0, 0, 9, 0, 0, 0, 0, 0, 0]);
    morph_1d_u8(&data, &mut dst, &kernel, MorphExOp::BlackHat, BorderMode::Clamp, 0).unwrap();
    assert_eq!(dst, [0, 0, 0, 0, 0, 0, 0, 0, 0]);
}

#[test]
fn empty_kernel_1d_copies() {
    let kernel = [0u8, 0, 0];
    let data = [3u8, 1, 4, 1, 5];
    let mut dst = [0u8; 5];
    morph_1d_u8(&data, &mut dst, &kernel, MorphExOp::Dilate, BorderMode::Wrap, 0).unwrap();
    assert_eq!(dst, data);
}

#[test]
fn errors_1d() {
    let data = [3u8, 1, 4];
    let mut dst = [0u8; 3];
    assert_eq!(
        morph_1d_u8(&data, &mut dst, &[1u8, 1], MorphExOp::Dilate, BorderMode::Clamp, 0),
        Err(MorphError::KernelSizeMustBeOdd)
    );
    let mut short = [0u8; 2];
    assert_eq!(
        morph_1d_u8(&data, &mut short, &[1u8, 1, 1], MorphExOp::Dilate, BorderMode::Clamp, 0),
        Err(MorphError::SourceAndDestinationMustMatch)
    );
    assert_eq!(short, [0, 0]);
}
