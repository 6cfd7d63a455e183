use fast_morphology::{
    dilate, dilate_gray_alpha, dilate_rgb, dilate_rgba, erode, erode_gray_alpha, erode_rgb,
    erode_rgba, morphology, morphology_gray_alpha, morphology_rgb, morphology_rgba, BorderMode,
    ImageSize, KernelShape, MorphExOp, MorphologyThreadingPolicy,
};

const SQUARE: [u8; 9] = [1, 1, 1, 1, 1, 1, 1, 1, 1];
const CROSS: [u8; 9] = [0, 1, 0, 1, 1, 1, 0, 1, 0];

fn single_dot(width: usize, height: usize, y: usize, x: usize, v: u8) -> Vec<u8> {
    let mut img = vec![0u8; width * height];
    img[y * width + x] = v;
    img
}

#[test]
fn dilate_dot_with_square() {
    let src = single_dot(5, 5, 2, 2, 200);
    let mut dst = vec![0u8; 25];
    dilate(
        &src,
        &mut dst,
        ImageSize::new(5, 5),
        &SQUARE,
        KernelShape::new(3, 3),
        BorderMode::Clamp,
        [0; 4],
        MorphologyThreadingPolicy::Single,
    )
    .unwrap();
    for y in 0..5 {
        for x in 0..5 {
            let expected = if (1..=3).contains(&y) && (1..=3).contains(&x) { 200 } else { 0 };
            assert_eq!(dst[y * 5 + x], expected, "at {y},{x}");
        }
    }
}

#[test]
fn dilate_dot_with_cross() {
    let src = single_dot(5, 5, 2, 2, 9);
    let mut dst = vec![0u8; 25];
    dilate(
        &src,
        &mut dst,
        ImageSize::new(5, 5),
        &CROSS,
        KernelShape::new(3, 3),
        BorderMode::Reflect,
        [0; 4],
        MorphologyThreadingPolicy::default(),
    )
    .unwrap();
    let mut expected = vec![0u8; 25];
    for (y, x) in [(1, 2), (2, 1), (2, 2), (2, 3), (3, 2)] {
        expected[y * 5 + x] = 9;
    }
    assert_eq!(dst, expected);
}

#[test]
fn erode_removes_a_dot() {
    let src = single_dot(4, 3, 1, 1, 50);
    let mut dst = vec![7u8; 12];
    erode(
        &src,
        &mut dst,
        ImageSize::new(4, 3),
        &SQUARE,
        KernelShape::new(3, 3),
        BorderMode::Clamp,
        [0; 4],
        MorphologyThreadingPolicy::Single,
    )
    .unwrap();
    assert_eq!(dst, vec![0u8; 12]);
}

#[test]
fn asymmetric_element_reads_rows_and_columns() {
    // A 3 wide, 1 high element that holds only its right cell: each pixel
    // takes the value of its right neighbour.
    let src = vec![1u8, 2, 3, 4, 5, 6];
    let mut dst = vec![0u8; 6];
    dilate(
        &src,
        &mut dst,
        ImageSize::new(3, 2),
        &[0, 0, 1],
        KernelShape::new(3, 1),
        BorderMode::Clamp,
        [0; 4],
        MorphologyThreadingPolicy::Single,
    )
    .unwrap();
    assert_eq!(dst, vec![2, 3, 3, 5, 6, 6]);
    // A 1 wide, 3 high element that holds only its lower cell: each pixel
    // takes the value below it.
    dilate(
        &src,
        &mut dst,
        ImageSize::new(3, 2),
        &[0, 0, 1],
        KernelShape::new(1, 3),
        BorderMode::Clamp,
        [0; 4],
        MorphologyThreadingPolicy::Single,
    )
    .unwrap();
    assert_eq!(dst, vec![4, 5, 6, 4, 5, 6]);
}

#[test]
fn border_modes_at_the_corner() {
    // 3 x 3 image; the element holds only its upper left cell, so each pixel
    // reads its upper left neighbour.
    let src = vec![1u8, 2, 3, 4, 5, 6, 7, 8, 9];
    let se = [1u8, 0, 0, 0, 0, 0, 0, 0, 0];
    let run = |mode: BorderMode, constant: u8| {
        let mut dst = vec![0u8; 9];
        dilate(
            &src,
            &mut dst,
            ImageSize::new(3, 3),
            &se,
            KernelShape::new(3, 3),
            mode,
            [constant, 0, 0, 0],
            MorphologyThreadingPolicy::Single,
        )
        .unwrap();
        dst
    };
    assert_eq!(run(BorderMode::Clamp, 0), vec![1, 1, 2, 1, 1, 2, 4, 4, 5]);
    assert_eq!(run(BorderMode::Wrap, 0), vec![9, 7, 8, 3, 1, 2, 6, 4, 5]);
    assert_eq!(run(BorderMode::Reflect, 0), vec![1, 1, 2, 1, 1, 2, 4, 4, 5]);
    assert_eq!(run(BorderMode::Reflect101, 0), vec![5, 4, 5, 2, 1, 2, 5, 4, 5]);
    assert_eq!(run(BorderMode::Constant, 77), vec![77, 77, 77, 77, 1, 2, 77, 4, 5]);
}

#[test]
fn tall_image_uses_every_row() {
    // Thirteen rows exercise the six-row filter and the one-row filter.
    let width = 2;
    let height = 13;
    let src: Vec<u8> = (0..(width * height) as u8).collect();
    let mut dst = vec![0u8; width * height];
    dilate(
        &src,
        &mut dst,
        ImageSize::new(width, height),
        &[0, 0, 0, 0, 0, 0, 0, 1, 0],
        KernelShape::new(3, 3),
        BorderMode::Clamp,
        [0; 4],
        MorphologyThreadingPolicy::Single,
    )
    .unwrap();
    for y in 0..height {
        for x in 0..width {
            let below = (y + 1).min(height - 1);
            assert_eq!(dst[y * width + x], src[below * width + x]);
        }
    }
}

#[test]
fn empty_element_copies() {
    let src: Vec<u8> = (0..16).collect();
    let mut dst = vec![0u8; 16];
    erode(
        &src,
        &mut dst,
        ImageSize::new(4, 4),
        &[0u8; 9],
        KernelShape::new(3, 3),
        BorderMode::Wrap,
        [0; 4],
        MorphologyThreadingPolicy::Single,
    )
    .unwrap();
    assert_eq!(dst, src);
}

#[test]
fn planar_errors() {
    let src = vec![0u8; 25];
    let mut short = vec![3u8; 24];
    let err = dilate(
        &src,
        &mut short,
        ImageSize::new(5, 5),
        &SQUARE,
        KernelShape::new(3, 3),
        BorderMode::Clamp,
        [0; 4],
        MorphologyThreadingPolicy::Single,
    )
    .unwrap_err();
    assert_eq!(err, "Source slice size and destination must match");
    assert_eq!(short, vec![3u8; 24]);

    let mut dst = vec![3u8; 25];
    let err = dilate(
        &src,
        &mut dst,
        ImageSize::new(5, 5),
        &SQUARE[..8],
        KernelShape::new(3, 3),
        BorderMode::Clamp,
        [0; 4],
        MorphologyThreadingPolicy::Single,
    )
    .unwrap_err();
    assert_eq!(err, "Structuring element expected to be 9 but it was 8");

    let err = erode(
        &src,
        &mut dst,
        ImageSize::new(4, 5),
        &SQUARE,
        KernelShape::new(3, 3),
        BorderMode::Clamp,
        [0; 4],
        MorphologyThreadingPolicy::Single,
    )
    .unwrap_err();
    assert_eq!(err, "Image size expected to be 20 but it was 25");
    assert_eq!(dst, vec![3u8; 25]);
}

#[test]
fn interleaved_errors() {
    let src = vec![0u8; 74];
    let mut dst = vec![1u8; 74];
    let err = dilate_rgb(
        &src,
        &mut dst,
        ImageSize::new(5, 5),
        &SQUARE,
        KernelShape::new(3, 3),
        BorderMode::Clamp,
        [0; 4],
        MorphologyThreadingPolicy::Single,
    )
    .unwrap_err();
    assert_eq!(err, "Source and Destination image slice expected to be 75 but it was src 74, dst 74");
    assert_eq!(dst, vec![1u8; 74]);

    let src = vec![0u8; 100];
    let mut dst = vec![1u8; 100];
    let err = erode_rgba(
        &src,
        &mut dst,
        ImageSize::new(5, 5),
        &SQUARE[..4],
        KernelShape::new(3, 3),
        BorderMode::Clamp,
        [0; 4],
        MorphologyThreadingPolicy::Single,
    )
    .unwrap_err();
    assert_eq!(err, "Structuring element expected to be 9 but it was 4");

    let src = vec![0u8; 50];
    let mut dst = vec![1u8; 51];
    let err = erode_gray_alpha(
        &src,
        &mut dst,
        ImageSize::new(5, 5),
        &SQUARE,
        KernelShape::new(3, 3),
        BorderMode::Clamp,
        [0; 4],
        MorphologyThreadingPolicy::Single,
    )
    .unwrap_err();
    assert_eq!(err, "Source and Destination image slice expected to be 50 but it was src 50, dst 51");

    // The RGBA size message gives two samples per pixel as the expected size.
    let src = vec![0u8; 99];
    let mut dst = vec![1u8; 99];
    let err = dilate_rgba(
        &src,
        &mut dst,
        ImageSize::new(5, 5),
        &SQUARE,
        KernelShape::new(3, 3),
        BorderMode::Clamp,
        [0; 4],
        MorphologyThreadingPolicy::Single,
    )
    .unwrap_err();
    assert_eq!(err, "Source and Destination image slice expected to be 50 but it was src 99, dst 99");
    assert_eq!(dst, vec![1u8; 99]);
}

#[test]
fn rgb_channels_are_processed_apart() {
    // 3 x 1 RGB image; dilation along the row with a 3 x 1 element.
    let src = vec![10u8, 0, 5, 0, 20, 0, 0, 0, 30];
    let mut dst = vec![0u8; 9];
    dilate_rgb(
        &src,
        &mut dst,
        ImageSize::new(3, 1),
        &[1, 1, 1],
        KernelShape::new(3, 1),
        BorderMode::Clamp,
        [0; 4],
        MorphologyThreadingPolicy::Single,
    )
    .unwrap();
    assert_eq!(dst, vec![10, 20, 5, 10, 20, 30, 0, 20, 30]);
    erode_rgb(
        &src,
        &mut dst,
        ImageSize::new(3, 1),
        &[1, 1, 1],
        KernelShape::new(3, 1),
        BorderMode::Clamp,
        [0; 4],
        MorphologyThreadingPolicy::Single,
    )
    .unwrap();
    assert_eq!(dst, vec![0, 0, 0, 0, 0, 0, 0, 0, 0]);
}

#[test]
fn rgba_uses_a_border_constant_per_channel() {
    // 1 x 1 RGBA image; the element's only point is left of the centre, so the
    // pixel reads the border constant of each channel.
    let src = vec![1u8, 2, 3, 4];
    let mut dst = vec![0u8; 4];
    dilate_rgba(
        &src,
        &mut dst,
        ImageSize::new(1, 1),
        &[1, 0, 0],
        KernelShape::new(3, 1),
        BorderMode::Constant,
        [11, 12, 13, 14],
        MorphologyThreadingPolicy::Single,
    )
    .unwrap();
    assert_eq!(dst, vec![11, 12, 13, 14]);
}

#[test]
fn gray_alpha_channels() {
    // 2 x 1 gray with alpha image.
    let src = vec![100u8, 255, 0, 128];
    let mut dst = vec![0u8; 4];
    dilate_gray_alpha(
        &src,
        &mut dst,
        ImageSize::new(2, 1),
        &[1, 1, 1],
        KernelShape::new(3, 1),
        BorderMode::Clamp,
        [0; 4],
        MorphologyThreadingPolicy::Single,
    )
    .unwrap();
    assert_eq!(dst, vec![100, 255, 100, 255]);
    erode_gray_alpha(
        &src,
        &mut dst,
        ImageSize::new(2, 1),
        &[1, 1, 1],
        KernelShape::new(3, 1),
        BorderMode::Clamp,
        [0; 4],
        MorphologyThreadingPolicy::Single,
    )
    .unwrap();
    assert_eq!(dst, vec![0, 128, 0, 128]);
}

fn planar(op: MorphExOp, src: &[u8], width: usize, height: usize) -> Vec<u8> {
    let mut dst = vec![0u8; src.len()];
    morphology(
        src,
        &mut dst,
        op,
        ImageSize::new(width, height),
        &SQUARE,
        KernelShape::new(3, 3),
        BorderMode::Clamp,
        [0; 4],
        MorphologyThreadingPolicy::Single,
    )
    .unwrap();
    dst
}

#[test]
fn morphology_dispatches_each_operation() {
    let src = single_dot(5, 5, 2, 2, 200);
    let mut dilated = vec![0u8; 25];
    dilate(
        &src,
        &mut dilated,
        ImageSize::new(5, 5),
        &SQUARE,
        KernelShape::new(3, 3),
        BorderMode::Clamp,
        [0; 4],
        MorphologyThreadingPolicy::Single,
    )
    .unwrap();
    assert_eq!(planar(MorphExOp::Dilate, &src, 5, 5), dilated);
    assert_eq!(planar(MorphExOp::Erode, &src, 5, 5), vec![0u8; 25]);
    // Opening removes the dot, closing keeps it.
    assert_eq!(planar(MorphExOp::Opening, &src, 5, 5), vec![0u8; 25]);
    assert_eq!(planar(MorphExOp::Closing, &src, 5, 5), src);
    assert_eq!(planar(MorphExOp::Gradient, &src, 5, 5), dilated);
    assert_eq!(planar(MorphExOp::TopHat, &src, 5, 5), src);
    assert_eq!(planar(MorphExOp::BlackHat, &src, 5, 5), vec![0u8; 25]);
}

#[test]
fn morphology_of_interleaved_images_matches_the_planar_one() {
    let gray = single_dot(4, 4, 1, 2, 90);
    let expected = planar(MorphExOp::Closing, &gray, 4, 4);
    let size = ImageSize::new(4, 4);
    let rgb: Vec<u8> = gray.iter().flat_map(|&v| [v, v, v]).collect();
    let mut rgb_dst = vec![0u8; rgb.len()];
    morphology_rgb(
        &rgb,
        &mut rgb_dst,
        MorphExOp::Closing,
        size,
        &SQUARE,
        KernelShape::new(3, 3),
        BorderMode::Clamp,
        [0; 4],
        MorphologyThreadingPolicy::Single,
    )
    .unwrap();
    let rgba: Vec<u8> = gray.iter().flat_map(|&v| [v, v, v, v]).collect();
    let mut rgba_dst = vec![0u8; rgba.len()];
    morphology_rgba(
        &rgba,
        &mut rgba_dst,
        MorphExOp::Closing,
        size,
        &SQUARE,
        KernelShape::new(3, 3),
        BorderMode::Clamp,
        [0; 4],
        MorphologyThreadingPolicy::Single,
    )
    .unwrap();
    let ga: Vec<u8> = gray.iter().flat_map(|&v| [v, v]).collect();
    let mut ga_dst = vec![0u8; ga.len()];
    morphology_gray_alpha(
        &ga,
        &mut ga_dst,
        MorphExOp::Closing,
        size,
        &SQUARE,
        KernelShape::new(3, 3),
        BorderMode::Clamp,
        [0; 4],
        MorphologyThreadingPolicy::Single,
    )
    .unwrap();
    for i in 0..16 {
        assert_eq!(&rgb_dst[3 * i..3 * i + 3], &[expected[i]; 3]);
        assert_eq!(&rgba_dst[4 * i..4 * i + 4], &[expected[i]; 4]);
        assert_eq!(&ga_dst[2 * i..2 * i + 2], &[expected[i]; 2]);
    }
}

#[test]
fn result_does_not_depend_on_threading_policy() {
    let src: Vec<u8> = (0..64u32).map(|i| ((i * 37) % 251) as u8).collect();
    let mut results = Vec::new();
    for policy in [
        MorphologyThreadingPolicy::Single,
        MorphologyThreadingPolicy::Fixed(3),
        MorphologyThreadingPolicy::Adaptive,
    ] {
        let mut dst = vec![0u8; 64];
        dilate(
            &src,
            &mut dst,
            ImageSize::new(8, 8),
            &CROSS,
            KernelShape::new(3, 3),
            BorderMode::Reflect101,
            [0; 4],
            policy,
        )
        .unwrap();
        results.push(dst);
    }
    assert_eq!(results[0], results[1]);
    assert_eq!(results[0], results[2]);
}
