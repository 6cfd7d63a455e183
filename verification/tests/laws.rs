use fast_morphology::{
    dilate, erode, group_scan_points, make_arena_1d, morph_1d_u8, morphology,
    morphology_gray_alpha, morphology_rgb, morphology_rgba, sort_points, unpack_rgba, pack_rgba,
    BorderMode, ImageSize, KernelShape, MorphExOp, MorphologyThreadingPolicy, ScanPoint,
};

fn noise(n: usize, seed: u32) -> Vec<u8> {
    let mut state = seed;
    (0..n)
        .map(|_| {
            state = state.wrapping_mul(1_103_515_245).wrapping_add(12_345);
            (state >> 16) as u8
        })
        .collect()
}

fn run(op: MorphExOp, src: &[u8], se: &[u8], mode: BorderMode, constant: u8) -> Vec<u8> {
    let mut dst = vec![0u8; src.len()];
    morphology(
        src,
        &mut dst,
        op,
        ImageSize::new(7, 5),
        se,
        KernelShape::new(3, 3),
        mode,
        [constant, 0, 0, 0],
        MorphologyThreadingPolicy::Single,
    )
    .unwrap();
    dst
}

const MODES: [BorderMode; 5] = [
    BorderMode::Clamp,
    BorderMode::Wrap,
    BorderMode::Reflect,
    BorderMode::Reflect101,
    BorderMode::Constant,
];

#[test]
fn dilation_raises_and_erosion_lowers_with_centre() {
    let src = noise(35, 7);
    let se = [0u8, 1, 1, 0, 1, 0, 1, 0, 0];
    for mode in MODES {
        let d = run(MorphExOp::Dilate, &src, &se, mode, 128);
        let e = run(MorphExOp::Erode, &src, &se, mode, 128);
        for i in 0..src.len() {
            assert!(d[i] >= src[i]);
            assert!(e[i] <= src[i]);
        }
    }
}

#[test]
fn dilation_without_centre_may_lower() {
    // Without the centre cell a pixel can lose its own value.
    let src = vec![0u8, 0, 0, 0, 9, 0, 0, 0, 0];
    let mut dst = vec![0u8; 9];
    dilate(
        &src,
        &mut dst,
        ImageSize::new(3, 3),
        &[1u8, 0, 0, 0, 0, 0, 0, 0, 0],
        KernelShape::new(3, 3),
        BorderMode::Clamp,
        [0; 4],
        MorphologyThreadingPolicy::Single,
    )
    .unwrap();
    assert_eq!(dst[4], 0);
}

#[test]
fn operations_keep_order() {
    let low = noise(35, 3);
    let high: Vec<u8> = low.iter().map(|&v| v.saturating_add(40)).collect();
    let se = [1u8, 1, 0, 0, 1, 1, 0, 1, 0];
    for mode in MODES {
        for op in [MorphExOp::Dilate, MorphExOp::Erode, MorphExOp::Opening, MorphExOp::Closing] {
            let a = run(op, &low, &se, mode, 10);
            let b = run(op, &high, &se, mode, 50);
            for i in 0..a.len() {
                assert!(a[i] <= b[i], "{op:?} {mode:?} at {i}");
            }
        }
    }
}

#[test]
fn erosion_of_a_flat_image_is_flat() {
    let src = vec![77u8; 35];
    for mode in [BorderMode::Clamp, BorderMode::Wrap, BorderMode::Reflect, BorderMode::Reflect101] {
        assert_eq!(run(MorphExOp::Erode, &src, &[1; 9], mode, 0), src);
        assert_eq!(run(MorphExOp::Dilate, &src, &[1; 9], mode, 0), src);
    }
    let mut dst = vec![0u8; 35];
    erode(
        &src,
        &mut dst,
        ImageSize::new(7, 5),
        &[1; 9],
        KernelShape::new(3, 3),
        BorderMode::Constant,
        [0; 4],
        MorphologyThreadingPolicy::Single,
    )
    .unwrap();
    assert_eq!(dst[0], 0);
    assert_eq!(dst[8], 77);
}

#[test]
fn packing_round_trips_on_noise() {
    let src = noise(4 * 6, 11);
    let size = ImageSize::new(3, 2);
    let planes = unpack_rgba(&src, size);
    let mut back = vec![0u8; src.len()];
    pack_rgba(&planes, &mut back, size);
    assert_eq!(back, src);
}

#[test]
fn sort_orders_and_keeps_points() {
    let points: Vec<ScanPoint> = noise(20, 5)
        .chunks(2)
        .map(|c| ScanPoint::new(c[0] as i32 % 4, c[1] as i32 % 3))
        .collect();
    let sorted = sort_points(&points);
    assert_eq!(sorted.len(), points.len());
    for w in sorted.windows(2) {
        assert!((w[0].y, w[0].x) <= (w[1].y, w[1].x));
    }
    let mut a: Vec<(i32, i32)> = points.iter().map(|p| (p.y, p.x)).collect();
    let b: Vec<(i32, i32)> = sorted.iter().map(|p| (p.y, p.x)).collect();
    a.sort();
    assert_eq!(a, b);
    let mut expanded = Vec::new();
    for run in group_scan_points(&points) {
        for t in 0..run.size as i32 {
            expanded.push(ScanPoint::new(run.x + t, run.y));
        }
    }
    let n = sorted.len();
    let last_alone = n >= 2
        && !(sorted[n - 1].y == sorted[n - 2].y && sorted[n - 1].x == sorted[n - 2].x + 1);
    let covered = if last_alone { &sorted[..n - 1] } else { &sorted[..] };
    assert_eq!(expanded, covered.to_vec());
}

#[test]
fn border_rules_on_a_line() {
    let line: Vec<u8> = (1..=6).collect();
    let wrap = make_arena_1d::<u8>(&line, 3, BorderMode::Wrap, 0);
    assert_eq!((wrap[0], wrap[7]), (6, 1));
    let reflect = make_arena_1d::<u8>(&line, 3, BorderMode::Reflect, 0);
    assert_eq!((reflect[0], reflect[7]), (1, 6));
    let reflect101 = make_arena_1d::<u8>(&line, 3, BorderMode::Reflect101, 0);
    assert_eq!((reflect101[0], reflect101[7]), (2, 5));
    let clamp = make_arena_1d::<u8>(&line, 3, BorderMode::Clamp, 0);
    assert_eq!((clamp[0], clamp[7]), (1, 6));
}

#[test]
fn threading_policies_give_one_result() {
    let src = noise(35, 7);
    let se = [1u8, 0, 1, 1, 1, 0, 0, 1, 1];
    for op in [MorphExOp::Dilate, MorphExOp::Opening, MorphExOp::BlackHat] {
        let mut results = Vec::new();
        for policy in [
            MorphologyThreadingPolicy::Single,
            MorphologyThreadingPolicy::Fixed(3),
            MorphologyThreadingPolicy::Adaptive,
        ] {
            let mut dst = vec![0u8; 35];
            morphology(
                &src,
                &mut dst,
                op,
                ImageSize::new(7, 5),
                &se,
                KernelShape::new(3, 3),
                BorderMode::Reflect101,
                [0; 4],
                policy,
            )
            .unwrap();
            results.push(dst);
        }
        assert_eq!(results[0], results[1]);
        assert_eq!(results[0], results[2]);
    }
}

#[test]
fn morphology_dilate_and_erode_agree_with_dilate_and_erode() {
    let src = noise(35, 11);
    let se = [0u8, 1, 0, 1, 1, 1, 0, 1, 0];
    let size = ImageSize::new(7, 5);
    let shape = KernelShape::new(3, 3);
    let mut d = vec![0u8; 35];
    dilate(&src, &mut d, size, &se, shape, BorderMode::Wrap, [0; 4], MorphologyThreadingPolicy::Single)
        .unwrap();
    assert_eq!(d, run(MorphExOp::Dilate, &src, &se, BorderMode::Wrap, 0));
    let mut e = vec![0u8; 35];
    erode(&src, &mut e, size, &se, shape, BorderMode::Wrap, [0; 4], MorphologyThreadingPolicy::Single)
        .unwrap();
    assert_eq!(e, run(MorphExOp::Erode, &src, &se, BorderMode::Wrap, 0));
}

#[test]
fn interleaved_channels_are_planar_results() {
    let se = [1u8, 1, 0, 0, 1, 0, 0, 1, 1];
    let size = ImageSize::new(7, 5);
    let shape = KernelShape::new(3, 3);
    let values = [17u8, 99, 200, 3];
    for channels in [2usize, 3, 4] {
        let src = noise(35 * channels, 5 + channels as u32);
        let mut dst = vec![0u8; src.len()];
        let f = match channels {
            2 => morphology_gray_alpha,
            3 => morphology_rgb,
            _ => morphology_rgba,
        };
        f(
            &src,
            &mut dst,
            MorphExOp::Closing,
            size,
            &se,
            shape,
            BorderMode::Constant,
            values,
            MorphologyThreadingPolicy::Single,
        )
        .unwrap();
        for c in 0..channels {
            let plane: Vec<u8> = src.iter().skip(c).step_by(channels).copied().collect();
            let got: Vec<u8> = dst.iter().skip(c).step_by(channels).copied().collect();
            assert_eq!(got, run(MorphExOp::Closing, &plane, &se, BorderMode::Constant, values[c]));
        }
    }
}

fn line(op: MorphExOp, src: &[u8], kernel: &[u8], mode: BorderMode, value: u8) -> Vec<u8> {
    let mut dst = vec![0u8; src.len()];
    morph_1d_u8(src, &mut dst, kernel, op, mode, value).unwrap();
    dst
}

#[test]
fn line_compounds_are_two_calls() {
    let src = noise(23, 3);
    let kernel = [1u8, 0, 1, 1, 1];
    for mode in MODES {
        let eroded = line(MorphExOp::Erode, &src, &kernel, mode, 9);
        let dilated = line(MorphExOp::Dilate, &src, &kernel, mode, 9);
        assert_eq!(
            line(MorphExOp::Opening, &src, &kernel, mode, 9),
            line(MorphExOp::Dilate, &eroded, &kernel, mode, 9)
        );
        assert_eq!(
            line(MorphExOp::Closing, &src, &kernel, mode, 9),
            line(MorphExOp::Erode, &dilated, &kernel, mode, 9)
        );
        let gradient: Vec<u8> =
            dilated.iter().zip(&eroded).map(|(d, e)| d.saturating_sub(*e)).collect();
        assert_eq!(line(MorphExOp::Gradient, &src, &kernel, mode, 9), gradient);
    }
}

#[test]
fn erosion_is_inverted_dilation_of_inverted() {
    let src = noise(23, 13);
    let inv: Vec<u8> = src.iter().map(|v| 255 - v).collect();
    let kernel = [1u8, 1, 0, 1, 1];
    for mode in MODES {
        let eroded = line(MorphExOp::Erode, &src, &kernel, mode, 40);
        let dilated = line(MorphExOp::Dilate, &inv, &kernel, mode, 255 - 40);
        let back: Vec<u8> = dilated.iter().map(|v| 255 - v).collect();
        assert_eq!(eroded, back);
    }
    let plane = noise(35, 21);
    let inv_plane: Vec<u8> = plane.iter().map(|v| 255 - v).collect();
    let se = [0u8, 1, 1, 1, 1, 0, 1, 0, 1];
    for mode in MODES {
        let eroded = run(MorphExOp::Erode, &plane, &se, mode, 60);
        let dilated = run(MorphExOp::Dilate, &inv_plane, &se, mode, 195);
        let back: Vec<u8> = dilated.iter().map(|v| 255 - v).collect();
        assert_eq!(eroded, back);
    }
}

#[test]
fn reflect101_reads_the_first_row_at_two_n_minus_two() {
    // Two rows and a three-row element: the row below the image is row 0.
    let src = vec![1u8, 2, 3, 4, 5, 6];
    let se = [0u8, 0, 0, 0, 1, 0, 0, 1, 0];
    let mut dst = vec![0u8; 6];
    erode(
        &src,
        &mut dst,
        ImageSize::new(3, 2),
        &se,
        KernelShape::new(3, 3),
        BorderMode::Reflect101,
        [0; 4],
        MorphologyThreadingPolicy::Single,
    )
    .unwrap();
    assert_eq!(dst, vec![1, 2, 3, 1, 2, 3]);
}
