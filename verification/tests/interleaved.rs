use fast_morphology::{
    fast_morph_op_3d, fast_morph_op_4d, make_arena, morphology, rgb_from_slice, rgba_from_slice,
    scan_se, write_rgb_to_slice, write_rgba_to_slice, BorderMode, ImageSize, KernelShape,
    MorphExOp, MorphOp, MorphOpFilterRgb2DRow, MorphologyThreadingPolicy, Rgb, Rgba,
};

fn rgb_image(width: usize, height: usize) -> Vec<u8> {
    let mut img = Vec::with_capacity(width * height * 3);
    for i in 0..width * height {
        img.push(((i * 37 + 11) % 251) as u8);
        img.push(((i * 91 + 3) % 241) as u8);
        img.push(((i * 13 + 200) % 256) as u8);
    }
    img
}

fn channel(img: &[u8], c: usize) -> Vec<u8> {
    img.iter().skip(c).step_by(3).copied().collect()
}

fn rgb_rows(
    op: MorphOp,
    src: &[u8],
    size: ImageSize,
    se: &[u8],
    shape: KernelShape,
    mode: BorderMode,
    constants: [u8; 3],
) -> Vec<u8> {
    let arena = make_arena::<u8, 3>(src, size.width, size.height, shape, mode, constants);
    let analyzed = scan_se(se, shape);
    let filter = MorphOpFilterRgb2DRow::new(op);
    let mut dst = vec![0u8; src.len()];
    for y in 0..size.height {
        filter.dispatch_row(&arena, &mut dst, size, &analyzed, y);
    }
    dst
}

fn planar(
    op: MorphExOp,
    plane: &[u8],
    size: ImageSize,
    se: &[u8],
    shape: KernelShape,
    mode: BorderMode,
    constant: u8,
) -> Vec<u8> {
    let mut dst = vec![0u8; plane.len()];
    morphology(
        plane,
        &mut dst,
        op,
        size,
        se,
        shape,
        mode,
        [constant; 4],
        MorphologyThreadingPolicy::Single,
    )
    .unwrap();
    dst
}

#[test]
fn rgb_row_filter_matches_planar_channels() {
    let size = ImageSize::new(7, 5);
    let src = rgb_image(7, 5);
    let se = [0u8, 1, 0, 1, 1, 1, 0, 1, 0];
    let shape = KernelShape::new(3, 3);
    let modes = [
        BorderMode::Clamp,
        BorderMode::Wrap,
        BorderMode::Reflect,
        BorderMode::Reflect101,
        BorderMode::Constant,
    ];
    let constants = [9u8, 130, 250];
    for mode in modes {
        for (op, ex) in [(MorphOp::Dilate, MorphExOp::Dilate), (MorphOp::Erode, MorphExOp::Erode)] {
            let rgb = rgb_rows(op, &src, size, &se, shape, mode, constants);
            for c in 0..3 {
                let expected = planar(ex, &channel(&src, c), size, &se, shape, mode, constants[c]);
                assert_eq!(channel(&rgb, c), expected, "{mode:?} {op:?} channel {c}");
            }
        }
    }
}

#[test]
fn rgb_dilation_spreads_each_channel() {
    let size = ImageSize::new(3, 3);
    let mut src = vec![0u8; 27];
    src[3 * 4] = 10;
    src[3 * 4 + 1] = 20;
    src[3 * 4 + 2] = 30;
    let se = [1u8; 9];
    let dst = rgb_rows(
        MorphOp::Dilate,
        &src,
        size,
        &se,
        KernelShape::new(3, 3),
        BorderMode::Constant,
        [0, 0, 0],
    );
    for p in 0..9 {
        assert_eq!(&dst[3 * p..3 * p + 3], &[10, 20, 30]);
    }
}

#[test]
fn arena_pads_interleaved_channels() {
    let src: Vec<u8> = vec![1, 2, 3, 4, 5, 6];
    let arena = make_arena::<u8, 3>(
        &src,
        2,
        1,
        KernelShape::new(3, 3),
        BorderMode::Constant,
        [7, 8, 9],
    );
    assert_eq!(arena.width, 4);
    assert_eq!(arena.height, 3);
    assert_eq!(arena.arena.len(), 36);
    assert_eq!(&arena.arena[0..3], &[7, 8, 9]);
    assert_eq!(&arena.arena[15..21], &[1, 2, 3, 4, 5, 6]);
    let clamped = make_arena::<u8, 3>(&src, 2, 1, KernelShape::new(3, 1), BorderMode::Clamp, [0; 3]);
    assert_eq!(clamped.arena, vec![1, 2, 3, 1, 2, 3, 4, 5, 6, 4, 5, 6]);
}

#[test]
fn rgb_and_rgba_reductions() {
    let px = [Rgb::new(3u8, 200, 7), Rgb::new(9u8, 100, 1)];
    let max = fast_morph_op_3d(MorphOp::Dilate, &px);
    assert_eq!((max.r, max.g, max.b), (9, 200, 7));
    let min = fast_morph_op_3d(MorphOp::Erode, &px);
    assert_eq!((min.r, min.g, min.b), (3, 100, 1));
    let empty: [Rgb<u8>; 0] = [];
    let none = fast_morph_op_3d(MorphOp::Erode, &empty);
    assert_eq!((none.r, none.g, none.b), (255, 255, 255));

    let qx = [Rgba::new(1u16, 2, 3, 4), Rgba::new(4u16, 3, 2, 1)];
    let qmax = fast_morph_op_4d(MorphOp::Dilate, &qx);
    assert_eq!((qmax.r, qmax.g, qmax.b, qmax.a), (4, 3, 3, 4));
    let qmin = fast_morph_op_4d(MorphOp::Erode, &qx);
    assert_eq!((qmin.r, qmin.g, qmin.b, qmin.a), (1, 2, 2, 1));
    let empty4: [Rgba<u16>; 0] = [];
    let zero = fast_morph_op_4d(MorphOp::Dilate, &empty4);
    assert_eq!((zero.r, zero.g, zero.b, zero.a), (0, 0, 0, 0));
}

#[test]
fn pixels_read_and_written_in_slices() {
    let data = [5u8, 6, 7, 8, 9];
    let p = rgb_from_slice(&data[1..]);
    assert_eq!((p.r, p.g, p.b), (6, 7, 8));
    let q = rgba_from_slice(&data);
    assert_eq!((q.r, q.g, q.b, q.a), (5, 6, 7, 8));
    let mut out = [0u8; 6];
    write_rgb_to_slice(&mut out, 2, Rgb::new(1, 2, 3));
    assert_eq!(out, [0, 0, 1, 2, 3, 0]);
    write_rgba_to_slice(&mut out, 1, Rgba::new(9, 8, 7, 6));
    assert_eq!(out, [0, 9, 8, 7, 6, 0]);
}

#[test]
fn arena_reflect101_mirrors_rows_back_to_the_first() {
    let src: Vec<u8> = vec![1, 2, 3, 4, 5, 6];
    let arena = make_arena::<u8, 1>(
        &src,
        3,
        2,
        KernelShape::new(3, 3),
        BorderMode::Reflect101,
        [0],
    );
    assert_eq!((arena.width, arena.height, arena.pad_w, arena.pad_h), (5, 4, 1, 1));
    assert_eq!(
        arena.arena,
        vec![5u8, 4, 5, 6, 5, 2, 1, 2, 3, 2, 5, 4, 5, 6, 5, 2, 1, 2, 3, 2]
    );
}
