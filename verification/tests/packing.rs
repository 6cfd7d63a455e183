use fast_morphology::{
    deinterleave_rgb_naive, deinterleave_rgba_naive, interleave_rgb_naive, interleave_rgba_naive,
    pack_gray_alpha_naive, pack_rgb, pack_rgba, unpack_gray_alpha_naive, unpack_rgb, unpack_rgba,
    GrayAlphaPackable, ImageSize, RgbPackable, RgbaPackable, UnpackedRgbImage,
};

#[test]
fn unpack_rgb_splits_channels() {
    let src = vec![1u8, 2, 3, 4, 5, 6];
    let unpacked = unpack_rgb(&src, ImageSize::new(2, 1));
    assert_eq!(unpacked.r_channel, vec![1, 4]);
    assert_eq!(unpacked.g_channel, vec![2, 5]);
    assert_eq!(unpacked.b_channel, vec![3, 6]);
}

#[test]
fn pack_then_unpack_round_trips() {
    let src: Vec<u8> = (0..24).collect();
    let size = ImageSize::new(3, 2);
    let unpacked = unpack_rgba(&src, size);
    let mut dst = vec![0u8; 24];
    pack_rgba(&unpacked, &mut dst, size);
    assert_eq!(dst, src);

    let src3: Vec<u8> = (0..18).collect();
    let unpacked3 = unpack_rgb(&src3, size);
    let mut dst3 = vec![0u8; 18];
    pack_rgb(&unpacked3, &mut dst3, size);
    assert_eq!(dst3, src3);

    let src2: Vec<u16> = (1000..1012).collect();
    let ga = unpack_gray_alpha_naive(&src2, 3, 2);
    let mut dst2 = vec![0u16; 12];
    pack_gray_alpha_naive(&ga, &mut dst2, 3, 2);
    assert_eq!(dst2, src2);
}

#[test]
fn u16_packing_through_traits() {
    let src: Vec<u16> = (500..512).collect();
    let size = ImageSize::new(2, 2);
    let rgb = <u16 as RgbPackable<u16>>::unpack(&src, size);
    assert_eq!(rgb.r_channel, vec![500, 503, 506, 509]);
    let mut back = vec![0u16; 12];
    <u16 as RgbPackable<u16>>::pack(&rgb, &mut back, size);
    assert_eq!(back, src);

    let src4: Vec<u16> = (0..16).collect();
    let rgba = <u16 as RgbaPackable<u16>>::unpack(&src4, size);
    assert_eq!(rgba.a_channel, vec![3, 7, 11, 15]);
    let ga = <u8 as GrayAlphaPackable<u8>>::unpack(&[1u8, 2, 3, 4], ImageSize::new(2, 1));
    assert_eq!(ga.gray_channel, vec![1, 3]);
    assert_eq!(ga.alpha_channel, vec![2, 4]);
}

#[test]
fn interleave_writes_only_whole_pixels_it_has() {
    // Two pixels of planes, a destination of eight samples: the last two stay.
    let planes = UnpackedRgbImage::new(vec![1u8, 4], vec![2u8, 5], vec![3u8, 6]);
    let mut dst = vec![9u8; 8];
    interleave_rgb_naive(&planes, &mut dst, 2, 1);
    assert_eq!(dst, vec![1, 2, 3, 4, 5, 6, 9, 9]);
    // A shorter plane limits the pixels written.
    let planes = UnpackedRgbImage::new(vec![1u8, 4], vec![2u8], vec![3u8, 6]);
    let mut dst = vec![9u8; 6];
    interleave_rgb_naive(&planes, &mut dst, 2, 1);
    assert_eq!(dst, vec![1, 2, 3, 9, 9, 9]);
}

#[test]
fn deinterleave_rgba_and_interleave_back() {
    let src: Vec<u16> = (0..8).collect();
    let planes = deinterleave_rgba_naive(&src, 1, 2);
    assert_eq!(planes.b_channel, vec![2, 6]);
    let mut dst = vec![0u16; 8];
    interleave_rgba_naive(&planes, &mut dst, 1, 2);
    assert_eq!(dst, src);
    let rgb = deinterleave_rgb_naive(&src[..6], 2, 1);
    assert_eq!(rgb.g_channel, vec![1, 4]);
}
