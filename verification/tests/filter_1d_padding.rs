use fast_morphology::{make_arena_1d, reflect_index, reflect_index_101, BorderMode};

#[test]
fn test_padding() {
    let data = [1u8, 2, 3, 4, 5];
    let arena0 = make_arena_1d::<u8>(&data, 5, BorderMode::Constant, 7);
    assert_eq!(arena0[0], 7);

    let arena1 = make_arena_1d::<u8>(&data, 5, BorderMode::Clamp, 7);
    assert_eq!(arena1[0], 1);
    assert_eq!(arena1[8], 5);

    let arena2 = make_arena_1d::<u8>(&data, 5, BorderMode::Wrap, 7);
    assert_eq!(arena2[1], 5);
    assert_eq!(arena2[7], 1);

    let arena3 = make_arena_1d::<u8>(&data, 15, BorderMode::Reflect, 7);
    assert_eq!(arena3[0], 2);
    assert_eq!(arena3[1], 1);
    assert_eq!(arena3[8], 2);

    let arena4 = make_arena_1d::<u8>(&data, 5, BorderMode::Reflect101, 7);
    assert_eq!(arena4[0], 3);
    assert_eq!(arena4[1], 2);
    assert_eq!(arena4[7], 4);
    assert_eq!(arena4[8], 3);

    assert_eq!(reflect_index_101(15, 1), 0);
}

#[test]
fn padding_keeps_the_line_in_the_middle() {
    let data = [9u8, 8, 7];
    for mode in [
        BorderMode::Clamp,
        BorderMode::Wrap,
        BorderMode::Reflect,
        BorderMode::Reflect101,
        BorderMode::Constant,
    ] {
        let padded = make_arena_1d::<u8>(&data, 7, mode, 0);
        assert_eq!(padded.len(), 3 + 6);
        assert_eq!(&padded[3..6], &data[..]);
    }
}

#[test]
fn padding_follows_the_documented_rules() {
    // `abcdefgh`: a line of eight samples, padded by three on each side.
    let data = [10u8, 11, 12, 13, 14, 15, 16, 17];
    let clamp = make_arena_1d::<u8>(&data, 7, BorderMode::Clamp, 0);
    assert_eq!(&clamp[..3], &[10, 10, 10]);
    assert_eq!(&clamp[11..], &[17, 17, 17]);
    // `cdefgh|abcdefgh|abcdefg`
    let wrap = make_arena_1d::<u8>(&data, 7, BorderMode::Wrap, 0);
    assert_eq!(&wrap[..3], &[15, 16, 17]);
    assert_eq!(&wrap[11..], &[10, 11, 12]);
    // `fedcba|abcdefgh|hgfedcb`
    let reflect = make_arena_1d::<u8>(&data, 7, BorderMode::Reflect, 0);
    assert_eq!(&reflect[..3], &[12, 11, 10]);
    assert_eq!(&reflect[11..], &[17, 16, 15]);
    // `gfedcb|abcdefgh|gfedcba`
    let reflect101 = make_arena_1d::<u8>(&data, 7, BorderMode::Reflect101, 0);
    assert_eq!(&reflect101[..3], &[13, 12, 11]);
    assert_eq!(&reflect101[11..], &[16, 15, 14]);
    let constant = make_arena_1d::<u8>(&data, 7, BorderMode::Constant, 42);
    assert_eq!(&constant[..3], &[42, 42, 42]);
    assert_eq!(&constant[11..], &[42, 42, 42]);
}

#[test]
fn reflect_101_on_two_samples_mirrors_back_to_the_first() {
    // `ba|ab|a`: position 2 of a line of two reads sample 0.
    assert_eq!(reflect_index_101(2, 2), 0);
    assert_eq!(reflect_index_101(-1, 2), 1);
    // `...|abcde|dcba`: up to 2n - 2 the mirror runs back to sample 0.
    assert_eq!(reflect_index_101(6, 5), 2);
    assert_eq!(reflect_index_101(8, 5), 0);
    assert_eq!(reflect_index_101(-4, 5), 4);
    let line = make_arena_1d::<u8>(&[10, 20], 5, BorderMode::Reflect101, 0);
    assert_eq!(line, vec![20, 20, 10, 20, 10, 20]);
}

#[test]
fn reflect_index_values() {
    assert_eq!(reflect_index(-1, 5), 0);
    assert_eq!(reflect_index(-2, 5), 1);
    assert_eq!(reflect_index(5, 5), 4);
    assert_eq!(reflect_index(6, 5), 3);
    assert_eq!(reflect_index_101(-1, 5), 1);
    assert_eq!(reflect_index_101(5, 5), 3);
}
