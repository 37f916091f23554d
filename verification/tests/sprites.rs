use identicon::sprite::pixels;
use identicon::Identicon;

fn is_mirrored(grid: &[bool; 25]) -> bool {
    (0..5usize).all(|row| (0..5usize).all(|col| grid[row * 5 + col] == grid[row * 5 + 4 - col]))
}

#[test]
fn all_zero_hash_paints_every_cell() {
    let source = [0u8; 16];
    assert_eq!(Identicon::new(&source).pixels(), [true; 25]);
}

#[test]
fn odd_nibbles_paint_nothing() {
    let source = [0x11u8; 16];
    assert_eq!(Identicon::new(&source).pixels(), [false; 25]);
}

#[test]
fn empty_source_paints_nothing() {
    assert_eq!(pixels(&[]), [false; 25]);
}

#[test]
fn alternating_nibbles_make_a_checkerboard() {
    // Nibbles 1, 0, 3, 2, ...: odd, even, odd, even, ...
    let source = [0x10u8, 0x32, 0x54, 0x76, 0x98, 0xba, 0xdc, 0xfe];
    let o = false;
    let x = true;
    let expected = [
        o, x, o, x, o, //
        x, o, x, o, x, //
        o, x, o, x, o, //
        x, o, x, o, x, //
        o, x, o, x, o,
    ];
    assert_eq!(pixels(&source), expected);
}

#[test]
fn middle_column_is_drawn_first() {
    // Five even nibbles, then odd ones: only the middle column is painted.
    let source = [0x00u8, 0x00, 0x01, 0x11, 0x11, 0x11, 0x11, 0x11];
    let mut expected = [false; 25];
    for row in 0..5usize {
        expected[row * 5 + 2] = true;
    }
    assert_eq!(pixels(&source), expected);
}

#[test]
fn outer_columns_are_drawn_last() {
    // Ten odd nibbles, then five even ones: columns 0 and 4 are painted.
    let source = [0x11u8, 0x11, 0x11, 0x11, 0x11, 0x00, 0x00, 0x01];
    let mut expected = [false; 25];
    for row in 0..5usize {
        expected[row * 5] = true;
        expected[row * 5 + 4] = true;
    }
    assert_eq!(pixels(&source), expected);
}

#[test]
fn rows_are_drawn_from_the_top() {
    // One even nibble, then odd ones: the top of the middle column.
    let source = [0x01u8, 0x11, 0x11, 0x11, 0x11, 0x11, 0x11, 0x11];
    let mut expected = [false; 25];
    expected[2] = true;
    assert_eq!(pixels(&source), expected);
}

#[test]
fn short_source_leaves_the_rest_unpainted() {
    // Four nibbles, all even: four cells of the middle column.
    let source = [0x00u8, 0x00];
    let mut expected = [false; 25];
    for row in 0..4usize {
        expected[row * 5 + 2] = true;
    }
    assert_eq!(pixels(&source), expected);
}

#[test]
fn sixteenth_nibble_and_later_are_ignored() {
    let a = [0x24u8, 0x68, 0xac, 0xe0, 0x13, 0x57, 0x9b, 0xd0, 0xff, 0xff];
    let b = [0x24u8, 0x68, 0xac, 0xe0, 0x13, 0x57, 0x9b, 0xd1, 0x00];
    assert_eq!(pixels(&a), pixels(&b));
}

#[test]
fn every_sprite_is_mirrored() {
    let mut source = [0u8; 16];
    let mut state: u32 = 0x2545_f491;
    for _ in 0..200 {
        for byte in source.iter_mut() {
            state = state.wrapping_mul(1_664_525).wrapping_add(1_013_904_223);
            *byte = (state >> 24) as u8;
        }
        let grid = pixels(&source);
        assert!(is_mirrored(&grid));
        assert_eq!(grid, Identicon::new(&source).pixels());
    }
}
