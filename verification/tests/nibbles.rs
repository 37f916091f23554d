use identicon::Nibbler;

fn drain(source: &[u8]) -> Vec<u8> {
    let mut cursor = Nibbler::new(source);
    let mut out: Vec<u8> = Vec::new();
    while let Some(nibble) = cursor.next() {
        out.push(nibble);
    }
    out
}

#[test]
fn high_half_comes_before_low_half() {
    assert_eq!(drain(&[0xab, 0x0f, 0x70]), vec![0x0a, 0x0b, 0x00, 0x0f, 0x07, 0x00]);
}

#[test]
fn empty_source_has_no_nibbles() {
    let mut cursor = Nibbler::new(&[]);
    assert_eq!(cursor.next(), None);
    assert_eq!(cursor.next(), None);
}

#[test]
fn two_nibbles_per_byte() {
    let source: Vec<u8> = (0..=255u8).collect();
    let nibbles = drain(&source);
    assert_eq!(nibbles.len(), 2 * source.len());
    for (i, byte) in source.iter().enumerate() {
        assert_eq!(nibbles[2 * i], byte >> 4);
        assert_eq!(nibbles[2 * i + 1], byte & 0x0f);
    }
    assert!(nibbles.iter().all(|n| *n < 16));
}

#[test]
fn exhausted_cursor_stays_exhausted() {
    let mut cursor = Nibbler::new(&[0x12]);
    assert_eq!(cursor.next(), Some(1));
    assert_eq!(cursor.next(), Some(2));
    assert_eq!(cursor.next(), None);
    assert_eq!(cursor.next(), None);
}

#[test]
fn fresh_cursor_starts_over() {
    let source = [0xde, 0xad];
    assert_eq!(drain(&source), drain(&source));
    assert_eq!(drain(&source), vec![0x0d, 0x0e, 0x0a, 0x0d]);
}
