use egon_checksum::word::{read_word, write_word, WORD_BYTES};

#[test]
fn word_is_four_bytes() {
    assert_eq!(WORD_BYTES, 4);
}

#[test]
fn read_word_is_little_endian() {
    let image = [0x78, 0x56, 0x34, 0x12, 0x01, 0x00, 0x00, 0x80];
    assert_eq!(read_word(&image, 0), Some(0x1234_5678));
    assert_eq!(read_word(&image, 1), Some(0x8000_0001));
}

#[test]
fn read_word_past_the_end_gives_nothing() {
    let image = [0x78, 0x56, 0x34, 0x12, 0x01, 0x00, 0x00];
    assert_eq!(read_word(&image, 1), None);
    assert_eq!(read_word(&image, 2), None);
    assert_eq!(read_word(&image, usize::MAX), None);
    assert_eq!(read_word(&[], 0), None);
}

#[test]
fn write_word_is_little_endian_and_local() {
    let mut image = [0x11u8; 12];
    assert!(write_word(&mut image, 1, 0xDDAD_F5CC));
    assert_eq!(
        image,
        [0x11, 0x11, 0x11, 0x11, 0xCC, 0xF5, 0xAD, 0xDD, 0x11, 0x11, 0x11, 0x11]
    );
}

#[test]
fn written_word_reads_back() {
    let mut image = [0u8; 8];
    for word in [0u32, 1, 0xFF, 0x100, 0xFFFF_FFFF, 0x5F0A_6C39] {
        assert!(write_word(&mut image, 1, word));
        assert_eq!(read_word(&image, 1), Some(word));
        assert_eq!(read_word(&image, 0), Some(0));
    }
}

#[test]
fn write_word_past_the_end_writes_nothing() {
    let mut image = [0x22u8; 7];
    assert!(!write_word(&mut image, 1, 0));
    assert!(!write_word(&mut image, usize::MAX, 0));
    assert_eq!(image, [0x22u8; 7]);
    let mut empty: [u8; 0] = [];
    assert!(!write_word(&mut empty, 0, 0));
}
