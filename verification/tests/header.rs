use egon_checksum::error::HeaderError;
use egon_checksum::header::{
    check_signature, read_declared_words, read_region_len, CHECKSUM_OFFSET, CHECKSUM_STAND_IN,
    CHECKSUM_WORD, HEADER_LEN, LENGTH_WORD, MIN_WORDS, SIGNATURE_LEN, SIGNATURE_OFFSET,
};

fn header(declared: u32) -> Vec<u8> {
    let mut image = vec![0xA5; 4];
    image.extend_from_slice(b"eGON.BT0");
    image.extend_from_slice(&[0; 4]);
    image.extend_from_slice(&declared.to_le_bytes());
    image
}

#[test]
fn layout_constants() {
    assert_eq!(SIGNATURE_OFFSET, 4);
    assert_eq!(SIGNATURE_LEN, 8);
    assert_eq!(CHECKSUM_WORD, 3);
    assert_eq!(CHECKSUM_OFFSET, 12);
    assert_eq!(HEADER_LEN, 20);
    assert_eq!(LENGTH_WORD, 4);
    assert_eq!(MIN_WORDS, 4);
    assert_eq!(CHECKSUM_STAND_IN, 0x5F0A_6C39);
}

#[test]
fn signature_is_found_at_offset_four() {
    assert!(check_signature(&header(16)));
    assert!(check_signature(&header(16)[..12]));
}

#[test]
fn signature_is_not_found_elsewhere() {
    let mut shifted = vec![0u8; 3];
    shifted.extend_from_slice(b"eGON.BT0");
    shifted.extend_from_slice(&[0; 9]);
    assert!(!check_signature(&shifted));
    assert!(!check_signature(b"eGON.BT0"));
    assert!(!check_signature(&[]));
    assert!(!check_signature(&header(16)[..11]));
}

#[test]
fn each_signature_byte_is_compared() {
    for at in 4..12 {
        let mut image = header(16);
        image[at] ^= 0x01;
        assert!(!check_signature(&image));
    }
}

#[test]
fn first_word_is_not_checked() {
    let mut image = header(16);
    image[0] = 0xFF;
    image[3] = 0x00;
    assert!(check_signature(&image));
    assert_eq!(read_declared_words(&image), Ok(4));
}

#[test]
fn declared_words_is_a_quarter_of_the_length() {
    assert_eq!(read_declared_words(&header(0)), Ok(0));
    assert_eq!(read_declared_words(&header(16)), Ok(4));
    assert_eq!(read_declared_words(&header(0x8000)), Ok(0x2000));
    assert_eq!(read_declared_words(&header(0xFFFF_FFFC)), Ok(0x3FFF_FFFF));
}

#[test]
fn length_is_read_little_endian() {
    let mut image = header(0);
    image[16..20].copy_from_slice(&[0x00, 0x01, 0x00, 0x00]);
    assert_eq!(read_declared_words(&image), Ok(0x40));
}

#[test]
fn header_faults() {
    let mut bad = header(16);
    bad[7] = b'n';
    assert_eq!(read_declared_words(&bad), Err(HeaderError::InvalidSignature));
    assert_eq!(
        read_declared_words(&header(16)[..19]),
        Err(HeaderError::Truncated)
    );
    assert_eq!(
        read_declared_words(&header(18)),
        Err(HeaderError::MisalignedLength)
    );
}

#[test]
fn messages_name_the_cause() {
    assert_eq!(HeaderError::InvalidSignature.message(), "Invalid signature");
    assert_eq!(
        HeaderError::MisalignedLength.message(),
        "Length is not multiple of 4"
    );
    assert_eq!(HeaderError::Truncated.message(), "failed to fill whole buffer");
}

#[test]
fn region_is_the_header_and_what_it_declares() {
    assert_eq!(read_region_len(&header(0)), 20);
    assert_eq!(read_region_len(&header(16)), 20);
    assert_eq!(read_region_len(&header(20)), 20);
    assert_eq!(read_region_len(&header(24)), 24);
    assert_eq!(read_region_len(&header(0x8000)), 0x8000);
}

#[test]
fn region_of_a_header_not_in_order_is_the_header() {
    assert_eq!(read_region_len(&header(0x8001)), 20);
    assert_eq!(read_region_len(&header(0x8000)[..19]), 20);
    assert_eq!(read_region_len(&[]), 20);
    let mut bad = header(0x8000);
    bad[4] = 0;
    assert_eq!(read_region_len(&bad), 20);
}
