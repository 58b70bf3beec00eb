use easyofd_signature::png::{append_chunk, crc32, deflate_raw, demo_seal_png};

#[test]
fn crc32_of_iend_chunk() {
    assert_eq!(crc32(b"IEND", &[]), 0xAE42_6082);
}

#[test]
fn crc32_check_value() {
    assert_eq!(crc32(b"", b"123456789"), 0xCBF4_3926);
}

#[test]
fn append_chunk_layout() {
    let mut png = Vec::new();
    append_chunk(&mut png, *b"IEND", &[]);
    assert_eq!(png, vec![0, 0, 0, 0, b'I', b'E', b'N', b'D', 0xAE, 0x42, 0x60, 0x82]);
}

#[test]
fn deflate_raw_small_input() {
    let z = deflate_raw(b"abc");
    assert_eq!(z, vec![0x78, 0x01, 0x01, 0x03, 0x00, 0xFC, 0xFF, b'a', b'b', b'c', 0x02, 0x4D, 0x01, 0x27]);
}

#[test]
fn deflate_raw_empty_input() {
    assert_eq!(deflate_raw(&[]), vec![0x78, 0x01, 0x00, 0x00, 0x00, 0x01]);
}

#[test]
fn deflate_raw_splits_long_input() {
    let data = vec![7u8; 70000];
    let z = deflate_raw(&data);
    assert_eq!(z.len(), 2 + 5 + 65535 + 5 + (70000 - 65535) + 4);
    assert_eq!(z[2], 0);
    assert_eq!(&z[2..7], &[0, 0xFF, 0xFF, 0x00, 0x00]);
    assert_eq!(z[2 + 5 + 65535], 1);
    let rest = (70000 - 65535) as u16;
    assert_eq!(&z[2 + 5 + 65535 + 1..2 + 5 + 65535 + 5], &[rest as u8, (rest >> 8) as u8, !rest as u8, (!rest >> 8) as u8]);
}

#[test]
fn deflate_raw_one_byte_block_lengths_are_little_endian() {
    let z = deflate_raw(&[0x41]);
    assert_eq!(&z[..7], &[0x78, 0x01, 0x01, 0x01, 0x00, 0xFE, 0xFF]);
    assert_eq!(z[7], 0x41);
    assert_eq!(&z[8..], &[0x00, 0x42, 0x00, 0x42]);
}

#[test]
fn demo_seal_png_idat_is_stored_zlib() {
    let png = demo_seal_png();
    let idat_len = u32::from_be_bytes([png[33], png[34], png[35], png[36]]) as usize;
    assert_eq!(&png[37..41], b"IDAT");
    let z = &png[41..41 + idat_len];
    assert_eq!(&z[..2], &[0x78, 0x01]);
    let n = 32 * 97u16;
    assert_eq!(&z[2..7], &[1, n as u8, (n >> 8) as u8, !n as u8, (!n >> 8) as u8]);
    assert_eq!(idat_len, 2 + 5 + 32 * 97 + 4);
}

#[test]
fn demo_seal_png_shape() {
    let png = demo_seal_png();
    assert_eq!(&png[..8], &[0x89, 0x50, 0x4E, 0x47, 0x0D, 0x0A, 0x1A, 0x0A]);
    assert_eq!(&png[12..16], b"IHDR");
    assert_eq!(&png[16..24], &[0, 0, 0, 32, 0, 0, 0, 32]);
    assert_eq!(&png[png.len() - 12..], &[0, 0, 0, 0, b'I', b'E', b'N', b'D', 0xAE, 0x42, 0x60, 0x82]);
}
