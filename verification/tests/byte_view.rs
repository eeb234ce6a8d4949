use exif_orientation::{ImgBytes, OutOfBounds};

#[test]
fn is_jpeg_needs_the_start_of_image_marker() {
    assert!(ImgBytes::new(&[0xFF, 0xD8]).is_jpeg());
    assert!(ImgBytes::new(&[0xFF, 0xD8, 0x00, 0x01]).is_jpeg());
    assert!(!ImgBytes::new(&[0xFF, 0xD9, 0xFF, 0xD8]).is_jpeg());
    assert!(!ImgBytes::new(&[0xD8, 0xFF]).is_jpeg());
    assert!(!ImgBytes::new(&[0x89, 0x50, 0x4E, 0x47]).is_jpeg());
}

#[test]
fn is_jpeg_is_false_on_short_buffers() {
    assert!(!ImgBytes::new(&[]).is_jpeg());
    assert!(!ImgBytes::new(&[0xFF]).is_jpeg());
}

#[test]
fn len_and_as_slice_give_the_buffer_back() {
    let data = [1u8, 2, 3];
    let view = ImgBytes::new(&data);
    assert_eq!(view.len(), 3);
    assert_eq!(view.as_slice(), &[1u8, 2, 3][..]);
    assert_eq!(ImgBytes::new(&[]).len(), 0);
}

#[test]
fn read_uint_is_big_endian() {
    let data = [0x12u8, 0x34, 0x56, 0x78, 0x9A, 0xBC, 0xDE, 0xF0];
    let view = ImgBytes::new(&data);
    assert_eq!(view.read_uint(0, 1), Ok(0x12));
    assert_eq!(view.read_uint(0, 2), Ok(0x1234));
    assert_eq!(view.read_uint(0, 4), Ok(305_419_896));
    assert_eq!(view.read_uint(1, 3), Ok(0x345678));
    assert_eq!(view.read_uint(0, 8), Ok(0x1234_5678_9ABC_DEF0));
    assert_eq!(view.read_uint(6, 2), Ok(0xDEF0));
}

#[test]
fn read_uint_of_no_bytes_is_zero() {
    let data = [0xFFu8, 0xFF];
    let view = ImgBytes::new(&data);
    assert_eq!(view.read_uint(0, 0), Ok(0));
    assert_eq!(view.read_uint(2, 0), Ok(0));
}

#[test]
fn read_uint_holds_the_largest_value() {
    let data = [0xFFu8; 8];
    assert_eq!(ImgBytes::new(&data).read_uint(0, 8), Ok(u64::MAX));
}

#[test]
fn read_uint_past_the_end_fails() {
    let data = [1u8, 2, 3, 4];
    let view = ImgBytes::new(&data);
    assert_eq!(view.read_uint(1, 4), Err(OutOfBounds));
    assert_eq!(view.read_uint(4, 1), Err(OutOfBounds));
    assert_eq!(view.read_uint(5, 0), Err(OutOfBounds));
    assert_eq!(view.read_uint(usize::MAX, 2), Err(OutOfBounds));
}

#[test]
fn as_usize_reads_offsets_and_counts() {
    let data = [0x00u8, 0x00, 0x00, 0x08, 0x01, 0x02];
    let view = ImgBytes::new(&data);
    assert_eq!(view.as_usize(0, 4), Ok(8));
    assert_eq!(view.as_usize(4, 2), Ok(258));
    assert_eq!(view.as_usize(3, 4), Err(OutOfBounds));
}

#[test]
fn read_u16_and_read_u32_are_big_endian() {
    let data = [0x01u8, 0x12, 0x00, 0x03, 0xFF, 0xFF, 0xFF, 0xFF];
    let view = ImgBytes::new(&data);
    assert_eq!(view.read_u16(0), Ok(0x0112));
    assert_eq!(view.read_u16(2), Ok(3));
    assert_eq!(view.read_u32(0), Ok(0x0112_0003));
    assert_eq!(view.read_u32(4), Ok(u32::MAX));
    assert_eq!(view.read_u16(7), Err(OutOfBounds));
    assert_eq!(view.read_u32(5), Err(OutOfBounds));
}

#[test]
fn hex_str_pads_every_byte_to_two_digits() {
    let data = [0x01u8, 0x0A, 0xFF, 0x00, 0x10];
    let view = ImgBytes::new(&data);
    assert_eq!(view.hex_str(0, 5), Ok("010aff0010".to_string()));
    assert_eq!(view.hex_str(0, 2), Ok("010a".to_string()));
    assert_eq!(view.hex_str(3, 1), Ok("00".to_string()));
}

#[test]
fn hex_str_is_lowercase_and_unseparated() {
    let data = [0xFFu8, 0xD8, 0xFF, 0xE1, 0xAB, 0xCD, 0xEF];
    let view = ImgBytes::new(&data);
    assert_eq!(view.hex_str(0, 2), Ok("ffd8".to_string()));
    assert_eq!(view.hex_str(2, 2), Ok("ffe1".to_string()));
    assert_eq!(view.hex_str(4, 3), Ok("abcdef".to_string()));
}

#[test]
fn hex_str_covers_all_sixteen_digits() {
    let data = [0x01u8, 0x23, 0x45, 0x67, 0x89, 0xAB, 0xCD, 0xEF];
    assert_eq!(ImgBytes::new(&data).hex_str(0, 8), Ok("0123456789abcdef".to_string()));
}

#[test]
fn hex_str_of_no_bytes_is_empty() {
    let data = [0xABu8];
    let view = ImgBytes::new(&data);
    assert_eq!(view.hex_str(0, 0), Ok(String::new()));
    assert_eq!(view.hex_str(1, 0), Ok(String::new()));
}

#[test]
fn hex_str_past_the_end_fails() {
    let data = [0xABu8, 0xCD];
    let view = ImgBytes::new(&data);
    assert_eq!(view.hex_str(1, 2), Err(OutOfBounds));
    assert_eq!(view.hex_str(3, 0), Err(OutOfBounds));
    assert_eq!(view.hex_str(usize::MAX, usize::MAX), Err(OutOfBounds));
}

#[test]
fn slice_borrows_the_window() {
    let data = [10u8, 20, 30, 40, 50];
    let view = ImgBytes::new(&data);
    assert_eq!(view.slice(1, 3), Ok(&[20u8, 30, 40][..]));
    assert_eq!(view.slice(0, 5), Ok(&data[..]));
    assert_eq!(view.slice(5, 0), Ok(&[][..]));
}

#[test]
fn slice_past_the_end_fails() {
    let data = [10u8, 20, 30];
    let view = ImgBytes::new(&data);
    assert_eq!(view.slice(0, 4), Err(OutOfBounds));
    assert_eq!(view.slice(3, 1), Err(OutOfBounds));
    assert_eq!(view.slice(4, 0), Err(OutOfBounds));
    assert_eq!(view.slice(2, usize::MAX), Err(OutOfBounds));
}
