use kernel_core::image::{
    initialize_ram, parse_header, LoadError, HEADER_BYTES, IMAGE_MAGIC, IMAGE_VERSION,
};

fn push_le32(v: &mut Vec<u8>, word: u32) {
    v.push((word & 0xFF) as u8);
    v.push(((word >> 8) & 0xFF) as u8);
    v.push(((word >> 16) & 0xFF) as u8);
    v.push(((word >> 24) & 0xFF) as u8);
}

/// A well-formed image: header, `data` as the writable-data template, then
/// `code` bytes of padding so the entry point has something to point at.
fn make_image(ram_size: u32, entry: u32, data: &[u8], code: usize) -> Vec<u8> {
    let total = (HEADER_BYTES + data.len() + code) as u32;
    let mut img = Vec::new();
    push_le32(&mut img, IMAGE_MAGIC);
    push_le32(&mut img, IMAGE_VERSION);
    push_le32(&mut img, total);
    push_le32(&mut img, ram_size);
    push_le32(&mut img, entry);
    push_le32(&mut img, data.len() as u32);
    img.extend_from_slice(data);
    for i in 0..code {
        img.push((i & 0xFF) as u8);
    }
    img
}

#[test]
fn valid_header_parses() {
    let img = make_image(128, 4, &[7, 8, 9], 16);
    let h = parse_header(&img, 256).expect("valid image");
    assert_eq!(h.total_size as usize, HEADER_BYTES + 3 + 16);
    assert_eq!(h.ram_size, 128);
    assert_eq!(h.entry_offset, 4);
    assert_eq!(h.data_size, 3);
}

#[test]
fn short_image_is_size_mismatch() {
    let img = vec![0x47, 0x4D, 0x49];
    assert_eq!(parse_header(&img, 256), Err(LoadError::SizeMismatch));
}

#[test]
fn wrong_magic_is_bad_magic() {
    let mut img = make_image(128, 4, &[], 16);
    img[0] = 0xFF;
    assert_eq!(parse_header(&img, 256), Err(LoadError::BadMagic));
}

#[test]
fn wrong_version_is_version_mismatch() {
    let mut img = make_image(128, 4, &[], 16);
    img[4] = IMAGE_VERSION as u8 + 1;
    assert_eq!(parse_header(&img, 256), Err(LoadError::VersionMismatch));
}

#[test]
fn ram_demand_above_available_is_size_mismatch() {
    let img = make_image(512, 4, &[], 16);
    assert_eq!(parse_header(&img, 256), Err(LoadError::SizeMismatch));
}

#[test]
fn entry_point_outside_image_is_size_mismatch() {
    let img = make_image(128, 10_000, &[], 16);
    assert_eq!(parse_header(&img, 256), Err(LoadError::SizeMismatch));
}

#[test]
fn declared_length_beyond_image_is_size_mismatch() {
    let mut img = make_image(128, 4, &[], 16);
    // Declare four more bytes than the image holds.
    let declared = (HEADER_BYTES + 16 + 4) as u32;
    img[8] = (declared & 0xFF) as u8;
    assert_eq!(parse_header(&img, 256), Err(LoadError::SizeMismatch));
}

#[test]
fn fresh_ram_is_template_then_zeros() {
    let img = make_image(64, 4, &[0xAA, 0xBB], 8);
    let ram = initialize_ram(&img, 64);
    assert_eq!(ram.len(), 64);
    assert_eq!(ram[0], 0xAA);
    assert_eq!(ram[1], 0xBB);
    for i in 2..64 {
        assert_eq!(ram[i], 0);
    }
}
