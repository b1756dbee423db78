use boykernel::ppm::{parse_ppm, PpmParseError};

/// Magic of a binary pixmap.
const MAGIC: [u8; 2] = [b'P', b'6'];

/// The magic, then `rest` of the header, then `pixels`.
fn with_pixels(rest: &[u8], pixels: &[u8]) -> Vec<u8> {
    let mut b = MAGIC.to_vec();
    b.extend_from_slice(rest);
    b.extend_from_slice(pixels);
    b
}

fn header(rest: &[u8]) -> Vec<u8> {
    with_pixels(rest, &[])
}

#[test]
fn parses_header_and_borrows_pixels() {
    let b = with_pixels(b"\n2 1\n255\n", &[1, 2, 3, 4, 5, 6]);
    let img = parse_ppm(&b).unwrap();
    assert_eq!(img.width, 2);
    assert_eq!(img.height, 1);
    assert_eq!(img.max_val, 255);
    assert_eq!(img.data, &[1, 2, 3, 4, 5, 6]);
}

#[test]
fn skips_comments_in_header() {
    let b = with_pixels(b"\n# drawn by hand\n1 1\n# depth\n200\n", &[5, 8, 7, 0xAA]);
    let img = parse_ppm(&b).unwrap();
    assert_eq!((img.width, img.height, img.max_val), (1, 1, 200));
    assert_eq!(img.data, &[5, 8, 7]);
}

#[test]
fn pixel_data_starts_after_first_occurrence_of_max_value_text() {
    let mut b = header(b" 255 1 255\n");
    b.extend(std::iter::repeat(0x41u8).take(800));
    let img = parse_ppm(&b).unwrap();
    assert_eq!((img.width, img.height, img.max_val), (255, 1, 255));
    assert_eq!(img.data.len(), 765);
    assert_eq!(img.data[0], b'1');
}

#[test]
fn rejects_other_magic() {
    let mut b = with_pixels(b"\n1 1\n255\n", &[1, 2, 3]);
    b[1] = b'5';
    assert_eq!(parse_ppm(&b).err(), Some(PpmParseError::InvalidMagicNumber));
}

#[test]
fn rejects_short_header() {
    assert_eq!(parse_ppm(&header(b" 1 1")).err(), Some(PpmParseError::HeaderIncomplete));
    assert_eq!(parse_ppm(b"").err(), Some(PpmParseError::HeaderIncomplete));
    assert_eq!(parse_ppm(&header(b" 1 # 1 255\n")).err(), Some(PpmParseError::HeaderIncomplete));
}

#[test]
fn rejects_bad_numbers() {
    assert_eq!(parse_ppm(&header(b" a 1 255 xyz")).err(), Some(PpmParseError::InvalidNumber));
    assert_eq!(parse_ppm(&header(b" 1 1 70000 xyz")).err(), Some(PpmParseError::InvalidNumber));
    assert_eq!(
        parse_ppm(&header(b" 99999999999 99999999999 255 x")).err(),
        Some(PpmParseError::InvalidNumber)
    );
    assert_eq!(
        parse_ppm(&header(b" 1 1 99999999999999999999999 x")).err(),
        Some(PpmParseError::InvalidNumber)
    );
}

#[test]
fn rejects_missing_pixels() {
    let b = with_pixels(b" 2 2 255\n", &[1, 2, 3]);
    assert_eq!(parse_ppm(&b).err(), Some(PpmParseError::UnexpectedEndOfData));
}

#[test]
fn largest_max_value_is_accepted() {
    let b = with_pixels(b" 1 1 65535\n", &[1, 2, 3]);
    assert_eq!(parse_ppm(&b).unwrap().max_val, 65535);
}
