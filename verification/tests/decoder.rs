use maif::{Decoder, MAIFImage, MAIFPixel, HEADER_LEN, TIMESTAMP_LEN};

/// A 24-byte ASCII timestamp for building streams in tests.
const STAMP: &str = "2024-01-01T00:00:00.000Z";

/// Builds a stream: width, height, the 24-byte timestamp, then the
/// given pixel bytes.
fn stream(width: u8, height: u8, stamp: &str, pixel_bytes: &[u8]) -> Vec<u8> {
    let mut v: Vec<u8> = vec![width, height];
    v.extend_from_slice(stamp.as_bytes());
    v.extend_from_slice(pixel_bytes);
    v
}

fn datetime_string(img: &MAIFImage) -> String {
    img.header.datetime.iter().collect()
}

fn intensity(p: &MAIFPixel) -> f64 {
    p.alpha_numerator as f64 / 128.0
}

#[test]
fn header_fields_full_stream() {
    let bytes = stream(17, 99, STAMP, &[0x00, 0x01, 0x02, 0x03]);
    assert!(bytes.len() >= HEADER_LEN);
    let img = MAIFImage::decode(&bytes);
    assert_eq!(img.header.width, 17);
    assert_eq!(img.header.height, 99);
}

#[test]
fn timestamp_full_stream() {
    let bytes = stream(1, 1, STAMP, &[0xaa]);
    let img = MAIFImage::decode(&bytes);
    assert_eq!(img.header.datetime.len(), TIMESTAMP_LEN);
    assert_eq!(datetime_string(&img), STAMP);
}

#[test]
fn timestamp_keeps_non_ascii_bytes() {
    let mut bytes = stream(1, 1, STAMP, &[]);
    bytes[2] = 0xe9;
    let img = MAIFImage::decode(&bytes);
    assert_eq!(img.header.datetime[0], '\u{e9}');
    assert_eq!(img.header.datetime[1], '0');
}

#[test]
fn pixel_count() {
    let pixel_bytes = [0x10, 0x20, 0x30, 0x40, 0x50];
    let bytes = stream(2, 2, STAMP, &pixel_bytes);
    let img = MAIFImage::decode(&bytes);
    assert_eq!(img.pixels.len(), bytes.len() - HEADER_LEN);
    assert_eq!(img.pixels.len(), pixel_bytes.len());
}

#[test]
fn pixel_fields() {
    let pixel_bytes = [0x00u8, 0x7f, 0x80, 0xff, 0x40, 0x81];
    let bytes = stream(3, 2, STAMP, &pixel_bytes);
    let img = MAIFImage::decode(&bytes);
    for (i, &b) in pixel_bytes.iter().enumerate() {
        let p = &img.pixels[i];
        assert_eq!(p.tone_sign, b & 0x80 != 0);
        assert_eq!(p.alpha_numerator, b & 0x7f);
        assert_eq!(intensity(p), (b & 0x7f) as f64 / 128.0);
    }
}

#[test]
fn decode_twice_identical() {
    let bytes = stream(5, 7, STAMP, &[0x12, 0x92, 0x00, 0xff]);
    let a = MAIFImage::decode(&bytes);
    let b = MAIFImage::decode(&bytes);
    assert_eq!(a.header.width, b.header.width);
    assert_eq!(a.header.height, b.header.height);
    assert_eq!(a.header.datetime, b.header.datetime);
    assert_eq!(a.pixels, b.pixels);
}

#[test]
fn empty_stream_defaults() {
    let bytes: Vec<u8> = Vec::new();
    let img = MAIFImage::decode(&bytes);
    assert_eq!(img.header.width, 0);
    assert_eq!(img.header.height, 0);
    assert_eq!(datetime_string(&img), "");
    assert!(img.pixels.is_empty());
}

#[test]
fn truncated_stream_defaults() {
    let bytes = [9u8, 8, b'2', b'0', b'2'];
    let img = MAIFImage::decode(&bytes);
    assert_eq!(img.header.width, 9);
    assert_eq!(img.header.height, 8);
    assert_eq!(datetime_string(&img), "");
    assert!(img.pixels.is_empty());
}

#[test]
fn exact_header_stream() {
    let bytes = stream(4, 6, STAMP, &[]);
    assert_eq!(bytes.len(), HEADER_LEN);
    let img = MAIFImage::decode(&bytes);
    assert_eq!(img.header.width, 4);
    assert_eq!(img.header.height, 6);
    assert_eq!(datetime_string(&img), STAMP);
    assert!(img.pixels.is_empty());
}

#[test]
fn concrete_scenario() {
    let bytes = stream(0x02, 0x03, STAMP, &[0x80, 0x40]);
    let img = MAIFImage::decode(&bytes);
    assert_eq!(img.header.width, 2);
    assert_eq!(img.header.height, 3);
    assert_eq!(datetime_string(&img), STAMP);
    assert_eq!(img.pixels.len(), 2);
    assert!(img.pixels[0].tone_sign);
    assert_eq!(intensity(&img.pixels[0]), 0.0);
    assert!(!img.pixels[1].tone_sign);
    assert_eq!(intensity(&img.pixels[1]), 0.5);
}

#[test]
fn pixel_from_byte_edges() {
    let p = MAIFPixel::from_byte(0x00);
    assert!(!p.tone_sign);
    assert_eq!(p.alpha_numerator, 0);
    let p = MAIFPixel::from_byte(0x7f);
    assert!(!p.tone_sign);
    assert_eq!(p.alpha_numerator, 127);
    assert_eq!(intensity(&p), 0.9921875);
    let p = MAIFPixel::from_byte(0x80);
    assert!(p.tone_sign);
    assert_eq!(p.alpha_numerator, 0);
    let p = MAIFPixel::from_byte(0xff);
    assert!(p.tone_sign);
    assert_eq!(p.alpha_numerator, 127);
}

#[test]
fn streaming_matches_whole_stream_decode() {
    let bytes = stream(11, 13, STAMP, &[0x01, 0x81, 0x7e]);
    let mut d = Decoder::new();
    for &b in bytes.iter() {
        d.step(b);
    }
    let a = d.finish();
    let b = MAIFImage::decode(&bytes);
    assert_eq!(a.header.width, b.header.width);
    assert_eq!(a.header.height, b.header.height);
    assert_eq!(a.header.datetime, b.header.datetime);
    assert_eq!(a.pixels, b.pixels);
}
