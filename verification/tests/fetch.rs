use alt_cmp::fetch::{decode_listing, has_compressed_suffix, DecodeError};
use std::io::Write;
use xz2::write::XzEncoder;

fn compress(text: &str) -> Vec<u8> {
    let mut encoder = XzEncoder::new(Vec::new(), 6);
    encoder.write_all(text.as_bytes()).unwrap();
    encoder.finish().unwrap()
}

#[test]
fn compressed_listing_is_decompressed() {
    let text = "package1 1.2.3-alt1\npackage2 2:4.5.6-alt2\n";
    let bytes = compress(text);
    assert_ne!(bytes, text.as_bytes());
    assert_eq!(decode_listing("http://host/list/bin.list.xz", &bytes), Ok(text.to_string()));
}

#[test]
fn compressed_listing_may_be_empty() {
    assert_eq!(decode_listing("bin.list.xz", &compress("")), Ok(String::new()));
}

#[test]
fn broken_compressed_listing_is_refused() {
    let result = decode_listing("http://host/bin.list.xz", b"package1 1.2.3-alt1\n");
    assert!(matches!(result, Err(DecodeError::Compressed(_))));
}

#[test]
fn compressed_listing_that_is_no_text_is_refused() {
    let mut encoder = XzEncoder::new(Vec::new(), 6);
    encoder.write_all(&[0xff, 0xfe, 0x00]).unwrap();
    let bytes = encoder.finish().unwrap();
    let result = decode_listing("bin.list.xz", &bytes);
    assert!(matches!(result, Err(DecodeError::Compressed(_))));
}

#[test]
fn plain_listing_is_taken_as_it_stands() {
    let text = "Package: a\nVersion: 1.0\n";
    assert_eq!(decode_listing("http://host/dists/Packages", text.as_bytes()), Ok(text.to_string()));
    assert_eq!(decode_listing("Packages", "größer → 2".as_bytes()), Ok("größer → 2".to_string()));
    assert_eq!(decode_listing("", b""), Ok(String::new()));
}

#[test]
fn plain_listing_must_be_utf8() {
    assert_eq!(decode_listing("Packages", &[b'a', 0xff, b'b']), Err(DecodeError::NotText));
    assert_eq!(decode_listing("Packages", &[0xc3]), Err(DecodeError::NotText));
    assert_eq!(decode_listing("Packages", &[0xed, 0xa0, 0x80]), Err(DecodeError::NotText));
}

#[test]
fn compressed_data_under_a_plain_address_is_no_text() {
    let bytes = compress("package1 1.2.3-alt1\n");
    assert_eq!(decode_listing("http://host/bin.list", &bytes), Err(DecodeError::NotText));
}

#[test]
fn address_decides_by_its_end() {
    assert!(has_compressed_suffix("bin.list.xz"));
    assert!(has_compressed_suffix(".xz"));
    assert!(!has_compressed_suffix("bin.list.xz.txt"));
    assert!(!has_compressed_suffix("bin.list.XZ"));
    assert!(!has_compressed_suffix("xz"));
    assert!(!has_compressed_suffix(""));
    assert!(!has_compressed_suffix("http://host/a.xz?x=1"));
}
