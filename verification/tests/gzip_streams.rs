use rust_install::errors::Error;
use rust_install::gzip::{archive_of, inflate};
use std::io::Write;

fn gzip(data: &[u8]) -> Vec<u8> {
    let mut encoder = flate2::write::GzEncoder::new(Vec::new(), flate2::Compression::default());
    encoder.write_all(data).unwrap();
    encoder.finish().unwrap()
}

#[test]
fn inflates_what_was_compressed() {
    let data = b"rustc\nrust-std\n".repeat(100);
    let stream = gzip(&data);
    assert_ne!(stream, data);
    assert_eq!(inflate(&stream), Ok(data));
}

#[test]
fn inflates_an_empty_payload() {
    assert_eq!(inflate(&gzip(b"")), Ok(Vec::new()));
}

#[test]
fn a_truncated_stream_cannot_be_extracted() {
    let stream = gzip(&b"some archive bytes, some archive bytes".repeat(50));
    assert_eq!(inflate(&stream[..stream.len() / 2]), Err(Error::ExtractingPackage));
    assert_eq!(inflate(&stream[..stream.len() - 1]), Err(Error::ExtractingPackage));
    assert_eq!(inflate(&stream[..5]), Err(Error::ExtractingPackage));
}

#[test]
fn a_stream_that_is_no_gzip_cannot_be_extracted() {
    assert_eq!(inflate(b"this is not an archive at all"), Err(Error::ExtractingPackage));
    assert_eq!(inflate(b""), Err(Error::ExtractingPackage));
}

#[test]
fn a_damaged_stream_cannot_be_extracted() {
    let mut stream = gzip(b"payload payload payload");
    let last = stream.len() - 5;
    stream[last] ^= 0xff;
    assert_eq!(inflate(&stream), Err(Error::ExtractingPackage));
}

#[test]
fn a_decoder_failure_is_an_extraction_failure() {
    let failure = std::io::Error::new(std::io::ErrorKind::InvalidInput, "corrupt");
    assert_eq!(archive_of(Err(failure)), Err(Error::ExtractingPackage));
    assert_eq!(archive_of(Ok(vec![1, 2, 3])), Ok(vec![1, 2, 3]));
}
