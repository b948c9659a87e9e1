//! Gzip streams: the compressed form in which an archive may come.

use std::io::Read;
use vstd::prelude::*;
use crate::errors::{Error, ErrorView};

verus! {

/// The error type of std's readers, which the gzip decoder reports with.
#[verifier::external_type_specification]
#[verifier::external_body]
pub struct ExIoError(std::io::Error);

/// What the first member of the gzip stream `stream` holds once it is
/// decompressed, or `None` where the decoder rejects the stream.
pub uninterp spec fn gzip_payload(stream: Seq<u8>) -> Option<Seq<u8>>;

/// Runs `flate2::read::GzDecoder` over `stream` to its end. The decoder reads
/// from memory only, so what it gives, bytes or an error, depends on the
/// bytes of `stream` alone; `gzip_payload` is the name of that outcome.
/// Nothing else is claimed of it.
#[verifier::external_body]
fn gunzip(stream: &[u8]) -> (out: Result<Vec<u8>, std::io::Error>)
    ensures
        match out {
            Ok(bytes) => gzip_payload(stream@) == Some(bytes@),
            Err(_) => gzip_payload(stream@) is None,
        },
{
    let mut bytes = Vec::new();
    match flate2::read::GzDecoder::new(stream).read_to_end(&mut bytes) {
        Ok(_) => Ok(bytes),
        Err(error) => Err(error),
    }
}

/// What a decoder's outcome means for a package: the bytes it gave are the
/// archive, and any failure of it is a failure to extract the package.
pub fn archive_of(decoded: Result<Vec<u8>, std::io::Error>) -> (out: Result<Vec<u8>, Error>)
    ensures
        match decoded {
            Ok(bytes) => out == Ok::<Vec<u8>, Error>(bytes),
            Err(_) => out is Err && out->Err_0@ == ErrorView::ExtractingPackage,
        },
{
    match decoded {
        Ok(bytes) => Ok(bytes),
        Err(_) => Err(Error::ExtractingPackage),
    }
}

/// The archive inside the gzip stream `stream`. A stream that the decoder
/// rejects is a package that cannot be extracted.
pub fn inflate(stream: &[u8]) -> (out: Result<Vec<u8>, Error>)
    ensures
        match gzip_payload(stream@) {
            Some(bytes) => out is Ok && out->Ok_0@ == bytes,
            None => out is Err && out->Err_0@ == ErrorView::ExtractingPackage,
        },
{
    archive_of(gunzip(stream))
}

} // verus!
