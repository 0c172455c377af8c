//! The compression codec: gzip at the highest compression level.

use crate::error::bytes_of;
use crate::error::SyncError;
use std::io::Read;
use std::io::Write;
use vstd::prelude::*;

verus! {

/// `std::io::Error`, the error of the gzip encoder and decoder. Carried
/// through as it is; nothing is read from it.
#[verifier::external_type_specification]
#[verifier::external_body]
pub struct ExIoError(std::io::Error);

/// The bytes that `flate2::write::GzEncoder`, at `Compression::best()` and
/// writing into a `Vec`, produces for `input`; `None` where it reports an
/// error.
pub uninterp spec fn gzip_encoded(input: Seq<u8>) -> Option<Seq<u8>>;

/// The bytes that `flate2::read::GzDecoder` yields when `stream` is read to
/// its end; `None` where the read fails (bad header, corrupt deflate data,
/// checksum or length mismatch, premature end).
pub uninterp spec fn gzip_decoded(stream: Seq<u8>) -> Option<Seq<u8>>;

/// Calls `flate2::write::GzEncoder::new(Vec::new(), Compression::best())`,
/// then `write_all` and `finish`. Trusted: the outcome is `gzip_encoded` of
/// the input, and a stream that the encoder produced decodes back to the
/// input it was given.
#[verifier::external_body]
fn gz_encode_best(input: &[u8]) -> (r: Result<Vec<u8>, std::io::Error>)
    ensures
        match r {
            Ok(stream) => gzip_encoded(input@) == Some(stream@) && gzip_decoded(stream@) == Some(
                input@,
            ),
            Err(_) => gzip_encoded(input@) is None,
        },
{
    let mut encoder = flate2::write::GzEncoder::new(Vec::new(), flate2::Compression::best());
    encoder.write_all(input)?;
    encoder.finish()
}

/// Calls `flate2::read::GzDecoder::new` on the bytes and `read_to_end`.
/// Trusted: the outcome is `gzip_decoded` of the stream.
#[verifier::external_body]
fn gz_decode(stream: &[u8]) -> (r: Result<Vec<u8>, std::io::Error>)
    ensures
        match r {
            Ok(output) => gzip_decoded(stream@) == Some(output@),
            Err(_) => gzip_decoded(stream@) is None,
        },
{
    let mut decoder = flate2::read::GzDecoder::new(stream);
    let mut output = Vec::new();
    decoder.read_to_end(&mut output)?;
    Ok(output)
}

/// The compressed form of `input`: the stream the encoder writes for it,
/// which decodes back to `input`. A codec failure is a `Transform` error.
pub open spec fn compressed(input: Seq<u8>) -> Result<Seq<u8>, SyncError> {
    match gzip_encoded(input) {
        Some(stream) => if gzip_decoded(stream) == Some(input) {
            Ok(stream)
        } else {
            Err(SyncError::Transform)
        },
        None => Err(SyncError::Transform),
    }
}

/// The content of a compressed stream. A stream the decoder rejects is a
/// `Transform` error; no partial output is ever returned.
pub open spec fn decompressed(stream: Seq<u8>) -> Result<Seq<u8>, SyncError> {
    match gzip_decoded(stream) {
        Some(output) => Ok(output),
        None => Err(SyncError::Transform),
    }
}

/// Compresses the contents of a file.
pub fn compress_file(input: &[u8]) -> (r: Result<Vec<u8>, SyncError>)
    ensures
        bytes_of(r) == compressed(input@),
        r matches Ok(stream) ==> decompressed(stream@) == Ok::<Seq<u8>, SyncError>(input@),
{
    match gz_encode_best(input) {
        Ok(stream) => Ok(stream),
        Err(_) => Err(SyncError::Transform),
    }
}

/// Decompresses the contents of a gzip file.
pub fn decompress_file(stream: &[u8]) -> (r: Result<Vec<u8>, SyncError>)
    ensures
        bytes_of(r) == decompressed(stream@),
{
    match gz_decode(stream) {
        Ok(output) => Ok(output),
        Err(_) => Err(SyncError::Transform),
    }
}

/// Decompression inverts compression: whatever `compressed` yields for an
/// input, the empty one included, `decompressed` turns back into that input.
pub proof fn lemma_decompress_inverts_compress(input: Seq<u8>)
    ensures
        compressed(input) matches Ok(stream) ==> decompressed(stream) == Ok::<Seq<u8>, SyncError>(
            input,
        ),
{
}

} // verus!
