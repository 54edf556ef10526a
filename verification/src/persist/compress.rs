//! Compression of segment payloads with zstd.

use vstd::prelude::*;

verus! {

/// `std::io::Error`, carried through from the compressor to the caller.
#[verifier::external_type_specification]
#[verifier::external_body]
pub struct ExIoError(std::io::Error);

/// Compression level used for every segment.
pub const ZSTD_LEVEL: i32 = 3;

/// The zstd frame that compressing `data` at `level` produces.
pub uninterp spec fn zstd_encoded(data: Seq<u8>, level: i32) -> Seq<u8>;

/// The bytes that decompressing the zstd frame `frame` produces.
pub uninterp spec fn zstd_decoded(frame: Seq<u8>) -> Seq<u8>;

/// Compresses with `zstd::encode_all`, which runs the whole input through one
/// streaming encoder at the given level.
///
/// When the call succeeds, its output is a function of the input bytes and the
/// level; the contract names it `zstd_encoded`. It promises neither success
/// nor anything about the frame's contents.
#[verifier::external_body]
fn zstd_encode_all(data: &[u8], level: i32) -> (result: Result<Vec<u8>, std::io::Error>)
    ensures
        result matches Ok(frame) ==> frame@ == zstd_encoded(data@, level),
{
    zstd::encode_all(data, level)
}

/// Decompresses with `zstd::decode_all`, which reads zstd frames from the
/// input until it ends.
///
/// When the call succeeds, its output is a function of the input bytes; the
/// contract names it `zstd_decoded`. Input that is not a zstd frame makes the
/// call fail.
#[verifier::external_body]
fn zstd_decode_all(frame: &[u8]) -> (result: Result<Vec<u8>, std::io::Error>)
    ensures
        result matches Ok(data) ==> data@ == zstd_decoded(frame@),
{
    zstd::decode_all(frame)
}

/// Compresses a segment payload.
pub fn compress(data: &[u8]) -> (result: Result<Vec<u8>, std::io::Error>)
    ensures
        result matches Ok(frame) ==> frame@ == zstd_encoded(data@, ZSTD_LEVEL),
{
    zstd_encode_all(data, ZSTD_LEVEL)
}

/// Decompresses a segment file.
pub fn decompress(frame: &[u8]) -> (result: Result<Vec<u8>, std::io::Error>)
    ensures
        result matches Ok(data) ==> data@ == zstd_decoded(frame@),
{
    zstd_decode_all(frame)
}

} // verus!
