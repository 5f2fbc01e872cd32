//! Zstandard compression of whole buffers.

use vstd::prelude::*;
use crate::error::VaultError;

verus! {

/// The Zstandard frame that compressing `data` at `level` gives, or nothing
/// where the compressor refuses.
pub uninterp spec fn zstd_compressed(data: Seq<u8>, level: i32) -> Option<Seq<u8>>;

/// The bytes that a Zstandard frame expands to, or nothing where `frame` is
/// not one.
pub uninterp spec fn zstd_expanded(frame: Seq<u8>) -> Option<Seq<u8>>;

/// The level that the compressor works at where it is asked for level 0.
pub const DEFAULT_LEVEL: i32 = 3;

/// Calls `zstd::stream::encode_all`. Trusted: the result is the frame the
/// compressor gives for exactly this data and level, and that frame
/// expands to the data again; asked for level 0, the compressor works at
/// its default level and gives what it gives there.
#[verifier::external_body]
pub(crate) fn zstd_encode(data: &[u8], level: i32) -> (out: Option<Vec<u8>>)
    ensures
        zstd_compressed(data@, level) == (match out {
            Some(f) => Some(f@),
            None => None,
        }),
        out matches Some(f) ==> zstd_expanded(f@) == Some(data@),
        level == 0 ==> zstd_compressed(data@, DEFAULT_LEVEL) == (match out {
            Some(f) => Some(f@),
            None => None,
        }),
{
    zstd::stream::encode_all(data, level).ok()
}

/// Calls `zstd::stream::decode_all`. Trusted: the result is what the frame
/// expands to.
#[verifier::external_body]
pub(crate) fn zstd_decode(frame: &[u8]) -> (out: Option<Vec<u8>>)
    ensures
        zstd_expanded(frame@) == (match out {
            Some(d) => Some(d@),
            None => None,
        }),
{
    zstd::stream::decode_all(frame).ok()
}

/// That `frame` is what `data` compresses to at `level` and expands to it
/// again.
pub open spec fn compresses(data: Seq<u8>, level: i32, frame: Seq<u8>) -> bool {
    &&& zstd_compressed(data, level) == Some(frame)
    &&& zstd_expanded(frame) == Some(data)
}

/// Compresses `data` at `level`. Level 0 does not leave the data as it
/// is: the compressor takes it for its default level, so the result is
/// the frame of that level.
pub fn compress_data(data: &[u8], level: i32) -> (out: Result<Vec<u8>, VaultError>)
    ensures
        out is Ok <==> zstd_compressed(data@, level) is Some,
        out matches Ok(f) ==> compresses(data@, level, f@),
        out matches Err(e) ==> e == VaultError::CompressionFailure,
        level == 0 ==> zstd_compressed(data@, 0) == zstd_compressed(data@, DEFAULT_LEVEL),
{
    match zstd_encode(data, level) {
        Some(f) => Ok(f),
        None => Err(VaultError::CompressionFailure),
    }
}

/// Expands a compressed frame.
pub fn decompress_data(frame: &[u8]) -> (out: Result<Vec<u8>, VaultError>)
    ensures
        out matches Ok(d) ==> zstd_expanded(frame@) == Some(d@),
        out matches Err(e) ==> e == VaultError::CompressionFailure && zstd_expanded(frame@) is None,
{
    match zstd_decode(frame) {
        Some(d) => Ok(d),
        None => Err(VaultError::CompressionFailure),
    }
}

} // verus!
