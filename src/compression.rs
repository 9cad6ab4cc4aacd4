//! zlib compression of frame bytes.
use vstd::prelude::*;

verus! {

/// The zlib stream that flate2 writes for `data` at compression `level`.
pub uninterp spec fn zlib_compressed(data: Seq<u8>, level: u32) -> Seq<u8>;

/// The bytes that the zlib stream `data` inflates to, or `None` for a
/// stream that flate2 cannot read.
pub uninterp spec fn zlib_inflated(data: Seq<u8>) -> Option<Seq<u8>>;

/// Relies on flate2::write::ZlibEncoder (new, write_all, finish): the zlib
/// stream of `data` at `level`. Writing into a `Vec` does not fail; any error
/// comes back as `None`. The Rust backend asserts a level of at most 10.
#[verifier::external_body]
fn zlib_encode(data: &[u8], level: u32) -> (r: Option<Vec<u8>>)
    requires
        level <= 9,
    ensures
        r matches Some(v) ==> v@ == zlib_compressed(data@, level),
{
    let mut encoder = flate2::write::ZlibEncoder::new(Vec::new(), flate2::Compression::new(level));
    match std::io::Write::write_all(&mut encoder, data) {
        Ok(()) => encoder.finish().ok(),
        Err(_) => None,
    }
}

/// Relies on flate2::read::ZlibDecoder (new, read_to_end): the bytes that
/// the zlib stream `data` inflates to, or `None` when it is not a valid stream.
#[verifier::external_body]
fn zlib_decode(data: &[u8]) -> (r: Option<Vec<u8>>)
    ensures
        match r {
            Some(v) => zlib_inflated(data@) == Some(v@),
            None => zlib_inflated(data@) is None,
        },
{
    let mut out = Vec::new();
    match std::io::Read::read_to_end(&mut flate2::read::ZlibDecoder::new(data), &mut out) {
        Ok(_) => Some(out),
        Err(_) => None,
    }
}

/// Errors of compression.
#[derive(Clone, Copy, Debug, PartialEq, Eq, Structural)]
pub enum CodecError {
    /// The encoder reported an error.
    CompressionFailed,
    /// The bytes are not a valid zlib stream.
    InvalidStream,
}

/// The zlib level for a quality on the scale of 0 to 1000: nine times the
/// quality as a fraction, rounded down.
pub open spec fn level_for_quality(quality_permille: u16) -> u32 {
    (9 * quality_permille / 1000) as u32
}

/// Compresses frame bytes with zlib at the level that `quality_permille`
/// (0 to 1000) calls for.
pub fn compress_frame(frame: &[u8], quality_permille: u16) -> (r: Result<Vec<u8>, CodecError>)
    requires
        quality_permille <= 1000,
    ensures
        r matches Ok(v) ==> v@ == zlib_compressed(frame@, level_for_quality(quality_permille)),
        r matches Err(e) ==> e == CodecError::CompressionFailed,
{
    let level: u32 = 9 * (quality_permille as u32) / 1000;
    match zlib_encode(frame, level) {
        Some(v) => Ok(v),
        None => Err(CodecError::CompressionFailed),
    }
}

/// Inflates a zlib stream.
pub fn decompress_frame(compressed: &[u8]) -> (r: Result<Vec<u8>, CodecError>)
    ensures
        match r {
            Ok(v) => zlib_inflated(compressed@) == Some(v@),
            Err(e) => e == CodecError::InvalidStream && zlib_inflated(compressed@) is None,
        },
{
    match zlib_decode(compressed) {
        Some(v) => Ok(v),
        None => Err(CodecError::InvalidStream),
    }
}

} // verus!
