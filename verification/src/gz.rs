//! Gzip decompression of an in-memory byte sequence, behind a trusted
//! boundary: the decoder itself is outside code, and what it returns is a
//! function of the input bytes alone.

use vstd::prelude::*;

verus! {

/// What gzip decompression yields for a byte sequence: the decoded bytes, or
/// nothing when the stream is not a well-formed gzip stream. Decompression
/// depends on the bytes alone.
pub uninterp spec fn gunzip_of(data: Seq<u8>) -> Option<Seq<u8>>;

/// Relies on flate2's `read::GzDecoder` over an in-memory slice: decoding is
/// deterministic in the input bytes, yields the decompressed bytes of a
/// well-formed stream, and fails on a corrupt or truncated one.
#[verifier::external_body]
pub(crate) fn gunzip(data: &Vec<u8>) -> (r: Option<Vec<u8>>)
    ensures
        match r {
            Some(v) => gunzip_of(data@) == Some(v@),
            None => gunzip_of(data@) is None,
        },
{
    let mut dec = flate2::read::GzDecoder::new(data.as_slice());
    let mut out: Vec<u8> = Vec::new();
    match std::io::Read::read_to_end(&mut dec, &mut out) {
        Ok(_) => Some(out),
        Err(_) => None,
    }
}

} // verus!
