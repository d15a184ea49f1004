//! zstd compression of byte buffers.

use vstd::prelude::*;

verus! {

/// The zstd frame that `zstd::stream::encode_all` produces for some data at a
/// compression level.
pub uninterp spec fn zstd_frame(data: Seq<u8>, level: i32) -> Seq<u8>;

/// What `zstd::stream::decode_all` gives back for some bytes: the data they
/// decompress to, or nothing when they are not valid zstd frames.
pub uninterp spec fn zstd_contents(data: Seq<u8>) -> Option<Seq<u8>>;

/// Compresses `data` with `zstd::stream::encode_all` at the given level.
///
/// Reading from a byte slice and writing to a `Vec` never fail, and zstd
/// clamps the level into its range, so compressing in memory succeeds. The
/// frame it produces is named by `zstd_frame`, and decompressing it gives the
/// data back (zstd is lossless).
#[verifier::external_body]
pub(crate) fn compress(data: &[u8], level: i32) -> (r: Result<Vec<u8>, String>)
    ensures
        r is Ok,
        r matches Ok(frame) ==> frame@ == zstd_frame(data@, level) && zstd_contents(frame@) == Some(data@),
{
    zstd::stream::encode_all(data, level).map_err(|e| e.to_string())
}

/// Decompresses `data` with `zstd::stream::decode_all`: it succeeds exactly when
/// `zstd_contents` names some data, and then gives that data.
#[verifier::external_body]
pub(crate) fn decompress(data: &[u8]) -> (r: Result<Vec<u8>, String>)
    ensures
        match r {
            Ok(d) => zstd_contents(data@) == Some(d@),
            Err(_) => zstd_contents(data@) is None,
        },
{
    zstd::stream::decode_all(data).map_err(|e| e.to_string())
}

} // verus!
