//! Zstandard compression of blocks.
use vstd::prelude::*;

verus! {

/// The level at which blocks are compressed.
pub const ZSTD_LEVEL: i32 = 3;

/// The Zstandard frame for some bytes at a level, if they can be compressed.
pub uninterp spec fn zstd_encoded(bytes: Seq<u8>, level: i32) -> Option<Seq<u8>>;

/// The bytes that Zstandard frames decode to, if they are sound.
pub uninterp spec fn zstd_decoded(frames: Seq<u8>) -> Option<Seq<u8>>;

/// `zstd::stream::copy_encode` into an empty buffer, or the text of its I/O error. Whether the bytes
/// can be compressed, and the frame, depend on the bytes and the level alone; the frame decodes to
/// the bytes.
#[verifier::external_body]
pub(crate) fn zstd_encode(bytes: &[u8], level: i32) -> (res: Result<Vec<u8>, String>)
    ensures
        res is Ok <==> zstd_encoded(bytes@, level) is Some,
        res matches Ok(frame) ==> {
            &&& zstd_encoded(bytes@, level) == Some(frame@)
            &&& zstd_decoded(frame@) == Some(bytes@)
        },
{
    let mut frame = Vec::new();
    zstd::stream::copy_encode(bytes, &mut frame, level).map_err(|e| e.to_string())?;
    Ok(frame)
}

/// `zstd::stream::copy_decode` into an empty buffer, or the text of its I/O error. Whether the
/// frames are sound, and what they decode to, depends on them alone.
#[verifier::external_body]
pub(crate) fn zstd_decode(frames: &[u8]) -> (res: Result<Vec<u8>, String>)
    ensures
        res is Ok <==> zstd_decoded(frames@) is Some,
        res matches Ok(bytes) ==> zstd_decoded(frames@) == Some(bytes@),
{
    let mut bytes = Vec::new();
    zstd::stream::copy_decode(frames, &mut bytes).map_err(|e| e.to_string())?;
    Ok(bytes)
}

} // verus!
