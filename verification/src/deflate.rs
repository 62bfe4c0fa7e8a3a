use vstd::prelude::*;

verus! {

/// What a zlib stream holds: the bytes that `compressed` decompresses to, or
/// `None` where it is not a whole, well-formed stream.
pub uninterp spec fn zlib_inflated(compressed: Seq<u8>) -> Option<Seq<u8>>;

/// Decompresses with `flate2::read::ZlibDecoder`: a decoder made by
/// `ZlibDecoder::new` over the bytes, read to its end by `read_to_end`. What
/// comes of it depends on the bytes alone, and `zlib_inflated` names it:
/// the decompressed bytes, or nothing where the decoder reports an error. The
/// hint only reserves room for the result, and only if the room can be had.
#[verifier::external_body]
fn zlib_read_to_end(data: &[u8], size_hint: usize) -> (res: Result<Vec<u8>, std::io::Error>)
    ensures
        match res {
            Ok(out) => zlib_inflated(data@) == Some(out@),
            Err(_) => zlib_inflated(data@) is None,
        },
{
    let mut buf: Vec<u8> = Vec::new();
    let _ = buf.try_reserve(size_hint);
    let mut decompressor = flate2::read::ZlibDecoder::new(data);
    match std::io::Read::read_to_end(&mut decompressor, &mut buf) {
        Ok(_) => Ok(buf),
        Err(err) => Err(err),
    }
}

/// Decompresses a zlib stream. `size_hint` is the number of bytes that the
/// caller expects; the result does not depend on it. An error carries the
/// text of the decoder's error.
pub fn decode(data: &[u8], size_hint: usize) -> (res: Result<Vec<u8>, String>)
    ensures
        match res {
            Ok(out) => zlib_inflated(data@) == Some(out@),
            Err(_) => zlib_inflated(data@) is None,
        },
{
    match zlib_read_to_end(data, size_hint) {
        Ok(decompressed_data) => Ok(decompressed_data),
        Err(err) => Err(err.to_string()),
    }
}

} // verus!
