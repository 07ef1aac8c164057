//! The gzip boundary: the only two places where the library leans on the
//! flate2 crate. Everything else about compressed streams is stated in
//! terms of `gunzip_of`, the decoded content of a byte string.

use vstd::prelude::*;

verus! {

/// The decoded content of a gzip byte stream, or `None` when the bytes do
/// not decode. Decompression reads nothing but its input bytes, so this
/// is a function of them alone; it names what
/// `flate2::bufread::MultiGzDecoder` produces.
pub uninterp spec fn gunzip_of(data: Seq<u8>) -> Option<Seq<u8>>;

/// Relies on `flate2::bufread::MultiGzDecoder` (with `read_to_end`): it
/// decodes all gzip members of the input and fails on bytes that are not
/// a well-formed gzip stream; either way the outcome depends on the input
/// bytes alone.
#[verifier::external_body]
pub(crate) fn gzip_decompress(data: &Vec<u8>) -> (r: Result<Vec<u8>, ()>)
    ensures
        r matches Ok(v) ==> gunzip_of(data@) == Some(v@),
        r is Err ==> gunzip_of(data@) is None,
{
    let mut dec = flate2::bufread::MultiGzDecoder::new(data.as_slice());
    let mut out: Vec<u8> = Vec::new();
    match std::io::Read::read_to_end(&mut dec, &mut out) {
        Ok(_) => Ok(out),
        Err(_) => Err(()),
    }
}

/// Relies on `flate2::write::GzEncoder` at the default compression level:
/// what it emits is a gzip stream that `MultiGzDecoder` decodes back to
/// exactly the bytes that were written into it. The encoder can fail only
/// through its sink, and a `Vec` sink's writes cannot fail, so the call
/// always succeeds.
#[verifier::external_body]
pub(crate) fn gzip_compress(data: &Vec<u8>) -> (r: Result<Vec<u8>, ()>)
    ensures
        r is Ok,
        r matches Ok(v) ==> gunzip_of(v@) == Some(data@),
{
    let mut enc = flate2::write::GzEncoder::new(Vec::new(), flate2::Compression::default());
    match std::io::Write::write_all(&mut enc, data.as_slice()) {
        Ok(()) => match enc.finish() {
            Ok(v) => Ok(v),
            Err(_) => Err(()),
        },
        Err(_) => Err(()),
    }
}

} // verus!
