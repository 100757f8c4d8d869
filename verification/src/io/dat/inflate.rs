use crate::error::IoErrorKind;
use flate2::bufread::DeflateDecoder;
use std::io::{ErrorKind, Read};
use vstd::prelude::*;

verus! {

/// What decoding `data` as one raw DEFLATE stream (no zlib or gzip framing)
/// gives: the decoded bytes, or the way in which the stream is broken. Bytes
/// that follow the end of the stream play no part.
pub uninterp spec fn inflated(data: Seq<u8>) -> Result<Seq<u8>, IoErrorKind>;

/// `flate2::bufread::DeflateDecoder` over `data`, read to its end. The
/// decoder reports a stream that stops early as an unexpected end and any
/// other fault as invalid input; what comes back is [`inflated`] of the
/// bytes.
#[verifier::external_body]
pub(crate) fn inflate(data: &[u8]) -> (r: Result<Vec<u8>, IoErrorKind>)
    ensures
        match r {
            Ok(out) => inflated(data@) == Ok::<Seq<u8>, IoErrorKind>(out@),
            Err(e) => inflated(data@) == Err::<Seq<u8>, IoErrorKind>(e),
        },
{
    let mut out = Vec::new();
    match DeflateDecoder::new(data).read_to_end(&mut out) {
        Ok(_) => Ok(out),
        Err(e) => match e.kind() {
            ErrorKind::UnexpectedEof => Err(IoErrorKind::UnexpectedEof),
            _ => Err(IoErrorKind::InvalidInput),
        },
    }
}

} // verus!
