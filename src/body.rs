//! The request body as the external program is to read it.

use vstd::prelude::*;

use crate::script::StreamError;

verus! {

/// The data that the gzip member at the front of `b` decompresses to, or
/// `None` where the bytes do not start with a well-formed member. Bytes after
/// the first member are not read.
pub uninterp spec fn gunzip_of(b: Seq<u8>) -> Option<Seq<u8>>;

/// Relies on `flate2::read::GzDecoder` reading an in-memory gzip member to
/// its end: what comes out depends on the bytes alone, and a malformed member
/// makes the read fail.
#[verifier::external_body]
fn gunzip(bytes: &[u8]) -> (r: Option<Vec<u8>>)
    ensures
        match r {
            Some(d) => gunzip_of(bytes@) == Some(d@),
            None => gunzip_of(bytes@) is None,
        },
{
    let mut out = Vec::new();
    match std::io::Read::read_to_end(&mut flate2::read::GzDecoder::new(bytes), &mut out) {
        Ok(_) => Some(out),
        Err(_) => None,
    }
}

/// The request body that the program reads: decompressed where the request
/// says it is gzip-encoded, and as it came otherwise.
pub fn decode_request_body(body: &[u8], gzip_encoded: bool) -> (r: Result<Vec<u8>, StreamError>)
    ensures
        !gzip_encoded ==> r is Ok && r->Ok_0@ == body@,
        gzip_encoded ==> match gunzip_of(body@) {
            Some(d) => r is Ok && r->Ok_0@ == d,
            None => r == Err::<Vec<u8>, StreamError>(StreamError::SourceRead),
        },
{
    if !gzip_encoded {
        return Ok(vstd::slice::slice_to_vec(body));
    }
    match gunzip(body) {
        Some(d) => Ok(d),
        None => Err(StreamError::SourceRead),
    }
}

} // verus!
