//! The response transform: when the request advertises gzip support, the
//! response body is compressed in place, a `content-encoding: gzip` header
//! is added, and status and remaining headers stay untouched.  Compression
//! happens wholly in memory and always succeeds.

use vstd::prelude::*;
use vstd::string::*;

use crate::error::Error;
use crate::http::{header_value, spec_header_value, Response};
use crate::text::{contains_ci, contains_seq, spec_lower};

verus! {

/// What flate2's gzip encoder produces for the given bytes at the default
/// compression level.
pub uninterp spec fn gzip_of(b: Seq<u8>) -> Seq<u8>;

/// What flate2's gzip decoder recovers from the given bytes.
pub uninterp spec fn gunzip_of(b: Seq<u8>) -> Seq<u8>;

/// Relies on flate2's `write::GzEncoder` at the default compression level:
/// with the default header (zero mtime, fixed OS byte) the output depends
/// on the input bytes alone, and flate2's gzip decoder recovers the input
/// from it, byte for byte.  The encoder writes into an in-memory `Vec`
/// sink, whose writes never fail, so compression always succeeds.
#[verifier::external_body]
fn gzip_bytes(data: &Vec<u8>) -> (r: Vec<u8>)
    ensures
        r@ == gzip_of(data@),
        gunzip_of(r@) == data@,
{
    let mut enc = flate2::write::GzEncoder::new(Vec::new(), flate2::Compression::default());
    std::io::Write::write_all(&mut enc, data.as_slice()).expect("a Vec sink never fails");
    enc.finish().expect("a Vec sink never fails")
}

/// Whether the request asked for gzip: its `accept-encoding` header value
/// contains `gzip`, ignoring ASCII case.  Deliberately a permissive
/// substring test, not a token-list parse.
pub open spec fn spec_accepts_gzip(headers: Seq<(String, String)>) -> bool {
    match spec_header_value(headers, "accept-encoding"@) {
        Some(v) => contains_seq(spec_lower(v), "gzip"@),
        None => false,
    }
}

pub fn accepts_gzip(headers: &Vec<(String, String)>) -> (r: bool)
    ensures
        r == spec_accepts_gzip(headers@),
{
    proof {
        reveal_strlit("gzip");
        assert(spec_lower("gzip"@) =~= "gzip"@);
    }
    match header_value(headers, "accept-encoding") {
        Some(v) => contains_ci(v.as_str(), "gzip"),
        None => false,
    }
}

/// What a compressed response must look like, relative to the original:
/// same status, the original headers followed by exactly one new
/// `content-encoding: gzip` header, and a body that is the gzip encoding of
/// the original body — so decompressing it gives the original body back,
/// byte for byte.
pub open spec fn spec_gzipped(original: Response, out: Response) -> bool {
    &&& out.status == original.status
    &&& out.headers@.len() == original.headers@.len() + 1
    &&& out.headers@.drop_last() == original.headers@
    &&& out.headers@.last().0@ == "content-encoding"@
    &&& out.headers@.last().1@ == "gzip"@
    &&& out.body@ == gzip_of(original.body@)
    &&& gunzip_of(out.body@) == original.body@
}

/// Conditionally compress a response.  When the request did not ask for
/// gzip the response passes through unchanged; when it did, the body is
/// replaced by its gzip encoding and the `content-encoding` header is
/// added, and nothing else changes.  Compression into memory cannot fail,
/// so a triggered request is always answered compressed; the `Result`
/// signature stays for callers that treat the transform as fallible.
pub fn gzip_response(req_headers: &Vec<(String, String)>, resp: Response) -> (r: Result<Response, Error>)
    ensures
        !spec_accepts_gzip(req_headers@) ==> (r matches Ok(out) && out == resp),
        spec_accepts_gzip(req_headers@) ==> (r matches Ok(out) && spec_gzipped(resp, out)),
{
    if !accepts_gzip(req_headers) {
        return Ok(resp);
    }
    let ghost orig_headers = resp.headers@;
    let Response { status, headers: mut headers, body } = resp;
    let z = gzip_bytes(&body);
    let pair = (String::from_str("content-encoding"), String::from_str("gzip"));
    headers.push(pair);
    proof {
        assert(headers@.drop_last() =~= orig_headers);
    }
    Ok(Response { status, headers, body: z })
}

} // verus!
