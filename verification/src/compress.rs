//! Response compression by content negotiation.
//!
//! Every outgoing payload — a rendered template, a file, a serialized
//! structure — funnels through one wrapper that inspects the request's
//! `Accept` and `Accept-Encoding` headers and either gzips the whole
//! buffered body and labels it, or passes the response through untouched.

use vstd::prelude::*;
use crate::headers::RequestHeaders;
use crate::rejection::Rejection;

verus! {

/// One response header.
pub struct HttpHeader {
    /// Header name.
    pub name: String,
    /// Header value.
    pub value: String,
}

/// An outgoing response as the compressor sees it, whatever produced it:
/// status, headers, and the body buffered whole.
pub struct Response {
    /// HTTP status code.
    pub status: u16,
    /// Response headers.
    pub headers: Vec<HttpHeader>,
    /// The full body bytes.
    pub body: Vec<u8>,
}

/// Whether a header names the content encoding.
pub open spec fn is_content_encoding(h: HttpHeader) -> bool {
    h.name@ == "Content-Encoding"@
}

/// Whether a header list already names a content encoding.
pub open spec fn has_content_encoding(hs: Seq<HttpHeader>) -> bool {
    exists|i: int| 0 <= i < hs.len() && is_content_encoding(#[trigger] hs[i])
}

/// Whether one `Accept-Encoding` value names the gzip coding: exactly the
/// four letters of `gzip`, each in either case — no substring or wildcard
/// match.
pub open spec fn is_gzip_token(s: Seq<char>) -> bool {
    &&& s.len() == 4
    &&& (s[0] == 'g' || s[0] == 'G')
    &&& (s[1] == 'z' || s[1] == 'Z')
    &&& (s[2] == 'i' || s[2] == 'I')
    &&& (s[3] == 'p' || s[3] == 'P')
}

/// Whether the request negotiates a gzip response: an `Accept` header is
/// present at all, and some `Accept-Encoding` value equals `gzip`
/// case-insensitively.
pub open spec fn accepts_gzip(h: RequestHeaders) -> bool {
    h.accept is Some && exists|i: int|
        0 <= i < h.accept_encoding@.len() && is_gzip_token((#[trigger] h.accept_encoding@[i])@)
}

/// Checks one `Accept-Encoding` value for the gzip token.
fn is_gzip_value(s: &str) -> (r: bool)
    ensures
        r == is_gzip_token(s@),
{
    if s.unicode_len() != 4 {
        return false;
    }
    let c0 = s.get_char(0);
    let c1 = s.get_char(1);
    let c2 = s.get_char(2);
    let c3 = s.get_char(3);
    (c0 == 'g' || c0 == 'G') && (c1 == 'z' || c1 == 'Z') && (c2 == 'i' || c2 == 'I') && (c3 == 'p'
        || c3 == 'P')
}

/// Decides whether the request negotiates a gzip response.
pub fn wants_gzip(headers: &RequestHeaders) -> (r: bool)
    ensures
        r == accepts_gzip(*headers),
{
    if headers.accept.is_none() {
        return false;
    }
    let n = headers.accept_encoding.len();
    let mut i: usize = 0;
    while i < n
        invariant
            0 <= i <= n,
            n == headers.accept_encoding@.len(),
            headers.accept is Some,
            forall|j: int| 0 <= j < i ==> !is_gzip_token((#[trigger] headers.accept_encoding@[j])@),
        decreases n - i,
    {
        if is_gzip_value(headers.accept_encoding[i].as_str()) {
            proof {
                assert(is_gzip_token((headers.accept_encoding@[i as int])@));
            }
            return true;
        }
        i = i + 1;
    }
    false
}

/// What flate2's gzip encoder produces for the given bytes at the default
/// compression level.
pub uninterp spec fn gzip_of(data: Seq<u8>) -> Seq<u8>;

/// Relies on flate2's `GzEncoder` (write side) at the default compression
/// level: writing all input and finishing yields the gzip stream, a function
/// of the input bytes alone — the encoder fixes the header's mtime field to
/// zero and its OS byte to a constant precisely so that equal input gives an
/// equal stream on every platform. The stream is always produced: the
/// encoder writes into a `Vec`, whose writes cannot fail, and on this path
/// its compressor reports no error either, so neither call returns one.
#[verifier::external_body]
fn gzip_compress(data: &[u8]) -> (r: Vec<u8>)
    ensures
        r@ == gzip_of(data@),
{
    let mut encoder = flate2::write::GzEncoder::new(Vec::new(), flate2::Compression::default());
    std::io::Write::write_all(&mut encoder, data).unwrap();
    encoder.finish().unwrap()
}

/// Compresses the given response using gzip: the body is replaced by its
/// gzip stream and a `Content-Encoding: gzip` header is set. The result is
/// always `Ok` — the in-memory encoder cannot fail; the `Result` shape is
/// the host's fail-closed path, on which a failing encoder would surface
/// the compression failure rather than a mislabelled body.
///
/// Note that you should check whether the client accepts a compressed
/// response before compressing it.
pub fn compress_response(response: &mut Response) -> (r: Result<(), Rejection>)
    requires
        !has_content_encoding(old(response).headers@),
    ensures
        r is Ok,
        final(response).status == old(response).status,
        final(response).body@ == gzip_of(old(response).body@),
        final(response).headers@.len() == old(response).headers@.len() + 1,
        final(response).headers@.drop_last() == old(response).headers@,
        is_content_encoding(final(response).headers@.last()),
        final(response).headers@.last().value@ == "gzip"@,
{
    let compressed = gzip_compress(response.body.as_slice());
    response.body = compressed;
    let label = HttpHeader { name: "Content-Encoding".to_owned(), value: "gzip".to_owned() };
    let ghost before = response.headers@;
    response.headers.push(label);
    proof {
        assert(response.headers@.drop_last() =~= before);
    }
    Ok(())
}

/// Wraps an outgoing response: when the request negotiates gzip, the body is
/// compressed and labelled; otherwise the response passes through unchanged,
/// byte for byte and with no encoding header added. A compression failure
/// would fail the whole response closed rather than let a mislabelled or
/// corrupt body out; the in-memory encoder cannot fail, so a negotiated
/// request is always owed its compressed response.
pub fn respond(response: Response, request: &RequestHeaders) -> (r: Result<Response, Rejection>)
    requires
        !has_content_encoding(response.headers@),
    ensures
        !accepts_gzip(*request) ==> r == Ok::<Response, Rejection>(response),
        accepts_gzip(*request) ==> (r matches Ok(out) && out.status == response.status
            && out.body@ == gzip_of(response.body@) && out.headers@.len()
            == response.headers@.len() + 1 && out.headers@.drop_last() == response.headers@
            && is_content_encoding(out.headers@.last()) && out.headers@.last().value@
            == "gzip"@),
{
    let mut response = response;
    if wants_gzip(request) {
        let _ = compress_response(&mut response);
    }
    Ok(response)
}

/// A serialized payload to send through the compressor. The host serializes
/// `data` to bytes and hands the resulting response to `respond`, the same
/// path a rendered template or a file body takes.
#[derive(Debug)]
pub struct CompressedJson<T> {
    /// JSON data to compress.
    pub data: T,
}

impl<T> CompressedJson<T> {
    /// Creates a new compressed JSON from the given data.
    pub fn new(data: T) -> (r: Self)
        ensures
            r.data == data,
    {
        Self { data }
    }

    /// Takes the data back out, for the host to serialize.
    pub fn into_inner(self) -> (r: T)
        ensures
            r == self.data,
    {
        self.data
    }
}

} // verus!
