//! Response descriptors: the complete, wire-free description of one HTTP
//! answer (status, optional Content-Type and Location headers, body bytes),
//! the fixed fallback payloads, and the small pieces of URL and member-path
//! arithmetic the request path needs.

use vstd::prelude::*;
use vstd::string::{StrSliceExecFns, StringExecFns, StringSliceAdditionalSpecFns};
use vstd::utf8::encode_utf8_decode_utf8;

use crate::sitemap::{ParsedSiteEntry, SiteEntryView};

verus! {

/// A complete response descriptor, ready for the routing layer to put on
/// the wire. The Content-Length header is always the body's byte length,
/// exposed by [`Response::content_length`].
pub struct Response {
    /// HTTP status code, verbatim from the index entry or the fallback.
    pub status: u16,
    /// Content-Type header value, when one is known.
    pub content_type: Option<String>,
    /// Location header value, expected for redirect-class statuses.
    pub location: Option<String>,
    /// Body bytes, served in full: no streaming, no ranges.
    pub body: Vec<u8>,
}

/// The mathematical value of a response descriptor.
pub ghost struct ResponseView {
    pub status: u16,
    pub content_type: Option<Seq<char>>,
    pub location: Option<Seq<char>>,
    pub body: Seq<u8>,
}

impl View for Response {
    type V = ResponseView;

    open spec fn view(&self) -> ResponseView {
        ResponseView {
            status: self.status,
            content_type: match self.content_type {
                Some(s) => Some(s@),
                None => None,
            },
            location: match self.location {
                Some(s) => Some(s@),
                None => None,
            },
            body: self.body@,
        }
    }
}

impl Response {
    /// The value of the Content-Length header: always the byte length of
    /// the body, whatever the status or the other headers.
    pub fn content_length(&self) -> (n: usize)
        ensures
            n == self@.body.len(),
    {
        self.body.len()
    }
}

/// Fallback payload when no index entry matches the URL.
pub open spec fn not_found_body() -> Seq<u8> {
    ("<html><body><h1>404 - Page not found</h1></body></html>").spec_bytes()
}

/// Fallback payload when an index entry names an archive member that the
/// archive does not hold: an index/archive inconsistency, not a
/// legitimately absent page.
pub open spec fn missing_file_body() -> Seq<u8> {
    ("<html><body><h1>404 - File missing from archive</h1></body></html>").spec_bytes()
}

/// Fallback payload when an override file exists but cannot be read.
pub open spec fn read_failure_body() -> Seq<u8> {
    ("<html><body><h1>500 - Failed to read file</h1></body></html>").spec_bytes()
}

/// Law: the three fixed fallback payloads are pairwise distinct, so an
/// archive miss, an index miss and an override read failure are observably
/// different responses.
pub proof fn lemma_fallback_bodies_distinct()
    ensures
        not_found_body() != missing_file_body(),
        not_found_body() != read_failure_body(),
        missing_file_body() != read_failure_body(),
{
    reveal_strlit("<html><body><h1>404 - Page not found</h1></body></html>");
    reveal_strlit("<html><body><h1>404 - File missing from archive</h1></body></html>");
    reveal_strlit("<html><body><h1>500 - Failed to read file</h1></body></html>");
    encode_utf8_decode_utf8(("<html><body><h1>404 - Page not found</h1></body></html>")@);
    encode_utf8_decode_utf8(("<html><body><h1>404 - File missing from archive</h1></body></html>")@);
    encode_utf8_decode_utf8(("<html><body><h1>500 - Failed to read file</h1></body></html>")@);
}

/// What the resolver serves: `not_found_response()`.
pub open spec fn not_found_view() -> ResponseView {
    ResponseView {
        status: 404,
        content_type: Some(("text/html")@),
        location: None,
        body: not_found_body(),
    }
}

/// What the resolver serves: `missing_file_response()`.
pub open spec fn missing_file_view() -> ResponseView {
    ResponseView {
        status: 404,
        content_type: Some(("text/html")@),
        location: None,
        body: missing_file_body(),
    }
}

/// What the resolver serves: `read_failure_response()`.
pub open spec fn read_failure_view() -> ResponseView {
    ResponseView {
        status: 500,
        content_type: Some(("text/html")@),
        location: None,
        body: read_failure_body(),
    }
}

/// The 404 served when the index has no entry for the URL.
pub fn not_found_response() -> (r: Response)
    ensures
        r@ == not_found_view(),
{
    Response {
        status: 404,
        content_type: Some(("text/html").to_owned()),
        location: None,
        body: ("<html><body><h1>404 - Page not found</h1></body></html>").as_bytes_vec(),
    }
}

/// The distinct 404 served when the index entry's member is missing from
/// the archive.
pub fn missing_file_response() -> (r: Response)
    ensures
        r@ == missing_file_view(),
{
    Response {
        status: 404,
        content_type: Some(("text/html").to_owned()),
        location: None,
        body: ("<html><body><h1>404 - File missing from archive</h1></body></html>").as_bytes_vec(),
    }
}

/// The 500 served when an override file exists but reading it fails.
pub fn read_failure_response() -> (r: Response)
    ensures
        r@ == read_failure_view(),
{
    Response {
        status: 500,
        content_type: Some(("text/html").to_owned()),
        location: None,
        body: ("<html><body><h1>500 - Failed to read file</h1></body></html>").as_bytes_vec(),
    }
}

/// The response for one extraction outcome on a hit index entry: the
/// entry's own metadata over the extracted bytes, or the distinct
/// missing-member fallback when the archive lacks the member.
pub open spec fn response_for(e: SiteEntryView, extraction: Option<Seq<u8>>) -> ResponseView {
    match extraction {
        Some(bytes) => ResponseView {
            status: e.status,
            content_type: e.content_type,
            location: e.location,
            body: bytes,
        },
        None => missing_file_view(),
    }
}

/// Assembles the response for an index entry whose member was extracted:
/// status copied verbatim (3xx/4xx/5xx as authored), Content-Type and
/// Location only when the entry holds them, body exactly the extracted
/// bytes.
pub fn assemble_response(entry: &ParsedSiteEntry, body: Vec<u8>) -> (r: Response)
    ensures
        r@ == response_for(entry@, Some(body@)),
{
    Response {
        status: entry.status,
        content_type: match &entry.content_type {
            Some(s) => Some(s.clone()),
            None => None,
        },
        location: match &entry.location {
            Some(s) => Some(s.clone()),
            None => None,
        },
        body,
    }
}

/// The index key for a request: the path, then a literal `?` and the raw
/// query string when one is present. No decoding, no normalization.
pub fn full_url(path: &str, query: Option<&str>) -> (r: String)
    ensures
        match query {
            Some(q) => r@ == path@ + ("?")@ + q@,
            None => r@ == path@,
        },
{
    let mut url = path.to_owned();
    match query {
        Some(q) => {
            url.append("?");
            url.append(q);
            url
        },
        None => url,
    }
}

/// The archive member path for an index entry's filename: every served
/// member lives under the fixed storage prefix.
pub fn member_path(filename: &str) -> (r: String)
    ensures
        r@ == ("files/")@ + filename@,
{
    let mut p = ("files/").to_owned();
    p.append(filename);
    p
}

} // verus!
