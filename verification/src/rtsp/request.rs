//! Requests on the control channel.
use crate::rtsp::message::{header, header_pairs, Header};
use vstd::prelude::*;

verus! {

/// A request on the control channel.
pub struct ControlRequest {
    pub method: &'static str,
    pub uri: String,
    pub content_type: &'static str,
    pub body: Vec<u8>,
    pub headers: Vec<Header>,
    /// Whether the request has the head of a raw one.
    pub raw: bool,
}

#[verifier::ext_equal]
pub struct ControlRequestView {
    pub method: Seq<char>,
    pub uri: Seq<char>,
    pub content_type: Seq<char>,
    pub body: Seq<u8>,
    pub headers: Seq<(Seq<char>, Seq<char>)>,
    pub raw: bool,
}

impl View for ControlRequest {
    type V = ControlRequestView;

    open spec fn view(&self) -> ControlRequestView {
        ControlRequestView {
            method: self.method@,
            uri: self.uri@,
            content_type: self.content_type@,
            body: self.body@,
            headers: header_pairs(self.headers@),
            raw: self.raw,
        }
    }
}

/// A request without a content type, a body or headers.
pub open spec fn bare(method: Seq<char>, uri: Seq<char>) -> ControlRequestView {
    ControlRequestView {
        method,
        uri,
        content_type: ""@,
        body: Seq::empty(),
        headers: Seq::empty(),
        raw: false,
    }
}

/// A request without a content type, a body or headers.
pub(crate) fn bare_request(method: &'static str, uri: &str) -> (r: ControlRequest)
    ensures
        r@ == bare(method@, uri@),
{
    let r = ControlRequest {
        method,
        uri: uri.to_owned(),
        content_type: "",
        body: Vec::new(),
        headers: Vec::new(),
        raw: false,
    };
    assert(r@ =~= bare(method@, uri@));
    r
}

/// A message of bytes that is posted.
pub open spec fn posted(path: Seq<char>, body: Seq<u8>) -> ControlRequestView {
    ControlRequestView { content_type: "application/octet-stream"@, body, ..bare("POST"@, path) }
}

/// A message of bytes that is posted.
pub(crate) fn post_request(path: &str, body: Vec<u8>) -> (r: ControlRequest)
    ensures
        r@ == posted(path@, body@),
{
    let mut r: ControlRequest = bare_request("POST", path);
    r.content_type = "application/octet-stream";
    r.body = body;
    r
}

/// A request with one header.
pub open spec fn with_header(
    q: ControlRequestView,
    name: Seq<char>,
    value: Seq<char>,
) -> ControlRequestView {
    ControlRequestView { headers: q.headers.push((name, value)), ..q }
}

/// A request with one more header.
pub(crate) fn add_header(q: ControlRequest, name: &str, value: &str) -> (r: ControlRequest)
    ensures
        r@ == with_header(q@, name@, value@),
{
    let ghost before = q@;
    let ghost pairs = header_pairs(q.headers@);
    let mut headers: Vec<Header> = q.headers;
    headers.push(header(name, value));
    assert(header_pairs(headers@) =~= pairs.push((name@, value@)));
    ControlRequest {
        method: q.method,
        uri: q.uri,
        content_type: q.content_type,
        body: q.body,
        headers,
        raw: q.raw,
    }
}

} // verus!
