//! Captures of responses as they came, for a look at what the server really sends.

use vstd::prelude::*;

use crate::event::document_in;
use crate::json::{view_of, Json, Object, Value};

verus! {

/// A response as it came.
#[derive(Debug)]
pub struct RawCapture {
    pub method: String,
    pub endpoint: String,
    pub status: u16,
    pub body: String,
    /// The body as a document, where it is a JSON text.
    pub body_json: Option<Value>,
}

/// The mathematical view of a [`RawCapture`].
pub struct RawCaptureView {
    pub method: Seq<char>,
    pub endpoint: Seq<char>,
    pub status: u16,
    pub body: Seq<char>,
    pub body_json: Option<Json>,
}

impl View for RawCapture {
    type V = RawCaptureView;

    open spec fn view(&self) -> RawCaptureView {
        RawCaptureView {
            method: self.method@,
            endpoint: self.endpoint@,
            status: self.status,
            body: self.body@,
            body_json: view_of(self.body_json),
        }
    }
}

/// The capture of a response with this body.
pub open spec fn captured(
    method: Seq<char>,
    endpoint: Seq<char>,
    status: u16,
    body: Seq<char>,
) -> RawCaptureView {
    RawCaptureView { method, endpoint, status, body, body_json: document_in(body) }
}

/// The capture of the answer to a probe. Of a request that was accepted only the fact is
/// kept: its body is a stream.
pub open spec fn probed(endpoint: Seq<char>, status: u16, body: Seq<char>) -> RawCaptureView {
    if status == 200 {
        RawCaptureView {
            method: "POST"@,
            endpoint,
            status,
            body: "(accepted — 200, SSE body not captured)"@,
            body_json: None,
        }
    } else {
        captured("POST"@, endpoint, status, body)
    }
}

/// The capture of a response.
pub fn snapshot(method: &str, url: &str, status: u16, body: String) -> (r: RawCapture)
    ensures
        r@ == captured(method@, url@, status, body@),
{
    let body_json = match Value::parse(body.as_str()) {
        Ok(document) => Some(document),
        Err(_) => None,
    };
    RawCapture { method: method.to_owned(), endpoint: url.to_owned(), status, body, body_json }
}

/// Whether the body of the answer to a probe is to be read.
pub fn probe_needs_body(status: u16) -> (r: bool)
    ensures
        r == (status != 200),
{
    status != 200
}

/// The capture of the answer to a probe. The body of an accepted request does not
/// matter.
pub fn probe_capture(url: &str, status: u16, body: String) -> (r: RawCapture)
    ensures
        r@ == probed(url@, status, body@),
{
    if !probe_needs_body(status) {
        return RawCapture {
            method: "POST".to_owned(),
            endpoint: url.to_owned(),
            status,
            body: "(accepted — 200, SSE body not captured)".to_owned(),
            body_json: None,
        };
    }
    snapshot("POST", url, status, body)
}

/// The body of a request for a device code.
pub fn device_code_request(client_id: &str) -> (r: Value)
    ensures
        r@ == Json::Object(map!["client_id"@ => Json::String(client_id@)]),
{
    let r = Value::object(Object::new().with("client_id", Value::string(client_id)));
    assert(r@->Object_0 =~= map!["client_id"@ => Json::String(client_id@)]);
    r
}

} // verus!
