//! The messages of a proxy: acquiring one, and the requests and responses
//! that travel through it.
use vstd::prelude::*;
use crate::headers::{
    HeaderDecodeError, HeaderField, canonical_entries, field_entries, first_entry_error,
    is_header_map,
    forwarded_header_entries, forwarded_map, forwarding_fails, header_map_to_json_string,
    header_map_from_json, lemma_forwarded_entries_map,
};
use crate::json::{entries_map, json_string_entries, keys_distinct, string_map_json};
use crate::text::owned;

verus! {

/// A request to acquire a proxy, optionally under a chosen subdomain.
#[derive(Debug)]
pub struct AcquireProxyRequestDto {
    pub subdomain: Option<String>,
}

/// The proxy that the server handed out.
#[derive(Debug)]
pub struct AcquireProxyResponseDto {
    pub id: String,
    pub created_at: String,
    pub updated_at: String,
}

/// A request received by the server for a proxy, sent over the proxy's
/// socket to the client that serves it.
#[derive(Debug)]
pub struct ProxyRequest {
    pub id: String,
    pub proxy_id: String,
    pub method: String,
    pub headers: String,
    pub path: String,
    pub body: Vec<u8>,
}

impl ProxyRequest {
    /// Packs a request: the method by its name, the header fields as a JSON
    /// object (see `header_map_to_json_string`), the rest as given.
    pub fn new(
        id: &str,
        proxy_id: &str,
        method: &str,
        headers: &Vec<HeaderField>,
        path: &str,
        body: Vec<u8>,
    ) -> (r: Self)
        ensures
            r.id@ == id@,
            r.proxy_id@ == proxy_id@,
            r.method@ == method@,
            r.headers@ == string_map_json(entries_map(field_entries(headers@))),
            r.path@ == path@,
            r.body@ == body@,
    {
        let headers = header_map_to_json_string(headers).unwrap();
        ProxyRequest {
            id: owned(id),
            proxy_id: owned(proxy_id),
            method: owned(method),
            headers,
            path: owned(path),
            body,
        }
    }
}

/// The answer of the client's local service to a `ProxyRequest`, sent back
/// over the socket under the request's id.
#[derive(Debug)]
pub struct ProxyResponse {
    pub id: String,
    pub headers: String,
    pub status_code: u16,
    pub body: Vec<u8>,
}

/// The abstract value of a `ProxyResponse`.
pub struct ProxyResponseView {
    pub id: Seq<char>,
    pub headers: Seq<char>,
    pub status_code: u16,
    pub body: Seq<u8>,
}

impl View for ProxyResponse {
    type V = ProxyResponseView;

    open spec fn view(&self) -> ProxyResponseView {
        ProxyResponseView {
            id: self.id@,
            headers: self.headers@,
            status_code: self.status_code,
            body: self.body@,
        }
    }
}

/// Why a `ProxyResponse` cannot be turned into an HTTP response.
#[derive(Debug)]
pub enum ResponseError {
    /// The header fields are not a valid JSON header map.
    Headers(HeaderDecodeError),
    /// A forwarded header value is not visible ASCII.
    NonVisibleValue,
    /// The status code is not one from 100 to 999.
    InvalidStatus,
}

/// The parts of the HTTP response that a `ProxyResponse` stands for.
#[derive(Debug)]
pub struct ResponseParts {
    pub status: u16,
    pub headers: Vec<(String, String)>,
    pub body: Vec<u8>,
}

/// A status code that `http::StatusCode::from_u16` accepts.
pub open spec fn is_status_code(n: u16) -> bool {
    100 <= n && n <= 999
}

/// The header fields that a response built from the JSON text carries, as
/// a map, or the reason why there are none: the text is read as a header
/// map, and every field but `transfer-encoding` is kept, which must have a
/// visible ASCII value.
pub open spec fn response_header_map(text: Seq<char>) -> Result<
    Map<Seq<char>, Seq<char>>,
    ResponseError,
> {
    match json_string_entries(text) {
        None => Err(ResponseError::Headers(HeaderDecodeError::Malformed)),
        Some(s) => match first_entry_error(s) {
            Some(e) => Err(ResponseError::Headers(e)),
            None => {
                let m = entries_map(canonical_entries(s));
                if forwarding_fails(m) {
                    Err(ResponseError::NonVisibleValue)
                } else {
                    Ok(forwarded_map(m))
                }
            },
        },
    }
}

/// The HTTP response that a proxy client's answer stands for: its header
/// fields as `response_header_map` reads them, its status where
/// `http::StatusCode` takes it, and its body; or why there is none.
pub open spec fn response_parts(resp: ProxyResponse, r: Result<ResponseParts, ResponseError>) -> bool {
    match response_header_map(resp.headers@) {
        Err(e) => r == Err::<ResponseParts, ResponseError>(e),
        Ok(m) => if !is_status_code(resp.status_code) {
            r == Err::<ResponseParts, ResponseError>(ResponseError::InvalidStatus)
        } else {
            r is Ok && r->Ok_0.status == resp.status_code && keys_distinct(
                r->Ok_0.headers.deep_view(),
            ) && entries_map(r->Ok_0.headers.deep_view()) == m && r->Ok_0.body@ == resp.body@
        },
    }
}

/// Every status that a local service answers with, from 100 to 999 (the
/// 4xx and 5xx answers among them), is passed on unchanged with the body,
/// where the header fields are valid; only codes outside that range are
/// refused.
pub proof fn lemma_every_status_passed_on(resp: ProxyResponse, r: Result<ResponseParts, ResponseError>)
    requires
        response_parts(resp, r),
        response_header_map(resp.headers@) is Ok,
    ensures
        100 <= resp.status_code && resp.status_code <= 999 ==> r is Ok && r->Ok_0.status
            == resp.status_code && r->Ok_0.body@ == resp.body@,
        !(100 <= resp.status_code && resp.status_code <= 999) ==> r matches Err(
            ResponseError::InvalidStatus,
        ),
{
}

impl ProxyResponse {
    /// Packs a response: the header fields as a JSON object (see
    /// `header_map_to_json_string`), the rest as given.
    pub fn new(id: &str, headers: &Vec<HeaderField>, status_code: u16, body: Vec<u8>) -> (r: Self)
        ensures
            r.id@ == id@,
            r.headers@ == string_map_json(entries_map(field_entries(headers@))),
            r.status_code == status_code,
            r.body@ == body@,
    {
        let headers = header_map_to_json_string(headers).unwrap();
        ProxyResponse { id: owned(id), headers, status_code, body }
    }

    /// The HTTP response that the proxy answers with: the status, the
    /// header fields read back from JSON without `transfer-encoding`, and
    /// the body. Errors are checked in this order: the header text, the
    /// forwarded values, the status.
    pub fn into_parts(self) -> (r: Result<ResponseParts, ResponseError>)
        ensures
            response_parts(self, r),
            forall|m: Map<Seq<char>, Seq<char>>|
                #![trigger string_map_json(m)]
                m.dom().finite() && string_map_json(m) == self.headers@ && is_header_map(m) ==> (
                if forwarding_fails(m) {
                    r matches Err(ResponseError::NonVisibleValue)
                } else if !is_status_code(self.status_code) {
                    r matches Err(ResponseError::InvalidStatus)
                } else {
                    r is Ok && entries_map(r->Ok_0.headers.deep_view()) == forwarded_map(m)
                }),
    {
        let decoded = match header_map_from_json(self.headers.as_str()) {
            Ok(d) => d,
            Err(e) => return Err(ResponseError::Headers(e)),
        };
        proof {
            lemma_forwarded_entries_map(decoded.deep_view());
        }
        let headers = match forwarded_header_entries(&decoded) {
            Some(h) => h,
            None => return Err(ResponseError::NonVisibleValue),
        };
        if !(100 <= self.status_code && self.status_code <= 999) {
            return Err(ResponseError::InvalidStatus);
        }
        Ok(ResponseParts { status: self.status_code, headers, body: self.body })
    }
}

} // verus!
