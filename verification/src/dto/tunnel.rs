//! The messages of a tunnel: a request forwarded to the client and its
//! answer, with text bodies.
use vstd::prelude::*;
use vstd::utf8::{decode_utf8, valid_utf8};
use crate::headers::{HeaderField, field_entries, header_map_to_json_string};
use crate::json::{entries_map, string_map_json};
use crate::text::{owned, string_from_utf8};

verus! {

/// A request received by the server for a tunnel.
#[derive(Debug)]
pub struct TunnelRequest {
    pub id: String,
    pub tunnel_id: String,
    pub method: String,
    pub headers: String,
    pub upgrade: String,
    pub body: String,
}

impl TunnelRequest {
    /// Packs a request: the method by its name, the header fields as a JSON
    /// object (see `header_map_to_json_string`), the body decoded as UTF-8.
    pub fn new(
        id: &str,
        tunnel_id: &str,
        method: &str,
        headers: &Vec<HeaderField>,
        upgrade: &str,
        body: Vec<u8>,
    ) -> (r: Self)
        requires
            valid_utf8(body@),
        ensures
            r.id@ == id@,
            r.tunnel_id@ == tunnel_id@,
            r.method@ == method@,
            r.headers@ == string_map_json(entries_map(field_entries(headers@))),
            r.upgrade@ == upgrade@,
            r.body@ == decode_utf8(body@),
    {
        let headers = header_map_to_json_string(headers).unwrap();
        let body = string_from_utf8(body).unwrap();
        TunnelRequest {
            id: owned(id),
            tunnel_id: owned(tunnel_id),
            method: owned(method),
            headers,
            upgrade: owned(upgrade),
            body,
        }
    }
}

/// The answer to a `TunnelRequest`.
#[derive(Debug)]
pub struct TunnelResponse {
    pub id: String,
    pub headers: String,
    pub status_code: u16,
    pub body: String,
}

impl TunnelResponse {
    /// Packs a response: the header fields as a JSON object, the body
    /// decoded as UTF-8.
    pub fn new(id: &str, headers: &Vec<HeaderField>, status_code: u16, body: Vec<u8>) -> (r: Self)
        requires
            valid_utf8(body@),
        ensures
            r.id@ == id@,
            r.headers@ == string_map_json(entries_map(field_entries(headers@))),
            r.status_code == status_code,
            r.body@ == decode_utf8(body@),
    {
        let headers = header_map_to_json_string(headers).unwrap();
        let body = string_from_utf8(body).unwrap();
        TunnelResponse { id: owned(id), headers, status_code, body }
    }
}

} // verus!
