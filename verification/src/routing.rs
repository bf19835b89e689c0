//! How the reverse proxy routes a request: to the API itself, or to the
//! transport of the proxy that the request's subdomain names.
use vstd::prelude::*;
use crate::text::{before_first, decimal, join2, owned, prefix_before, u16_to_string};
use crate::urls::{parse_url, parsed_url};

verus! {

/// The path of a request with its query, if it has one: `path?query`.
pub fn request_path(path: &str, query: Option<&str>) -> (r: String)
    ensures
        r@ == match query {
            Some(q) => path@ + "?"@ + q@,
            None => path@,
        },
{
    match query {
        Some(q) => {
            let a = join2(path, "?");
            a.concat(q)
        },
        None => owned(path),
    }
}

/// Whether a request is meant for the API itself: its `x-falke-api` header
/// is exactly `yes`.
pub fn is_api_request(marker: Option<&Vec<u8>>) -> (b: bool)
    ensures
        b == match marker {
            Some(v) => v@ == seq![121u8, 101u8, 115u8],
            None => false,
        },
{
    match marker {
        Some(v) => {
            let r = v.len() == 3 && v[0] == 121u8 && v[1] == 101u8 && v[2] == 115u8;
            assert(r ==> v@ =~= seq![121u8, 101u8, 115u8]);
            r
        },
        None => false,
    }
}

/// The address of the API: `host:port`.
pub fn api_endpoint(host: &str, port: u16) -> (r: String)
    ensures
        r@ == host@ + ":"@ + decimal(port as nat),
{
    let a = join2(host, ":");
    let p = u16_to_string(port);
    a.concat(p.as_str())
}

/// The proxy that a host name names: its first label.
pub fn subdomain(host: &str) -> (r: String)
    ensures
        r@ == before_first(host@, '.'),
{
    prefix_before(host, '.')
}

/// The address that the reverse proxy forwards a request to, before
/// parsing: the API's own path for an API request, else the transport of
/// the proxy named by the host's first label.
pub open spec fn upstream_text(
    scheme: Seq<char>,
    api_endpoint: Seq<char>,
    host: Seq<char>,
    path: Seq<char>,
    to_api: bool,
) -> Seq<char> {
    scheme + "://"@ + api_endpoint + if to_api {
        path
    } else {
        "/api/proxies/"@ + before_first(host, '.') + "/transport"@ + path
    }
}

/// Builds the text of the address that a request is forwarded to.
pub fn upstream_target(scheme: &str, api_endpoint: &str, host: &str, path: &str, to_api: bool) -> (r: String)
    ensures
        r@ == upstream_text(scheme@, api_endpoint@, host@, path@, to_api),
{
    let a = join2(scheme, "://");
    let b = a.concat(api_endpoint);
    if to_api {
        b.concat(path)
    } else {
        let c = b.concat("/api/proxies/");
        let sub = subdomain(host);
        let d = c.concat(sub.as_str());
        let e = d.concat("/transport");
        let r = e.concat(path);
        assert(r@ =~= upstream_text(scheme@, api_endpoint@, host@, path@, to_api));
        r
    }
}

/// The URL that a request is forwarded to (`scheme` is `http`, or `ws` for
/// a socket), or `None` where the address does not parse.
pub fn upstream_url(scheme: &str, api_endpoint: &str, host: &str, path: &str, to_api: bool) -> (r: Option<String>)
    ensures
        parsed_url(upstream_text(scheme@, api_endpoint@, host@, path@, to_api)) == match r {
            Some(u) => Some(u@),
            None => None,
        },
{
    let text = upstream_target(scheme, api_endpoint, host, path, to_api);
    parse_url(text.as_str())
}

/// The URL of a socket on the API at a path given without its leading `/`:
/// `ws://{api_endpoint}/{path}`.
pub fn direct_socket_url(api_endpoint: &str, path: &str) -> (r: Option<String>)
    ensures
        parsed_url("ws://"@ + api_endpoint@ + "/"@ + path@) == match r {
            Some(u) => Some(u@),
            None => None,
        },
{
    let a = join2("ws://", api_endpoint);
    let b = a.concat("/");
    let c = b.concat(path);
    parse_url(c.as_str())
}

} // verus!
