//! The command line client: its stored credentials and the addresses it
//! talks to.
use vstd::prelude::*;
use crate::text::{decimal, has_prefix, join2, owned, starts_with, u16_to_string};
use crate::urls::{parse_url, parse_url_full, parsed_url, url_parts};
use crate::dto::proxy::ProxyRequest;
use crate::headers::{
    HeaderDecodeError, canonical_entries, first_entry_error, header_map_from_json, is_name_char,
    json_string_to_header_map,
    lemma_entry_error_not_malformed,
};
use crate::json::{entries_map, json_string_entries, keys_distinct};
use http::Method;

verus! {

/// An access token that the client keeps for a server.
#[derive(Debug)]
pub struct Credential {
    pub name: String,
    pub access_token: String,
}

impl View for Credential {
    type V = (Seq<char>, Seq<char>);

    open spec fn view(&self) -> (Seq<char>, Seq<char>) {
        (self.name@, self.access_token@)
    }
}

/// The token of the first credential for `server`, or the empty text where
/// there is none.
pub open spec fn token_for(creds: Seq<(Seq<char>, Seq<char>)>, server: Seq<char>) -> Seq<char>
    decreases creds.len(),
{
    if creds.len() == 0 {
        Seq::empty()
    } else if creds[0].0 == server {
        creds[0].1
    } else {
        token_for(creds.drop_first(), server)
    }
}

/// Some credential is kept for `server`.
pub open spec fn has_credential(creds: Seq<(Seq<char>, Seq<char>)>, server: Seq<char>) -> bool {
    exists|i: int| 0 <= i < creds.len() && #[trigger] creds[i].0 == server
}

/// The client's settings: where they are stored and the credentials.
pub struct Settings {
    path: String,
    credentials: Vec<Credential>,
}

impl View for Settings {
    type V = (Seq<char>, Seq<(Seq<char>, Seq<char>)>);

    closed spec fn view(&self) -> (Seq<char>, Seq<(Seq<char>, Seq<char>)>) {
        (self.path@, self.credentials@.map_values(|c: Credential| c@))
    }
}

proof fn lemma_token_for_skip(creds: Seq<(Seq<char>, Seq<char>)>, server: Seq<char>, i: int)
    requires
        0 <= i <= creds.len(),
        forall|j: int| 0 <= j < i ==> creds[j].0 != server,
    ensures
        token_for(creds, server) == token_for(creds.subrange(i, creds.len() as int), server),
    decreases i,
{
    if i == 0 {
        assert(creds.subrange(0, creds.len() as int) =~= creds);
    } else {
        lemma_token_for_skip(creds.drop_first(), server, i - 1);
        assert(creds.drop_first().subrange(i - 1, creds.len() - 1) =~= creds.subrange(
            i,
            creds.len() as int,
        ));
    }
}

impl Settings {
    /// Settings stored at `path` that hold `credentials`.
    pub fn new(path: String, credentials: Vec<Credential>) -> (s: Self)
        ensures
            s@.0 == path@,
            s@.1 == credentials@.map_values(|c: Credential| c@),
    {
        Settings { path, credentials }
    }

    /// Where the settings are stored.
    pub fn path(&self) -> (p: &String)
        ensures
            p@ == self@.0,
    {
        &self.path
    }

    /// The credentials, in the order in which they were written.
    pub fn credentials(&self) -> (c: &Vec<Credential>)
        ensures
            c@.map_values(|c: Credential| c@) == self@.1,
    {
        &self.credentials
    }

    /// The access token kept for `server`: that of the first credential for
    /// it, or the empty text.
    pub fn read_token(&self, server: &str) -> (t: String)
        ensures
            t@ == token_for(self@.1, server@),
    {
        let ghost creds = self@.1;
        let wanted = owned(server);
        let mut i: usize = 0;
        while i < self.credentials.len()
            invariant
                creds == self@.1,
                creds == self.credentials@.map_values(|c: Credential| c@),
                wanted@ == server@,
                i <= self.credentials.len(),
                forall|j: int| 0 <= j < i ==> creds[j].0 != server@,
            decreases self.credentials.len() - i,
        {
            assert(creds[i as int] == self.credentials@[i as int]@);
            if self.credentials[i].name == wanted {
                proof {
                    lemma_token_for_skip(creds, server@, i as int);
                }
                return self.credentials[i].access_token.clone();
            }
            i = i + 1;
        }
        proof {
            lemma_token_for_skip(creds, server@, i as int);
        }
        String::new()
    }

    /// Records a token for `server`, after the credentials already kept;
    /// the caller then stores the settings.
    pub fn write_token(&mut self, server: &str, access_token: &str)
        ensures
            final(self)@.0 == old(self)@.0,
            final(self)@.1 == old(self)@.1.push((server@, access_token@)),
    {
        let ghost before = self@.1;
        self.credentials.push(Credential { name: owned(server), access_token: owned(access_token) });
        assert(self@.1 =~= before.push((server@, access_token@)));
    }
}

/// The first credential for a server decides its token, so a token read
/// back after it is written is the written one where the server had none;
/// tokens of other servers are unchanged.
pub proof fn lemma_read_after_write(
    creds: Seq<(Seq<char>, Seq<char>)>,
    server: Seq<char>,
    token: Seq<char>,
    other: Seq<char>,
)
    requires
        !has_credential(creds, server),
        other != server,
    ensures
        token_for(creds.push((server, token)), server) == token,
        token_for(creds.push((server, token)), other) == token_for(creds, other),
    decreases creds.len(),
{
    if creds.len() > 0 {
        let d = creds.drop_first();
        assert(!has_credential(d, server)) by {
            if has_credential(d, server) {
                let i = choose|i: int| 0 <= i < d.len() && #[trigger] d[i].0 == server;
                assert(creds[i + 1].0 == server);
            }
        }
        assert(creds[0].0 != server);
        lemma_read_after_write(d, server, token, other);
        assert(creds.push((server, token)).drop_first() =~= d.push((server, token)));
        assert(creds.push((server, token))[0] == creds[0]);
    } else {
        let e = Seq::<(Seq<char>, Seq<char>)>::empty();
        assert(creds.push((server, token)).drop_first() =~= e);
        assert(token_for(e, other) == Seq::<char>::empty());
        assert(creds =~= e);
    }
}

/// The address of the API on `server` for `protocol` (`http` or `ws`),
/// with an `s` added to the protocol for a secure connection:
/// `{protocol}[s]://{server}{endpoint}`.
pub open spec fn service_text(secure: bool, server: Seq<char>, protocol: Seq<char>, endpoint: Seq<char>) -> Seq<char> {
    protocol + (if secure { "s"@ } else { Seq::empty() }) + "://"@ + server + endpoint
}

/// A secure server is reached over the secure form of every protocol: the
/// address begins with the protocol and `s://`, for `ws` as for `http`; an
/// insecure one with the protocol and `://`. The server and endpoint follow.
pub proof fn lemma_secure_protocols(
    secure: bool,
    server: Seq<char>,
    protocol: Seq<char>,
    endpoint: Seq<char>,
)
    ensures
        secure ==> service_text(secure, server, protocol, endpoint) == protocol + "s://"@ + server
            + endpoint,
        !secure ==> service_text(secure, server, protocol, endpoint) == protocol + "://"@ + server
            + endpoint,
{
    reveal_strlit("s");
    reveal_strlit("://");
    reveal_strlit("s://");
    assert(protocol + "s"@ + "://"@ =~= protocol + "s://"@);
    assert(protocol + Seq::<char>::empty() =~= protocol);
}

/// The URL of an endpoint of the API, or `None` where it does not parse.
pub fn build_url(secure: bool, server: &str, protocol: &str, endpoint: &str) -> (r: Option<String>)
    ensures
        parsed_url(service_text(secure, server@, protocol@, endpoint@)) == match r {
            Some(u) => Some(u@),
            None => None,
        },
{
    let a = if secure { join2(protocol, "s") } else { owned(protocol) };
    let b = a.concat("://");
    let c = b.concat(server);
    let d = c.concat(endpoint);
    assert(d@ =~= service_text(secure, server@, protocol@, endpoint@));
    parse_url(d.as_str())
}

/// The address of the local service that a forwarded request goes to: the
/// endpoint followed by the path, with `http://` before an endpoint that
/// does not start with `http`.
pub open spec fn local_text(endpoint: Seq<char>, path: Seq<char>) -> Seq<char> {
    if has_prefix(endpoint, "http"@) {
        endpoint + path
    } else {
        "http://"@ + endpoint + path
    }
}

/// The URL of the local service for a forwarded request, or `None` where it
/// does not parse.
pub fn build_local_url(endpoint: &str, path: &str) -> (r: Option<String>)
    ensures
        parsed_url(local_text(endpoint@, path@)) == match r {
            Some(u) => Some(u@),
            None => None,
        },
{
    let text = if !starts_with(endpoint, "http") {
        let a = join2("http://", endpoint);
        a.concat(path)
    } else {
        join2(endpoint, path)
    };
    assert(text@ =~= local_text(endpoint@, path@));
    parse_url(text.as_str())
}

/// The text `:port` of an explicit port, or nothing.
pub open spec fn port_suffix(port: Option<u16>) -> Seq<char> {
    match port {
        Some(p) => ":"@ + decimal(p as nat),
        None => Seq::empty(),
    }
}

fn port_suffix_text(port: Option<u16>) -> (r: String)
    ensures
        r@ == port_suffix(port),
{
    match port {
        Some(p) => {
            let d = u16_to_string(p);
            join2(":", d.as_str())
        },
        None => String::new(),
    }
}

/// The address of a proxy's socket on the server: `wss` for an `https`
/// server and `ws` otherwise, the server's host and explicit port, then
/// `/api/proxies/{proxy_id}/ws`.
pub open spec fn proxy_socket_text(scheme: Seq<char>, host: Seq<char>, port: Option<u16>, proxy_id: Seq<char>) -> Seq<char> {
    (if scheme == "https"@ { "wss"@ } else { "ws"@ }) + "://"@ + host + port_suffix(port)
        + "/api/proxies/"@ + proxy_id + "/ws"@
}

/// The URL of a proxy's socket, or `None` where it does not parse.
pub fn proxy_socket_url(scheme: &str, host: &str, port: Option<u16>, proxy_id: &str) -> (r: Option<String>)
    ensures
        parsed_url(proxy_socket_text(scheme@, host@, port, proxy_id@)) == match r {
            Some(u) => Some(u@),
            None => None,
        },
{
    let https = owned("https");
    let s = owned(scheme);
    let a = if s == https { owned("wss") } else { owned("ws") };
    let b = a.concat("://");
    let c = b.concat(host);
    let ps = port_suffix_text(port);
    let d = c.concat(ps.as_str());
    let e = d.concat("/api/proxies/");
    let f = e.concat(proxy_id);
    let g = f.concat("/ws");
    assert(g@ =~= proxy_socket_text(scheme@, host@, port, proxy_id@));
    parse_url(g.as_str())
}

/// The authority of a server: its host, then `:port` where the port is
/// given.
pub fn authority(host: &str, port: Option<u16>) -> (r: String)
    ensures
        r@ == host@ + port_suffix(port),
{
    let ps = port_suffix_text(port);
    let h = owned(host);
    h.concat(ps.as_str())
}

/// The address under which a proxy is reached, as the client reports it:
/// `{scheme}://{proxy_id}.{host}{:port}`, with `localhost` in place of the
/// host `0.0.0.0`.
pub fn proxy_address(scheme: &str, proxy_id: &str, host: &str, port: Option<u16>) -> (r: String)
    ensures
        r@ == scheme@ + "://"@ + proxy_id@ + "."@ + (if host@ == "0.0.0.0"@ {
            "localhost"@
        } else {
            host@
        }) + port_suffix(port),
{
    let any = owned("0.0.0.0");
    let h = owned(host);
    let shown = if h == any { owned("localhost") } else { h };
    let a = join2(scheme, "://");
    let b = a.concat(proxy_id);
    let c = b.concat(".");
    let d = c.concat(shown.as_str());
    let ps = port_suffix_text(port);
    d.concat(ps.as_str())
}

/// Text that `Method::from_str` accepts: one or more token characters.
pub open spec fn is_method_text(t: Seq<char>) -> bool {
    t.len() >= 1 && forall|i: int| 0 <= i < t.len() ==> is_name_char(#[trigger] t[i])
}

/// Whether `http::Method::from_str` accepts the text as a request method:
/// exactly the non-empty texts of token characters, the standard methods
/// and any extension.
#[verifier::external_body]
fn is_method(text: &str) -> (b: bool)
    ensures
        b == is_method_text(text@),
{
    text.parse::<Method>().is_ok()
}

/// A proxied request as the client sends it on to the local service.
pub struct LocalRequest {
    /// The method's name, checked to be one that `http::Method` accepts.
    pub method: String,
    /// Header fields by canonical name, each name once.
    pub headers: Vec<(String, String)>,
    pub url: String,
}

/// Why a proxied request cannot be sent on.
#[derive(Debug, PartialEq, Eq, Structural)]
pub enum TransportError {
    /// The method is not a token.
    InvalidMethod,
    /// The header text is not a JSON object of strings.
    MalformedHeaders,
}

/// The request that forwards `request` to the local service at `endpoint`:
/// its method, by name, its header fields read from their JSON text, and the local
/// URL of its path. The method is read first, then the header fields.
/// Where the header text holds an invalid name or value, or the local URL
/// does not parse, the request cannot be built (see
/// `prepare_local_request`).
pub fn local_request(request: &ProxyRequest, endpoint: &str) -> (r: Result<LocalRequest, TransportError>)
    requires
        is_method_text(request.method@) ==> (json_string_entries(request.headers@) matches Some(s)
            ==> first_entry_error(s) is None),
        is_method_text(request.method@) && json_string_entries(request.headers@) is Some
            ==> parsed_url(local_text(endpoint@, request.path@)) is Some,
    ensures
        !is_method_text(request.method@) ==> r == Err::<LocalRequest, TransportError>(
            TransportError::InvalidMethod,
        ),
        is_method_text(request.method@) && json_string_entries(request.headers@) is None ==> r
            == Err::<LocalRequest, TransportError>(TransportError::MalformedHeaders),
        is_method_text(request.method@) ==> (json_string_entries(request.headers@) matches Some(s)
            ==> r is Ok && r->Ok_0.method@ == request.method@ && keys_distinct(
            r->Ok_0.headers.deep_view(),
        ) && entries_map(
            r->Ok_0.headers.deep_view(),
        ) == entries_map(canonical_entries(s)) && parsed_url(local_text(endpoint@, request.path@))
            == Some(r->Ok_0.url@)),
{
    if !is_method(request.method.as_str()) {
        return Err(TransportError::InvalidMethod);
    }
    let method = request.method.clone();
    let headers = match json_string_to_header_map(request.headers.as_str()) {
        Ok(h) => h,
        Err(_) => return Err(TransportError::MalformedHeaders),
    };
    let url = build_local_url(endpoint, request.path.as_str()).unwrap();
    Ok(LocalRequest { method, headers, url })
}

/// `local_request` where it can be built, and `None` where the header text
/// holds an invalid name or value or the local URL does not parse.
pub fn prepare_local_request(request: &ProxyRequest, endpoint: &str) -> (r: Option<
    Result<LocalRequest, TransportError>,
>)
    ensures
        !is_method_text(request.method@) ==> r == Some(
            Err::<LocalRequest, TransportError>(TransportError::InvalidMethod),
        ),
        is_method_text(request.method@) && json_string_entries(request.headers@) is None ==> r
            == Some(Err::<LocalRequest, TransportError>(TransportError::MalformedHeaders)),
        is_method_text(request.method@) ==> (json_string_entries(request.headers@) matches Some(s)
            ==> (first_entry_error(s) is Some ==> r is None)),
        is_method_text(request.method@) ==> (json_string_entries(request.headers@) matches Some(s)
            ==> (first_entry_error(s) is None && parsed_url(local_text(endpoint@, request.path@))
            is None ==> r is None)),
        is_method_text(request.method@) ==> (json_string_entries(request.headers@) matches Some(s)
            ==> (first_entry_error(s) is None && parsed_url(local_text(endpoint@, request.path@))
            is Some ==> (r is Some && r->0 is Ok && r->0->Ok_0.method@ == request.method@
            && keys_distinct(r->0->Ok_0.headers.deep_view())
            && entries_map(r->0->Ok_0.headers.deep_view()) == entries_map(canonical_entries(s))
            && parsed_url(local_text(endpoint@, request.path@)) == Some(r->0->Ok_0.url@)))),
{
    if is_method(request.method.as_str()) {
        proof {
            if let Some(s) = json_string_entries(request.headers@) {
                lemma_entry_error_not_malformed(s);
            }
        }
        match header_map_from_json(request.headers.as_str()) {
            Err(HeaderDecodeError::InvalidName) | Err(HeaderDecodeError::InvalidValue) => {
                return None;
            },
            Err(HeaderDecodeError::Malformed) => {},
            Ok(_) => {
                if build_local_url(endpoint, request.path.as_str()).is_none() {
                    return None;
                }
            },
        }
    }
    Some(local_request(request, endpoint))
}

/// Where the server that the client talks to is reached.
pub struct ServerAddress {
    pub scheme: String,
    pub host: String,
    /// The explicit port; none where the scheme's default is meant.
    pub port: Option<u16>,
}

/// The scheme, host and port of the server's URL, or `None` where the text
/// is not a URL with a host.
pub fn server_address(server: &str) -> (r: Option<ServerAddress>)
    ensures
        match url_parts(server@) {
            Some((scheme, Some(host), port)) => r is Some && r->0.scheme@ == scheme && r->0.host@
                == host && r->0.port == port,
            _ => r is None,
        },
{
    match parse_url_full(server) {
        Some(u) => match u.host {
            Some(host) => Some(ServerAddress { scheme: u.scheme, host, port: u.port }),
            None => None,
        },
        None => None,
    }
}

} // verus!
