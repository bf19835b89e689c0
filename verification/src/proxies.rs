//! The API's handling of proxies: handing them out and releasing them,
//! forwarding a request over a proxy's socket, and collecting the answers.
use vstd::prelude::*;
use crate::dto::proxy::{ProxyRequest, ProxyResponse};
use crate::dto::tunnel::TunnelRequest;
use vstd::utf8::{decode_utf8, valid_utf8};
use crate::error::ApiError;
use crate::headers::{HeaderField, all_visible, ascii_chars, field_entries, value_text};
use crate::json::{entries_map, string_map_json};
use crate::text::{join2, owned};

verus! {

/// A stored proxy: its id (the subdomain), its owner, and its timestamps.
#[derive(Debug)]
pub struct ProxyRecord {
    pub id: String,
    pub user_id: String,
    pub created_at: String,
    pub updated_at: String,
}

/// A proxy as the API reports it to the user who acquired it.
#[derive(Debug)]
pub struct AcquiredProxy {
    pub id: String,
    pub created_at: String,
    pub updated_at: String,
    /// The host name under which the proxy is reached; reported for a
    /// proxy that existed already.
    pub proxy_endpoint: Option<String>,
}

/// What acquiring a proxy comes to.
#[derive(Debug)]
pub enum AcquirePlan {
    /// The user owns the proxy already: report it.
    Reuse(AcquiredProxy),
    /// Create a proxy under this id for the user.
    Create(String),
}

/// The word is on the English list of the `random_word` crate (the list
/// that `random_word::all(Lang::En)` gives).
pub uninterp spec fn is_english_word(w: Seq<char>) -> bool;

/// A word of the English list of the `random_word` crate, picked at random
/// (`random_word::gen(Lang::En)`, which chooses from that list). Which word
/// is left to chance.
#[verifier::external_body]
fn random_english_word() -> (w: String)
    ensures
        is_english_word(w@),
{
    random_word::gen(random_word::Lang::En).to_string()
}

/// The id of a proxy made of two words: `first-second`.
pub fn proxy_id_from_words(first: &str, second: &str) -> (id: String)
    ensures
        id@ == first@ + "-"@ + second@,
{
    let a = join2(first, "-");
    a.concat(second)
}

/// The host name of a proxy: its id as a subdomain of the reverse proxy's
/// host.
pub fn proxy_endpoint(id: &str, reverse_proxy_host: &str) -> (e: String)
    ensures
        e@ == id@ + "."@ + reverse_proxy_host@,
{
    let a = join2(id, ".");
    a.concat(reverse_proxy_host)
}

/// The id is two words of the English list joined by `-`, as
/// `proxy_id_from_words` makes it.
pub open spec fn is_generated_id(id: Seq<char>) -> bool {
    exists|a: Seq<char>, b: Seq<char>|
        is_english_word(a) && is_english_word(b) && id == a + "-"@ + b
}

/// What `plan_acquire` decides for a user: a proxy of the same user is
/// reported again with its host name; one of another user is refused;
/// where none exists, one is to be created under the requested subdomain,
/// or under two English words joined by `-`.
pub open spec fn acquire_decided(
    existing: Option<ProxyRecord>,
    subdomain: Option<String>,
    user_id: Seq<char>,
    reverse_proxy_host: Seq<char>,
    r: Result<AcquirePlan, ApiError>,
) -> bool {
    match existing {
        Some(rec) => if rec.user_id@ == user_id {
            match r {
                Ok(AcquirePlan::Reuse(p)) => p.id@ == rec.id@ && p.created_at@
                    == rec.created_at@ && p.updated_at@ == rec.updated_at@ && match p.proxy_endpoint {
                    Some(e) => e@ == rec.id@ + "."@ + reverse_proxy_host,
                    None => false,
                },
                _ => false,
            }
        } else {
            r matches Err(ApiError::ForbiddenError)
        },
        None => match r {
            Ok(AcquirePlan::Create(id)) => match subdomain {
                Some(s) => id@ == s@,
                None => is_generated_id(id@),
            },
            _ => false,
        },
    }
}

/// Decides a request to acquire a proxy. `existing` is the stored proxy
/// with the requested subdomain, if any. A proxy of the same user is
/// reported again with its host name; one of another user is refused;
/// otherwise a proxy is to be created, under the requested subdomain or,
/// where none is requested, under two random words joined by `-`.
pub fn plan_acquire(
    existing: Option<ProxyRecord>,
    subdomain: Option<String>,
    user_id: &str,
    reverse_proxy_host: &str,
) -> (r: Result<AcquirePlan, ApiError>)
    ensures
        acquire_decided(existing, subdomain, user_id@, reverse_proxy_host@, r),
{
    match existing {
        Some(rec) => {
            let user = owned(user_id);
            if rec.user_id == user {
                let endpoint = proxy_endpoint(rec.id.as_str(), reverse_proxy_host);
                Ok(
                    AcquirePlan::Reuse(
                        AcquiredProxy {
                            id: rec.id,
                            created_at: rec.created_at,
                            updated_at: rec.updated_at,
                            proxy_endpoint: Some(endpoint),
                        },
                    ),
                )
            } else {
                Err(ApiError::ForbiddenError)
            }
        },
        None => {
            let id = match subdomain {
                Some(s) => s,
                None => {
                    let first = random_english_word();
                    let second = random_english_word();
                    let id = proxy_id_from_words(first.as_str(), second.as_str());
                    assert(id@ == first@ + "-"@ + second@);
                    id
                },
            };
            Ok(AcquirePlan::Create(id))
        },
    }
}

/// Acquiring a proxy under a subdomain twice gives the same proxy: where
/// the first request found the user's proxy under that subdomain, or
/// created one for the user, the second request finds that proxy and
/// reports it under the same id with its host name, creating nothing.
pub proof fn lemma_acquire_again(
    first_found: Option<ProxyRecord>,
    subdomain: String,
    user_id: Seq<char>,
    reverse_proxy_host: Seq<char>,
    first: Result<AcquirePlan, ApiError>,
    stored: ProxyRecord,
    second: Result<AcquirePlan, ApiError>,
)
    requires
        first_found matches Some(rec) ==> rec.id@ == subdomain@,
        acquire_decided(first_found, Some(subdomain), user_id, reverse_proxy_host, first),
        first is Ok,
        match first_found {
            Some(rec) => stored == rec,
            None => stored.id@ == subdomain@ && stored.user_id@ == user_id,
        },
        acquire_decided(Some(stored), Some(subdomain), user_id, reverse_proxy_host, second),
    ensures
        match first->Ok_0 {
            AcquirePlan::Create(id) => id@ == subdomain@,
            AcquirePlan::Reuse(p) => p.id@ == subdomain@,
        },
        second is Ok,
        second->Ok_0 is Reuse,
        second->Ok_0->Reuse_0.id@ == subdomain@,
        second->Ok_0->Reuse_0.proxy_endpoint is Some,
        second->Ok_0->Reuse_0.proxy_endpoint->0@ == subdomain@ + "."@ + reverse_proxy_host,
{
}

/// The report of a proxy that was just created.
pub fn created_proxy(record: ProxyRecord) -> (p: AcquiredProxy)
    ensures
        p.id@ == record.id@,
        p.created_at@ == record.created_at@,
        p.updated_at@ == record.updated_at@,
        p.proxy_endpoint is None,
{
    AcquiredProxy {
        id: record.id,
        created_at: record.created_at,
        updated_at: record.updated_at,
        proxy_endpoint: None,
    }
}

/// Decides a request to release a proxy: it must exist and belong to the
/// user; the record to delete is given back.
pub fn check_release(existing: Option<ProxyRecord>, user_id: &str) -> (r: Result<ProxyRecord, ApiError>)
    ensures
        match existing {
            None => r matches Err(ApiError::NotFoundError),
            Some(rec) => if rec.user_id@ == user_id@ {
                r matches Ok(d) && d == rec
            } else {
                r matches Err(ApiError::ForbiddenError)
            },
        },
{
    match existing {
        None => Err(ApiError::NotFoundError),
        Some(rec) => {
            let user = owned(user_id);
            if rec.user_id == user {
                Ok(rec)
            } else {
                Err(ApiError::ForbiddenError)
            }
        },
    }
}

/// The access token of a request, from its `authorization` header: a
/// request without one is unauthorized.
pub fn authorization_token(header: Option<&Vec<u8>>) -> (r: Result<String, ApiError>)
    requires
        header matches Some(v) ==> all_visible(v@),
    ensures
        match header {
            None => r matches Err(ApiError::UnauthorizedError),
            Some(v) => r matches Ok(t) && t@ == ascii_chars(v@),
        },
{
    match header {
        None => Err(ApiError::UnauthorizedError),
        Some(v) => Ok(value_text(v).unwrap()),
    }
}

/// The first capture group of the first match of `pattern` in `text`, as
/// the `regex` crate finds it: `None` where the pattern does not compile,
/// `Some(None)` where nothing matches or the group takes part in no match.
pub uninterp spec fn regex_first_group(pattern: Seq<char>, text: Seq<char>) -> Option<
    Option<Seq<char>>,
>;

/// Compiles `pattern` (`regex::Regex::new`) and gives the text of capture
/// group 1 of its first match in `text` (`Regex::captures`, `Captures::get`).
/// The result is named `regex_first_group`; an error carries the regex
/// crate's message.
#[verifier::external_body]
fn first_group(pattern: &str, text: &str) -> (r: Result<Option<String>, String>)
    ensures
        regex_first_group(pattern@, text@) == match r {
            Ok(Some(g)) => Some(Some(g@)),
            Ok(None) => Some(None),
            Err(_) => None,
        },
{
    match regex::Regex::new(pattern) {
        Ok(re) => Ok(re.captures(text).and_then(|c| c.get(1)).map(|m| m.as_str().to_string())),
        Err(e) => Err(e.to_string()),
    }
}

/// The pattern that picks the forwarded path out of a transport address.
pub open spec fn transport_pattern() -> Seq<char> {
    "/api/proxies/.+?/transport(.+)"@
}

/// The forwarded path is read with the pattern that the API routes by:
/// after `/api/proxies/`, the shortest run of one or more characters of any
/// kind (so a proxy id of words joined by `-`) that `/transport` follows,
/// then everything after `/transport` as the path.
pub proof fn lemma_transport_pattern()
    ensures
        transport_pattern() == "/api/proxies/"@ + ".+?"@ + "/transport"@ + "(.+)"@,
{
    reveal_strlit("/api/proxies/.+?/transport(.+)");
    reveal_strlit("/api/proxies/");
    reveal_strlit(".+?");
    reveal_strlit("/transport");
    reveal_strlit("(.+)");
    assert(transport_pattern() =~= "/api/proxies/"@ + ".+?"@ + "/transport"@ + "(.+)"@);
}

/// The path that a request to `/api/proxies/{id}/transport...` forwards: what
/// follows `transport`, or `/` where nothing does.
pub fn transport_path(uri: &str) -> (r: Result<String, ApiError>)
    ensures
        match regex_first_group(transport_pattern(), uri@) {
            None => r matches Err(ApiError::InternalServerError(_)),
            Some(None) => r matches Ok(p) && p@ == "/"@,
            Some(Some(g)) => r matches Ok(p) && p@ == g,
        },
{
    match first_group("/api/proxies/.+?/transport(.+)", uri) {
        Ok(Some(g)) => Ok(g),
        Ok(None) => Ok(owned("/")),
        Err(message) => Err(ApiError::InternalServerError(message)),
    }
}

/// The page shown where a request to a proxy cannot be forwarded.
#[derive(Debug)]
pub struct NotfoundTemplate {}

/// How the API answers a request to a proxy's transport.
#[derive(Debug)]
pub enum ProxyOutcome {
    /// The client's answer, passed on.
    Forward(ProxyResponse),
    /// The not-found page, whatever went wrong.
    NotFoundPage(NotfoundTemplate),
}

/// Answers a request to a proxy's transport: the client's answer where the
/// forwarding succeeded, the not-found page on any failure.
pub fn proxy_outcome(result: Result<ProxyResponse, ApiError>) -> (o: ProxyOutcome)
    ensures
        match result {
            Ok(resp) => o matches ProxyOutcome::Forward(f) && f == resp,
            Err(_) => o is NotFoundPage,
        },
{
    match result {
        Ok(resp) => ProxyOutcome::Forward(resp),
        Err(_) => ProxyOutcome::NotFoundPage(NotfoundTemplate {}),
    }
}

/// A character of the URL-safe alphabet of `nanoid`.
pub open spec fn is_id_char(c: char) -> bool {
    c == '_' || c == '-' || ('0' <= c && c <= '9') || ('a' <= c && c <= 'z') || ('A' <= c
        && c <= 'Z')
}

/// A fresh random request id (`nanoid::format` with the default random
/// generator, the `SAFE` alphabet and size 21, which is what `nanoid!()`
/// expands to): 21 characters of that alphabet; which ones is left to
/// chance.
#[verifier::external_body]
pub(crate) fn new_request_id() -> (id: String)
    ensures
        id@.len() == 21,
        forall|i: int| 0 <= i < id@.len() ==> is_id_char(#[trigger] id@[i]),
{
    nanoid::format(nanoid::rngs::default, &nanoid::alphabet::SAFE, 21)
}

/// Opens the forwarding of a request to a proxy: the proxy must be stored
/// and its client's socket registered, else the proxy is not found. The
/// request gets a fresh id, under which the answer is awaited.
pub fn open_exchange(
    proxy_exists: bool,
    socket_registered: bool,
    proxy_id: &str,
    method: &str,
    headers: &Vec<HeaderField>,
    path: &str,
    body: Vec<u8>,
) -> (r: Result<ProxyRequest, ApiError>)
    ensures
        !(proxy_exists && socket_registered) ==> r matches Err(ApiError::NotFoundError),
        proxy_exists && socket_registered ==> match r {
            Ok(req) => req.id@.len() == 21 && (forall|i: int|
                0 <= i < req.id@.len() ==> is_id_char(#[trigger] req.id@[i])) && req.proxy_id@
                == proxy_id@ && req.method@ == method@ && req.headers@ == string_map_json(
                entries_map(field_entries(headers@)),
            ) && req.path@ == path@ && req.body@ == body@,
            Err(_) => false,
        },
{
    if !proxy_exists || !socket_registered {
        return Err(ApiError::NotFoundError);
    }
    let id = new_request_id();
    Ok(ProxyRequest::new(id.as_str(), proxy_id, method, headers, path, body))
}

/// Opens the forwarding of a request to a tunnel: the tunnel must be
/// stored and its client's socket registered, else it is not found. The
/// request gets a fresh id, under which the answer is awaited.
pub fn open_tunnel_exchange(
    tunnel_exists: bool,
    socket_registered: bool,
    tunnel_id: &str,
    method: &str,
    headers: &Vec<HeaderField>,
    upgrade: &str,
    body: Vec<u8>,
) -> (r: Result<TunnelRequest, ApiError>)
    requires
        valid_utf8(body@),
    ensures
        !(tunnel_exists && socket_registered) ==> r matches Err(ApiError::NotFoundError),
        tunnel_exists && socket_registered ==> match r {
            Ok(req) => req.id@.len() == 21 && (forall|i: int|
                0 <= i < req.id@.len() ==> is_id_char(#[trigger] req.id@[i])) && req.tunnel_id@
                == tunnel_id@ && req.method@ == method@ && req.headers@ == string_map_json(
                entries_map(field_entries(headers@)),
            ) && req.upgrade@ == upgrade@ && req.body@ == decode_utf8(body@),
            Err(_) => false,
        },
{
    if !tunnel_exists || !socket_registered {
        return Err(ApiError::NotFoundError);
    }
    let id = new_request_id();
    Ok(TunnelRequest::new(id.as_str(), tunnel_id, method, headers, upgrade, body))
}

} // verus!
