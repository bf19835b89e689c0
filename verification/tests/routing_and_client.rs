use subway::client::{
    Credential, Settings, TransportError, build_local_url, build_url, local_request,
    prepare_local_request, proxy_address, proxy_socket_url, server_address,
};
use subway::dto::proxy::ProxyRequest;
use subway::routing::{
    api_endpoint, direct_socket_url, is_api_request, request_path, subdomain, upstream_target,
    upstream_url,
};

#[test]
fn request_path_keeps_query() {
    assert_eq!(request_path("/a/b", Some("x=1&y=2")), "/a/b?x=1&y=2");
    assert_eq!(request_path("/a", None), "/a");
    assert_eq!(request_path("/a", Some("")), "/a?");
}

#[test]
fn api_marker_must_be_yes() {
    assert!(is_api_request(Some(&b"yes".to_vec())));
    assert!(!is_api_request(Some(&b"YES".to_vec())));
    assert!(!is_api_request(Some(&b"yes ".to_vec())));
    assert!(!is_api_request(None));
}

#[test]
fn upstream_addresses() {
    assert_eq!(api_endpoint("api.internal", 3000), "api.internal:3000");
    assert_eq!(subdomain("abc.example.com:443"), "abc");
    assert_eq!(
        upstream_target("http", "api:3000", "abc.example.com", "/p?q=1", false),
        "http://api:3000/api/proxies/abc/transport/p?q=1"
    );
    assert_eq!(upstream_target("http", "api:3000", "abc.example.com", "/api/ping", true), "http://api:3000/api/ping");
    assert_eq!(
        upstream_url("ws", "api:3000", "abc.example.com", "/s", false).as_deref(),
        Some("ws://api:3000/api/proxies/abc/transport/s")
    );
    assert_eq!(upstream_url("http", "", "h", "/", true), None);
    assert_eq!(direct_socket_url("api:3000", "x").as_deref(), Some("ws://api:3000/x"));
}

#[test]
fn credentials_read_and_write() {
    let mut s = Settings::new("/tmp/settings.json".to_string(), vec![]);
    assert_eq!(s.read_token("https://a"), "");
    s.write_token("https://a", "t1");
    s.write_token("https://b", "t2");
    assert_eq!(s.read_token("https://a"), "t1");
    assert_eq!(s.read_token("https://b"), "t2");
    assert_eq!(s.credentials().len(), 2);
    assert_eq!(s.path(), "/tmp/settings.json");
}

#[test]
fn first_credential_for_a_server_wins() {
    let creds = vec![
        Credential { name: "s".into(), access_token: "old".into() },
        Credential { name: "s".into(), access_token: "older".into() },
    ];
    let mut s = Settings::new("p".into(), creds);
    s.write_token("s", "new");
    assert_eq!(s.read_token("s"), "old");
}

#[test]
fn client_urls() {
    assert_eq!(build_url(true, "example.com", "http", "/api/ping").as_deref(), Some("https://example.com/api/ping"));
    assert_eq!(build_url(false, "localhost:3000", "ws", "/api/proxies/a/ws").as_deref(), Some("ws://localhost:3000/api/proxies/a/ws"));
    assert_eq!(build_local_url("localhost:8000", "/x?y").as_deref(), Some("http://localhost:8000/x?y"));
    assert_eq!(build_local_url("https://svc", "/").as_deref(), Some("https://svc/"));
    assert_eq!(build_local_url("", ""), None);
    assert_eq!(proxy_socket_url("https", "example.com", None, "abc").as_deref(), Some("wss://example.com/api/proxies/abc/ws"));
    assert_eq!(proxy_socket_url("http", "0.0.0.0", Some(3000), "abc").as_deref(), Some("ws://0.0.0.0:3000/api/proxies/abc/ws"));
    assert_eq!(proxy_address("http", "abc", "0.0.0.0", Some(3000)), "http://abc.localhost:3000");
    assert_eq!(proxy_address("https", "abc", "example.com", None), "https://abc.example.com");
}

#[test]
fn forwarded_path_is_recovered_by_the_api() {
    for path in ["/", "/a/b?x=1", "/transport/x", "/api/proxies/q/transport/z"] {
        let target = upstream_target("http", "api:3000", "abc.example.com", path, false);
        assert_eq!(subway::proxies::transport_path(&target).unwrap(), path);
    }
}

fn proxied(method: &str, headers: &str, path: &str) -> ProxyRequest {
    ProxyRequest {
        id: "r".to_string(),
        proxy_id: "p".to_string(),
        method: method.to_string(),
        headers: headers.to_string(),
        path: path.to_string(),
        body: vec![],
    }
}

#[test]
fn local_request_reads_method_headers_and_url() {
    let l = local_request(&proxied("POST", r#"{"Content-Type":"text/plain"}"#, "/a?b=1"), "localhost:3000").unwrap();
    assert_eq!(l.method, "POST");
    assert_eq!(l.headers, vec![("content-type".to_string(), "text/plain".to_string())]);
    assert_eq!(l.url, "http://localhost:3000/a?b=1");
    let l = local_request(&proxied("PURGE", "{}", "/"), "https://127.0.0.1:8443").unwrap();
    assert_eq!(l.method, "PURGE");
    assert_eq!(l.headers, vec![]);
    assert_eq!(l.url, "https://127.0.0.1:8443/");
    let l = local_request(&proxied("DELETE", "{}", "/x"), "localhost").unwrap();
    assert_eq!(l.method, "DELETE");
}

#[test]
fn local_request_refuses_bad_method_then_bad_headers() {
    assert!(matches!(local_request(&proxied("BAD METHOD", "{}", "/"), "localhost"), Err(TransportError::InvalidMethod)));
    assert!(matches!(local_request(&proxied("", "[]", "/"), "localhost"), Err(TransportError::InvalidMethod)));
    assert!(matches!(local_request(&proxied("GET", "[]", "/"), "localhost"), Err(TransportError::MalformedHeaders)));
    assert!(matches!(
        local_request(&proxied("G\u{e9}T", r#"{"bad name":"x"}"#, "/"), "localhost"),
        Err(TransportError::InvalidMethod)
    ));
}

#[test]
fn unbuildable_local_requests_are_reported() {
    assert!(prepare_local_request(&proxied("GET", r#"{"bad name":"x"}"#, "/"), "localhost").is_none());
    assert!(prepare_local_request(&proxied("GET", r#"{"a":"x\u0001"}"#, "/"), "localhost").is_none());
    assert!(prepare_local_request(&proxied("GET", "{}", "/x"), "http://[::1").is_none());
    assert!(matches!(
        prepare_local_request(&proxied("GET", "1", "/x"), "http://[::1"),
        Some(Err(TransportError::MalformedHeaders))
    ));
    assert!(matches!(prepare_local_request(&proxied("GET", "{}", "/x"), "localhost:1"), Some(Ok(_))));
}

#[test]
fn server_address_splits_the_url() {
    let a = server_address("https://example.com").unwrap();
    assert_eq!((a.scheme.as_str(), a.host.as_str(), a.port), ("https", "example.com", None));
    let a = server_address("http://localhost:8080/x").unwrap();
    assert_eq!((a.scheme.as_str(), a.host.as_str(), a.port), ("http", "localhost", Some(8080)));
    let a = server_address("https://example.com:443").unwrap();
    assert_eq!(a.port, None);
    assert!(server_address("not a url").is_none());
    assert!(server_address("mailto:a@b.c").is_none());
}

#[test]
fn authority_adds_an_explicit_port() {
    assert_eq!(subway::client::authority("example.com", None), "example.com");
    assert_eq!(subway::client::authority("localhost", Some(8080)), "localhost:8080");
}
