use subway::dto::auth::{SignInRequestDto, SignUpRequestDto, SignUpResponseDto, token_is_valid};
use subway::dto::proxy::ProxyResponse;
use subway::dto::tunnel::{TunnelRequest, TunnelResponse};
use subway::error::ApiError;
use subway::headers::HeaderField;
use subway::proxies::{
    AcquirePlan, ProxyOutcome, ProxyRecord, authorization_token, check_release, created_proxy,
    open_exchange, open_tunnel_exchange, plan_acquire, proxy_endpoint, proxy_id_from_words,
    proxy_outcome, transport_path,
};
use subway::response_store::ResponseStore;

fn codes(errs: &[subway::error::FieldError]) -> Vec<(String, String)> {
    errs.iter().map(|e| (e.field.clone(), e.code.clone())).collect()
}

fn record(id: &str, user: &str) -> ProxyRecord {
    ProxyRecord {
        id: id.to_string(),
        user_id: user.to_string(),
        created_at: "2024-08-31T00:00:00Z".to_string(),
        updated_at: "2024-09-01T00:00:00Z".to_string(),
    }
}

#[test]
fn sign_up_validation() {
    let ok = SignUpRequestDto { email: "a@b.com".into(), password: "pw".into(), confirm_password: "pw".into() };
    assert!(ok.validate().is_ok());
    let bad = SignUpRequestDto { email: "nope".into(), password: "pw".into(), confirm_password: "px".into() };
    assert_eq!(
        codes(&bad.validate().unwrap_err()),
        vec![("email".to_string(), "email".to_string()), ("confirm_password".to_string(), "must_match".to_string())]
    );
    let mismatch = SignUpResponseDto { email: "a@b.com".into(), password: "pw".into(), confirm_password: "x".into() };
    assert_eq!(codes(&mismatch.validate().unwrap_err()), vec![("confirm_password".to_string(), "must_match".to_string())]);
}

#[test]
fn sign_in_validation() {
    assert!(SignInRequestDto { email: "user@example.com".into(), password: "x".into() }.validate().is_ok());
    let bad = SignInRequestDto { email: "".into(), password: "x".into() };
    assert_eq!(codes(&bad.validate().unwrap_err()), vec![("email".to_string(), "email".to_string())]);
    let no_at = SignInRequestDto { email: "no-at-sign".into(), password: "x".into() };
    assert!(no_at.validate().is_err());
}

#[test]
fn token_validity_needs_both() {
    assert!(token_is_valid(true, true).is_valid);
    assert!(!token_is_valid(true, false).is_valid);
    assert!(!token_is_valid(false, true).is_valid);
}

#[test]
fn error_status_codes() {
    assert_eq!(ApiError::ValidationErrors(vec![]).status_code(), 400);
    assert_eq!(ApiError::UnauthorizedError.status_code(), 401);
    assert_eq!(ApiError::ForbiddenError.status_code(), 403);
    assert_eq!(ApiError::NotFoundError.status_code(), 404);
    assert_eq!(ApiError::ConflictError.status_code(), 409);
    assert_eq!(ApiError::InternalServerError("x".into()).status_code(), 500);
}

#[test]
fn acquire_reuses_own_proxy() {
    match plan_acquire(Some(record("abc", "u1")), Some("abc".into()), "u1", "example.com").unwrap() {
        AcquirePlan::Reuse(p) => {
            assert_eq!(p.id, "abc");
            assert_eq!(p.created_at, "2024-08-31T00:00:00Z");
            assert_eq!(p.proxy_endpoint.as_deref(), Some("abc.example.com"));
        }
        _ => panic!("expected reuse"),
    }
}

#[test]
fn acquire_refuses_proxy_of_other_user() {
    assert!(matches!(
        plan_acquire(Some(record("abc", "u2")), Some("abc".into()), "u1", "example.com"),
        Err(ApiError::ForbiddenError)
    ));
}

#[test]
fn acquire_creates_new_proxy() {
    match plan_acquire(None, Some("mine".into()), "u1", "example.com").unwrap() {
        AcquirePlan::Create(id) => assert_eq!(id, "mine"),
        _ => panic!("expected create"),
    }
    match plan_acquire(None, None, "u1", "example.com").unwrap() {
        AcquirePlan::Create(id) => {
            let parts: Vec<&str> = id.split('-').collect();
            assert!(parts.len() >= 2 && parts.iter().all(|p| !p.is_empty()), "{}", id);
            let words = random_word::all(random_word::Lang::En);
            assert!(
                id.match_indices('-').any(|(i, _)| words.contains(&&id[..i]) && words.contains(&&id[i + 1..])),
                "{}",
                id
            );
        }
        _ => panic!("expected create"),
    }
    let p = created_proxy(record("x", "u"));
    assert_eq!(p.id, "x");
    assert_eq!(p.proxy_endpoint, None);
    assert_eq!(proxy_id_from_words("happy", "otter"), "happy-otter");
    assert_eq!(proxy_endpoint("abc", "example.com"), "abc.example.com");
}

#[test]
fn release_checks_owner() {
    assert!(matches!(check_release(None, "u"), Err(ApiError::NotFoundError)));
    assert!(matches!(check_release(Some(record("a", "v")), "u"), Err(ApiError::ForbiddenError)));
    assert_eq!(check_release(Some(record("a", "u")), "u").unwrap().id, "a");
}

#[test]
fn authorization_header_is_required() {
    assert!(matches!(authorization_token(None), Err(ApiError::UnauthorizedError)));
    assert_eq!(authorization_token(Some(&b"tok.en".to_vec())).unwrap(), "tok.en");
}

#[test]
fn transport_path_extraction() {
    assert_eq!(transport_path("/api/proxies/abc/transport/foo?x=1").unwrap(), "/foo?x=1");
    assert_eq!(transport_path("/api/proxies/abc/transport").unwrap(), "/");
    assert_eq!(transport_path("/other").unwrap(), "/");
    assert_eq!(transport_path("http://h/api/proxies/a.b/transport/x/transport/y").unwrap(), "/x/transport/y");
}

#[test]
fn request_ids_are_url_safe() {
    let h = vec![];
    let a = open_exchange(true, true, "p", "GET", &h, "/", vec![]).unwrap().id;
    let b = open_exchange(true, true, "p", "GET", &h, "/", vec![]).unwrap().id;
    assert_eq!(a.chars().count(), 21);
    assert!(a.chars().all(|c| c == '_' || c == '-' || c.is_ascii_alphanumeric()));
    assert_ne!(a, b);
}

#[test]
fn exchange_needs_proxy_and_socket() {
    let h = vec![HeaderField { name: "a".into(), value: b"b".to_vec() }];
    assert!(matches!(open_exchange(false, true, "p", "GET", &h, "/", vec![]), Err(ApiError::NotFoundError)));
    assert!(matches!(open_exchange(true, false, "p", "GET", &h, "/", vec![]), Err(ApiError::NotFoundError)));
    let req = open_exchange(true, true, "p", "GET", &h, "/x", b"1".to_vec()).unwrap();
    assert_eq!(req.id.len(), 21);
    assert_eq!(req.proxy_id, "p");
    assert_eq!(req.headers, r#"{"a":"b"}"#);
    assert_eq!(req.path, "/x");
}

fn response(id: &str, status: u16) -> ProxyResponse {
    ProxyResponse { id: id.to_string(), headers: "{}".to_string(), status_code: status, body: vec![] }
}

#[test]
fn store_gives_back_delivered_answer_once() {
    let mut store = ResponseStore::new();
    assert!(store.take("r1").is_none());
    store.deliver(response("r1", 200));
    store.deliver(response("r2", 404));
    assert!(store.contains("r1"));
    assert_eq!(store.take("r1").unwrap().status_code, 200);
    assert!(store.take("r1").is_none());
    assert_eq!(store.take("r2").unwrap().status_code, 404);
}

#[test]
fn store_answers_carry_the_requested_id() {
    let mut store = ResponseStore::new();
    store.deliver(response("a", 201));
    store.deliver(response("b", 202));
    let taken = store.take("b").unwrap();
    assert_eq!(taken.id, "b");
    assert_eq!(taken.status_code, 202);
    assert!(store.contains("a"));
    assert!(!store.contains("b"));
}

#[test]
fn store_keeps_latest_answer_per_id() {
    let mut store = ResponseStore::new();
    store.deliver(response("r", 200));
    store.deliver(response("r", 500));
    assert_eq!(store.take("r").unwrap().status_code, 500);
    assert!(!store.contains("r"));
}

#[test]
fn failed_forwarding_shows_not_found_page() {
    assert!(matches!(proxy_outcome(Err(ApiError::NotFoundError)), ProxyOutcome::NotFoundPage(_)));
    match proxy_outcome(Ok(response("a", 201))) {
        ProxyOutcome::Forward(r) => assert_eq!(r.status_code, 201),
        _ => panic!("expected forward"),
    }
}

#[test]
fn tunnel_messages_carry_text_bodies() {
    let h = vec![HeaderField { name: "upgrade".into(), value: b"websocket".to_vec() }];
    let r = TunnelRequest::new("i", "t", "GET", &h, "websocket", "héllo".as_bytes().to_vec());
    assert_eq!(r.body, "héllo");
    assert_eq!(r.headers, r#"{"upgrade":"websocket"}"#);
    assert_eq!(r.upgrade, "websocket");
    let s = TunnelResponse::new("i", &vec![], 101, b"".to_vec());
    assert_eq!(s.status_code, 101);
    assert_eq!(s.headers, "{}");
}

#[test]
fn tunnel_exchange_needs_tunnel_and_socket() {
    let h = vec![];
    assert!(matches!(open_tunnel_exchange(false, true, "t", "GET", &h, "", vec![]), Err(ApiError::NotFoundError)));
    let req = open_tunnel_exchange(true, true, "t", "GET", &h, "websocket", b"hi".to_vec()).unwrap();
    assert_eq!(req.id.chars().count(), 21);
    assert_eq!(req.tunnel_id, "t");
    assert_eq!(req.body, "hi");
    assert_eq!(req.headers, "{}");
}

#[test]
fn acquiring_a_subdomain_twice_gives_the_same_proxy() {
    let id = match plan_acquire(None, Some("mine".into()), "u1", "example.com").unwrap() {
        AcquirePlan::Create(id) => id,
        _ => panic!("expected create"),
    };
    assert_eq!(id, "mine");
    match plan_acquire(Some(record(&id, "u1")), Some("mine".into()), "u1", "example.com").unwrap() {
        AcquirePlan::Reuse(p) => {
            assert_eq!(p.id, "mine");
            assert_eq!(p.proxy_endpoint.as_deref(), Some("mine.example.com"));
        }
        _ => panic!("expected reuse"),
    }
}
