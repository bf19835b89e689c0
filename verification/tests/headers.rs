use subway::dto::proxy::{ProxyRequest, ProxyResponse, ResponseError};
use subway::headers::{
    HeaderDecodeError, HeaderField, forwarded_header_entries,
    forwarded_header_fields, header_map_from_json, header_map_to_json_string, json_string_to_header_map,
};

fn field(name: &str, value: &[u8]) -> HeaderField {
    HeaderField { name: name.to_string(), value: value.to_vec() }
}

fn sorted(mut v: Vec<(String, String)>) -> Vec<(String, String)> {
    v.sort();
    v
}

fn pairs(p: &[(&str, &str)]) -> Vec<(String, String)> {
    p.iter().map(|(a, b)| (a.to_string(), b.to_string())).collect()
}

#[test]
fn header_fields_are_written_as_a_json_object() {
    let fields = vec![field("content-type", b"text/plain"), field("x-id", b"7")];
    assert_eq!(
        header_map_to_json_string(&fields).unwrap(),
        r#"{"content-type":"text/plain","x-id":"7"}"#
    );
}

#[test]
fn repeated_header_keeps_last_value() {
    let fields = vec![field("accept", b"a"), field("x", b"1"), field("accept", b"b")];
    let json = header_map_to_json_string(&fields).unwrap();
    let v: std::collections::HashMap<String, String> = serde_json::from_str(&json).unwrap();
    assert_eq!(v.get("accept").map(|s| s.as_str()), Some("b"));
    assert_eq!(v.len(), 2);
}

#[test]
fn non_visible_value_is_written_empty() {
    let fields = vec![field("x-bin", &[0xff, 0x41])];
    assert_eq!(header_map_to_json_string(&fields).unwrap(), r#"{"x-bin":""}"#);
}

#[test]
fn empty_header_map_is_empty_object() {
    assert_eq!(header_map_to_json_string(&vec![]).unwrap(), "{}");
}

#[test]
fn json_is_read_back_into_canonical_headers() {
    let h = json_string_to_header_map(r#"{"Content-Type":"text/html","x-a":"1"}"#).unwrap();
    assert_eq!(sorted(h), pairs(&[("content-type", "text/html"), ("x-a", "1")]));
}

#[test]
fn malformed_json_is_refused() {
    assert_eq!(json_string_to_header_map("not json"), Err(HeaderDecodeError::Malformed));
    assert_eq!(json_string_to_header_map(r#"{"a":1}"#), Err(HeaderDecodeError::Malformed));
    assert_eq!(json_string_to_header_map("[]"), Err(HeaderDecodeError::Malformed));
}

#[test]
fn invalid_names_and_values_are_refused() {
    assert_eq!(header_map_from_json(r#"{"bad name":"x"}"#), Err(HeaderDecodeError::InvalidName));
    assert_eq!(header_map_from_json(r#"{"":"x"}"#), Err(HeaderDecodeError::InvalidName));
    assert_eq!(header_map_from_json(r#"{"a":"x\u0001"}"#), Err(HeaderDecodeError::InvalidValue));
    assert_eq!(header_map_from_json(r#"{"a":"x\u007f"}"#), Err(HeaderDecodeError::InvalidValue));
    assert_eq!(json_string_to_header_map(r#"{"a":"tab\there é"}"#).unwrap(), pairs(&[("a", "tab\there é")]));
    assert_eq!(header_map_from_json(r#"{"a":"ok"}"#).unwrap(), pairs(&[("a", "ok")]));
    assert_eq!(header_map_from_json("[]"), Err(HeaderDecodeError::Malformed));
    assert_eq!(header_map_from_json(r#"{"a":1}"#), Err(HeaderDecodeError::Malformed));
}

#[test]
fn canonical_names_are_lower_case() {
    let h = json_string_to_header_map(r#"{"X-Custom":"v"}"#).unwrap();
    assert_eq!(h, pairs(&[("x-custom", "v")]));
    let h = header_map_from_json(r#"{"Content-Type":"text/plain"}"#).unwrap();
    assert_eq!(h, pairs(&[("content-type", "text/plain")]));
}

#[test]
fn headers_survive_a_json_round_trip() {
    let fields = vec![
        field("host", b"abc.example.com"),
        field("accept", b"*/*"),
        field("x-bin", &[0x80]),
        field("accept", b"text/html"),
    ];
    let json = header_map_to_json_string(&fields).unwrap();
    let back = json_string_to_header_map(&json).unwrap();
    assert_eq!(
        sorted(back),
        pairs(&[("accept", "text/html"), ("host", "abc.example.com"), ("x-bin", "")])
    );
}

#[test]
fn transfer_encoding_is_not_forwarded() {
    let entries = pairs(&[("transfer-encoding", "chunked"), ("content-type", "text/plain")]);
    assert_eq!(forwarded_header_entries(&entries).unwrap(), pairs(&[("content-type", "text/plain")]));
    let entries = pairs(&[("x", "é")]);
    assert_eq!(forwarded_header_entries(&entries), None);
    let entries = pairs(&[("transfer-encoding", "é")]);
    assert_eq!(forwarded_header_entries(&entries).unwrap(), vec![]);
}

#[test]
fn forwarded_fields_need_visible_values() {
    let fields = vec![field("transfer-encoding", b"chunked"), field("a", b"1")];
    assert_eq!(forwarded_header_fields(&fields).unwrap(), pairs(&[("a", "1")]));
    let fields = vec![field("a", &[0xc3, 0xa9])];
    assert_eq!(forwarded_header_fields(&fields), None);
}

#[test]
fn only_the_first_value_of_a_name_is_forwarded() {
    let fields = vec![field("x-a", b"1"), field("x-a", b"2"), field("b", b"3")];
    assert_eq!(forwarded_header_fields(&fields).unwrap(), pairs(&[("x-a", "1"), ("b", "3")]));
    let fields = vec![field("x-a", b"1"), field("x-a", &[0xff])];
    assert_eq!(forwarded_header_fields(&fields).unwrap(), pairs(&[("x-a", "1")]));
    let fields = vec![field("x-a", &[0xff]), field("x-a", b"1")];
    assert_eq!(forwarded_header_fields(&fields), None);
    let entries = pairs(&[("x", "1"), ("x", "2")]);
    assert_eq!(forwarded_header_entries(&entries).unwrap(), pairs(&[("x", "1")]));
}

#[test]
fn proxy_request_packs_its_parts() {
    let r = ProxyRequest::new("id1", "abc", "POST", &vec![field("a", b"b")], "/x?y=1", b"body".to_vec());
    assert_eq!(r.id, "id1");
    assert_eq!(r.proxy_id, "abc");
    assert_eq!(r.method, "POST");
    assert_eq!(r.headers, r#"{"a":"b"}"#);
    assert_eq!(r.path, "/x?y=1");
    assert_eq!(r.body, b"body");
}

#[test]
fn proxy_response_becomes_http_parts() {
    let r = ProxyResponse::new(
        "id1",
        &vec![field("transfer-encoding", b"chunked"), field("content-type", b"text/plain")],
        201,
        b"ok".to_vec(),
    );
    assert_eq!(r.headers, r#"{"content-type":"text/plain","transfer-encoding":"chunked"}"#);
    let parts = r.into_parts().unwrap();
    assert_eq!(parts.status, 201);
    assert_eq!(parts.headers, pairs(&[("content-type", "text/plain")]));
    assert_eq!(parts.body, b"ok");
}

#[test]
fn proxy_response_errors() {
    let bad_status = ProxyResponse { id: "i".into(), headers: "{}".into(), status_code: 42, body: vec![] };
    assert!(matches!(bad_status.into_parts(), Err(ResponseError::InvalidStatus)));
    let bad_headers = ProxyResponse { id: "i".into(), headers: "x".into(), status_code: 42, body: vec![] };
    assert!(matches!(
        bad_headers.into_parts(),
        Err(ResponseError::Headers(HeaderDecodeError::Malformed))
    ));
    let non_visible = ProxyResponse {
        id: "i".into(),
        headers: r#"{"a":"é"}"#.into(),
        status_code: 200,
        body: vec![],
    };
    assert!(matches!(non_visible.into_parts(), Err(ResponseError::NonVisibleValue)));
}
