use allora::error::ErrorKind;
use allora::http::outbound::{
    parse_http_method, request_body, shape_dispatch_result, HttpOutboundAdapter,
    OutboundDispatchResult,
};
use allora::json::JsonValue;
use allora::message::{Exchange, Message, Payload};

#[test]
fn http_outbound_rejects_invalid_url() {
    let err = HttpOutboundAdapter::builder()
        .url(":::not a url")
        .build()
        .expect_err("builder should reject invalid url");
    let msg = err.message();
    assert!(
        msg.contains("invalid url"),
        "expected invalid-url error, got: {msg}"
    );
}

#[test]
fn http_outbound_rejects_unsupported_scheme() {
    let err = HttpOutboundAdapter::builder()
        .url("ftp://example.com/")
        .build()
        .expect_err("builder should reject unsupported scheme");
    let msg = err.message();
    assert!(
        msg.contains("unsupported url scheme"),
        "expected unsupported-scheme error, got: {msg}"
    );
}

#[test]
fn http_outbound_builder_caches_parsed_url() {
    let adapter = HttpOutboundAdapter::builder()
        .url("https://devnet.fialucci.org/oracle/submissions")
        .build()
        .expect("build succeeds");
    assert_eq!(adapter.url().scheme(), "https");
    assert_eq!(adapter.url().host_str(), Some("devnet.fialucci.org"));
    assert_eq!(adapter.url().path(), "/oracle/submissions");
}

#[test]
fn builder_requires_url_and_fills_defaults() {
    let err = HttpOutboundAdapter::builder().build().expect_err("no url");
    assert_eq!(err.kind(), ErrorKind::Other);
    assert_eq!(err.message(), "url required");
    let a = HttpOutboundAdapter::builder()
        .url("http://127.0.0.1:8080/x")
        .build()
        .unwrap();
    assert_eq!(a.method(), "POST");
    assert!(a.use_out_msg());
    assert!(!a.accepts_invalid_certs());
    assert_eq!(a.id().len(), 36);
    assert_eq!(a.url_text(), "http://127.0.0.1:8080/x");
    let b = HttpOutboundAdapter::builder()
        .id("out")
        .url("http://h/")
        .method("PUT")
        .use_out_msg(false)
        .dangerous_accept_invalid_certs(true)
        .build()
        .unwrap();
    assert_eq!(b.id(), "out");
    assert_eq!(b.method(), "PUT");
    assert!(!b.use_out_msg());
    assert!(b.accepts_invalid_certs());
}

#[test]
fn unsupported_scheme_message_names_the_scheme() {
    let err = HttpOutboundAdapter::builder()
        .url("ftp://example.com/")
        .build()
        .unwrap_err();
    assert_eq!(
        err.message(),
        "unsupported url scheme 'ftp' (expected http or https)"
    );
    let bad = HttpOutboundAdapter::builder()
        .url(":::not a url")
        .build()
        .unwrap_err();
    assert!(bad.message().starts_with("invalid url ':::not a url': "));
}

#[test]
fn dispatch_prefers_out_msg_when_present() {
    let a = HttpOutboundAdapter::builder().url("http://h/").build().unwrap();
    let mut ex = Exchange::new(Message::from_text("in"));
    assert_eq!(a.dispatch_body(&ex).unwrap(), b"in".to_vec());
    ex.out_msg = Some(Message::from_text("out"));
    assert_eq!(a.dispatch_body(&ex).unwrap(), b"out".to_vec());
    let only_in = HttpOutboundAdapter::builder()
        .url("http://h/")
        .use_out_msg(false)
        .build()
        .unwrap();
    assert_eq!(only_in.dispatch_body(&ex).unwrap(), b"in".to_vec());
}

#[test]
fn request_body_of_each_payload() {
    assert_eq!(request_body(&Payload::Text("héllo".to_string())).unwrap(), "héllo".as_bytes().to_vec());
    assert_eq!(request_body(&Payload::Bytes(vec![7, 8])).unwrap(), vec![7, 8]);
    assert!(request_body(&Payload::Empty).unwrap().is_empty());
    let v = JsonValue::Object(vec![("a".to_string(), JsonValue::Number("1".to_string()))]);
    assert_eq!(request_body(&Payload::Json(v)).unwrap(), br#"{"a":1}"#.to_vec());
}

#[test]
fn request_body_encodes_nested_json() {
    let v = JsonValue::Array(vec![
        JsonValue::Null,
        JsonValue::Bool(true),
        JsonValue::Number("-2.5".to_string()),
        JsonValue::Str("q\"t".to_string()),
        JsonValue::Object(vec![("b".to_string(), JsonValue::Array(vec![]))]),
    ]);
    assert_eq!(request_body(&Payload::Json(v)).unwrap(), br#"[null,true,-2.5,"q\"t",{"b":[]}]"#.to_vec());
}

#[test]
fn request_body_rejects_a_number_that_is_not_one() {
    let v = JsonValue::Array(vec![JsonValue::Number("12abc".to_string())]);
    let err = request_body(&Payload::Json(v)).unwrap_err();
    assert_eq!(err.kind(), ErrorKind::Serialization);
    assert!(!err.message().is_empty());
}

#[test]
fn method_names_fall_back_to_post() {
    assert_eq!(parse_http_method("GET"), "GET");
    assert_eq!(parse_http_method("PATCH"), "PATCH");
    assert_eq!(parse_http_method("CUSTOM"), "CUSTOM");
    assert_eq!(parse_http_method("not a method"), "POST");
    assert_eq!(parse_http_method(""), "POST");
}

#[test]
fn dispatch_result_shapes_forwarded_exchange() {
    let r = OutboundDispatchResult::from_response(202, "202 Accepted", "ok".to_string());
    assert!(r.acknowledged);
    assert_eq!(r.message.as_deref(), Some("HTTP 202 Accepted"));
    assert_eq!(r.status_code, Some(202));
    let ex = shape_dispatch_result(Exchange::new(Message::from_text("req")), &r);
    assert_eq!(ex.in_msg.body_text(), Some("ok"));
    assert_eq!(ex.in_msg.header("dispatch-result.status-code"), Some("202"));
    assert_eq!(ex.in_msg.header("dispatch-result.acknowledged"), Some("true"));
    let bad = OutboundDispatchResult::from_response(500, "500 Internal Server Error", String::new());
    assert!(!bad.acknowledged);
    let ex2 = shape_dispatch_result(Exchange::new(Message::from_text("req")), &bad);
    assert_eq!(ex2.in_msg.header("dispatch-result.acknowledged"), Some("false"));
}

#[test]
fn parsed_url_is_normalized_by_the_url_reader() {
    let a = HttpOutboundAdapter::builder()
        .url("HTTP://Example.COM")
        .build()
        .expect("build succeeds");
    assert_eq!(a.url_text(), "HTTP://Example.COM");
    assert_eq!(a.url().as_str(), "http://example.com/");
    assert_eq!(a.url().scheme(), "http");
    assert_eq!(a.url().host_str(), Some("example.com"));
    assert_eq!(a.url().path(), "/");
}
