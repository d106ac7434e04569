use allora::endpoint::EndpointBuilder;
use allora::http::inbound::{
    endpoint_exchange, endpoints_answer, ensure_correlation, fallback_body, http_version_str,
    normalize_path, reply_body, request_message, to_ascii_uppercase, HttpInboundAdapter,
    HttpInboundBuilder, HttpVersion, InboundAction, InboundRequest, Mep,
};
use allora::message::{Exchange, Message, Payload};

fn request(body: Vec<u8>) -> InboundRequest {
    InboundRequest {
        method: "post".to_string(),
        path: "/api/orders".to_string(),
        query: "a=1".to_string(),
        version: HttpVersion::Http11,
        headers: vec![
            ("Content-Type".to_string(), "application/json".to_string()),
            ("X-Trace".to_string(), "t1".to_string()),
        ],
        body,
    }
}

#[test]
fn paths_are_made_relative_to_the_base() {
    assert_eq!(normalize_path("/", "/x/y"), "/x/y");
    assert_eq!(normalize_path("/api", "/api/orders"), "/orders");
    assert_eq!(normalize_path("/api", "/api"), "/");
    assert_eq!(normalize_path("/api", "/apix"), "/");
    assert_eq!(normalize_path("/api", "/other"), "/other");
}

#[test]
fn versions_as_text() {
    assert_eq!(http_version_str(HttpVersion::Http09), "0.9");
    assert_eq!(http_version_str(HttpVersion::Http10), "1.0");
    assert_eq!(http_version_str(HttpVersion::Http11), "1.1");
    assert_eq!(http_version_str(HttpVersion::Http2), "2.0");
    assert_eq!(http_version_str(HttpVersion::Http3), "3.0");
    assert_eq!(http_version_str(HttpVersion::Other), "unknown");
}

#[test]
fn request_message_describes_the_request() {
    let m = request_message(&request(b"{\"k\":1}".to_vec()), "/api");
    assert_eq!(m.body_text(), Some("{\"k\":1}"));
    assert_eq!(m.header("http.method"), Some("post"));
    assert_eq!(m.header("http.path"), Some("/orders"));
    assert_eq!(m.header("http.query"), Some("a=1"));
    assert_eq!(m.header("http.version"), Some("1.1"));
    assert_eq!(m.header("http.header.content-type"), Some("application/json"));
    assert_eq!(m.header("http.header.x-trace"), Some("t1"));
    assert_eq!(m.header("http.content_type"), Some("application/json"));
    assert_eq!(m.header("http.body_text"), Some("{\"k\":1}"));
    assert_eq!(m.header("message_id").map(|s| s.len()), Some(36));
}

#[test]
fn non_utf8_body_stays_bytes() {
    let m = request_message(&request(vec![0xff, 0xfe]), "/");
    assert!(matches!(m.payload, Payload::Bytes(ref b) if b == &vec![0xff, 0xfe]));
    assert!(m.header("http.body_text").is_none());
    assert_eq!(m.header("http.path"), Some("/api/orders"));
    let ex = Exchange::new(m);
    assert_eq!(fallback_body(&ex, &vec![0x61, 0xff]), "a\u{fffd}");
}

#[test]
fn correlation_is_added_once() {
    let mut ex = Exchange::new(Message::from_text("b"));
    ensure_correlation(&mut ex);
    let c = ex.in_msg.header("corr_id").unwrap().to_string();
    assert_eq!(c.len(), 36);
    ensure_correlation(&mut ex);
    assert_eq!(ex.in_msg.header("corr_id"), Some(c.as_str()));
}

#[test]
fn endpoint_copies_carry_the_http_source() {
    let ex = Exchange::new(Message::from_text("b"));
    let c = endpoint_exchange(&ex, "in-1", "GET", "/p");
    assert_eq!(c.in_msg.header("source.kind"), Some("http"));
    assert_eq!(c.in_msg.header("source.adapter_id"), Some("in-1"));
    assert_eq!(c.in_msg.header("source.http.method"), Some("GET"));
    assert_eq!(c.in_msg.header("source.http.path"), Some("/p"));
    assert!(ex.in_msg.header("source.kind").is_none());
}

#[test]
fn reply_and_fallback_bodies() {
    let mut r = Exchange::new(Message::from_text("in"));
    assert_eq!(reply_body(&r), "in");
    r.out_msg = Some(Message::from_text("out"));
    assert_eq!(reply_body(&r), "out");
    let bytes = Exchange::new(Message::new(Payload::Bytes(vec![1])));
    assert_eq!(reply_body(&bytes), "");
    assert_eq!(fallback_body(&Exchange::new(Message::from_text("t")), &vec![]), "t");
}

#[test]
fn adapter_defaults_and_registrations() {
    let mut a = HttpInboundAdapter::new_in_out("127.0.0.1", 8080, "", "inbound", None, None);
    assert_eq!(a.id(), "http-inbound:127.0.0.1:8080");
    assert_eq!(a.addr(), "127.0.0.1:8080");
    assert_eq!(a.base_path(), "/");
    assert_eq!(a.mep(), Mep::InOut);
    a.register_endpoint("post", "/orders", "ep-post");
    a.register_endpoint_any("/orders", "ep-any");
    assert_eq!(a.matched_endpoints("POST", "/orders"), vec!["ep-post", "ep-any", "ep-any"]);
    assert_eq!(a.matched_endpoints("DELETE", "/orders"), vec!["ep-any", "ep-any"]);
    assert_eq!(a.matched_endpoints("TRACE", "/orders"), vec!["ep-any"]);
    assert!(a.matched_endpoints("GET", "/none").is_empty());
}

#[test]
fn request_plans_follow_the_exchange_pattern() {
    let mut a = HttpInboundAdapter::new_in_out("h", 1, "/", "inbound", Some("replies"), Some("in"));
    assert!(matches!(a.plan_request("GET", "/x", true), InboundAction::ChannelAwaitReply));
    assert!(matches!(a.plan_request("GET", "/x", false), InboundAction::Channel));
    a.register_endpoint("GET", "/x", "ep");
    match a.plan_request("get", "/x", true) {
        InboundAction::Endpoints(eps) => assert_eq!(eps, vec!["ep".to_string()]),
        other => panic!("unexpected {other:?}"),
    }
    let b = HttpInboundAdapter::new("h", 1, "/", "inbound", None, Mep::InOut, None);
    assert!(matches!(b.plan_request("GET", "/x", true), InboundAction::Channel));
    let c = HttpInboundAdapter::new_in_only_202("h", 1, "/", "inbound", None);
    assert!(matches!(c.plan_request("GET", "/x", true), InboundAction::Acknowledge));
    let ex = Exchange::new(Message::from_text("body"));
    assert_eq!(endpoints_answer(&ex, true), "body");
    assert_eq!(endpoints_answer(&ex, false), "");
}

#[test]
fn builder_applies_settings() {
    let a = HttpInboundBuilder::new()
        .host("0.0.0.0")
        .port(9000)
        .base_path("/svc")
        .channel("in")
        .register("get", "/a", "ep-a")
        .in_only_202()
        .build();
    assert_eq!(a.id(), "http-inbound:0.0.0.0:9000");
    assert_eq!(a.mep(), Mep::InOnly202);
    assert_eq!(a.base_path(), "/svc");
    assert_eq!(a.channel(), "in");
    assert_eq!(a.matched_endpoints("GET", "/a"), vec!["ep-a"]);
    let b = HttpInboundBuilder::new()
        .channel("in")
        .reply_channel("out")
        .in_only_202()
        .id("x")
        .build();
    assert_eq!(b.mep(), Mep::InOut);
    assert_eq!(b.reply_channel(), Some("out"));
    assert_eq!(b.id(), "x");
}

#[test]
fn ascii_uppercase() {
    assert_eq!(to_ascii_uppercase("get-ä1z"), "GET-ä1Z");
}

#[test]
fn endpoints_attach_to_an_adapter() {
    let mut a = HttpInboundAdapter::new_in_out("h", 1, "/", "inbound", None, None);
    let ep = EndpointBuilder::in_out().queue().id("orders-ep").channel("orders").build();
    ep.attach_http(&mut a, "post", "/orders");
    ep.attach_http_any(&mut a, "/any");
    assert_eq!(a.matched_endpoints("POST", "/orders"), vec!["orders-ep"]);
    assert!(a.matched_endpoints("GET", "/orders").is_empty());
    assert_eq!(a.matched_endpoints("DELETE", "/any"), vec!["orders-ep"]);
}
