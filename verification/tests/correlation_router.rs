use allora::error::ErrorKind;
use allora::message::{Exchange, Message};
use allora::patterns::correlation::CorrelationInitializer;
use allora::patterns::router::{ContentBasedRouter, Route};

#[test]
fn correlation_initializer_adds_and_mirrors_id() {
    let init = CorrelationInitializer::with_mirror("x-trace");
    let mut ex = Exchange::new(Message::from_text("p"));
    init.process(&mut ex).unwrap();
    let cid = ex.in_msg.header("correlation_id").expect("id").to_string();
    assert_eq!(cid.len(), 36);
    assert_eq!(ex.in_msg.header("x-trace"), Some(cid.as_str()));
    init.process(&mut ex).unwrap();
    assert_eq!(ex.in_msg.header("correlation_id"), Some(cid.as_str()));
}

#[test]
fn correlation_initializer_keeps_existing_id() {
    let init = CorrelationInitializer::with_mirror("x-trace");
    let mut ex = Exchange::new(Message::from_text("p"));
    ex.in_msg.set_header("correlation_id", "given");
    init.process(&mut ex).unwrap();
    assert_eq!(ex.in_msg.header("correlation_id"), Some("given"));
    assert_eq!(ex.in_msg.header("x-trace"), Some("given"));
    let plain = CorrelationInitializer::new();
    let mut ex2 = Exchange::new(Message::from_text("q"));
    plain.process(&mut ex2).unwrap();
    assert!(ex2.in_msg.header("correlation_id").is_some());
    assert!(ex2.in_msg.header("x-trace").is_none());
}

#[test]
fn correlation_initializer_overwrites_stale_mirror() {
    let init = CorrelationInitializer::with_mirror("x-trace");
    let mut ex = Exchange::new(Message::from_text("p"));
    ex.in_msg.set_header("correlation_id", "given");
    ex.in_msg.set_header("x-trace", "stale");
    init.process(&mut ex).unwrap();
    assert_eq!(ex.in_msg.header("correlation_id"), Some("given"));
    assert_eq!(ex.in_msg.header("x-trace"), Some("given"));
}

#[test]
fn correlation_initializer_generates_uuid_v4_text() {
    let init = CorrelationInitializer::new();
    let mut ex = Exchange::new(Message::from_text("p"));
    init.process(&mut ex).unwrap();
    let cid = ex.in_msg.header("correlation_id").unwrap().to_string();
    let cs: Vec<char> = cid.chars().collect();
    assert_eq!(cs.len(), 36);
    for (i, c) in cs.iter().enumerate() {
        if i == 8 || i == 13 || i == 18 || i == 23 {
            assert_eq!(*c, '-');
        } else {
            assert!(c.is_ascii_hexdigit() && !c.is_ascii_uppercase());
        }
    }
    assert_eq!(cs[14], '4');
}

#[test]
fn router_routes_by_header_value_last_registration_wins() {
    let r = ContentBasedRouter::new("type")
        .when("a", 1u32)
        .when("b", 2u32)
        .when("a", 3u32);
    assert_eq!(r.header(), "type");
    let mut ex = Exchange::new(Message::from_text("x"));
    ex.in_msg.set_header("type", "a");
    assert_eq!(*r.select(&ex).unwrap(), 3);
    ex.in_msg.set_header("type", "b");
    assert_eq!(*r.select(&ex).unwrap(), 2);
    ex.in_msg.set_header("type", "zzz");
    let e = r.select(&ex).unwrap_err();
    assert_eq!(e.kind(), ErrorKind::Routing);
    assert_eq!(e.message(), "no matching route");
    let none = Exchange::new(Message::from_text("x"));
    assert!(r.select(&none).is_err());
}

#[test]
fn route_keeps_processors_in_order() {
    let route = Route::new().add("first").add("second").build();
    assert_eq!(route.processors(), &["first", "second"]);
}
