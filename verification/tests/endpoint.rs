use allora::channel::{Channel, DirectChannel};
use allora::endpoint::{EndpointBuilder, EndpointSource};
use allora::message::{Exchange, Message};

#[test]
fn in_out_endpoint_stamps_source_and_is_fifo() {
    let mut ep = EndpointBuilder::in_out()
        .queue()
        .id("ep1")
        .channel("inbound")
        .source(EndpointSource::Http {
            adapter_id: "a1".to_string(),
            method: "POST".to_string(),
            path: "/orders".to_string(),
        })
        .build();
    assert_eq!(ep.id(), "ep1");
    assert_eq!(ep.channel(), Some("inbound"));
    ep.send(Exchange::new(Message::from_text("one"))).unwrap();
    ep.send(Exchange::new(Message::from_text("two"))).unwrap();
    let first = ep.try_receive().unwrap();
    assert_eq!(first.in_msg.body_text(), Some("one"));
    assert_eq!(first.in_msg.header("source.kind"), Some("http"));
    assert_eq!(first.in_msg.header("source.adapter_id"), Some("a1"));
    assert_eq!(first.in_msg.header("source.http.method"), Some("POST"));
    assert_eq!(first.in_msg.header("source.http.path"), Some("/orders"));
    assert_eq!(ep.try_receive().unwrap().in_msg.body_text(), Some("two"));
    assert!(ep.try_receive().is_none());
}

#[test]
fn stamping_keeps_headers_already_set() {
    let src = EndpointSource::Channel { channel_id: "c9".to_string() };
    let mut ex = Exchange::new(Message::from_text("x"));
    ex.in_msg.set_header("source.kind", "custom");
    src.apply_headers(&mut ex);
    assert_eq!(ex.in_msg.header("source.kind"), Some("custom"));
    assert_eq!(ex.in_msg.header("source.channel_id"), Some("c9"));
}

#[test]
fn source_channel_and_generated_id() {
    let ch = Channel::Direct(DirectChannel::with_id("feed"));
    let mut ep = EndpointBuilder::in_out().queue().source_channel(&ch).build();
    assert!(ep.id().starts_with("endpoint:"));
    assert_eq!(ep.id().len(), "endpoint:".len() + 36);
    ep.send(Exchange::new(Message::from_text("m"))).unwrap();
    let got = ep.try_receive().unwrap();
    assert_eq!(got.in_msg.header("source.kind"), Some("channel"));
    assert_eq!(got.in_msg.header("source.channel_id"), Some("feed"));
}

#[test]
fn in_only_endpoint_never_hands_out() {
    let mut ep = EndpointBuilder::in_only().queue().id("sink").build();
    assert_eq!(ep.id(), "sink");
    ep.send(Exchange::new(Message::from_text("m"))).unwrap();
    assert!(ep.try_receive().is_none());
}

#[test]
fn stamping_twice_is_stamping_once() {
    let src = EndpointSource::Http {
        adapter_id: "a".to_string(),
        method: "GET".to_string(),
        path: "/p".to_string(),
    };
    let mut once = Exchange::new(Message::from_text("x"));
    src.apply_headers(&mut once);
    let mut twice = once.duplicate();
    src.apply_headers(&mut twice);
    for k in ["source.kind", "source.adapter_id", "source.http.method", "source.http.path"] {
        assert_eq!(once.in_msg.header(k), twice.in_msg.header(k));
    }
    assert_eq!(once.in_msg.headers.len(), twice.in_msg.headers.len());
}
