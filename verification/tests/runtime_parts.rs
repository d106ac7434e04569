use allora::channel::{Channel, QueueChannel};
use allora::message::{Exchange, Message};
use allora::runtime::assembly::{AlloraRuntime, ServiceActivatorProcessor};
use allora::spec::service::ServiceActivatorSpec;

#[test]
fn service_binding_sticks() {
    let mut p = ServiceActivatorProcessor::new(ServiceActivatorSpec::new("svc", "in", "out"));
    assert!(!p.has_service());
    assert!(!p.has_service());
    p.bind_service();
    assert!(p.has_service());
    p.bind_service();
    assert!(p.has_service());
    assert_eq!(p.ref_name(), "svc");
}

#[test]
fn runtime_returns_the_stored_channels() {
    let mut q = QueueChannel::with_id("q");
    q.send(Exchange::new(Message::from_text("held"))).unwrap();
    let rt = AlloraRuntime::new(vec![Channel::Queue(q)]);
    let got = rt.queue_channel("q").expect("queue channel");
    assert_eq!(got.len(), 1);
    match rt.channel_by_id("q") {
        Some(Channel::Queue(c)) => assert_eq!(c.len(), 1),
        _ => panic!("expected the queue channel"),
    }
    assert_eq!(rt.channels().len(), 1);
    let mut chans = rt.into_channels();
    match chans.pop() {
        Some(Channel::Queue(mut c)) => {
            let ex = c.try_receive().expect("the held exchange");
            assert_eq!(ex.in_msg.body_text(), Some("held"));
        }
        _ => panic!("expected the queue channel"),
    }
}
