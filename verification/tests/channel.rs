use allora::channel::{new_queue, new_queue_with_id, Channel, ChannelKind, DirectChannel, QueueChannel};
use allora::message::{Exchange, Message};

fn text_ex(s: &str) -> Exchange {
    Exchange::new(Message::from_text(s))
}

#[test]
fn queue_is_first_in_first_out() {
    let mut q = QueueChannel::with_id("q");
    assert_eq!(q.id(), "q");
    assert!(q.try_receive().is_none());
    q.send(text_ex("a")).unwrap();
    q.send(text_ex("b")).unwrap();
    q.send(text_ex("c")).unwrap();
    assert_eq!(q.len(), 3);
    assert_eq!(q.try_receive().unwrap().in_msg.body_text(), Some("a"));
    assert_eq!(q.try_receive().unwrap().in_msg.body_text(), Some("b"));
    assert_eq!(q.try_receive().unwrap().in_msg.body_text(), Some("c"));
    assert!(q.try_receive().is_none());
    assert_eq!(q.len(), 0);
}

#[test]
fn correlation_round_trip_returns_the_sent_exchange() {
    let mut q = QueueChannel::with_id("q");
    q.send(text_ex("noise")).unwrap();
    let cid = q.send_with_correlation(text_ex("payload")).unwrap();
    assert!(cid.starts_with('c'));
    let back = q.receive_by_correlation(&cid).expect("found");
    assert_eq!(back.in_msg.body_text(), Some("payload"));
    assert_eq!(back.in_msg.header("corr_id"), Some(cid.as_str()));
    assert_eq!(back.in_msg.header("correlation_id"), Some(cid.as_str()));
    assert!(q.receive_by_correlation(&cid).is_none());
    assert_eq!(q.try_receive().unwrap().in_msg.body_text(), Some("noise"));
}

#[test]
fn existing_correlation_id_is_reused() {
    let mut q = QueueChannel::with_id("q");
    let mut ex = text_ex("x");
    ex.in_msg.set_header("corr_id", "mine");
    let cid = q.send_with_correlation(ex).unwrap();
    assert_eq!(cid, "mine");
    assert!(q.receive_by_correlation("other").is_none());
    assert!(q.receive_by_correlation("mine").is_some());
}

#[test]
fn correlation_ids_are_drawn_in_sequence() {
    let mut q = QueueChannel::with_id("q");
    let a = q.next_corr_id();
    let b = q.next_corr_id();
    assert_eq!(a, "c1");
    assert_eq!(b, "c2");
    let na: u64 = a[1..].parse().unwrap();
    let nb: u64 = b[1..].parse().unwrap();
    assert_eq!(nb, na + 1);
}

#[test]
fn random_ids_and_kinds() {
    let q = QueueChannel::with_random_id();
    assert!(q.id().starts_with("queue:"));
    assert_eq!(q.id().len(), "queue:".len() + 36);
    let d = DirectChannel::with_random_id();
    assert!(d.id().starts_with("direct:"));
    let c = new_queue_with_id("named");
    assert_eq!(c.id(), "named");
    assert_eq!(c.kind(), ChannelKind::Queue);
    assert_eq!(c.kind_name(), "queue");
    let r = new_queue();
    assert!(r.id().starts_with("queue:"));
    let dc = Channel::Direct(DirectChannel::with_id("d"));
    assert_eq!(dc.kind(), ChannelKind::Direct);
    assert_eq!(dc.kind_name(), "direct");
}
