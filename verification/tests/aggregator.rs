use allora::json::JsonValue;
use allora::message::{Exchange, Message, Payload};
use allora::patterns::aggregator::{
    Aggregator, Completion, CompletionCondition, GroupStore, InMemoryGroupStore, Strategy,
};
use std::sync::atomic::{AtomicUsize, Ordering};
use std::sync::Arc;

fn ex_with(header: &str, key: &str, msg: Message) -> Exchange {
    let mut e = Exchange::new(msg);
    e.in_msg.set_header(header, key);
    e
}

fn run<C: CompletionCondition>(agg: &mut Aggregator<C>, ex: &mut Exchange) {
    agg.process(ex, 0).unwrap();
}

#[test]
fn back_compat_size_two_concats_ab() {
    let mut agg = Aggregator::new("corr", 2);
    let mut ex1 = ex_with("corr", "g", Message::from_text("A"));
    run(&mut agg, &mut ex1);
    assert!(ex1.out_msg.is_none());
    let mut ex2 = ex_with("corr", "g", Message::from_text("B"));
    run(&mut agg, &mut ex2);
    assert_eq!(ex2.out_msg.unwrap().body_text(), Some("AB"));
}

#[test]
fn back_compat_three_messages() {
    let mut agg = Aggregator::new("corr", 3);
    let mut last = None;
    for s in ["A", "B", "C"] {
        let mut ex = ex_with("corr", "123", Message::from_text(s));
        run(&mut agg, &mut ex);
        last = Some(ex);
    }
    assert_eq!(last.unwrap().out_msg.unwrap().body_text(), Some("ABC"));
}

#[test]
fn ignores_messages_without_correlation_header() {
    let mut agg = Aggregator::new("corr", 2);
    for s in ["A", "B"] {
        let mut ex = Exchange::new(Message::from_text(s));
        run(&mut agg, &mut ex);
        assert!(ex.out_msg.is_none());
    }
}

#[test]
fn aggregates_multiple_batches_for_same_key() {
    let mut agg = Aggregator::new("corr", 2);
    let mut ex1 = ex_with("corr", "same", Message::from_text("A"));
    run(&mut agg, &mut ex1);
    assert!(ex1.out_msg.is_none());
    let mut ex2 = ex_with("corr", "same", Message::from_text("B"));
    run(&mut agg, &mut ex2);
    assert_eq!(ex2.out_msg.as_ref().unwrap().body_text(), Some("AB"));
    let mut ex3 = ex_with("corr", "same", Message::from_text("C"));
    run(&mut agg, &mut ex3);
    assert!(ex3.out_msg.is_none());
    let mut ex4 = ex_with("corr", "same", Message::from_text("D"));
    run(&mut agg, &mut ex4);
    assert_eq!(ex4.out_msg.as_ref().unwrap().body_text(), Some("CD"));
}

#[test]
fn concat_text_non_text_group_emits_nothing() {
    let mut agg = Aggregator::new("corr", 2);
    let mut ex1 = ex_with("corr", "m", Message::new(Payload::Bytes(vec![0, 1])));
    run(&mut agg, &mut ex1);
    let mut ex2 = ex_with("corr", "m", Message::new(Payload::Bytes(vec![2, 3])));
    run(&mut agg, &mut ex2);
    assert!(ex2.out_msg.is_none());
}

#[test]
fn clear_store_resets_groups() {
    let mut agg = Aggregator::new("corr", 2);
    let mut ex1 = ex_with("corr", "x", Message::from_text("A"));
    run(&mut agg, &mut ex1);
    agg.clear_store();
    let mut ex2 = ex_with("corr", "x", Message::from_text("B"));
    run(&mut agg, &mut ex2);
    assert!(
        ex2.out_msg.is_none(),
        "clear_store should reset the group; B should be the first of a new batch"
    );
}

#[test]
fn by_weight_completes_at_threshold() {
    let threshold: u64 = 7;
    let mut agg = Aggregator::weighted(
        "block",
        |m: &Message| {
            m.header("voting_power")
                .and_then(|s| s.parse().ok())
                .unwrap_or(0)
        },
        threshold,
    );
    for (vp, expect_out) in [(3u64, false), (3, false), (4, true)] {
        let mut ex = Exchange::new(Message::from_text(&format!("vote-vp{vp}")));
        ex.in_msg.set_header("block", "h=42");
        ex.in_msg.set_header("voting_power", &vp.to_string());
        run(&mut agg, &mut ex);
        assert_eq!(
            ex.out_msg.is_some(),
            expect_out,
            "vp={vp}: expected out_msg={expect_out}"
        );
    }
}

#[test]
fn by_weight_fires_exactly_at_threshold_boundary() {
    let mut agg = Aggregator::weighted(
        "block",
        |m: &Message| {
            m.header("voting_power")
                .and_then(|s| s.parse().ok())
                .unwrap_or(0)
        },
        6,
    );
    let mut ex1 = Exchange::new(Message::from_text("a"));
    ex1.in_msg.set_header("block", "h=1");
    ex1.in_msg.set_header("voting_power", "3");
    run(&mut agg, &mut ex1);
    assert!(ex1.out_msg.is_none());
    let mut ex2 = Exchange::new(Message::from_text("b"));
    ex2.in_msg.set_header("block", "h=1");
    ex2.in_msg.set_header("voting_power", "3");
    run(&mut agg, &mut ex2);
    assert!(ex2.out_msg.is_some(), "sum=6, threshold=6: should fire");
}

#[test]
fn by_weight_isolated_per_key() {
    let mut agg = Aggregator::weighted(
        "block",
        |m: &Message| {
            m.header("voting_power")
                .and_then(|s| s.parse().ok())
                .unwrap_or(0)
        },
        4,
    );
    for (block, vp, expect) in [
        ("A", 2, false),
        ("B", 1, false),
        ("A", 2, true),
        ("B", 1, false),
    ] {
        let mut ex = Exchange::new(Message::from_text("v"));
        ex.in_msg.set_header("block", block);
        ex.in_msg.set_header("voting_power", &vp.to_string());
        run(&mut agg, &mut ex);
        assert_eq!(ex.out_msg.is_some(), expect, "block={block} vp={vp}");
    }
}

#[test]
fn by_weight_missing_or_bad_weight_counts_zero() {
    let mut agg = Aggregator::with_completion(
        "block",
        Completion::ByWeight { header: "voting_power".to_string(), threshold: 1 },
    );
    let mut ex1 = Exchange::new(Message::from_text("a"));
    ex1.in_msg.set_header("block", "h");
    run(&mut agg, &mut ex1);
    assert!(ex1.out_msg.is_none());
    let mut ex2 = Exchange::new(Message::from_text("b"));
    ex2.in_msg.set_header("block", "h");
    ex2.in_msg.set_header("voting_power", "lots");
    run(&mut agg, &mut ex2);
    assert!(ex2.out_msg.is_none());
    let mut ex3 = Exchange::new(Message::from_text("c"));
    ex3.in_msg.set_header("block", "h");
    ex3.in_msg.set_header("voting_power", "1");
    run(&mut agg, &mut ex3);
    assert_eq!(ex3.out_msg.unwrap().body_text(), Some("abc"));
}

#[test]
fn by_timeout_lazy_completes_on_next_arrival() {
    let mut agg = Aggregator::timed("corr", 40);
    let mut ex1 = ex_with("corr", "t", Message::from_text("A"));
    agg.process(&mut ex1, 1000).unwrap();
    assert!(ex1.out_msg.is_none(), "first message: deadline not reached");
    let mut ex2 = ex_with("corr", "t", Message::from_text("B"));
    agg.process(&mut ex2, 1005).unwrap();
    assert!(ex2.out_msg.is_none(), "B arrived too soon");
    let mut ex3 = ex_with("corr", "t", Message::from_text("C"));
    agg.process(&mut ex3, 1065).unwrap();
    assert_eq!(ex3.out_msg.as_ref().unwrap().body_text(), Some("ABC"));
}

#[test]
fn json_array_strategy_emits_array_of_mixed_payloads() {
    let mut agg = Aggregator::new("corr", 4).with_strategy(Strategy::JsonArray);
    let mut ex1 = ex_with("corr", "j", Message::from_text("hi"));
    run(&mut agg, &mut ex1);
    let mut ex2 = ex_with("corr", "j", Message::new(Payload::Bytes(vec![1, 2])));
    run(&mut agg, &mut ex2);
    let obj = || JsonValue::Object(vec![("k".to_string(), JsonValue::Str("v".to_string()))]);
    let mut ex3 = ex_with("corr", "j", Message::new(Payload::Json(obj())));
    run(&mut agg, &mut ex3);
    let mut ex4 = ex_with("corr", "j", Message::new(Payload::Empty));
    run(&mut agg, &mut ex4);

    let out = ex4
        .out_msg
        .expect("JsonArray must always emit on completion");
    let Payload::Json(JsonValue::Array(arr)) = out.payload else {
        panic!("JsonArray strategy must emit Payload::Json(Array)");
    };
    assert_eq!(arr.len(), 4);
    assert_eq!(arr[0], JsonValue::Str("hi".into()));
    let bytes = JsonValue::Array(vec![
        JsonValue::Number("1".to_string()),
        JsonValue::Number("2".to_string()),
    ]);
    assert_eq!(arr[1], bytes);
    assert_eq!(arr[2], obj());
    assert_eq!(arr[3], JsonValue::Null);
}

#[test]
fn json_array_strategy_writes_bytes_as_decimal_numbers() {
    let mut agg = Aggregator::new("corr", 1).with_strategy(Strategy::JsonArray);
    let mut ex = ex_with("corr", "b", Message::new(Payload::Bytes(vec![0, 10, 255])));
    run(&mut agg, &mut ex);
    let out = ex.out_msg.expect("emitted");
    let expected = JsonValue::Array(vec![JsonValue::Array(vec![
        JsonValue::Number("0".to_string()),
        JsonValue::Number("10".to_string()),
        JsonValue::Number("255".to_string()),
    ])]);
    let Payload::Json(v) = out.payload else {
        panic!("JsonArray strategy must emit Payload::Json");
    };
    assert_eq!(v, expected);
}

#[test]
fn emit_signal_strategy_emits_empty_message() {
    let mut agg = Aggregator::new("corr", 2).with_strategy(Strategy::EmitSignal);
    let mut ex1 = ex_with("corr", "s", Message::from_text("x"));
    run(&mut agg, &mut ex1);
    assert!(ex1.out_msg.is_none());
    let mut ex2 = ex_with("corr", "s", Message::from_text("y"));
    run(&mut agg, &mut ex2);
    let out = ex2.out_msg.expect("signal");
    assert!(matches!(out.payload, Payload::Empty));
}

#[test]
fn store_append_take_clear() {
    let mut store = InMemoryGroupStore::new();
    let (g1, first1) = store.append("k", Message::from_text("a"), 10);
    assert_eq!(g1.len(), 1);
    assert_eq!(first1, 10);
    let (g2, first2) = store.append("k", Message::from_text("b"), 20);
    assert_eq!(g2.len(), 2);
    assert_eq!(first2, 10);
    let taken = store.take("k").expect("group present");
    assert_eq!(taken.len(), 2);
    assert_eq!(taken[0].body_text(), Some("a"));
    assert_eq!(taken[1].body_text(), Some("b"));
    assert!(store.take("k").is_none());
    store.append("z", Message::from_text("c"), 30);
    store.clear();
    assert!(store.take("z").is_none());
}

#[test]
fn completion_by_size_and_timeout() {
    let group = vec![Message::from_text("a"), Message::from_text("b")];
    assert!(Completion::BySize(2).is_complete(&group, 0, 0));
    assert!(!Completion::BySize(3).is_complete(&group, 0, 0));
    assert!(!Completion::ByTimeout(50).is_complete(&group, 100, 149));
    assert!(Completion::ByTimeout(50).is_complete(&group, 100, 150));
}

#[test]
fn by_predicate_completes() {
    // Completes when the group contains a message with body "STOP".
    let mut agg = Aggregator::when("corr", |g: &[Message]| {
        g.iter().any(|m| m.body_text() == Some("STOP"))
    });
    let mut ex1 = ex_with("corr", "x", Message::from_text("go"));
    agg.process(&mut ex1, 0).unwrap();
    assert!(ex1.out_msg.is_none());
    let mut ex2 = ex_with("corr", "x", Message::from_text("STOP"));
    agg.process(&mut ex2, 0).unwrap();
    assert_eq!(ex2.out_msg.as_ref().unwrap().body_text(), Some("goSTOP"));
}

/// Counting wrapper around the in-memory store: shows that `with_store`
/// swaps in a store of the caller's own.
struct CountingStore {
    inner: InMemoryGroupStore,
    appends: Arc<AtomicUsize>,
    takes: Arc<AtomicUsize>,
}

impl GroupStore for CountingStore {
    fn append(&mut self, key: &str, msg: Message, now: u64) -> (Vec<Message>, u64) {
        self.appends.fetch_add(1, Ordering::SeqCst);
        self.inner.append(key, msg, now)
    }
    fn take(&mut self, key: &str) -> Option<Vec<Message>> {
        self.takes.fetch_add(1, Ordering::SeqCst);
        self.inner.take(key)
    }
    fn clear(&mut self) {
        self.inner.clear();
    }
}

#[test]
fn custom_group_store_is_used() {
    let appends = Arc::new(AtomicUsize::new(0));
    let takes = Arc::new(AtomicUsize::new(0));
    let store = CountingStore {
        inner: InMemoryGroupStore::new(),
        appends: appends.clone(),
        takes: takes.clone(),
    };
    let mut agg = Aggregator::new("corr", 2).with_store(store);
    let mut ex1 = ex_with("corr", "k", Message::from_text("A"));
    agg.process(&mut ex1, 0).unwrap();
    let mut ex2 = ex_with("corr", "k", Message::from_text("B"));
    agg.process(&mut ex2, 0).unwrap();
    assert_eq!(ex2.out_msg.as_ref().unwrap().body_text(), Some("AB"));
    assert_eq!(appends.load(Ordering::SeqCst), 2);
    assert_eq!(takes.load(Ordering::SeqCst), 1);
}

/// A condition of the caller's own: complete once a message says "END".
struct UntilEnd;

impl CompletionCondition for UntilEnd {
    fn is_complete(&self, group: &[Message], _first_seen: u64, _now: u64) -> bool {
        group.last().and_then(|m| m.body_text()) == Some("END")
    }
}

#[test]
fn custom_completion_condition_is_used() {
    let mut agg = Aggregator::with_completion("corr", UntilEnd).with_strategy(Strategy::ConcatText);
    for (body, done) in [("a", false), ("b", false), ("END", true)] {
        let mut ex = ex_with("corr", "e", Message::from_text(body));
        agg.process(&mut ex, 0).unwrap();
        assert_eq!(ex.out_msg.is_some(), done);
    }
}
