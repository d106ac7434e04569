use allora::error::ErrorKind;
use allora::message::{Exchange, Message};
use allora::patterns::filter::Filter;

fn ex_with_body(body: &str) -> Exchange {
    Exchange::new(Message::from_text(body))
}

fn build(when: &str) -> Filter {
    Filter::from_apl(when).expect("valid APL")
}

fn ex_with_header(key: &str, value: &str) -> Exchange {
    let mut m = Message::from_text("payload");
    m.set_header(key, value);
    Exchange::new(m)
}

#[test]
fn string_field_match() {
    let f = build(r#"body.json("$.action") == "closed""#);
    assert!(f.accepts(&ex_with_body(r#"{"action":"closed"}"#)));
    assert!(!f.accepts(&ex_with_body(r#"{"action":"opened"}"#)));
}

#[test]
fn nested_string_field_match() {
    let f = build(r#"body.json("$.pull_request.user.login") == "alice""#);
    let body = r#"{"pull_request":{"user":{"login":"alice"}}}"#;
    assert!(f.accepts(&ex_with_body(body)));
}

#[test]
fn bool_field_stringified() {
    let f = build(r#"body.json("$.pull_request.merged") == "true""#);
    assert!(f.accepts(&ex_with_body(r#"{"pull_request":{"merged":true}}"#)));
    assert!(!f.accepts(&ex_with_body(r#"{"pull_request":{"merged":false}}"#)));
}

#[test]
fn number_field_stringified() {
    let f = build(r#"body.json("$.amount") == "100""#);
    assert!(f.accepts(&ex_with_body(r#"{"amount":100}"#)));
    assert!(!f.accepts(&ex_with_body(r#"{"amount":101}"#)));
}

#[test]
fn null_field_matches_null_literal() {
    let f = build(r#"body.json("$.opt") == "null""#);
    assert!(f.accepts(&ex_with_body(r#"{"opt":null}"#)));
}

#[test]
fn missing_path_does_not_match() {
    let f = build(r#"body.json("$.missing") == "anything""#);
    assert!(!f.accepts(&ex_with_body(r#"{"present":1}"#)));
}

#[test]
fn non_json_body_does_not_match() {
    let f = build(r#"body.json("$.action") == "closed""#);
    assert!(!f.accepts(&ex_with_body("not json at all")));
}

#[test]
fn empty_body_does_not_match() {
    let f = build(r#"body.json("$.action") == "closed""#);
    assert!(!f.accepts(&ex_with_body("")));
}

#[test]
fn combinable_with_and() {
    let f = build(
        r#"body.json("$.action") == "closed" && body.json("$.pull_request.merged") == "true""#,
    );
    assert!(f.accepts(&ex_with_body(
        r#"{"action":"closed","pull_request":{"merged":true}}"#
    )));
    assert!(!f.accepts(&ex_with_body(
        r#"{"action":"closed","pull_request":{"merged":false}}"#
    )));
    assert!(!f.accepts(&ex_with_body(
        r#"{"action":"opened","pull_request":{"merged":true}}"#
    )));
}

#[test]
fn combinable_with_or() {
    let f =
        build(r#"body.json("$.action") == "closed" || body.json("$.action") == "synchronize""#);
    assert!(f.accepts(&ex_with_body(r#"{"action":"closed"}"#)));
    assert!(f.accepts(&ex_with_body(r#"{"action":"synchronize"}"#)));
    assert!(!f.accepts(&ex_with_body(r#"{"action":"opened"}"#)));
}

#[test]
fn json_array_index_and_nested_object_field() {
    let f = build(r#"body.json("$.items[1].name") == "b""#);
    assert!(f.accepts(&ex_with_body(r#"{"items":[{"name":"a"},{"name":"b"}]}"#)));
    assert!(!f.accepts(&ex_with_body(r#"{"items":[{"name":"b"}]}"#)));
}

#[test]
fn json_object_value_never_matches() {
    let f = build(r#"body.json("$.obj") == "x""#);
    assert!(!f.accepts(&ex_with_body(r#"{"obj":{"a":1}}"#)));
}

#[test]
fn header_equality_and_existence() {
    let f = build(r#"header("Priority") == "high""#);
    assert!(f.accepts(&ex_with_header("Priority", "high")));
    assert!(!f.accepts(&ex_with_header("Priority", "low")));
    assert!(!f.accepts(&ex_with_body("no header")));
    let g = build(r#"exists(header("trace"))"#);
    assert!(g.accepts(&ex_with_header("trace", "1")));
    assert!(!g.accepts(&ex_with_header("other", "1")));
}

#[test]
fn body_contains_and_body_equals() {
    let f = build(r#"body.contains("needle")"#);
    assert!(f.accepts(&ex_with_body("hay needle hay")));
    assert!(!f.accepts(&ex_with_body("hay")));
    let g = build("ping");
    assert!(g.accepts(&ex_with_body("ping")));
    assert!(!g.accepts(&ex_with_body("pong")));
}

#[test]
fn and_binds_tighter_than_or() {
    // a || b && c  ==  a || (b && c)
    let f = build(r#"body.contains("a") || body.contains("b") && body.contains("c")"#);
    assert!(f.accepts(&ex_with_body("a")));
    assert!(!f.accepts(&ex_with_body("b")));
    assert!(f.accepts(&ex_with_body("bc")));
    assert!(!f.accepts(&ex_with_body("x")));
}

#[test]
fn empty_expression_is_rejected() {
    let e = Filter::from_apl("   ").expect_err("empty");
    assert_eq!(e.kind(), ErrorKind::Serialization);
    assert_eq!(e.message(), "empty predicate");
}

#[test]
fn leading_operator_is_rejected() {
    let e = Filter::from_apl(r#"&& body.contains("a")"#).expect_err("leading op");
    assert_eq!(e.message(), "filter expression cannot start with a logical operator");
}

#[test]
fn trailing_operator_is_rejected() {
    let e = Filter::from_apl(r#"body.contains("a") ||"#).expect_err("trailing op");
    assert_eq!(e.message(), "filter expression cannot end with a logical operator");
}

#[test]
fn consecutive_operators_are_rejected() {
    let e = Filter::from_apl(r#"body.contains("a") && || body.contains("b")"#)
        .expect_err("consecutive ops");
    assert_eq!(e.message(), "consecutive logical operators are not allowed");
}

#[test]
fn explicit_id_is_kept_and_random_id_is_a_uuid() {
    let f = Filter::from_apl_with_id(Some("f1".to_string()), "x").unwrap();
    assert_eq!(f.id(), "f1");
    let g = Filter::from_apl("x").unwrap();
    assert_eq!(g.id().len(), 36);
    assert!(g.error_message().is_none());
}

#[test]
fn process_rejects_with_filtered_out_and_leaves_exchange_alone() {
    let f = build(r#"body.contains("yes")"#);
    let mut ok = ex_with_body("yes please");
    assert!(f.process(&mut ok).is_ok());
    let mut no = ex_with_body("nope");
    let e = f.process(&mut no).expect_err("rejected");
    assert_eq!(e.kind(), ErrorKind::Routing);
    assert_eq!(e.message(), "filtered out");
    assert_eq!(no.in_msg.body_text(), Some("nope"));
    assert!(no.out_msg.is_none());
}

#[test]
fn json_array_value_compares_as_its_json_text() {
    let f = build(r#"body.json("$.xs") == "[1,2]""#);
    assert!(f.accepts(&ex_with_body(r#"{"xs":[1, 2]}"#)));
    assert!(!f.accepts(&ex_with_body(r#"{"xs":[1,3]}"#)));
    let g = build(r#"body.json("$.ratio") == "1.5""#);
    assert!(g.accepts(&ex_with_body(r#"{"ratio":1.5}"#)));
    let h = build(r#"body.json("$.flag") == "false""#);
    assert!(h.accepts(&ex_with_body(r#"{"flag":false}"#)));
}

#[test]
fn rejection_carries_the_configured_message() {
    let f = build(r#"header("kind") == "a""#).with_error_message("only kind a");
    assert_eq!(f.error_message(), Some("only kind a"));
    let mut ex = ex_with_header("kind", "b");
    let err = f.process(&mut ex).unwrap_err();
    assert_eq!(err.kind(), ErrorKind::Routing);
    assert_eq!(err.message(), "only kind a");
    let mut ok = ex_with_header("kind", "a");
    assert!(f.process(&mut ok).is_ok());
    let plain = build(r#"header("kind") == "a""#);
    assert_eq!(plain.process(&mut ex).unwrap_err().message(), "filtered out");
}

#[test]
fn closure_filter_decides_by_its_predicate() {
    let f = Filter::new(|ex: &Exchange| ex.in_msg.header("vip").is_some());
    assert!(f.accepts(&ex_with_header("vip", "1")));
    assert!(!f.accepts(&ex_with_body("plain")));
    assert_eq!(f.id().len(), 36);
    let mut ex = ex_with_body("plain");
    assert_eq!(f.process(&mut ex).unwrap_err().message(), "filtered out");
}

#[test]
fn closure_filter_with_error_rejects_with_its_message() {
    let f = Filter::with_error(|ex: &Exchange| ex.in_msg.body_text() == Some("ok"), "not ok");
    assert_eq!(f.error_message(), Some("not ok"));
    let mut good = ex_with_body("ok");
    assert!(f.process(&mut good).is_ok());
    let mut bad = ex_with_body("nope");
    let err = f.process(&mut bad).unwrap_err();
    assert_eq!(err.kind(), ErrorKind::Routing);
    assert_eq!(err.message(), "not ok");
}
