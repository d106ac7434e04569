use allora::message::Message;
use allora::patterns::aggregator::{Completion, CompletionCondition, Strategy};
use allora::runtime::builders::{build_aggregator_from_spec, build_aggregators_from_spec};
use allora::runtime::registry::{
    PatternRegistry, STRATEGY_CONCAT_TEXT, STRATEGY_EMIT_SIGNAL, STRATEGY_JSON_ARRAY,
};
use allora::spec::aggregator::{AggregatorSpec, AggregatorsSpec};
use allora::spec::allora::AlloraSpecYamlParser;

fn registry_with_test_completion() -> PatternRegistry {
    let mut r = PatternRegistry::with_defaults();
    r.register_completion("test.count_at_least_3", Completion::BySize(3));
    r
}

fn has_id<T>(built: &[(String, T)], id: &str) -> bool {
    built.iter().any(|(k, _)| k == id)
}

#[test]
fn build_single_with_completion_only() {
    let spec = AggregatorSpec::new("corr", "test.count_at_least_3");
    let _agg = build_aggregator_from_spec(&spec, &registry_with_test_completion())
        .expect("build succeeds");
}

#[test]
fn build_single_with_strategy_and_store_refs_resolved() {
    let mut registry = registry_with_test_completion();
    registry.register_store("test.in_mem");
    let spec = AggregatorSpec::new("corr", "test.count_at_least_3")
        .set_strategy(STRATEGY_EMIT_SIGNAL)
        .set_store("test.in_mem");
    let _agg = build_aggregator_from_spec(&spec, &registry).expect("build succeeds");
}

#[test]
fn build_fails_on_unknown_completion_with_helpful_message() {
    let spec = AggregatorSpec::new("corr", "nope.does.not.exist");
    let err = build_aggregator_from_spec(&spec, &PatternRegistry::with_defaults())
        .expect_err("must error");
    let msg = err.message();
    assert!(
        msg.contains("unknown completion 'nope.does.not.exist'"),
        "error message should name the missing key, got: {msg}"
    );
}

#[test]
fn build_fails_on_unknown_strategy() {
    let spec = AggregatorSpec::new("corr", "test.count_at_least_3").set_strategy("nope");
    let err = build_aggregator_from_spec(&spec, &registry_with_test_completion())
        .expect_err("must error");
    assert!(err.message().contains("unknown strategy 'nope'"));
}

#[test]
fn build_fails_on_unknown_store() {
    let spec = AggregatorSpec::new("corr", "test.count_at_least_3").set_store("nope");
    let err = build_aggregator_from_spec(&spec, &registry_with_test_completion())
        .expect_err("must error");
    assert!(err.message().contains("unknown store 'nope'"));
}

#[test]
fn collection_auto_ids_and_uniqueness() {
    let r = registry_with_test_completion();
    let spec = AggregatorsSpec::new(1)
        .add(AggregatorSpec::with_id(
            "explicit.a",
            "corr",
            "test.count_at_least_3",
        ))
        .add(AggregatorSpec::new("corr", "test.count_at_least_3"))
        .add(AggregatorSpec::new("corr2", "test.count_at_least_3"));
    let built = build_aggregators_from_spec(spec, &r).expect("build succeeds");
    assert_eq!(built.len(), 3);
    assert!(has_id(&built, "explicit.a"));
    assert!(has_id(&built, "aggregator:auto.1"));
    assert!(has_id(&built, "aggregator:auto.2"));
}

#[test]
fn collection_rejects_duplicate_explicit_ids() {
    let r = registry_with_test_completion();
    let spec = AggregatorsSpec::new(1)
        .add(AggregatorSpec::with_id("dup", "corr", "test.count_at_least_3"))
        .add(AggregatorSpec::with_id("dup", "corr2", "test.count_at_least_3"));
    let err = build_aggregators_from_spec(spec, &r).expect_err("must error");
    assert!(err.message().contains("duplicate aggregator.id 'dup'"));
}

#[test]
fn auto_ids_skip_past_explicit_reserved_pattern() {
    let r = registry_with_test_completion();
    let spec = AggregatorsSpec::new(1)
        .add(AggregatorSpec::with_id(
            "aggregator:auto.5",
            "corr",
            "test.count_at_least_3",
        ))
        .add(AggregatorSpec::new("corr", "test.count_at_least_3"));
    let built = build_aggregators_from_spec(spec, &r).expect("build succeeds");
    assert!(has_id(&built, "aggregator:auto.5"));
    assert!(has_id(&built, "aggregator:auto.6"));
}

#[test]
fn end_to_end_allora_yaml_with_aggregators_section() {
    let raw = r#"
version: 1
channels:
  - kind: direct
    id: attestations
aggregators:
  - id: finality_quorum
    correlation_header: block_hash
    completion: test.count_at_least_3
    strategy: allora.emit_signal
  - correlation_header: oracle_submission_id
    completion: test.count_at_least_3
"#;
    let parsed = AlloraSpecYamlParser::parse_str(raw).expect("yaml parse ok");
    assert_eq!(parsed.version(), 1);
    assert_eq!(parsed.channels_spec().channels().len(), 1);
    let aggs_spec = parsed
        .aggregators_spec()
        .expect("aggregators section present");
    assert_eq!(aggs_spec.aggregators().len(), 2);
    assert_eq!(aggs_spec.aggregators()[0].id(), Some("finality_quorum"));
    assert_eq!(aggs_spec.aggregators()[1].id(), None);

    let mut registry = PatternRegistry::with_defaults();
    registry.register_completion("test.count_at_least_3", Completion::BySize(3));
    let built = build_aggregators_from_spec(aggs_spec.duplicate(), &registry)
        .expect("aggregators build ok");
    assert_eq!(built.len(), 2);
    assert!(has_id(&built, "finality_quorum"));
    assert!(has_id(&built, "aggregator:auto.1"));
}

#[test]
fn end_to_end_yaml_unknown_strategy_surfaces_clear_error() {
    let raw = r#"
version: 1
aggregators:
  - id: bad
    correlation_header: x
    completion: test.count_at_least_3
    strategy: nope.unknown
"#;
    let parsed = AlloraSpecYamlParser::parse_str(raw).expect("yaml parse ok");
    let mut registry = PatternRegistry::with_defaults();
    registry.register_completion("test.count_at_least_3", Completion::BySize(3));
    let err = build_aggregators_from_spec(
        parsed.into_aggregators_spec().expect("aggregators present"),
        &registry,
    )
    .expect_err("must error on unknown strategy");
    let msg = err.message();
    assert!(
        msg.contains("unknown strategy 'nope.unknown'"),
        "error must name the unknown ref, got: {msg}"
    );
}

#[test]
fn empty_registry_returns_none_for_everything() {
    let r = PatternRegistry::new();
    assert!(r.completion("anything").is_none());
    assert!(r.strategy("anything").is_none());
    assert!(!r.store("anything"));
    assert!(r.completion_names().is_empty());
}

#[test]
fn with_defaults_registers_all_three_built_in_strategies() {
    let r = PatternRegistry::with_defaults();
    assert!(r.strategy(STRATEGY_CONCAT_TEXT).is_some());
    assert!(r.strategy(STRATEGY_JSON_ARRAY).is_some());
    assert!(r.strategy(STRATEGY_EMIT_SIGNAL).is_some());
    assert!(r.completion_names().is_empty());
    assert!(r.store_names().is_empty());
}

#[test]
fn register_then_lookup_completion() {
    let mut r = PatternRegistry::new();
    r.register_completion("chain.test_quorum", Completion::BySize(3));
    let c = r.completion("chain.test_quorum").expect("registered");
    let g: Vec<Message> = (0..3).map(|_| Message::empty()).collect();
    assert!(c.is_complete(&g, 0, 0));
    let g2: Vec<Message> = (0..2).map(|_| Message::empty()).collect();
    assert!(!c.is_complete(&g2, 0, 0));
}

#[test]
fn registration_overwrites_existing_entry() {
    let mut r = PatternRegistry::new();
    r.register_completion("k", Completion::BySize(1));
    r.register_completion("k", Completion::BySize(99));
    let c = r.completion("k").unwrap();
    let g: Vec<Message> = (0..5).map(|_| Message::empty()).collect();
    assert!(!c.is_complete(&g, 0, 0));
}

#[test]
fn strategies_resolve_to_their_kinds_and_names_are_listed() {
    let mut r = PatternRegistry::with_defaults();
    assert_eq!(r.strategy(STRATEGY_JSON_ARRAY), Some(Strategy::JsonArray));
    r.register_strategy("mine", Strategy::ConcatText);
    assert_eq!(r.strategy("mine"), Some(Strategy::ConcatText));
    r.register_store("s1");
    assert!(r.store("s1"));
    assert_eq!(r.store_names(), vec!["s1".to_string()]);
    assert_eq!(r.strategy_names().len(), 4);
}

#[test]
fn unknown_completion_lists_registered_names() {
    let r = registry_with_test_completion();
    let spec = AggregatorSpec::new("corr", "missing");
    let err = build_aggregator_from_spec(&spec, &r).unwrap_err();
    assert!(err.message().contains("missing"));
    assert!(err.message().contains("test.count_at_least_3"));
}
