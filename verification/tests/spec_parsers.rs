use allora::error::ErrorKind;
use allora::spec::aggregator::{AggregatorSpecYamlParser, AggregatorsSpecYamlParser};
use allora::spec::allora::AlloraSpecYamlParser;
use allora::spec::channel::{ChannelKindSpec, ChannelSpecYamlParser, ChannelsSpec, ChannelsSpecYamlParser};
use allora::message::Payload;
use allora::spec::filter::{FilterSpecYamlParser, FiltersSpecYamlParser};
use allora::spec::http_inbound::{HttpInboundAdapterSpecYamlParser, HttpInboundAdaptersSpecYamlParser};
use allora::spec::service::ServiceSpecYamlParser;

fn msg<T: std::fmt::Debug>(r: allora::error::Result<T>) -> String {
    let e = r.expect_err("error expected");
    assert_eq!(e.kind(), ErrorKind::Serialization);
    e.message().to_string()
}

#[test]
fn channel_documents() {
    let c = ChannelSpecYamlParser::parse_str("version: 1\nchannel:\n  kind: queue\n  id: q\n").unwrap();
    assert_eq!(c.kind(), ChannelKindSpec::Queue);
    assert_eq!(c.channel_id(), Some("q"));
    assert_eq!(msg(ChannelSpecYamlParser::parse_str("version: 1\n")), "missing 'channel'");
    assert_eq!(msg(ChannelSpecYamlParser::parse_str("channel: {}\n")), "missing 'version'");
    assert_eq!(msg(ChannelSpecYamlParser::parse_str("version: 1\nchannel: 3\n")), "'channel' must be a mapping");
    let cs = ChannelsSpecYamlParser::parse_str("version: 1\nchannels:\n  - kind: direct\n  - kind: queue\n    id: b\n").unwrap();
    assert_eq!(cs.channels().len(), 2);
    assert_eq!(cs.channels()[0].channel_id(), None);
    assert_eq!(msg(ChannelsSpecYamlParser::parse_str("version: 1\nchannels: x\n")), "'channels' must be a sequence");
}

#[test]
fn version_rules() {
    assert_eq!(msg(ChannelSpecYamlParser::parse_str("version: two\nchannel: {}\n")), "'version' must be integer");
    assert_eq!(
        msg(ChannelSpecYamlParser::parse_str("version: 2\nchannel:\n  kind: direct\n")),
        "unsupported version (expected 1)"
    );
}

#[test]
fn filter_documents() {
    let f = FilterSpecYamlParser::parse_str("version: 1\nfilter:\n  from: a\n  to: b\n  when: x\n").unwrap();
    assert_eq!(f.from(), "a");
    assert_eq!(f.to(), Some("b"));
    assert_eq!(f.when(), "x");
    assert_eq!(msg(FilterSpecYamlParser::parse_str("version: 1\n")), "missing 'filter'");
    assert_eq!(
        msg(FiltersSpecYamlParser::parse_str("version: 1\nfilters: []\n")),
        "'filters' sequence must not be empty (minItems=1)"
    );
    let fs = FiltersSpecYamlParser::parse_str("version: 1\nfilters:\n  - from: a\n    when: x\n  - id: f2\n    from: b\n    when: y\n").unwrap();
    assert_eq!(fs.filters().len(), 2);
    assert_eq!(fs.filters()[1].id(), Some("f2"));
}

#[test]
fn service_documents() {
    let s = ServiceSpecYamlParser::parse_str("version: 1\nservice-activator:\n  id: s1\n  ref-name: echo\n  from: a\n  to: b\n").unwrap();
    assert_eq!(s.id(), Some("s1"));
    assert_eq!(s.ref_name(), "echo");
    assert_eq!(msg(ServiceSpecYamlParser::parse_str("version: 1\n")), "missing 'service-activator'");
}

#[test]
fn aggregator_documents() {
    let a = AggregatorSpecYamlParser::parse_str(
        "version: 1\naggregator:\n  correlation_header: h\n  completion: c\n  strategy: s\n  store: m\n",
    )
    .unwrap();
    assert_eq!(a.correlation_header(), "h");
    assert_eq!(a.completion(), "c");
    assert_eq!(a.strategy(), Some("s"));
    assert_eq!(a.store(), Some("m"));
    assert_eq!(msg(AggregatorSpecYamlParser::parse_str("version: 1\n")), "missing 'aggregator'");
    assert_eq!(
        msg(AggregatorsSpecYamlParser::parse_str("version: 1\naggregators: []\n")),
        "'aggregators' sequence must not be empty (minItems=1)"
    );
    assert_eq!(
        msg(AggregatorsSpecYamlParser::parse_str("version: 1\naggregators:\n  - 5\n")),
        "aggregator entry must be a mapping"
    );
}

#[test]
fn inbound_adapter_documents() {
    let raw = "version: 1\nhttp-inbound-adapter:\n  host: 127.0.0.1\n  port: 8080\n  path: /orders\n  methods: [GET, POST]\n  request-channel: in\n  reply-channel: out\n";
    let a = HttpInboundAdapterSpecYamlParser::parse_str(raw).unwrap();
    assert_eq!(a.host(), "127.0.0.1");
    assert_eq!(a.port(), 8080);
    assert_eq!(a.path(), "/orders");
    assert_eq!(a.methods().len(), 2);
    assert_eq!(a.request_channel(), "in");
    assert_eq!(a.reply_channel(), Some("out"));
    let bad_port = "version: 1\nhttp-inbound-adapter:\n  host: h\n  port: 70000\n  path: /x\n  methods: [GET]\n  request-channel: in\n";
    assert_eq!(
        msg(HttpInboundAdapterSpecYamlParser::parse_str(bad_port)),
        "http-inbound-adapter.port out of range (1-65535)"
    );
    let bad_path = "version: 1\nhttp-inbound-adapter:\n  host: h\n  port: 80\n  path: x\n  methods: [GET]\n  request-channel: in\n";
    assert_eq!(
        msg(HttpInboundAdapterSpecYamlParser::parse_str(bad_path)),
        "http-inbound-adapter.path must start with '/'"
    );
    assert_eq!(
        msg(HttpInboundAdaptersSpecYamlParser::parse_str("version: 1\n")),
        "missing 'http-inbound-adapters'"
    );
}

#[test]
fn top_level_documents() {
    let s = AlloraSpecYamlParser::parse_str("version: 1\nchannels:\n  - kind: direct\n    id: a\n").unwrap();
    assert_eq!(s.version(), 1);
    assert!(s.filters_spec().is_none());
    assert_eq!(
        msg(AlloraSpecYamlParser::parse_str("version: 1\nchannels: 3\n")),
        "'channels' must be a sequence"
    );
    assert_eq!(
        msg(AlloraSpecYamlParser::parse_str("version: 1\nservice-activators: []\n")),
        "'service-activators' sequence must not be empty"
    );
}

#[test]
fn defaults() {
    assert_eq!(ChannelKindSpec::default(), ChannelKindSpec::Direct);
    let cs = ChannelsSpec::default();
    assert_eq!(cs.version(), 1);
    assert!(cs.channels().is_empty());
    assert!(matches!(Payload::default(), Payload::Empty));
}
