use allora::channel::ChannelKind;
use allora::error::ErrorKind;
use allora::message::{Exchange, Message};
use allora::runtime::dsl::{
    build_channel_from_str, build_filter_from_str, build_runtime_from_str,
    build_service_from_str, choose_config, join_config, missing_config_error, read_error,
    runtime_override, try_build_runtime_from_str, Candidate, DslFormat, Runtime,
};
use allora::runtime::wiring::{
    filter_step, plan_filter_wirings, plan_http_outbound_wirings, plan_service_wirings,
};

const FULL: &str = r#"
version: 1
channels:
  - kind: direct
    id: inbound
  - kind: queue
    id: high
  - kind: direct
    id: results
filters:
  - id: only-high
    from: inbound
    to: high
    when: header("Priority") == "high"
  - from: inbound
    when: body.contains("x")
service-activators:
  - ref-name: echo
    from: inbound
    to: results
http-outbound-adapters:
  - id: out
    url: http://127.0.0.1:9/
    from: inbound
    to: results
  - url: https://example.com/
"#;

#[test]
fn formats_from_path_extensions() {
    assert_eq!(DslFormat::from_path("conf/allora.yml"), Some(DslFormat::Yaml));
    assert_eq!(DslFormat::from_path("a.YAML"), Some(DslFormat::Yaml));
    assert_eq!(DslFormat::from_path("a.json"), Some(DslFormat::Json));
    assert_eq!(DslFormat::from_path("a.xml"), Some(DslFormat::Xml));
    assert_eq!(DslFormat::from_path("a.toml"), None);
    assert_eq!(DslFormat::from_path("noext"), None);
}

#[test]
fn single_components_from_text() {
    let ch = build_channel_from_str("version: 1\nchannel:\n  kind: direct\n  id: demo", DslFormat::Yaml)
        .unwrap();
    assert_eq!(ch.id(), "demo");
    assert_eq!(ch.kind(), ChannelKind::Direct);
    let f = build_filter_from_str(
        "version: 1\nfilter:\n  id: f\n  from: a\n  when: body.contains(\"ok\")\n",
        DslFormat::Yaml,
    )
    .unwrap();
    assert_eq!(f.id(), "f");
    assert!(f.accepts(&Exchange::new(Message::from_text("is ok"))));
    let s = build_service_from_str(
        "version: 1\nservice-activator:\n  ref-name: svc\n  from: a\n  to: b\n",
        DslFormat::Yaml,
    )
    .unwrap();
    let mut ex = Exchange::new(Message::from_text("m"));
    s.process(&mut ex).unwrap();
    assert_eq!(ex.in_msg.header("service-activator.ref-name"), Some("svc"));
}

#[test]
fn other_formats_are_not_supported_yet() {
    let e = build_channel_from_str("{}", DslFormat::Json).unwrap_err();
    assert_eq!(e.kind(), ErrorKind::Serialization);
    assert_eq!(e.message(), "json format not yet supported");
    let e = build_runtime_from_str("<x/>", DslFormat::Xml).unwrap_err();
    assert_eq!(e.message(), "xml format not yet supported");
}

#[test]
fn runtime_from_text_holds_every_section() {
    let rt = build_runtime_from_str(FULL, DslFormat::Yaml).expect("runtime");
    assert_eq!(rt.channel_count(), 3);
    assert!(rt.channel_is("high", ChannelKind::Queue));
    assert!(rt.queue_channel("high").is_some());
    assert!(rt.direct_channel("inbound").is_some());
    assert!(rt.channel_by_id("missing").is_none());
    assert_eq!(rt.filter_count(), 2);
    assert_eq!(rt.filters()[0].id(), "only-high");
    assert_eq!(rt.filters()[1].id(), "filter:auto.1");
    assert_eq!(rt.filters()[1].to(), None);
    assert_eq!(rt.service_processor_count(), 1);
    assert_eq!(rt.http_outbound_adapter_count(), 2);
    assert_eq!(rt.http_outbound_adapters()[0].id(), "out");
    assert_eq!(rt.http_outbound_adapters()[1].id(), "http-outbound-adapter:auto.1");
}

#[test]
fn wiring_plans_follow_the_runtime() {
    let rt = build_runtime_from_str(FULL, DslFormat::Yaml).unwrap();
    let fw = plan_filter_wirings(&rt);
    assert_eq!(fw.len(), 1);
    assert_eq!(fw[0].index, 0);
    assert_eq!(fw[0].from, "inbound");
    assert_eq!(fw[0].to, "high");
    let sw = plan_service_wirings(&rt, &vec!["echo".to_string(), "other".to_string()]);
    assert_eq!(sw.len(), 1);
    assert_eq!(sw[0].ref_name, "echo");
    assert_eq!(sw[0].to, "results");
    let ow = plan_http_outbound_wirings(&rt);
    assert_eq!(ow.len(), 1);
    assert_eq!(ow[0].id, "out");
    assert_eq!(ow[0].to.as_deref(), Some("results"));
    let mut high = Exchange::new(Message::from_text("m"));
    high.in_msg.set_header("Priority", "high");
    assert!(filter_step(&rt, 0, high).is_some());
    assert!(filter_step(&rt, 0, Exchange::new(Message::from_text("m"))).is_none());
}

#[test]
fn runtime_errors_surface_in_order() {
    let dup = "version: 1\nchannels:\n  - kind: direct\n    id: a\n  - kind: queue\n    id: a\n";
    let e = build_runtime_from_str(dup, DslFormat::Yaml).unwrap_err();
    assert_eq!(e.kind(), ErrorKind::Serialization);
    assert!(e.message().contains("duplicate"));
    let bad = try_build_runtime_from_str("version: [", DslFormat::Yaml).expect("checked");
    assert!(bad.unwrap_err().message().starts_with("yaml parse error: "));
}

#[test]
fn counter_overflow_is_reported_as_none() {
    let raw = "version: 1\nchannels: []\nfilters:\n  - id: filter:auto.18446744073709551615\n    from: a\n    when: x\n  - from: a\n    when: y\n";
    assert!(try_build_runtime_from_str(raw, DslFormat::Yaml).is_none());
    let ok = "version: 1\nchannels: []\nfilters:\n  - id: filter:auto.7\n    from: a\n    when: x\n  - from: a\n    when: y\n";
    let rt = try_build_runtime_from_str(ok, DslFormat::Yaml).unwrap().unwrap();
    assert_eq!(rt.filters()[1].id(), "filter:auto.8");
}

#[test]
fn configuration_discovery() {
    assert_eq!(
        runtime_override(&vec!["--x".to_string(), "--runtime".to_string(), "cfg.yml".to_string()]),
        Some("cfg.yml".to_string())
    );
    assert_eq!(runtime_override(&vec!["--runtime=dir".to_string()]), Some("dir".to_string()));
    assert_eq!(runtime_override(&vec!["--runtime".to_string()]), None);
    assert_eq!(runtime_override(&vec![]), None);
    assert_eq!(join_config(""), "allora.yml");
    assert_eq!(join_config("conf"), "conf/allora.yml");
    assert_eq!(join_config("conf/"), "conf/allora.yml");
    let dir = Candidate { path: "etc".to_string(), flag: true };
    assert_eq!(choose_config(Some(dir), None, true, None), "etc/allora.yml");
    let file = Candidate { path: "x.yml".to_string(), flag: false };
    assert_eq!(choose_config(None, Some(file), true, None), "x.yml");
    assert_eq!(choose_config(None, None, true, None), "allora.yml");
    let exe = Candidate { path: "/opt/bin/allora.yml".to_string(), flag: true };
    assert_eq!(choose_config(None, None, false, Some(exe)), "/opt/bin/allora.yml");
    let missing = Candidate { path: "/opt/bin/allora.yml".to_string(), flag: false };
    assert_eq!(choose_config(None, None, false, Some(missing)), "allora.yml");
    assert_eq!(missing_config_error("p").message(), "config file 'p' not found");
    assert_eq!(missing_config_error("p").kind(), ErrorKind::Runtime);
    assert_eq!(read_error("boom").message(), "read error: boom");
    let r = Runtime::new().with_config_file("a.yml");
    assert_eq!(r.config_path(), Some("a.yml"));
    assert_eq!(Runtime::default().config_path(), None);
}

#[test]
fn generated_channel_ids_skip_taken_ones() {
    let raw = "version: 1\nchannels:\n  - kind: direct\n    id: channel:auto.1\n  - kind: queue\n  - kind: direct\n    id: channel:auto.3\n  - kind: direct\n";
    let rt = build_runtime_from_str(raw, DslFormat::Yaml).unwrap();
    let ids = rt.channel_ids();
    assert_eq!(ids, vec!["channel:auto.1", "channel:auto.2", "channel:auto.3", "channel:auto.4"]);
}

#[test]
fn yaml_without_filters_is_a_clean_noop() {
    let yaml = r#"
version: 1
channels:
  - kind: direct
    id: inbound
"#;
    let rt = build_runtime_from_str(yaml, DslFormat::Yaml).unwrap();
    assert_eq!(rt.filter_count(), 0);
    assert!(plan_filter_wirings(&rt).is_empty());
}

#[test]
fn yaml_without_outbound_adapters_is_a_clean_noop() {
    let yaml = r#"
version: 1
channels:
  - kind: direct
    id: inbound
"#;
    let rt = build_runtime_from_str(yaml, DslFormat::Yaml).unwrap();
    assert_eq!(rt.http_outbound_adapter_count(), 0);
    assert!(plan_http_outbound_wirings(&rt).is_empty());
}

#[test]
fn filter_forwards_accepted_and_drops_rejected() {
    let yaml = r#"
version: 1
channels:
  - kind: direct
    id: inbound
  - kind: direct
    id: high_priority
filters:
  - id: filt.priority
    from: inbound
    to: high_priority
    when: header("Priority") == "high"
"#;
    let rt = build_runtime_from_str(yaml, DslFormat::Yaml).unwrap();
    let plan = plan_filter_wirings(&rt);
    assert_eq!(plan.len(), 1);
    assert_eq!(plan[0].from, "inbound");
    assert_eq!(plan[0].to, "high_priority");
    let mut got: Vec<String> = Vec::new();
    let mut low = Exchange::new(Message::from_text("low"));
    low.in_msg.set_header("Priority", "low");
    let mut high = Exchange::new(Message::from_text("high"));
    high.in_msg.set_header("Priority", "high");
    for ex in [Exchange::new(Message::from_text("no-header")), low, high] {
        if let Some(forwarded) = filter_step(&rt, plan[0].index, ex) {
            got.push(forwarded.in_msg.body_text().unwrap_or("").to_string());
        }
    }
    assert_eq!(
        got,
        vec!["high".to_string()],
        "only Priority=high should reach high_priority; got {got:?}"
    );
}
