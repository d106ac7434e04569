use allora::error::Error as RuntimeError;
use allora::spec::http_outbound::{
    HttpOutboundAdapterSpec, HttpOutboundAdapterSpecYamlParser, HttpOutboundAdaptersSpec,
    HttpOutboundAdaptersSpecYamlParser,
};

#[test]
fn parse_success_full() {
    let raw = r#"version: 1
http-outbound-adapter:
  id: http.outboundEcho
  url: http://127.0.0.1:8080/api/echo
  method: POST
  use-out-msg: false
"#;
    let spec = HttpOutboundAdapterSpecYamlParser::parse_str(raw)
        .expect("parse outbound adapter spec full");
    assert_eq!(spec.id(), Some("http.outboundEcho"));
    assert_eq!(spec.url(), "http://127.0.0.1:8080/api/echo");
    assert_eq!(spec.method(), Some("POST"));
    assert!(!spec.use_out_msg(), "use-out-msg override should be false");
}

#[test]
fn parse_success_minimal_defaults() {
    let raw = r#"version: 1
http-outbound-adapter:
  url: https://10.0.0.5/
"#;
    let spec = HttpOutboundAdapterSpecYamlParser::parse_str(raw)
        .expect("parse outbound adapter spec minimal");
    assert!(spec.id().is_none());
    assert_eq!(spec.url(), "https://10.0.0.5/");
    assert!(spec.method().is_none());
    assert!(spec.use_out_msg(), "default use-out-msg should be true");
}

#[test]
fn parse_success_https() {
    let raw = r#"version: 1
http-outbound-adapter:
  id: chain.submit
  url: https://devnet.fialucci.org/oracle/submissions
  method: POST
"#;
    let spec =
        HttpOutboundAdapterSpecYamlParser::parse_str(raw).expect("parse https outbound spec");
    assert_eq!(spec.url(), "https://devnet.fialucci.org/oracle/submissions");
}

#[test]
fn http_outbound_adapter_spec_yaml_missing_root_error() {
    let raw = "version: 1";
    let err =
        HttpOutboundAdapterSpecYamlParser::parse_str(raw).expect_err("expected missing root error");
    match err {
        RuntimeError::Serialization(msg) => {
            assert!(msg.contains("missing 'http-outbound-adapter'"))
        }
        other => panic!("unexpected error: {other:?}"),
    }
}

#[test]
fn missing_url_error() {
    let raw = r#"version: 1
http-outbound-adapter:
  method: POST
"#;
    let err =
        HttpOutboundAdapterSpecYamlParser::parse_str(raw).expect_err("expected missing url error");
    match err {
        RuntimeError::Serialization(msg) => {
            assert!(msg.contains("url"), "error should mention url, got: {msg}");
        }
        other => panic!("unexpected error: {other:?}"),
    }
}

#[test]
fn empty_url_error() {
    let raw = r#"version: 1
http-outbound-adapter:
  url: ""
"#;
    let err =
        HttpOutboundAdapterSpecYamlParser::parse_str(raw).expect_err("expected empty url error");
    match err {
        RuntimeError::Serialization(msg) => assert!(msg.contains("url must not be empty")),
        other => panic!("unexpected error: {other:?}"),
    }
}

#[test]
fn invalid_url_error() {
    let raw = r#"version: 1
http-outbound-adapter:
  url: ":::not a url"
"#;
    let err =
        HttpOutboundAdapterSpecYamlParser::parse_str(raw).expect_err("expected invalid url error");
    match err {
        RuntimeError::Serialization(msg) => {
            assert!(msg.contains("url invalid"), "got: {msg}");
        }
        other => panic!("unexpected error: {other:?}"),
    }
}

#[test]
fn unsupported_scheme_error() {
    let raw = r#"version: 1
http-outbound-adapter:
  url: ftp://example.com/file
"#;
    let err = HttpOutboundAdapterSpecYamlParser::parse_str(raw)
        .expect_err("expected unsupported scheme error");
    match err {
        RuntimeError::Serialization(msg) => {
            assert!(msg.contains("unsupported scheme"), "got: {msg}");
        }
        other => panic!("unexpected error: {other:?}"),
    }
}

#[test]
fn empty_id_error() {
    let raw = r#"version: 1
http-outbound-adapter:
  id: ""
  url: http://127.0.0.1:8080/
"#;
    let err =
        HttpOutboundAdapterSpecYamlParser::parse_str(raw).expect_err("expected empty id error");
    match err {
        RuntimeError::Serialization(msg) => assert!(msg.contains("id must not be empty")),
        other => panic!("unexpected error: {other:?}"),
    }
}

#[test]
fn unsupported_version_error() {
    let raw = r#"version: 2
http-outbound-adapter:
  url: http://127.0.0.1:8080/
"#;
    let err = HttpOutboundAdapterSpecYamlParser::parse_str(raw)
        .expect_err("expected unsupported version error");
    match err {
        RuntimeError::Serialization(msg) => assert!(msg.contains("unsupported version")),
        other => panic!("unexpected error: {other:?}"),
    }
}

#[test]
fn parse_two_adapters() {
    let raw = r#"version: 1
http-outbound-adapters:
  - id: first
    url: http://127.0.0.1:8080/api/echo
    method: POST
  - url: https://10.0.0.2/
"#;
    let spec = HttpOutboundAdaptersSpecYamlParser::parse_str(raw)
        .expect("parse outbound adapters collection");
    assert_eq!(spec.version(), 1);
    assert_eq!(spec.adapters().len(), 2);
    assert_eq!(spec.adapters()[0].id(), Some("first"));
    assert_eq!(spec.adapters()[0].url(), "http://127.0.0.1:8080/api/echo");
    assert!(spec.adapters()[1].id().is_none());
    assert_eq!(spec.adapters()[1].url(), "https://10.0.0.2/");
}

#[test]
fn programmatic_add_and_push() {
    let mut spec = HttpOutboundAdaptersSpec::new(1);
    let a1 = HttpOutboundAdapterSpec::new(
        "http://127.0.0.1:18080/alpha/ping",
        Some("POST"),
        None,
        true,
    );
    let a2 = HttpOutboundAdapterSpec::new(
        "http://127.0.0.1:18081/beta/pong",
        Some("GET"),
        Some("second"),
        false,
    );
    spec.push(a1);
    spec.push(a2);
    assert_eq!(spec.adapters().len(), 2);
    assert!(spec.adapters()[0].id().is_none());
    assert_eq!(spec.adapters()[1].id(), Some("second"));
    let owned = spec.duplicate().into_adapters();
    assert_eq!(owned.len(), 2);
}

#[test]
fn http_outbound_adapters_spec_missing_root_error() {
    let raw = "version: 1";
    let err = HttpOutboundAdaptersSpecYamlParser::parse_str(raw)
        .expect_err("expected missing root error");
    match err {
        RuntimeError::Serialization(msg) => {
            assert!(msg.contains("missing 'http-outbound-adapters'"))
        }
        other => panic!("unexpected error: {other:?}"),
    }
}

#[test]
fn empty_sequence_error() {
    let raw = r#"version: 1
http-outbound-adapters: []"#;
    let err = HttpOutboundAdaptersSpecYamlParser::parse_str(raw)
        .expect_err("expected empty sequence error");
    match err {
        RuntimeError::Serialization(msg) => {
            assert!(msg.contains("sequence must not be empty"))
        }
        other => panic!("unexpected error: {other:?}"),
    }
}

#[test]
fn invalid_url_in_collection_error() {
    let raw = r#"version: 1
http-outbound-adapters:
  - id: bad
    url: ":::not a url"
"#;
    let err = HttpOutboundAdaptersSpecYamlParser::parse_str(raw)
        .expect_err("expected invalid url error inside collection");
    match err {
        RuntimeError::Serialization(msg) => {
            assert!(msg.contains("url invalid"), "got: {msg}");
        }
        other => panic!("unexpected error: {other:?}"),
    }
}

#[test]
fn malformed_yaml_is_a_yaml_parse_error() {
    let err = HttpOutboundAdapterSpecYamlParser::parse_str("version: [1\n")
        .expect_err("not yaml");
    match err {
        RuntimeError::Serialization(msg) => assert!(msg.starts_with("yaml parse error: ")),
        other => panic!("unexpected error: {other:?}"),
    }
}

#[test]
fn version_must_be_present() {
    let err = HttpOutboundAdapterSpecYamlParser::parse_str("http-outbound-adapter:\n  url: http://h/\n")
        .expect_err("no version");
    assert_eq!(err.message(), "missing or invalid version");
}

#[test]
fn missing_url_is_reported_as_serde_reports_a_missing_field() {
    let raw = "version: 1\nhttp-outbound-adapter:\n  method: POST\n";
    let err = HttpOutboundAdapterSpecYamlParser::parse_str(raw).expect_err("missing url");
    assert_eq!(err.message(), "yaml parse error: missing field `url`");
    let raw2 = "version: 1\nhttp-outbound-adapter:\n  method: 5\n";
    let err2 = HttpOutboundAdapterSpecYamlParser::parse_str(raw2).expect_err("bad method");
    assert_eq!(err2.message(), "yaml parse error: http-outbound-adapter.method must be string");
}
