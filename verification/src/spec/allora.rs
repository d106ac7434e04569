//! Top-level specification: one version, the channels, and the optional
//! filter, service activator, HTTP adapter and aggregator collections.
use vstd::prelude::*;
use super::aggregator::{aggregators_items, parse_aggregators_items, AggregatorsSpec, AggregatorsSpecView};
use super::channel::{channels_items, parse_channels_items, ChannelsSpec, ChannelsSpecView};
use super::filter::{filters_items, parse_filters_items, FiltersSpec, FiltersSpecView};
use super::http_inbound::{inbounds_items, parse_inbounds_items, HttpInboundAdaptersSpec, HttpInboundAdaptersSpecView};
use super::http_outbound::{outbounds_items, parse_outbounds_items, HttpOutboundAdaptersSpec, HttpOutboundAdaptersSpecView};
use super::service::{parse_services_items, services_items, ServiceActivatorsSpec, ServiceActivatorsSpecView};
use super::version::{res_view, yaml_error, ser, ser_err, validate_version, version_check};
use crate::error::{ErrorView, Result};
use crate::yaml::{read_yaml, yaml_read, yaml_syntax_error, YamlValue};

verus! {

/// An optional value seen through its view.
pub open spec fn opt_view<T: View>(o: Option<T>) -> Option<T::V> {
    match o {
        Some(t) => Some(t@),
        None => None,
    }
}

/// The whole configuration.
#[derive(Debug)]
pub struct AlloraSpec {
    version: u32,
    channels: ChannelsSpec,
    filters: Option<FiltersSpec>,
    services: Option<ServiceActivatorsSpec>,
    http_inbound_adapters: Option<HttpInboundAdaptersSpec>,
    http_outbound_adapters: Option<HttpOutboundAdaptersSpec>,
    aggregators: Option<AggregatorsSpec>,
}

pub struct AlloraSpecView {
    pub version: u32,
    pub channels: ChannelsSpecView,
    pub filters: Option<FiltersSpecView>,
    pub services: Option<ServiceActivatorsSpecView>,
    pub http_inbound_adapters: Option<HttpInboundAdaptersSpecView>,
    pub http_outbound_adapters: Option<HttpOutboundAdaptersSpecView>,
    pub aggregators: Option<AggregatorsSpecView>,
}

impl View for AlloraSpec {
    type V = AlloraSpecView;

    closed spec fn view(&self) -> AlloraSpecView {
        AlloraSpecView {
            version: self.version,
            channels: self.channels@,
            filters: opt_view(self.filters),
            services: opt_view(self.services),
            http_inbound_adapters: opt_view(self.http_inbound_adapters),
            http_outbound_adapters: opt_view(self.http_outbound_adapters),
            aggregators: opt_view(self.aggregators),
        }
    }
}

impl AlloraSpec {
    pub fn new(version: u32, channels: ChannelsSpec) -> (r: Self)
        ensures
            r@ == (AlloraSpecView {
                version,
                channels: channels@,
                filters: None,
                services: None,
                http_inbound_adapters: None,
                http_outbound_adapters: None,
                aggregators: None,
            }),
    {
        AlloraSpec {
            version,
            channels,
            filters: None,
            services: None,
            http_inbound_adapters: None,
            http_outbound_adapters: None,
            aggregators: None,
        }
    }

    /// Construct with an optional filters collection in one call.
    pub fn new_with_filters(version: u32, channels: ChannelsSpec, filters: Option<FiltersSpec>) -> (r:
        Self)
        ensures
            r@ == (AlloraSpecView {
                version,
                channels: channels@,
                filters: opt_view(filters),
                services: None,
                http_inbound_adapters: None,
                http_outbound_adapters: None,
                aggregators: None,
            }),
    {
        let r = AlloraSpec::new(version, channels);
        AlloraSpec { filters, ..r }
    }

    pub fn version(&self) -> (r: u32)
        ensures
            r == self@.version,
    {
        self.version
    }

    pub fn channels_spec(&self) -> (r: &ChannelsSpec)
        ensures
            r@ == self@.channels,
    {
        &self.channels
    }

    pub fn into_channels_spec(self) -> (r: ChannelsSpec)
        ensures
            r@ == self@.channels,
    {
        self.channels
    }

    pub fn with_filters(self, spec: FiltersSpec) -> (r: Self)
        ensures
            r@ == (AlloraSpecView { filters: Some(spec@), ..self@ }),
    {
        AlloraSpec { filters: Some(spec), ..self }
    }

    pub fn filters_spec(&self) -> (r: Option<&FiltersSpec>)
        ensures
            match r {
                Some(s) => self@.filters == Some(s@),
                None => self@.filters is None,
            },
    {
        match &self.filters {
            Some(s) => Some(s),
            None => None,
        }
    }

    pub fn into_filters_spec(self) -> (r: Option<FiltersSpec>)
        ensures
            opt_view(r) == self@.filters,
    {
        self.filters
    }

    pub fn with_services(self, spec: ServiceActivatorsSpec) -> (r: Self)
        ensures
            r@ == (AlloraSpecView { services: Some(spec@), ..self@ }),
    {
        AlloraSpec { services: Some(spec), ..self }
    }

    pub fn services_spec(&self) -> (r: Option<&ServiceActivatorsSpec>)
        ensures
            match r {
                Some(s) => self@.services == Some(s@),
                None => self@.services is None,
            },
    {
        match &self.services {
            Some(s) => Some(s),
            None => None,
        }
    }

    pub fn into_services_spec(self) -> (r: Option<ServiceActivatorsSpec>)
        ensures
            opt_view(r) == self@.services,
    {
        self.services
    }

    pub fn with_http_inbound_adapters(self, spec: HttpInboundAdaptersSpec) -> (r: Self)
        ensures
            r@ == (AlloraSpecView { http_inbound_adapters: Some(spec@), ..self@ }),
    {
        AlloraSpec { http_inbound_adapters: Some(spec), ..self }
    }

    pub fn http_inbound_adapters_spec(&self) -> (r: Option<&HttpInboundAdaptersSpec>)
        ensures
            match r {
                Some(s) => self@.http_inbound_adapters == Some(s@),
                None => self@.http_inbound_adapters is None,
            },
    {
        match &self.http_inbound_adapters {
            Some(s) => Some(s),
            None => None,
        }
    }

    pub fn into_http_inbound_adapters_spec(self) -> (r: Option<HttpInboundAdaptersSpec>)
        ensures
            opt_view(r) == self@.http_inbound_adapters,
    {
        self.http_inbound_adapters
    }

    pub fn with_http_outbound_adapters(self, spec: HttpOutboundAdaptersSpec) -> (r: Self)
        ensures
            r@ == (AlloraSpecView { http_outbound_adapters: Some(spec@), ..self@ }),
    {
        AlloraSpec { http_outbound_adapters: Some(spec), ..self }
    }

    pub fn http_outbound_adapters_spec(&self) -> (r: Option<&HttpOutboundAdaptersSpec>)
        ensures
            match r {
                Some(s) => self@.http_outbound_adapters == Some(s@),
                None => self@.http_outbound_adapters is None,
            },
    {
        match &self.http_outbound_adapters {
            Some(s) => Some(s),
            None => None,
        }
    }

    pub fn into_http_outbound_adapters_spec(self) -> (r: Option<HttpOutboundAdaptersSpec>)
        ensures
            opt_view(r) == self@.http_outbound_adapters,
    {
        self.http_outbound_adapters
    }

    pub fn with_aggregators(self, spec: AggregatorsSpec) -> (r: Self)
        ensures
            r@ == (AlloraSpecView { aggregators: Some(spec@), ..self@ }),
    {
        AlloraSpec { aggregators: Some(spec), ..self }
    }

    pub fn aggregators_spec(&self) -> (r: Option<&AggregatorsSpec>)
        ensures
            match r {
                Some(s) => self@.aggregators == Some(s@),
                None => self@.aggregators is None,
            },
    {
        match &self.aggregators {
            Some(s) => Some(s),
            None => None,
        }
    }

    pub fn into_aggregators_spec(self) -> (r: Option<AggregatorsSpec>)
        ensures
            opt_view(r) == self@.aggregators,
    {
        self.aggregators
    }

    /// Channels, filters, service activators, inbound and outbound adapters.
    pub fn into_parts(self) -> (r: (
        ChannelsSpec,
        Option<FiltersSpec>,
        Option<ServiceActivatorsSpec>,
        Option<HttpInboundAdaptersSpec>,
        Option<HttpOutboundAdaptersSpec>,
    ))
        ensures
            r.0@ == self@.channels,
            opt_view(r.1) == self@.filters,
            opt_view(r.2) == self@.services,
            opt_view(r.3) == self@.http_inbound_adapters,
            opt_view(r.4) == self@.http_outbound_adapters,
    {
        (
            self.channels,
            self.filters,
            self.services,
            self.http_inbound_adapters,
            self.http_outbound_adapters,
        )
    }
}

/// Section under `key`: absent is `None`, present is parsed by `f`.
pub open spec fn section<V>(
    yaml: YamlValue,
    key: Seq<char>,
    f: spec_fn(YamlValue) -> core::result::Result<V, ErrorView>,
) -> core::result::Result<Option<V>, ErrorView> {
    match yaml.spec_get(key) {
        None => Ok(None),
        Some(r) => match f(r) {
            Err(e) => Err(e),
            Ok(x) => Ok(Some(x)),
        },
    }
}

/// The `channels` section (absent means no channels).
pub open spec fn channels_section(yaml: YamlValue, v: u32) -> core::result::Result<ChannelsSpecView, ErrorView> {
    match yaml.spec_get("channels"@) {
        None => Ok(ChannelsSpecView { version: v, channels: Seq::empty() }),
        Some(r) => if !r.spec_is_sequence() {
            Err(ser("'channels' must be a sequence"@))
        } else {
            channels_items(r.spec_items(), v)
        },
    }
}

/// Body of the `filters` section: a non-empty sequence of entries.
pub open spec fn filters_body(r: YamlValue, v: u32) -> core::result::Result<FiltersSpecView, ErrorView> {
    if !r.spec_is_sequence() {
        Err(ser("'filters' must be a sequence"@))
    } else if r.spec_items().len() == 0 {
        Err(ser("'filters' sequence must not be empty (minItems=1)"@))
    } else {
        filters_items(r.spec_items(), v)
    }
}

/// Body of the `service-activators` section: a non-empty sequence of entries.
pub open spec fn services_body(r: YamlValue, v: u32) -> core::result::Result<ServiceActivatorsSpecView, ErrorView> {
    if !r.spec_is_sequence() {
        Err(ser("'service-activators' must be a sequence"@))
    } else if r.spec_items().len() == 0 {
        Err(ser("'service-activators' sequence must not be empty"@))
    } else {
        services_items(r.spec_items(), v)
    }
}

/// Body of the `http-inbound-adapters` section: a non-empty sequence of entries.
pub open spec fn http_inbound_adapters_body(r: YamlValue, v: u32) -> core::result::Result<HttpInboundAdaptersSpecView, ErrorView> {
    if !r.spec_is_sequence() {
        Err(ser("'http-inbound-adapters' must be a sequence"@))
    } else if r.spec_items().len() == 0 {
        Err(ser("'http-inbound-adapters' sequence must not be empty"@))
    } else {
        inbounds_items(r.spec_items(), v)
    }
}

/// Body of the `http-outbound-adapters` section: a non-empty sequence of entries.
pub open spec fn http_outbound_adapters_body(r: YamlValue, v: u32) -> core::result::Result<HttpOutboundAdaptersSpecView, ErrorView> {
    if !r.spec_is_sequence() {
        Err(ser("'http-outbound-adapters' must be a sequence"@))
    } else if r.spec_items().len() == 0 {
        Err(ser("'http-outbound-adapters' sequence must not be empty"@))
    } else {
        outbounds_items(r.spec_items(), v)
    }
}

/// Body of the `aggregators` section: a non-empty sequence of entries.
pub open spec fn aggregators_body(r: YamlValue, v: u32) -> core::result::Result<AggregatorsSpecView, ErrorView> {
    if !r.spec_is_sequence() {
        Err(ser("'aggregators' must be a sequence"@))
    } else if r.spec_items().len() == 0 {
        Err(ser("'aggregators' sequence must not be empty (minItems=1)"@))
    } else {
        aggregators_items(r.spec_items(), v)
    }
}

/// A whole configuration document: version, then the sections in the
/// order channels, filters, service activators, HTTP inbound adapters,
/// HTTP outbound adapters, aggregators; the first failing section wins.
pub open spec fn allora_doc(yaml: YamlValue) -> core::result::Result<AlloraSpecView, ErrorView> {
    match version_check(yaml) {
        Err(e) => Err(e),
        Ok(v) => match channels_section(yaml, v) {
            Err(e) => Err(e),
            Ok(channels) => match section(yaml, "filters"@, |r: YamlValue| filters_body(r, v)) {
            Err(e) => Err(e),
            Ok(filters) => match section(yaml, "service-activators"@, |r: YamlValue| services_body(r, v)) {
            Err(e) => Err(e),
            Ok(services) => match section(yaml, "http-inbound-adapters"@, |r: YamlValue| http_inbound_adapters_body(r, v)) {
            Err(e) => Err(e),
            Ok(http_inbound_adapters) => match section(yaml, "http-outbound-adapters"@, |r: YamlValue| http_outbound_adapters_body(r, v)) {
            Err(e) => Err(e),
            Ok(http_outbound_adapters) => match section(yaml, "aggregators"@, |r: YamlValue| aggregators_body(r, v)) {
            Err(e) => Err(e),
            Ok(aggregators) => Ok(AlloraSpecView { version: v, channels, filters, services, http_inbound_adapters, http_outbound_adapters, aggregators }),
        },
        },
        },
        },
        },
        },
    }
}

fn parse_filters_section(yaml: &YamlValue, v: u32) -> (r: Result<Option<FiltersSpec>>)
    ensures
        match r {
            Ok(o) => section(*yaml, "filters"@, |r: YamlValue| filters_body(r, v)) == Ok::<Option<FiltersSpecView>, ErrorView>(opt_view(o)),
            Err(e) => section(*yaml, "filters"@, |r: YamlValue| filters_body(r, v)) == Err::<Option<FiltersSpecView>, ErrorView>(e@),
        },
{
    let root = match yaml.get("filters") {
        None => return Ok(None),
        Some(r) => r,
    };
    let items = match root.as_sequence() {
        None => return Err(ser_err("'filters' must be a sequence")),
        Some(items) => items,
    };
    if items.len() == 0 {
        return Err(ser_err("'filters' sequence must not be empty (minItems=1)"));
    }
    let spec = parse_filters_items(items, v)?;
    Ok(Some(spec))
}

fn parse_services_section(yaml: &YamlValue, v: u32) -> (r: Result<Option<ServiceActivatorsSpec>>)
    ensures
        match r {
            Ok(o) => section(*yaml, "service-activators"@, |r: YamlValue| services_body(r, v)) == Ok::<Option<ServiceActivatorsSpecView>, ErrorView>(opt_view(o)),
            Err(e) => section(*yaml, "service-activators"@, |r: YamlValue| services_body(r, v)) == Err::<Option<ServiceActivatorsSpecView>, ErrorView>(e@),
        },
{
    let root = match yaml.get("service-activators") {
        None => return Ok(None),
        Some(r) => r,
    };
    let items = match root.as_sequence() {
        None => return Err(ser_err("'service-activators' must be a sequence")),
        Some(items) => items,
    };
    if items.len() == 0 {
        return Err(ser_err("'service-activators' sequence must not be empty"));
    }
    let spec = parse_services_items(items, v)?;
    Ok(Some(spec))
}

fn parse_http_inbound_adapters_section(yaml: &YamlValue, v: u32) -> (r: Result<Option<HttpInboundAdaptersSpec>>)
    ensures
        match r {
            Ok(o) => section(*yaml, "http-inbound-adapters"@, |r: YamlValue| http_inbound_adapters_body(r, v)) == Ok::<Option<HttpInboundAdaptersSpecView>, ErrorView>(opt_view(o)),
            Err(e) => section(*yaml, "http-inbound-adapters"@, |r: YamlValue| http_inbound_adapters_body(r, v)) == Err::<Option<HttpInboundAdaptersSpecView>, ErrorView>(e@),
        },
{
    let root = match yaml.get("http-inbound-adapters") {
        None => return Ok(None),
        Some(r) => r,
    };
    let items = match root.as_sequence() {
        None => return Err(ser_err("'http-inbound-adapters' must be a sequence")),
        Some(items) => items,
    };
    if items.len() == 0 {
        return Err(ser_err("'http-inbound-adapters' sequence must not be empty"));
    }
    let spec = parse_inbounds_items(items, v)?;
    Ok(Some(spec))
}

fn parse_http_outbound_adapters_section(yaml: &YamlValue, v: u32) -> (r: Result<Option<HttpOutboundAdaptersSpec>>)
    ensures
        match r {
            Ok(o) => section(*yaml, "http-outbound-adapters"@, |r: YamlValue| http_outbound_adapters_body(r, v)) == Ok::<Option<HttpOutboundAdaptersSpecView>, ErrorView>(opt_view(o)),
            Err(e) => section(*yaml, "http-outbound-adapters"@, |r: YamlValue| http_outbound_adapters_body(r, v)) == Err::<Option<HttpOutboundAdaptersSpecView>, ErrorView>(e@),
        },
{
    let root = match yaml.get("http-outbound-adapters") {
        None => return Ok(None),
        Some(r) => r,
    };
    let items = match root.as_sequence() {
        None => return Err(ser_err("'http-outbound-adapters' must be a sequence")),
        Some(items) => items,
    };
    if items.len() == 0 {
        return Err(ser_err("'http-outbound-adapters' sequence must not be empty"));
    }
    let spec = parse_outbounds_items(items, v)?;
    Ok(Some(spec))
}

fn parse_aggregators_section(yaml: &YamlValue, v: u32) -> (r: Result<Option<AggregatorsSpec>>)
    ensures
        match r {
            Ok(o) => section(*yaml, "aggregators"@, |r: YamlValue| aggregators_body(r, v)) == Ok::<Option<AggregatorsSpecView>, ErrorView>(opt_view(o)),
            Err(e) => section(*yaml, "aggregators"@, |r: YamlValue| aggregators_body(r, v)) == Err::<Option<AggregatorsSpecView>, ErrorView>(e@),
        },
{
    let root = match yaml.get("aggregators") {
        None => return Ok(None),
        Some(r) => r,
    };
    let items = match root.as_sequence() {
        None => return Err(ser_err("'aggregators' must be a sequence")),
        Some(items) => items,
    };
    if items.len() == 0 {
        return Err(ser_err("'aggregators' sequence must not be empty (minItems=1)"));
    }
    let spec = parse_aggregators_items(items, v)?;
    Ok(Some(spec))
}

/// Parser of whole configuration documents.
pub struct AlloraSpecYamlParser;

impl AlloraSpecYamlParser {
    /// Parse a YAML text: read it as a document, then as [`Self::parse_value`] does.
    pub fn parse_str(raw: &str) -> (r: Result<AlloraSpec>)
        ensures
            res_view(r) == match yaml_read(raw@) {
                Ok(v) => allora_doc(v),
                Err(e) => Err(yaml_syntax_error(e)),
            },
    {
        match read_yaml(raw) {
            Ok(v) => Self::parse_value(&v),
            Err(e) => Err(yaml_error(e.as_str())),
        }
    }

    pub fn parse_value(yaml: &YamlValue) -> (r: Result<AlloraSpec>)
        ensures
            res_view(r) == allora_doc(*yaml),
    {
        let v = validate_version(yaml)?;
        let channels = match yaml.get("channels") {
            None => ChannelsSpec::new(v),
            Some(ch_root) => match ch_root.as_sequence() {
                None => return Err(ser_err("'channels' must be a sequence")),
                Some(items) => parse_channels_items(items, v)?,
            },
        };
        let filters = parse_filters_section(yaml, v)?;
        let services = parse_services_section(yaml, v)?;
        let http_inbound_adapters = parse_http_inbound_adapters_section(yaml, v)?;
        let http_outbound_adapters = parse_http_outbound_adapters_section(yaml, v)?;
        let aggregators = parse_aggregators_section(yaml, v)?;
        Ok(AlloraSpec { version: v, channels, filters, services, http_inbound_adapters, http_outbound_adapters, aggregators })
    }
}

} // verus!
