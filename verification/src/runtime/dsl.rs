//! The configuration facade: input formats, assembling a whole runtime
//! from a top-level specification, and choosing the configuration file.
use vstd::prelude::*;
use crate::channel::{Channel, ChannelKind};
use crate::error::{err_view, Error, ErrorKind, ErrorView, Result};
use crate::http::inbound::HttpInboundAdapter;
use crate::http::outbound::url_problem;
use crate::patterns::filter::{Filter, apl_plan};
use crate::runtime::assembly::{
    AlloraRuntime, FilterActivation, FilterActivationView, HttpOutboundAdapterActivation,
    OutboundActivationView, ServiceActivatorProcessor, ServiceActivatorProcessorView,
};
use crate::runtime::builders::{
    build_channel_from_spec, build_filter_from_spec, build_service_from_spec, channel_built,
    filter_built, service_built, ServiceProcessor,
    build_channels_from_spec, build_filters_from_spec, build_http_inbound_adapters_from_spec,
    build_http_outbound_adapters_from_spec, build_service_activators_from_spec, channel_ids_from,
    filter_ids, filter_matches, filter_prefix, first_bad_when, first_lookup_problem,
    first_url_problem, inbound_built, inbound_ids, inbound_pre, inbound_prefix, kind_of, no_pre,
    outbound_built, outbound_ids, outbound_prefix, service_ids, service_prefix, service_problems,
    ServiceProcessorView,
};
use crate::runtime::ids::{assigned_ids, id_scan, ids_fit, ids_fit_check, ids_view};
use crate::spec::allora::{allora_doc, AlloraSpec, AlloraSpecView, AlloraSpecYamlParser};
use crate::spec::channel::{channel_doc, ChannelSpecView, ChannelSpecYamlParser};
use crate::spec::common::{opt_as_str, opt_str_view, opt_string_view};
use crate::spec::filter::{filter_doc, FilterSpec, FilterSpecView, FilterSpecYamlParser, FiltersSpecView};
use crate::spec::http_inbound::{HttpInboundAdapterSpec, HttpInboundAdaptersSpecView};
use crate::spec::http_outbound::{HttpOutboundAdapterSpec, HttpOutboundAdaptersSpecView};
use crate::spec::service::{service_doc, ServiceActivatorSpec, ServiceActivatorSpecView, ServiceSpecYamlParser, ServiceActivatorsSpecView};
use crate::spec::version::ser;
use crate::yaml::{yaml_read, yaml_syntax_error};
use crate::text::{chars_of, concat2, has_prefix, lower_ascii_chars, lower_ascii_text, owned, string_of, text_eq};

verus! {

// ---------------------------------------------------------------------------
// Formats
// ---------------------------------------------------------------------------

/// Configuration input formats.
#[derive(Clone, Copy, Debug, PartialEq, Eq, Structural)]
pub enum DslFormat {
    Yaml,
    Json,
    Xml,
}

/// The extension `std::path::Path::extension` finds in `path`, as text.
pub uninterp spec fn path_extension(path: Seq<char>) -> Option<Seq<char>>;

/// Calls `std::path::Path::new(path).extension()` and converts the result
/// with `OsStr::to_str`. Claimed: the result is `path_extension(path)`, a
/// function of the text alone.
#[verifier::external_body]
fn extension_of(path: &str) -> (r: Option<String>)
    ensures
        opt_string_view(r) == path_extension(path@),
{
    std::path::Path::new(path).extension().and_then(|e| e.to_str()).map(|s| s.to_string())
}

/// The format an extension names (case-insensitive): `yml`/`yaml`, `json`,
/// `xml`.
pub open spec fn format_of_extension(ext: Seq<char>) -> Option<DslFormat> {
    let e = lower_ascii_text(ext);
    if e == "yml"@ || e == "yaml"@ {
        Some(DslFormat::Yaml)
    } else if e == "json"@ {
        Some(DslFormat::Json)
    } else if e == "xml"@ {
        Some(DslFormat::Xml)
    } else {
        None
    }
}

/// Which format a path's extension selects, if any.
pub open spec fn format_of_path(path: Seq<char>) -> Option<DslFormat> {
    match path_extension(path) {
        Some(ext) => format_of_extension(ext),
        None => None,
    }
}

impl DslFormat {
    /// The format named by the file extension of `path`.
    pub fn from_path(path: &str) -> (r: Option<DslFormat>)
        ensures
            r == format_of_path(path@),
    {
        match extension_of(path) {
            Some(ext) => {
                let cs = chars_of(ext.as_str());
                let lower = lower_ascii_chars(cs.as_slice());
                let l = string_of(lower.as_slice());
                if text_eq(l.as_str(), "yml") || text_eq(l.as_str(), "yaml") {
                    Some(DslFormat::Yaml)
                } else if text_eq(l.as_str(), "json") {
                    Some(DslFormat::Json)
                } else if text_eq(l.as_str(), "xml") {
                    Some(DslFormat::Xml)
                } else {
                    None
                }
            },
            None => None,
        }
    }
}

/// The format problem, if the format cannot be read yet.
pub open spec fn format_problem(f: DslFormat) -> Option<Seq<char>> {
    match f {
        DslFormat::Yaml => None,
        DslFormat::Json => Some("json format not yet supported"@),
        DslFormat::Xml => Some("xml format not yet supported"@),
    }
}

/// Only YAML is read today; JSON and XML are reported as unsupported.
pub fn check_format(f: DslFormat) -> (r: Result<()>)
    ensures
        match format_problem(f) {
            Some(m) => r matches Err(e) && e@ == err_view(ErrorKind::Serialization, m),
            None => r is Ok,
        },
{
    match f {
        DslFormat::Yaml => Ok(()),
        DslFormat::Json => Err(Error::serialization(owned("json format not yet supported"))),
        DslFormat::Xml => Err(Error::serialization(owned("xml format not yet supported"))),
    }
}

/// Error for a path whose extension names no format.
pub fn unknown_format_error() -> (r: Error)
    ensures
        r@ == err_view(ErrorKind::Serialization, "cannot infer DSL format from extension"@),
{
    Error::serialization(owned("cannot infer DSL format from extension"))
}

// ---------------------------------------------------------------------------
// Whole runtime
// ---------------------------------------------------------------------------

/// First problem building the filters section, if any.
pub open spec fn filters_problem(fs: Option<FiltersSpecView>) -> Option<ErrorView> {
    match fs {
        None => None,
        Some(f) => match id_scan(no_pre(f.filters.len()), filter_ids(f.filters), "filter"@, false, 0) {
            Some(m) => Some(ser(m)),
            None => match first_bad_when(f.filters, 0) {
                Some(k) => match apl_plan(f.filters[k].when) {
                    Err(m) => Some(ser(m)),
                    Ok(_) => None,
                },
                None => None,
            },
        },
    }
}

/// First problem building the services section, if any.
pub open spec fn services_problem(ss: Option<ServiceActivatorsSpecView>) -> Option<ErrorView> {
    match ss {
        None => None,
        Some(s) => match id_scan(service_problems(s.services), service_ids(s.services), "service"@, false, 0) {
            Some(m) => Some(ser(m)),
            None => None,
        },
    }
}

/// First problem building the inbound adapters section, if any.
pub open spec fn inbound_problem(hs: Option<HttpInboundAdaptersSpecView>, known: Seq<Seq<char>>) -> Option<ErrorView> {
    match hs {
        None => None,
        Some(h) => match id_scan(inbound_pre(h.adapters), inbound_ids(h.adapters), "http-inbound-adapter"@, true, 0) {
            Some(m) => Some(ser(m)),
            None => match first_lookup_problem(h.adapters, known, 0) {
                Some(m) => Some(ser(m)),
                None => None,
            },
        },
    }
}

/// First problem building the outbound adapters section, if any.
pub open spec fn outbound_problem(os: Option<HttpOutboundAdaptersSpecView>) -> Option<ErrorView> {
    match os {
        None => None,
        Some(o) => match id_scan(no_pre(o.adapters.len()), outbound_ids(o.adapters), "http-outbound-adapter"@, true, 0) {
            Some(m) => Some(ser(m)),
            None => match first_url_problem(o.adapters, 0) {
                Some(k) => match url_problem(o.adapters[k].url) {
                    Some(m) => Some(err_view(ErrorKind::Other, m)),
                    None => None,
                },
                None => None,
            },
        },
    }
}

/// Channel ids a specification yields (or its channel problem).
pub open spec fn spec_channel_ids(s: AlloraSpecView) -> core::result::Result<Seq<Seq<char>>, Seq<char>> {
    channel_ids_from(s.channels.channels.map_values(|c: ChannelSpecView| c.id), Seq::empty(), 1)
}

/// The first problem assembling a runtime from `s`: channels, filters,
/// services, inbound adapters, outbound adapters, in that order.
pub open spec fn runtime_problem(s: AlloraSpecView) -> Option<ErrorView> {
    match spec_channel_ids(s) {
        Err(m) => Some(ser(m)),
        Ok(cids) => if filters_problem(s.filters) is Some {
            filters_problem(s.filters)
        } else if services_problem(s.services) is Some {
            services_problem(s.services)
        } else if inbound_problem(s.http_inbound_adapters, cids) is Some {
            inbound_problem(s.http_inbound_adapters, cids)
        } else {
            outbound_problem(s.http_outbound_adapters)
        },
    }
}

/// Every id collection of `s` can be numbered without overflow.
pub open spec fn runtime_ids_fit(s: AlloraSpecView) -> bool {
    &&& (s.filters matches Some(f) ==> ids_fit(filter_ids(f.filters), filter_prefix()))
    &&& (s.services matches Some(v) ==> ids_fit(service_ids(v.services), service_prefix()))
    &&& (s.http_inbound_adapters matches Some(h) ==> ids_fit(inbound_ids(h.adapters), inbound_prefix()))
    &&& (s.http_outbound_adapters matches Some(o) ==> ids_fit(outbound_ids(o.adapters), outbound_prefix()))
}

/// The runtime assembled from `s` holds exactly the built components.
pub open spec fn runtime_matches(rt: crate::runtime::assembly::AlloraRuntimeView, s: AlloraSpecView) -> bool {
    let cids = spec_channel_ids(s)->Ok_0;
    &&& rt.channels.len() == s.channels.channels.len()
    &&& forall|i: int|
        0 <= i < rt.channels.len() ==> #[trigger] rt.channels[i] == (cids[i], kind_of(
            s.channels.channels[i].kind,
        ))
    &&& match s.filters {
        None => rt.filters.len() == 0,
        Some(f) => rt.filters.len() == f.filters.len() && forall|i: int|
            0 <= i < rt.filters.len() ==> {
                let id = assigned_ids(filter_ids(f.filters), filter_prefix())[i];
                &&& (#[trigger] rt.filters[i]).from == f.filters[i].from
                &&& rt.filters[i].to == f.filters[i].to
                &&& rt.filters[i].id == id
                &&& filter_matches(rt.filters[i].filter, f.filters[i].when, id)
            },
    }
    &&& match s.services {
        None => rt.services.len() == 0 && rt.service_processors.len() == 0,
        Some(v) => rt.services.len() == v.services.len() && rt.service_processors.len()
            == v.services.len() && forall|i: int|
            0 <= i < rt.services.len() ==> (#[trigger] rt.services[i]) == (ServiceProcessorView {
                id: Some(assigned_ids(service_ids(v.services), service_prefix())[i]),
                ref_name: v.services[i].ref_name,
            }) && rt.service_processors[i] == (ServiceActivatorProcessorView {
                activator: v.services[i],
                bound: false,
            }),
    }
    &&& match s.http_inbound_adapters {
        None => rt.http_inbound_adapters.len() == 0,
        Some(h) => rt.http_inbound_adapters.len() == h.adapters.len() && forall|i: int|
            0 <= i < rt.http_inbound_adapters.len() ==> inbound_built(
                #[trigger] rt.http_inbound_adapters[i],
                h.adapters[i],
                assigned_ids(inbound_ids(h.adapters), inbound_prefix())[i],
            ),
    }
    &&& match s.http_outbound_adapters {
        None => rt.http_outbound_adapters.len() == 0,
        Some(o) => rt.http_outbound_adapters.len() == o.adapters.len() && forall|i: int|
            0 <= i < rt.http_outbound_adapters.len() ==> {
                let id = assigned_ids(outbound_ids(o.adapters), outbound_prefix())[i];
                &&& outbound_built((#[trigger] rt.http_outbound_adapters[i]).adapter, o.adapters[i], id)
                &&& rt.http_outbound_adapters[i].from == o.adapters[i].from
                &&& rt.http_outbound_adapters[i].to == o.adapters[i].to
                &&& rt.http_outbound_adapters[i].id == id
            },
    }
}

fn filter_activations(specs: &[FilterSpec], filters: Vec<Filter>) -> (r: Vec<FilterActivation>)
    requires
        specs.len() == filters.len(),
    ensures
        r.len() == specs.len(),
        forall|i: int|
            0 <= i < r.len() ==> (#[trigger] r@[i])@ == (FilterActivationView {
                filter: filters@[i]@,
                from: specs@[i]@.from,
                to: specs@[i]@.to,
                id: filters@[i]@.id,
            }),
{
    let mut out: Vec<FilterActivation> = Vec::new();
    let mut rest = filters;
    let ghost fs = filters@;
    let mut i: usize = 0;
    while i < specs.len()
        invariant
            i <= specs.len() == fs.len(),
            rest@ == fs.subrange(i as int, fs.len() as int),
            out.len() == i,
            forall|k: int|
                0 <= k < i ==> (#[trigger] out@[k])@ == (FilterActivationView {
                    filter: fs[k]@,
                    from: specs@[k]@.from,
                    to: specs@[k]@.to,
                    id: fs[k]@.id,
                }),
        decreases specs.len() - i,
    {
        let f = rest.remove(0);
        assert(rest@ =~= fs.subrange(i + 1, fs.len() as int));
        let id = owned(f.id());
        let a = FilterActivation::new(f, specs[i].from(), specs[i].to(), id.as_str());
        out.push(a);
        i = i + 1;
    }
    out
}

fn outbound_activations(
    specs: &[HttpOutboundAdapterSpec],
    adapters: Vec<crate::http::outbound::HttpOutboundAdapter>,
) -> (r: Vec<HttpOutboundAdapterActivation>)
    requires
        specs.len() == adapters.len(),
    ensures
        r.len() == specs.len(),
        forall|i: int|
            0 <= i < r.len() ==> (#[trigger] r@[i])@ == (OutboundActivationView {
                adapter: adapters@[i]@,
                from: specs@[i]@.from,
                to: specs@[i]@.to,
                id: adapters@[i]@.id,
            }),
{
    let mut out: Vec<HttpOutboundAdapterActivation> = Vec::new();
    let mut rest = adapters;
    let ghost xs = adapters@;
    let mut i: usize = 0;
    while i < specs.len()
        invariant
            i <= specs.len() == xs.len(),
            rest@ == xs.subrange(i as int, xs.len() as int),
            out.len() == i,
            forall|k: int|
                0 <= k < i ==> (#[trigger] out@[k])@ == (OutboundActivationView {
                    adapter: xs[k]@,
                    from: specs@[k]@.from,
                    to: specs@[k]@.to,
                    id: xs[k]@.id,
                }),
        decreases specs.len() - i,
    {
        let a = rest.remove(0);
        assert(rest@ =~= xs.subrange(i + 1, xs.len() as int));
        let id = owned(a.id());
        let act = HttpOutboundAdapterActivation::new(a, specs[i].from(), specs[i].to(), id.as_str());
        out.push(act);
        i = i + 1;
    }
    out
}

fn service_processors_of(specs: &[ServiceActivatorSpec]) -> (r: Vec<ServiceActivatorProcessor>)
    ensures
        r.len() == specs.len(),
        forall|i: int|
            0 <= i < r.len() ==> (#[trigger] r@[i])@ == (ServiceActivatorProcessorView {
                activator: specs@[i]@,
                bound: false,
            }),
{
    let mut out: Vec<ServiceActivatorProcessor> = Vec::new();
    let mut i: usize = 0;
    while i < specs.len()
        invariant
            i <= specs.len(),
            out.len() == i,
            forall|k: int|
                0 <= k < i ==> (#[trigger] out@[k])@ == (ServiceActivatorProcessorView {
                    activator: specs@[k]@,
                    bound: false,
                }),
        decreases specs.len() - i,
    {
        out.push(ServiceActivatorProcessor::new(specs[i].duplicate()));
        i = i + 1;
    }
    out
}

/// Assemble a runtime from a top-level specification: its channels, then
/// its filters (bound to their `from`/`to` channels), service activators,
/// HTTP inbound adapters (whose channels must exist) and HTTP outbound
/// adapters. The first problem met is returned.
pub fn build_runtime_from_spec(spec: AlloraSpec) -> (r: Result<AlloraRuntime>)
    requires
        runtime_ids_fit(spec@),
    ensures
        match runtime_problem(spec@) {
            Some(e) => r matches Err(x) && x@ == e,
            None => r matches Ok(rt) && runtime_matches(rt@, spec@),
        },
{
    let ghost sv = spec@;
    let (channels_spec, filters_spec, services_spec, inbound_spec, outbound_spec) = spec.into_parts();
    let channels = build_channels_from_spec(channels_spec)?;
    let ghost chv = channels@;
    let mut rt = AlloraRuntime::new(channels);
    let ghost cids = spec_channel_ids(sv)->Ok_0;
    proof {
        assert(rt@.channels.map_values(|e: (Seq<char>, ChannelKind)| e.0) =~= cids);
        assert forall|i: int| 0 <= i < rt@.channels.len() implies #[trigger] rt@.channels[i] == (
            cids[i],
            kind_of(sv.channels.channels[i].kind),
        ) by {
            assert(rt@.channels[i] == (chv[i].spec_id(), chv[i].spec_kind()));
        }
    }
    match filters_spec {
        Some(fspec) => {
            let ghost fv = fspec@;
            let specs_copy = fspec.duplicate();
            let filters = build_filters_from_spec(fspec)?;
            let acts = filter_activations(specs_copy.filters(), filters);
            rt = rt.with_filters(acts);
        },
        None => {},
    }
    match services_spec {
        Some(sspec) => {
            let specs_copy = sspec.duplicate();
            let services = build_service_activators_from_spec(sspec)?;
            rt = rt.with_services(services);
            let procs = service_processors_of(specs_copy.services_activators());
            rt = rt.with_service_processors(procs);
        },
        None => {},
    }
    match inbound_spec {
        Some(hspec) => {
            let known = rt.channel_ids();
            assert(known@.map_values(|s: String| s@) =~= cids);
            let adapters = build_http_inbound_adapters_from_spec(hspec, &known)?;
            rt = rt.with_http_inbound_adapters(adapters);
        },
        None => {},
    }
    match outbound_spec {
        Some(ospec) => {
            let specs_copy = ospec.duplicate();
            let adapters = build_http_outbound_adapters_from_spec(ospec)?;
            let acts = outbound_activations(specs_copy.adapters(), adapters);
            rt = rt.with_http_outbound_adapters(acts);
        },
        None => {},
    }
    proof {
        assert(rt@.channels.len() == sv.channels.channels.len());
    }
    Ok(rt)
}

// ---------------------------------------------------------------------------
// Building from configuration text
// ---------------------------------------------------------------------------

/// The channel specification a YAML text describes.
pub open spec fn channel_text(raw: Seq<char>) -> core::result::Result<ChannelSpecView, ErrorView> {
    match yaml_read(raw) {
        Ok(v) => channel_doc(v),
        Err(e) => Err(yaml_syntax_error(e)),
    }
}

/// The filter specification a YAML text describes.
pub open spec fn filter_text(raw: Seq<char>) -> core::result::Result<FilterSpecView, ErrorView> {
    match yaml_read(raw) {
        Ok(v) => filter_doc(v),
        Err(e) => Err(yaml_syntax_error(e)),
    }
}

/// The service activator specification a YAML text describes.
pub open spec fn service_text(raw: Seq<char>) -> core::result::Result<ServiceActivatorSpecView, ErrorView> {
    match yaml_read(raw) {
        Ok(v) => service_doc(v),
        Err(e) => Err(yaml_syntax_error(e)),
    }
}

/// The top-level specification a YAML text describes.
pub open spec fn allora_text(raw: Seq<char>) -> core::result::Result<AlloraSpecView, ErrorView> {
    match yaml_read(raw) {
        Ok(v) => allora_doc(v),
        Err(e) => Err(yaml_syntax_error(e)),
    }
}

/// Build one channel from configuration text in `format`.
pub fn build_channel_from_str(raw: &str, format: DslFormat) -> (r: Result<Channel>)
    ensures
        match format_problem(format) {
            Some(m) => r matches Err(e) && e@ == ser(m),
            None => match channel_text(raw@) {
                Err(ev) => r matches Err(e) && e@ == ev,
                Ok(s) => channel_built(s, r),
            },
        },
{
    check_format(format)?;
    let spec = ChannelSpecYamlParser::parse_str(raw)?;
    build_channel_from_spec(spec)
}

/// Build one filter from configuration text in `format`.
pub fn build_filter_from_str(raw: &str, format: DslFormat) -> (r: Result<Filter>)
    ensures
        match format_problem(format) {
            Some(m) => r matches Err(e) && e@ == ser(m),
            None => match filter_text(raw@) {
                Err(ev) => r matches Err(e) && e@ == ev,
                Ok(s) => filter_built(s, r),
            },
        },
{
    check_format(format)?;
    let spec = FilterSpecYamlParser::parse_str(raw)?;
    build_filter_from_spec(spec)
}

/// Build one service processor from configuration text in `format`.
pub fn build_service_from_str(raw: &str, format: DslFormat) -> (r: Result<ServiceProcessor>)
    ensures
        match format_problem(format) {
            Some(m) => r matches Err(e) && e@ == ser(m),
            None => match service_text(raw@) {
                Err(ev) => r matches Err(e) && e@ == ev,
                Ok(s) => service_built(s, r),
            },
        },
{
    check_format(format)?;
    let spec = ServiceSpecYamlParser::parse_str(raw)?;
    build_service_from_spec(spec)
}

fn filter_id_list(specs: &[FilterSpec]) -> (r: Vec<Option<String>>)
    ensures
        ids_view(r@) == filter_ids(specs@.map_values(|f: FilterSpec| f@)),
{
    let mut out: Vec<Option<String>> = Vec::new();
    let mut i: usize = 0;
    while i < specs.len()
        invariant
            i <= specs.len(),
            out.len() == i,
            forall|k: int| 0 <= k < i ==> opt_string_view(#[trigger] out@[k]) == specs@[k]@.id,
        decreases specs.len() - i,
    {
        out.push(crate::spec::common::opt_owned(specs[i].id()));
        i = i + 1;
    }
    assert(ids_view(out@) =~= filter_ids(specs@.map_values(|f: FilterSpec| f@)));
    out
}

fn service_id_list(specs: &[ServiceActivatorSpec]) -> (r: Vec<Option<String>>)
    ensures
        ids_view(r@) == service_ids(specs@.map_values(|f: ServiceActivatorSpec| f@)),
{
    let mut out: Vec<Option<String>> = Vec::new();
    let mut i: usize = 0;
    while i < specs.len()
        invariant
            i <= specs.len(),
            out.len() == i,
            forall|k: int| 0 <= k < i ==> opt_string_view(#[trigger] out@[k]) == specs@[k]@.id,
        decreases specs.len() - i,
    {
        out.push(crate::spec::common::opt_owned(specs[i].id()));
        i = i + 1;
    }
    assert(ids_view(out@) =~= service_ids(specs@.map_values(|f: ServiceActivatorSpec| f@)));
    out
}

fn inbound_id_list(specs: &[HttpInboundAdapterSpec]) -> (r: Vec<Option<String>>)
    ensures
        ids_view(r@) == inbound_ids(specs@.map_values(|f: HttpInboundAdapterSpec| f@)),
{
    let mut out: Vec<Option<String>> = Vec::new();
    let mut i: usize = 0;
    while i < specs.len()
        invariant
            i <= specs.len(),
            out.len() == i,
            forall|k: int| 0 <= k < i ==> opt_string_view(#[trigger] out@[k]) == specs@[k]@.id,
        decreases specs.len() - i,
    {
        out.push(crate::spec::common::opt_owned(specs[i].id()));
        i = i + 1;
    }
    assert(ids_view(out@) =~= inbound_ids(specs@.map_values(|f: HttpInboundAdapterSpec| f@)));
    out
}

fn outbound_id_list(specs: &[HttpOutboundAdapterSpec]) -> (r: Vec<Option<String>>)
    ensures
        ids_view(r@) == outbound_ids(specs@.map_values(|f: HttpOutboundAdapterSpec| f@)),
{
    let mut out: Vec<Option<String>> = Vec::new();
    let mut i: usize = 0;
    while i < specs.len()
        invariant
            i <= specs.len(),
            out.len() == i,
            forall|k: int| 0 <= k < i ==> opt_string_view(#[trigger] out@[k]) == specs@[k]@.id,
        decreases specs.len() - i,
    {
        out.push(crate::spec::common::opt_owned(specs[i].id()));
        i = i + 1;
    }
    assert(ids_view(out@) =~= outbound_ids(specs@.map_values(|f: HttpOutboundAdapterSpec| f@)));
    out
}

/// Whether every id collection of `spec` can be numbered without the
/// counter overflowing.
pub fn runtime_ids_fit_check(spec: &AlloraSpec) -> (r: bool)
    ensures
        r == runtime_ids_fit(spec@),
{
    let f = match spec.filters_spec() {
        Some(fs) => ids_fit_check(&filter_id_list(fs.filters()), "filter:auto."),
        None => true,
    };
    let s = match spec.services_spec() {
        Some(ss) => ids_fit_check(&service_id_list(ss.services_activators()), "service:auto."),
        None => true,
    };
    let h = match spec.http_inbound_adapters_spec() {
        Some(hs) => ids_fit_check(&inbound_id_list(hs.adapters()), "http-inbound-adapter:auto."),
        None => true,
    };
    let o = match spec.http_outbound_adapters_spec() {
        Some(os) => ids_fit_check(&outbound_id_list(os.adapters()), "http-outbound-adapter:auto."),
        None => true,
    };
    f && s && h && o
}

/// What assembling a runtime from configuration text gives: the format
/// problem, the reading problem, the assembly problem, or a runtime that
/// holds exactly what the specification describes.
pub open spec fn runtime_from_text(raw: Seq<char>, format: DslFormat, r: Result<AlloraRuntime>) -> bool {
    match format_problem(format) {
        Some(m) => r matches Err(e) && e@ == ser(m),
        None => match allora_text(raw) {
            Err(ev) => r matches Err(e) && e@ == ev,
            Ok(s) => match runtime_problem(s) {
                Some(ev) => r matches Err(e) && e@ == ev,
                None => r matches Ok(rt) && runtime_matches(rt@, s),
            },
        },
    }
}

/// Assemble a runtime from configuration text in `format` (see
/// [`build_runtime_from_spec`]). The text must not describe a collection
/// whose generated ids would overflow the counter.
pub fn build_runtime_from_str(raw: &str, format: DslFormat) -> (r: Result<AlloraRuntime>)
    requires
        format_problem(format) is None ==> (allora_text(raw@) matches Ok(s) ==> runtime_ids_fit(s)),
    ensures
        runtime_from_text(raw@, format, r),
{
    check_format(format)?;
    let spec = AlloraSpecYamlParser::parse_str(raw)?;
    build_runtime_from_spec(spec)
}

/// Assemble a runtime from configuration text, or `None` when the text
/// describes a collection whose generated ids would overflow the counter.
pub fn try_build_runtime_from_str(raw: &str, format: DslFormat) -> (r: Option<Result<AlloraRuntime>>)
    ensures
        match r {
            None => format_problem(format) is None && (allora_text(raw@) matches Ok(s)
                && !runtime_ids_fit(s)),
            Some(x) => runtime_from_text(raw@, format, x),
        },
{
    let is_yaml = match format {
        DslFormat::Yaml => true,
        _ => false,
    };
    if is_yaml {
        match AlloraSpecYamlParser::parse_str(raw) {
            Ok(spec) => {
                if !runtime_ids_fit_check(&spec) {
                    return None;
                }
            },
            Err(_) => {},
        }
    }
    Some(build_runtime_from_str(raw, format))
}

// ---------------------------------------------------------------------------
// Runtime facade and configuration discovery
// ---------------------------------------------------------------------------

/// Builder of a runtime: an optional explicit configuration path.
#[derive(Debug)]
pub struct Runtime {
    config_path: Option<String>,
}

impl Runtime {
    pub closed spec fn spec_config_path(&self) -> Option<Seq<char>> {
        opt_string_view(self.config_path)
    }

    /// No explicit path: the configuration is discovered.
    pub fn new() -> (r: Runtime)
        ensures
            r.spec_config_path() is None,
    {
        Runtime { config_path: None }
    }

    /// Use the configuration file at `path`.
    pub fn with_config_file(self, path: &str) -> (r: Runtime)
        ensures
            r.spec_config_path() == Some(path@),
    {
        Runtime { config_path: Some(owned(path)) }
    }

    /// The explicit configuration path, if one was set.
    pub fn config_path(&self) -> (r: Option<&str>)
        ensures
            opt_str_view(r) == self.spec_config_path(),
    {
        opt_as_str(&self.config_path)
    }
}

impl Default for Runtime {
    fn default() -> (r: Runtime)
        ensures
            r.spec_config_path() is None,
    {
        Runtime::new()
    }
}

/// The value given with `--runtime <path>` or `--runtime=<path>` among the
/// program arguments (program name excluded); the first such flag decides.
pub open spec fn runtime_override_from(args: Seq<Seq<char>>, i: int) -> Option<Seq<char>>
    decreases args.len() - i,
{
    if i < 0 || i >= args.len() {
        None
    } else if args[i] == "--runtime"@ {
        if i + 1 < args.len() {
            Some(args[i + 1])
        } else {
            None
        }
    } else if has_prefix(args[i], "--runtime="@) {
        Some(args[i].subrange("--runtime="@.len() as int, args[i].len() as int))
    } else {
        runtime_override_from(args, i + 1)
    }
}

/// The configuration path named on the command line, if any.
pub fn runtime_override(args: &Vec<String>) -> (r: Option<String>)
    ensures
        opt_string_view(r) == runtime_override_from(args@.map_values(|s: String| s@), 0),
{
    let ghost av = args@.map_values(|s: String| s@);
    let flag = chars_of("--runtime=");
    let mut i: usize = 0;
    while i < args.len()
        invariant
            i <= args.len(),
            av == args@.map_values(|s: String| s@),
            flag@ == "--runtime="@,
            runtime_override_from(av, 0) == runtime_override_from(av, i as int),
        decreases args.len() - i,
    {
        assert(av[i as int] == args@[i as int]@);
        if text_eq(args[i].as_str(), "--runtime") {
            if i + 1 < args.len() {
                assert(av[i + 1] == args@[i + 1]@);
                return Some(owned(args[i + 1].as_str()));
            }
            return None;
        }
        let cs = chars_of(args[i].as_str());
        if crate::text::occurs_at(cs.as_slice(), flag.as_slice(), 0) {
            let rest = crate::text::chars_slice(&cs, flag.len(), cs.len());
            return Some(string_of(rest.as_slice()));
        }
        i = i + 1;
    }
    None
}

/// `dir` joined with `allora.yml` (as `PathBuf::join` does for a relative
/// file name).
pub open spec fn joined_config(dir: Seq<char>) -> Seq<char> {
    if dir.len() == 0 {
        "allora.yml"@
    } else if dir[dir.len() - 1] == '/' {
        dir + "allora.yml"@
    } else {
        dir + "/allora.yml"@
    }
}

/// A configuration path candidate as found: the text and whether it is a
/// directory (for overrides) or exists (for discovered files).
pub struct Candidate {
    pub path: String,
    pub flag: bool,
}

pub open spec fn candidate_view(c: Option<Candidate>) -> Option<(Seq<char>, bool)> {
    match c {
        Some(x) => Some((x.path@, x.flag)),
        None => None,
    }
}

/// The configuration file chosen when none was given: a command-line
/// override (its `allora.yml` when it is a directory), else the
/// `ALLORA_CONFIG` variable likewise, else `allora.yml` in the working
/// directory when it exists, else `allora.yml` next to the executable
/// when that exists, else `allora.yml`.
pub open spec fn chosen_config(
    cli: Option<(Seq<char>, bool)>,
    env: Option<(Seq<char>, bool)>,
    cwd_exists: bool,
    exe: Option<(Seq<char>, bool)>,
) -> Seq<char> {
    match cli {
        Some((p, is_dir)) => if is_dir {
            joined_config(p)
        } else {
            p
        },
        None => match env {
            Some((p, is_dir)) => if is_dir {
                joined_config(p)
            } else {
                p
            },
            None => if cwd_exists {
                "allora.yml"@
            } else {
                match exe {
                    Some((p, true)) => p,
                    _ => "allora.yml"@,
                }
            },
        },
    }
}

/// Where the configuration is read from: a command-line override wins,
/// and without one `ALLORA_CONFIG` is taken exactly as an override would
/// be. A directory, from either source, stands for the `allora.yml` inside
/// it (`dir/allora.yml`), never for itself; a file is taken as named.
pub proof fn law_config_sources(
    p: Seq<char>,
    is_dir: bool,
    other: Option<(Seq<char>, bool)>,
    cwd_exists: bool,
    exe: Option<(Seq<char>, bool)>,
)
    ensures
        chosen_config(None, Some((p, is_dir)), cwd_exists, exe) == chosen_config(
            Some((p, is_dir)),
            other,
            cwd_exists,
            exe,
        ),
        is_dir && p.len() > 0 && p[p.len() - 1] != '/' ==> chosen_config(
            None,
            Some((p, is_dir)),
            cwd_exists,
            exe,
        ) == p + "/allora.yml"@,
        is_dir ==> chosen_config(None, Some((p, is_dir)), cwd_exists, exe) != p
            && chosen_config(Some((p, is_dir)), other, cwd_exists, exe) != p,
        !is_dir ==> chosen_config(None, Some((p, is_dir)), cwd_exists, exe) == p,
{
    reveal_strlit("allora.yml");
    reveal_strlit("/allora.yml");
    if is_dir {
        let j = joined_config(p);
        assert(j.len() > p.len() || p.len() == 0) by {
            if p.len() > 0 {
                assert(j.len() == p.len() + 10 || j.len() == p.len() + 11);
            }
        }
        if p.len() == 0 {
            assert(j.len() == 10);
        }
    }
}

/// `dir` joined with `allora.yml`.
pub fn join_config(dir: &str) -> (r: String)
    ensures
        r@ == joined_config(dir@),
{
    let cs = chars_of(dir);
    if cs.len() == 0 {
        owned("allora.yml")
    } else if cs[cs.len() - 1] == '/' {
        concat2(dir, "allora.yml")
    } else {
        concat2(dir, "/allora.yml")
    }
}

/// Choose the configuration file from what was found (see
/// [`chosen_config`]).
pub fn choose_config(
    cli: Option<Candidate>,
    env: Option<Candidate>,
    cwd_exists: bool,
    exe: Option<Candidate>,
) -> (r: String)
    ensures
        r@ == chosen_config(candidate_view(cli), candidate_view(env), cwd_exists, candidate_view(exe)),
{
    match cli {
        Some(c) => {
            if c.flag {
                return join_config(c.path.as_str());
            }
            return c.path;
        },
        None => {},
    }
    match env {
        Some(c) => {
            if c.flag {
                return join_config(c.path.as_str());
            }
            return c.path;
        },
        None => {},
    }
    if cwd_exists {
        return owned("allora.yml");
    }
    match exe {
        Some(c) => {
            if c.flag {
                return c.path;
            }
        },
        None => {},
    }
    owned("allora.yml")
}

/// The error for a configuration file that does not exist.
pub fn missing_config_error(path: &str) -> (r: Error)
    ensures
        r@ == err_view(ErrorKind::Runtime, "config file '"@ + path@ + "' not found"@),
{
    Error::runtime(crate::text::concat3("config file '", path, "' not found"))
}

/// The error for a configuration file that cannot be read.
pub fn read_error(detail: &str) -> (r: Error)
    ensures
        r@ == err_view(ErrorKind::Other, "read error: "@ + detail@),
{
    Error::other(concat2("read error: ", detail))
}

} // verus!
