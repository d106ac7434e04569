//! Service activator specification: a named service wired between an
//! inbound and an outbound channel.
use vstd::prelude::*;
use super::common::{
    lemma_parse_all_empty, lemma_parse_all_err_sticks, lemma_parse_all_full,
    lemma_parse_all_step, opt_as_str, opt_str_view, opt_string_view, opt_text_field,
    opt_text_field_exec, parse_all, req_text_field, req_text_field_exec, lemma_parse_all_ok,
    yaml_text,
};
use super::version::{res_view, yaml_error, ser, ser_err, validate_version, version_check};
use crate::error::{ErrorView, Result};
use crate::text::owned;
use crate::yaml::{read_yaml, yaml_read, yaml_syntax_error, YamlValue};

verus! {

/// Specification of one service activator.
#[derive(Debug)]
pub struct ServiceActivatorSpec {
    id: Option<String>,
    ref_name: String,
    from: String,
    to: String,
}

pub struct ServiceActivatorSpecView {
    pub id: Option<Seq<char>>,
    pub ref_name: Seq<char>,
    pub from: Seq<char>,
    pub to: Seq<char>,
}

impl View for ServiceActivatorSpec {
    type V = ServiceActivatorSpecView;

    closed spec fn view(&self) -> ServiceActivatorSpecView {
        ServiceActivatorSpecView {
            id: opt_string_view(self.id),
            ref_name: self.ref_name@,
            from: self.from@,
            to: self.to@,
        }
    }
}

impl ServiceActivatorSpec {
    pub fn new(ref_name: &str, from: &str, to: &str) -> (r: Self)
        ensures
            r@ == (ServiceActivatorSpecView { id: None, ref_name: ref_name@, from: from@, to: to@ }),
    {
        ServiceActivatorSpec { id: None, ref_name: owned(ref_name), from: owned(from), to: owned(to) }
    }

    pub fn with_id(id: &str, ref_name: &str, from: &str, to: &str) -> (r: Self)
        ensures
            r@ == (ServiceActivatorSpecView {
                id: Some(id@),
                ref_name: ref_name@,
                from: from@,
                to: to@,
            }),
    {
        ServiceActivatorSpec {
            id: Some(owned(id)),
            ref_name: owned(ref_name),
            from: owned(from),
            to: owned(to),
        }
    }

    pub fn id(&self) -> (r: Option<&str>)
        ensures
            opt_str_view(r) == self@.id,
    {
        opt_as_str(&self.id)
    }

    pub fn ref_name(&self) -> (r: &str)
        ensures
            r@ == self@.ref_name,
    {
        self.ref_name.as_str()
    }

    pub fn from(&self) -> (r: &str)
        ensures
            r@ == self@.from,
    {
        self.from.as_str()
    }

    pub fn to(&self) -> (r: &str)
        ensures
            r@ == self@.to,
    {
        self.to.as_str()
    }

    pub fn set_id(&mut self, id: String)
        ensures
            final(self)@ == (ServiceActivatorSpecView { id: Some(id@), ..old(self)@ }),
    {
        self.id = Some(id);
    }

    /// An equal copy of this specification.
    pub fn duplicate(&self) -> (r: Self)
        ensures
            r@ == self@,
    {
        ServiceActivatorSpec {
            id: super::common::opt_owned(opt_as_str(&self.id)),
            ref_name: owned(self.ref_name.as_str()),
            from: owned(self.from.as_str()),
            to: owned(self.to.as_str()),
        }
    }
}

/// Ordered collection of service activator specifications sharing one version (declaration order is kept;
/// ids are not checked for uniqueness here).
#[derive(Debug)]
pub struct ServiceActivatorsSpec {
    version: u32,
    services: Vec<ServiceActivatorSpec>,
}

pub struct ServiceActivatorsSpecView {
    pub version: u32,
    pub services: Seq<ServiceActivatorSpecView>,
}

impl View for ServiceActivatorsSpec {
    type V = ServiceActivatorsSpecView;

    closed spec fn view(&self) -> ServiceActivatorsSpecView {
        ServiceActivatorsSpecView { version: self.version, services: self.services@.map_values(|c: ServiceActivatorSpec| c@) }
    }
}

impl ServiceActivatorsSpec {
    pub fn new(version: u32) -> (r: Self)
        ensures
            r@.version == version,
            r@.services == Seq::<ServiceActivatorSpecView>::empty(),
    {
        let r = ServiceActivatorsSpec { version, services: Vec::new() };
        assert(r@.services =~= Seq::<ServiceActivatorSpecView>::empty());
        r
    }

    pub fn add(self, item: ServiceActivatorSpec) -> (r: Self)
        ensures
            r@.version == self@.version,
            r@.services == self@.services.push(item@),
    {
        let mut s = self;
        s.push(item);
        s
    }

    pub fn push(&mut self, item: ServiceActivatorSpec)
        ensures
            final(self)@.version == old(self)@.version,
            final(self)@.services == old(self)@.services.push(item@),
    {
        self.services.push(item);
        assert(self@.services =~= old(self)@.services.push(item@));
    }

    pub fn version(&self) -> (r: u32)
        ensures
            r == self@.version,
    {
        self.version
    }

    pub fn services_activators(&self) -> (r: &[ServiceActivatorSpec])
        ensures
            r@.map_values(|c: ServiceActivatorSpec| c@) == self@.services,
    {
        self.services.as_slice()
    }

    pub fn into_service_activators(self) -> (r: Vec<ServiceActivatorSpec>)
        ensures
            r@.map_values(|c: ServiceActivatorSpec| c@) == self@.services,
    {
        self.services
    }

    /// An equal copy.
    pub fn duplicate(&self) -> (r: Self)
        ensures
            r@ == self@,
    {
        let mut items: Vec<ServiceActivatorSpec> = Vec::new();
        let mut i: usize = 0;
        while i < self.services.len()
            invariant
                i <= self.services.len(),
                items.len() == i,
                forall|k: int| 0 <= k < i ==> (#[trigger] items@[k])@ == self.services@[k]@,
            decreases self.services.len() - i,
        {
            items.push(self.services[i].duplicate());
            i = i + 1;
        }
        let r = ServiceActivatorsSpec { version: self.version, services: items };
        assert(r@.services =~= self@.services);
        r
    }
}

/// A service activator entry: required `ref-name`, `from`, `to`; optional `id`.
pub open spec fn service_entry(root: YamlValue) -> core::result::Result<ServiceActivatorSpecView, ErrorView> {
    match req_text_field(root, "service-activator."@, "ref-name"@) {
        Err(e) => Err(e),
        Ok(ref_name) => match req_text_field(root, "service-activator."@, "from"@) {
            Err(e) => Err(e),
            Ok(from) => match req_text_field(root, "service-activator."@, "to"@) {
                Err(e) => Err(e),
                Ok(to) => match opt_text_field(root, "service-activator."@, "id"@) {
                    Err(e) => Err(e),
                    Ok(id) => Ok(ServiceActivatorSpecView { id, ref_name, from, to }),
                },
            },
        },
    }
}

pub open spec fn service_item(v: YamlValue) -> core::result::Result<ServiceActivatorSpecView, ErrorView> {
    if !v.spec_is_mapping() {
        Err(ser("service-activator entry must be a mapping"@))
    } else {
        service_entry(v)
    }
}

/// A document `version: 1` + `service-activator: {..}`.
pub open spec fn service_doc(yaml: YamlValue) -> core::result::Result<ServiceActivatorSpecView, ErrorView> {
    match version_check(yaml) {
        Err(e) => Err(e),
        Ok(_) => match yaml.spec_get("service-activator"@) {
            None => Err(ser("missing 'service-activator'"@)),
            Some(root) => if !root.spec_is_mapping() {
                Err(ser("'service-activator' must be a mapping"@))
            } else {
                service_entry(root)
            },
        },
    }
}

/// The entries of a `service-activators` sequence, in order; the first bad entry fails.
pub open spec fn services_items(items: Seq<YamlValue>, v: u32) -> core::result::Result<ServiceActivatorsSpecView, ErrorView> {
    match parse_all(items, |i: YamlValue| service_item(i)) {
        Err(e) => Err(e),
        Ok(xs) => Ok(ServiceActivatorsSpecView { version: v, services: xs }),
    }
}

/// A service activator is wired as written: when an entry parses, its
/// `from`, `to` and `ref-name` are exactly the texts under those keys (the
/// service consumes from `from` and sends to `to`); an entry with a
/// `ref-name` but no `from` fails with `service-activator.from required`.
/// The same holds of a `service-activator` document and of every entry of
/// a `service-activators` sequence, in order.
pub proof fn law_service_channels_as_written(
    root: YamlValue,
    yaml: YamlValue,
    items: Seq<YamlValue>,
    v: u32,
)
    ensures
        service_entry(root) matches Ok(s) ==> yaml_text(root, "from"@) == Some(s.from) && yaml_text(
            root,
            "to"@,
        ) == Some(s.to) && yaml_text(root, "ref-name"@) == Some(s.ref_name) && yaml_text(root, "id"@)
            == s.id,
        (yaml_text(root, "ref-name"@) matches Some(n) && n.len() > 0) && root.spec_get("from"@) is None
            ==> service_entry(root) == Err::<ServiceActivatorSpecView, ErrorView>(
            ser("service-activator.from required"@),
        ),
        service_doc(yaml) matches Ok(s) ==> (yaml.spec_get("service-activator"@) matches Some(r)
            && yaml_text(r, "from"@) == Some(s.from) && yaml_text(r, "to"@) == Some(s.to)),
        services_items(items, v) matches Ok(l) ==> l.services.len() == items.len() && forall|i: int|
            0 <= i < items.len() ==> yaml_text(#[trigger] items[i], "from"@) == Some(l.services[i].from)
                && yaml_text(items[i], "to"@) == Some(l.services[i].to),
{
    reveal_strlit("service-activator.");
    reveal_strlit("from");
    reveal_strlit(" required");
    reveal_strlit("service-activator.from required");
    assert("service-activator."@ + "from"@ + " required"@ =~= "service-activator.from required"@);
    if let Ok(l) = services_items(items, v) {
        let f = |i: YamlValue| service_item(i);
        let xs = parse_all(items, f)->Ok_0;
        lemma_parse_all_ok(items, f, xs);
        assert forall|i: int| 0 <= i < items.len() implies yaml_text(#[trigger] items[i], "from"@) == Some(
            l.services[i].from,
        ) && yaml_text(items[i], "to"@) == Some(l.services[i].to) by {
            assert(f(items[i]) == Ok::<ServiceActivatorSpecView, ErrorView>(xs[i]));
        }
    }
}

pub fn parse_services_items(items: &Vec<YamlValue>, v: u32) -> (r: Result<ServiceActivatorsSpec>)
    ensures
        res_view(r) == services_items(items@, v),
{
    let ghost f = |i: YamlValue| service_item(i);
    let mut spec = ServiceActivatorsSpec::new(v);
    let mut k: usize = 0;
    proof {
        lemma_parse_all_empty(items@, f);
    }
    while k < items.len()
        invariant
            k <= items.len(),
            spec@.version == v,
            f == (|i: YamlValue| service_item(i)),
            parse_all(items@.take(k as int), f) == Ok::<Seq<ServiceActivatorSpecView>, ErrorView>(spec@.services),
        decreases items.len() - k,
    {
        proof {
            lemma_parse_all_step(items@, f, k as int);
        }
        let item = &items[k];
        if !item.is_mapping() {
            let e = ser_err("service-activator entry must be a mapping");
            proof {
                lemma_parse_all_err_sticks(items@, f, k + 1);
            }
            return Err(e);
        }
        match parse_service_entry(item) {
            Err(e) => {
                proof {
                    lemma_parse_all_err_sticks(items@, f, k + 1);
                }
                return Err(e);
            },
            Ok(c) => {
                spec.push(c);
            },
        }
        k = k + 1;
    }
    proof {
        lemma_parse_all_full(items@, f);
    }
    Ok(spec)
}

fn parse_service_entry(root: &YamlValue) -> (r: Result<ServiceActivatorSpec>)
    ensures
        res_view(r) == service_entry(*root),
{
    let ref_name = req_text_field_exec(root, "service-activator.", "ref-name")?;
    let from = req_text_field_exec(root, "service-activator.", "from")?;
    let to = req_text_field_exec(root, "service-activator.", "to")?;
    let id = opt_text_field_exec(root, "service-activator.", "id")?;
    Ok(ServiceActivatorSpec { id, ref_name, from, to })
}

/// Parser of single service activator documents.
pub struct ServiceSpecYamlParser;

impl ServiceSpecYamlParser {
    /// Parse a YAML text: read it as a document, then as [`Self::parse_value`] does.
    pub fn parse_str(raw: &str) -> (r: Result<ServiceActivatorSpec>)
        ensures
            res_view(r) == match yaml_read(raw@) {
                Ok(v) => service_doc(v),
                Err(e) => Err(yaml_syntax_error(e)),
            },
    {
        match read_yaml(raw) {
            Ok(v) => Self::parse_value(&v),
            Err(e) => Err(yaml_error(e.as_str())),
        }
    }

    pub fn parse_value(yaml: &YamlValue) -> (r: Result<ServiceActivatorSpec>)
        ensures
            res_view(r) == service_doc(*yaml),
    {
        validate_version(yaml)?;
        let root = match yaml.get("service-activator") {
            None => return Err(ser_err("missing 'service-activator'")),
            Some(r) => r,
        };
        if !root.is_mapping() {
            return Err(ser_err("'service-activator' must be a mapping"));
        }
        parse_service_entry(root)
    }
}

} // verus!
