//! Aggregator specification: correlation header plus registry names of the
//! completion condition, strategy and group store.
use vstd::prelude::*;
use super::common::{
    lemma_parse_all_empty, lemma_parse_all_err_sticks, lemma_parse_all_full,
    lemma_parse_all_step, opt_as_str, opt_str_view, opt_string_view, opt_text_field,
    opt_text_field_exec, parse_all, req_text_field, req_text_field_exec,
};
use super::version::{res_view, yaml_error, ser, ser_err, validate_version, version_check};
use crate::error::{ErrorView, Result};
use crate::text::owned;
use crate::yaml::{read_yaml, yaml_read, yaml_syntax_error, YamlValue};

verus! {

/// Specification of one aggregator.
#[derive(Debug)]
pub struct AggregatorSpec {
    id: Option<String>,
    correlation_header: String,
    completion: String,
    strategy: Option<String>,
    store: Option<String>,
}

pub struct AggregatorSpecView {
    pub id: Option<Seq<char>>,
    pub correlation_header: Seq<char>,
    pub completion: Seq<char>,
    pub strategy: Option<Seq<char>>,
    pub store: Option<Seq<char>>,
}

impl View for AggregatorSpec {
    type V = AggregatorSpecView;

    closed spec fn view(&self) -> AggregatorSpecView {
        AggregatorSpecView {
            id: opt_string_view(self.id),
            correlation_header: self.correlation_header@,
            completion: self.completion@,
            strategy: opt_string_view(self.strategy),
            store: opt_string_view(self.store),
        }
    }
}

impl AggregatorSpec {
    pub fn new(correlation_header: &str, completion: &str) -> (r: Self)
        ensures
            r@ == (AggregatorSpecView {
                id: None,
                correlation_header: correlation_header@,
                completion: completion@,
                strategy: None,
                store: None,
            }),
    {
        AggregatorSpec {
            id: None,
            correlation_header: owned(correlation_header),
            completion: owned(completion),
            strategy: None,
            store: None,
        }
    }

    pub fn with_id(id: &str, correlation_header: &str, completion: &str) -> (r: Self)
        ensures
            r@ == (AggregatorSpecView {
                id: Some(id@),
                correlation_header: correlation_header@,
                completion: completion@,
                strategy: None,
                store: None,
            }),
    {
        AggregatorSpec {
            id: Some(owned(id)),
            correlation_header: owned(correlation_header),
            completion: owned(completion),
            strategy: None,
            store: None,
        }
    }

    pub fn set_strategy(self, strategy: &str) -> (r: Self)
        ensures
            r@ == (AggregatorSpecView { strategy: Some(strategy@), ..self@ }),
    {
        AggregatorSpec { strategy: Some(owned(strategy)), ..self }
    }

    pub fn set_store(self, store: &str) -> (r: Self)
        ensures
            r@ == (AggregatorSpecView { store: Some(store@), ..self@ }),
    {
        AggregatorSpec { store: Some(owned(store)), ..self }
    }

    pub fn id(&self) -> (r: Option<&str>)
        ensures
            opt_str_view(r) == self@.id,
    {
        opt_as_str(&self.id)
    }

    pub fn correlation_header(&self) -> (r: &str)
        ensures
            r@ == self@.correlation_header,
    {
        self.correlation_header.as_str()
    }

    pub fn completion(&self) -> (r: &str)
        ensures
            r@ == self@.completion,
    {
        self.completion.as_str()
    }

    pub fn strategy(&self) -> (r: Option<&str>)
        ensures
            opt_str_view(r) == self@.strategy,
    {
        opt_as_str(&self.strategy)
    }

    pub fn store(&self) -> (r: Option<&str>)
        ensures
            opt_str_view(r) == self@.store,
    {
        opt_as_str(&self.store)
    }

    /// Builder use: assign a (generated) id.
    pub fn set_id(&mut self, id: String)
        ensures
            final(self)@ == (AggregatorSpecView { id: Some(id@), ..old(self)@ }),
    {
        self.id = Some(id);
    }

    /// An equal copy of this specification.
    pub fn duplicate(&self) -> (r: Self)
        ensures
            r@ == self@,
    {
        AggregatorSpec {
            id: super::common::opt_owned(opt_as_str(&self.id)),
            correlation_header: owned(self.correlation_header.as_str()),
            completion: owned(self.completion.as_str()),
            strategy: super::common::opt_owned(opt_as_str(&self.strategy)),
            store: super::common::opt_owned(opt_as_str(&self.store)),
        }
    }
}

/// Ordered collection of aggregator specifications sharing one version (declaration order is kept;
/// ids are not checked for uniqueness here).
#[derive(Debug)]
pub struct AggregatorsSpec {
    version: u32,
    aggregators: Vec<AggregatorSpec>,
}

pub struct AggregatorsSpecView {
    pub version: u32,
    pub aggregators: Seq<AggregatorSpecView>,
}

impl View for AggregatorsSpec {
    type V = AggregatorsSpecView;

    closed spec fn view(&self) -> AggregatorsSpecView {
        AggregatorsSpecView { version: self.version, aggregators: self.aggregators@.map_values(|c: AggregatorSpec| c@) }
    }
}

impl AggregatorsSpec {
    pub fn new(version: u32) -> (r: Self)
        ensures
            r@.version == version,
            r@.aggregators == Seq::<AggregatorSpecView>::empty(),
    {
        let r = AggregatorsSpec { version, aggregators: Vec::new() };
        assert(r@.aggregators =~= Seq::<AggregatorSpecView>::empty());
        r
    }

    pub fn add(self, item: AggregatorSpec) -> (r: Self)
        ensures
            r@.version == self@.version,
            r@.aggregators == self@.aggregators.push(item@),
    {
        let mut s = self;
        s.push(item);
        s
    }

    pub fn push(&mut self, item: AggregatorSpec)
        ensures
            final(self)@.version == old(self)@.version,
            final(self)@.aggregators == old(self)@.aggregators.push(item@),
    {
        self.aggregators.push(item);
        assert(self@.aggregators =~= old(self)@.aggregators.push(item@));
    }

    pub fn version(&self) -> (r: u32)
        ensures
            r == self@.version,
    {
        self.version
    }

    pub fn aggregators(&self) -> (r: &[AggregatorSpec])
        ensures
            r@.map_values(|c: AggregatorSpec| c@) == self@.aggregators,
    {
        self.aggregators.as_slice()
    }

    pub fn into_aggregators(self) -> (r: Vec<AggregatorSpec>)
        ensures
            r@.map_values(|c: AggregatorSpec| c@) == self@.aggregators,
    {
        self.aggregators
    }

    /// An equal copy of this collection.
    pub fn duplicate(&self) -> (r: Self)
        ensures
            r@ == self@,
    {
        let mut items: Vec<AggregatorSpec> = Vec::new();
        let mut i: usize = 0;
        while i < self.aggregators.len()
            invariant
                i <= self.aggregators.len(),
                items.len() == i,
                forall|k: int| 0 <= k < i ==> (#[trigger] items@[k])@ == self.aggregators@[k]@,
            decreases self.aggregators.len() - i,
        {
            items.push(self.aggregators[i].duplicate());
            i = i + 1;
        }
        let r = AggregatorsSpec { version: self.version, aggregators: items };
        assert(r@.aggregators =~= self@.aggregators);
        r
    }
}

/// An aggregator entry: required `correlation_header` and `completion`;
/// optional `id`, `strategy`, `store` (null counts as absent).
pub open spec fn aggregator_entry(root: YamlValue) -> core::result::Result<AggregatorSpecView, ErrorView> {
    match req_text_field(root, "aggregator."@, "correlation_header"@) {
        Err(e) => Err(e),
        Ok(h) => match req_text_field(root, "aggregator."@, "completion"@) {
            Err(e) => Err(e),
            Ok(c) => match opt_text_field(root, "aggregator."@, "id"@) {
                Err(e) => Err(e),
                Ok(id) => match opt_text_field(root, "aggregator."@, "strategy"@) {
                    Err(e) => Err(e),
                    Ok(strategy) => match opt_text_field(root, "aggregator."@, "store"@) {
                        Err(e) => Err(e),
                        Ok(store) => Ok(
                            AggregatorSpecView {
                                id,
                                correlation_header: h,
                                completion: c,
                                strategy,
                                store,
                            },
                        ),
                    },
                },
            },
        },
    }
}

pub open spec fn aggregator_item(v: YamlValue) -> core::result::Result<AggregatorSpecView, ErrorView> {
    if !v.spec_is_mapping() {
        Err(ser("aggregator entry must be a mapping"@))
    } else {
        aggregator_entry(v)
    }
}

/// A document `version: 1` + `aggregator: {..}`.
pub open spec fn aggregator_doc(yaml: YamlValue) -> core::result::Result<AggregatorSpecView, ErrorView> {
    match version_check(yaml) {
        Err(e) => Err(e),
        Ok(_) => match yaml.spec_get("aggregator"@) {
            None => Err(ser("missing 'aggregator'"@)),
            Some(root) => if !root.spec_is_mapping() {
                Err(ser("'aggregator' must be a mapping"@))
            } else {
                aggregator_entry(root)
            },
        },
    }
}

/// A document `version: 1` + `aggregators: [..]` (at least one entry).
pub open spec fn aggregators_doc(yaml: YamlValue) -> core::result::Result<AggregatorsSpecView, ErrorView> {
    match version_check(yaml) {
        Err(e) => Err(e),
        Ok(v) => match yaml.spec_get("aggregators"@) {
            None => Err(ser("missing 'aggregators'"@)),
            Some(root) => if !root.spec_is_sequence() {
                Err(ser("'aggregators' must be a sequence"@))
            } else if root.spec_items().len() == 0 {
                Err(ser("'aggregators' sequence must not be empty (minItems=1)"@))
            } else {
                aggregators_items(root.spec_items(), v)
            },
        },
    }
}

/// The entries of a `aggregators` sequence, in order; the first bad entry fails.
pub open spec fn aggregators_items(items: Seq<YamlValue>, v: u32) -> core::result::Result<AggregatorsSpecView, ErrorView> {
    match parse_all(items, |i: YamlValue| aggregator_item(i)) {
        Err(e) => Err(e),
        Ok(xs) => Ok(AggregatorsSpecView { version: v, aggregators: xs }),
    }
}

pub fn parse_aggregators_items(items: &Vec<YamlValue>, v: u32) -> (r: Result<AggregatorsSpec>)
    ensures
        res_view(r) == aggregators_items(items@, v),
{
    let ghost f = |i: YamlValue| aggregator_item(i);
    let mut spec = AggregatorsSpec::new(v);
    let mut k: usize = 0;
    proof {
        lemma_parse_all_empty(items@, f);
    }
    while k < items.len()
        invariant
            k <= items.len(),
            spec@.version == v,
            f == (|i: YamlValue| aggregator_item(i)),
            parse_all(items@.take(k as int), f) == Ok::<Seq<AggregatorSpecView>, ErrorView>(spec@.aggregators),
        decreases items.len() - k,
    {
        proof {
            lemma_parse_all_step(items@, f, k as int);
        }
        let item = &items[k];
        if !item.is_mapping() {
            let e = ser_err("aggregator entry must be a mapping");
            proof {
                lemma_parse_all_err_sticks(items@, f, k + 1);
            }
            return Err(e);
        }
        match parse_aggregator_entry(item) {
            Err(e) => {
                proof {
                    lemma_parse_all_err_sticks(items@, f, k + 1);
                }
                return Err(e);
            },
            Ok(c) => {
                spec.push(c);
            },
        }
        k = k + 1;
    }
    proof {
        lemma_parse_all_full(items@, f);
    }
    Ok(spec)
}

fn parse_aggregator_entry(root: &YamlValue) -> (r: Result<AggregatorSpec>)
    ensures
        res_view(r) == aggregator_entry(*root),
{
    let correlation_header = req_text_field_exec(root, "aggregator.", "correlation_header")?;
    let completion = req_text_field_exec(root, "aggregator.", "completion")?;
    let id = opt_text_field_exec(root, "aggregator.", "id")?;
    let strategy = opt_text_field_exec(root, "aggregator.", "strategy")?;
    let store = opt_text_field_exec(root, "aggregator.", "store")?;
    Ok(AggregatorSpec { id, correlation_header, completion, strategy, store })
}

/// Parser of single aggregator documents.
pub struct AggregatorSpecYamlParser;

impl AggregatorSpecYamlParser {
    /// Parse a YAML text: read it as a document, then as [`Self::parse_value`] does.
    pub fn parse_str(raw: &str) -> (r: Result<AggregatorSpec>)
        ensures
            res_view(r) == match yaml_read(raw@) {
                Ok(v) => aggregator_doc(v),
                Err(e) => Err(yaml_syntax_error(e)),
            },
    {
        match read_yaml(raw) {
            Ok(v) => Self::parse_value(&v),
            Err(e) => Err(yaml_error(e.as_str())),
        }
    }

    pub fn parse_value(yaml: &YamlValue) -> (r: Result<AggregatorSpec>)
        ensures
            res_view(r) == aggregator_doc(*yaml),
    {
        validate_version(yaml)?;
        let root = match yaml.get("aggregator") {
            None => return Err(ser_err("missing 'aggregator'")),
            Some(r) => r,
        };
        if !root.is_mapping() {
            return Err(ser_err("'aggregator' must be a mapping"));
        }
        parse_aggregator_entry(root)
    }
}

/// Parser of aggregator collection documents.
pub struct AggregatorsSpecYamlParser;

impl AggregatorsSpecYamlParser {
    /// Parse a YAML text: read it as a document, then as [`Self::parse_value`] does.
    pub fn parse_str(raw: &str) -> (r: Result<AggregatorsSpec>)
        ensures
            res_view(r) == match yaml_read(raw@) {
                Ok(v) => aggregators_doc(v),
                Err(e) => Err(yaml_syntax_error(e)),
            },
    {
        match read_yaml(raw) {
            Ok(v) => Self::parse_value(&v),
            Err(e) => Err(yaml_error(e.as_str())),
        }
    }

    pub fn parse_value(yaml: &YamlValue) -> (r: Result<AggregatorsSpec>)
        ensures
            res_view(r) == aggregators_doc(*yaml),
    {
        let v = validate_version(yaml)?;
        let root = match yaml.get("aggregators") {
            None => return Err(ser_err("missing 'aggregators'")),
            Some(r) => r,
        };
        let items = match root.as_sequence() {
            None => return Err(ser_err("'aggregators' must be a sequence")),
            Some(items) => items,
        };
        if items.len() == 0 {
            return Err(ser_err("'aggregators' sequence must not be empty (minItems=1)"));
        }
        parse_aggregators_items(items, v)
    }
}

} // verus!
