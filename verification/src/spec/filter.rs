//! Message filter specification (source channel, optional target channel,
//! predicate expression, optional id) and its collection.
use vstd::prelude::*;
use super::common::{
    lemma_parse_all_empty, lemma_parse_all_err_sticks, lemma_parse_all_full,
    lemma_parse_all_step, opt_as_str, opt_str_view, opt_string_view, opt_text_field,
    opt_text_field_exec, parse_all, req_text_field, req_text_field_exec, lemma_parse_all_ok,
    yaml_text,
};
use super::version::{res_view, yaml_error, ser, ser_err, validate_version, version_check};
use crate::error::{ErrorView, Result};
use crate::text::owned;
use crate::yaml::{read_yaml, yaml_read, yaml_syntax_error, YamlValue};

verus! {

/// Specification of one filter.
#[derive(Debug)]
pub struct FilterSpec {
    id: Option<String>,
    from: String,
    to: Option<String>,
    when: String,
}

pub struct FilterSpecView {
    pub id: Option<Seq<char>>,
    pub from: Seq<char>,
    pub to: Option<Seq<char>>,
    pub when: Seq<char>,
}

impl View for FilterSpec {
    type V = FilterSpecView;

    closed spec fn view(&self) -> FilterSpecView {
        FilterSpecView {
            id: opt_string_view(self.id),
            from: self.from@,
            to: opt_string_view(self.to),
            when: self.when@,
        }
    }
}

impl FilterSpec {
    pub fn new(from: &str, when: &str) -> (r: Self)
        ensures
            r@ == (FilterSpecView { id: None, from: from@, to: None, when: when@ }),
    {
        FilterSpec { id: None, from: owned(from), to: None, when: owned(when) }
    }

    pub fn with_to(from: &str, to: &str, when: &str) -> (r: Self)
        ensures
            r@ == (FilterSpecView { id: None, from: from@, to: Some(to@), when: when@ }),
    {
        FilterSpec { id: None, from: owned(from), to: Some(owned(to)), when: owned(when) }
    }

    pub fn with_id(id: &str, from: &str, when: &str) -> (r: Self)
        ensures
            r@ == (FilterSpecView { id: Some(id@), from: from@, to: None, when: when@ }),
    {
        FilterSpec { id: Some(owned(id)), from: owned(from), to: None, when: owned(when) }
    }

    pub fn with_id_to(id: &str, from: &str, to: &str, when: &str) -> (r: Self)
        ensures
            r@ == (FilterSpecView { id: Some(id@), from: from@, to: Some(to@), when: when@ }),
    {
        FilterSpec {
            id: Some(owned(id)),
            from: owned(from),
            to: Some(owned(to)),
            when: owned(when),
        }
    }

    pub fn id(&self) -> (r: Option<&str>)
        ensures
            opt_str_view(r) == self@.id,
    {
        opt_as_str(&self.id)
    }

    pub fn from(&self) -> (r: &str)
        ensures
            r@ == self@.from,
    {
        self.from.as_str()
    }

    pub fn to(&self) -> (r: Option<&str>)
        ensures
            opt_str_view(r) == self@.to,
    {
        opt_as_str(&self.to)
    }

    pub fn when(&self) -> (r: &str)
        ensures
            r@ == self@.when,
    {
        self.when.as_str()
    }

    pub fn set_id(&mut self, id: String)
        ensures
            final(self)@ == (FilterSpecView { id: Some(id@), ..old(self)@ }),
    {
        self.id = Some(id);
    }

    /// An equal copy.
    pub fn duplicate(&self) -> (r: Self)
        ensures
            r@ == self@,
    {
        FilterSpec {
            id: crate::spec::common::opt_owned(opt_as_str(&self.id)),
            from: owned(self.from.as_str()),
            to: crate::spec::common::opt_owned(opt_as_str(&self.to)),
            when: owned(self.when.as_str()),
        }
    }
}

/// Ordered collection of filter specifications sharing one version (declaration order is kept;
/// ids are not checked for uniqueness here).
#[derive(Debug)]
pub struct FiltersSpec {
    version: u32,
    filters: Vec<FilterSpec>,
}

pub struct FiltersSpecView {
    pub version: u32,
    pub filters: Seq<FilterSpecView>,
}

impl View for FiltersSpec {
    type V = FiltersSpecView;

    closed spec fn view(&self) -> FiltersSpecView {
        FiltersSpecView { version: self.version, filters: self.filters@.map_values(|c: FilterSpec| c@) }
    }
}

impl FiltersSpec {
    pub fn new(version: u32) -> (r: Self)
        ensures
            r@.version == version,
            r@.filters == Seq::<FilterSpecView>::empty(),
    {
        let r = FiltersSpec { version, filters: Vec::new() };
        assert(r@.filters =~= Seq::<FilterSpecView>::empty());
        r
    }

    pub fn add(self, item: FilterSpec) -> (r: Self)
        ensures
            r@.version == self@.version,
            r@.filters == self@.filters.push(item@),
    {
        let mut s = self;
        s.push(item);
        s
    }

    pub fn push(&mut self, item: FilterSpec)
        ensures
            final(self)@.version == old(self)@.version,
            final(self)@.filters == old(self)@.filters.push(item@),
    {
        self.filters.push(item);
        assert(self@.filters =~= old(self)@.filters.push(item@));
    }

    pub fn version(&self) -> (r: u32)
        ensures
            r == self@.version,
    {
        self.version
    }

    pub fn filters(&self) -> (r: &[FilterSpec])
        ensures
            r@.map_values(|c: FilterSpec| c@) == self@.filters,
    {
        self.filters.as_slice()
    }

    pub fn into_filters(self) -> (r: Vec<FilterSpec>)
        ensures
            r@.map_values(|c: FilterSpec| c@) == self@.filters,
    {
        self.filters
    }

    /// An equal copy.
    pub fn duplicate(&self) -> (r: Self)
        ensures
            r@ == self@,
    {
        let mut items: Vec<FilterSpec> = Vec::new();
        let mut i: usize = 0;
        while i < self.filters.len()
            invariant
                i <= self.filters.len(),
                items.len() == i,
                forall|k: int| 0 <= k < i ==> (#[trigger] items@[k])@ == self.filters@[k]@,
            decreases self.filters.len() - i,
        {
            items.push(self.filters[i].duplicate());
            i = i + 1;
        }
        let r = FiltersSpec { version: self.version, filters: items };
        assert(r@.filters =~= self@.filters);
        r
    }
}

/// A filter entry: required `from` and `when`, optional `to` and `id`.
pub open spec fn filter_entry(root: YamlValue) -> core::result::Result<FilterSpecView, ErrorView> {
    match req_text_field(root, "filter."@, "from"@) {
        Err(e) => Err(e),
        Ok(from) => match req_text_field(root, "filter."@, "when"@) {
            Err(e) => Err(e),
            Ok(when) => match opt_text_field(root, "filter."@, "to"@) {
                Err(e) => Err(e),
                Ok(to) => match opt_text_field(root, "filter."@, "id"@) {
                    Err(e) => Err(e),
                    Ok(id) => Ok(FilterSpecView { id, from, to, when }),
                },
            },
        },
    }
}

pub open spec fn filter_item(v: YamlValue) -> core::result::Result<FilterSpecView, ErrorView> {
    if !v.spec_is_mapping() {
        Err(ser("filter entry must be a mapping"@))
    } else {
        filter_entry(v)
    }
}

/// A document `version: 1` + `filter: {..}`.
pub open spec fn filter_doc(yaml: YamlValue) -> core::result::Result<FilterSpecView, ErrorView> {
    match version_check(yaml) {
        Err(e) => Err(e),
        Ok(_) => match yaml.spec_get("filter"@) {
            None => Err(ser("missing 'filter'"@)),
            Some(root) => if !root.spec_is_mapping() {
                Err(ser("'filter' must be a mapping"@))
            } else {
                filter_entry(root)
            },
        },
    }
}

/// The fields of `root` are those of `f` as written: the texts under
/// `from`, `when`, `to` and `id`.
pub open spec fn filter_as_written(root: YamlValue, f: FilterSpecView) -> bool {
    &&& yaml_text(root, "from"@) == Some(f.from)
    &&& yaml_text(root, "when"@) == Some(f.when)
    &&& yaml_text(root, "to"@) == f.to
    &&& yaml_text(root, "id"@) == f.id
}

/// A filter is configured as written: when an entry (or a `filter`
/// document, or every entry of a `filters` sequence) parses, its channels,
/// expression and id are the texts under those keys.
pub proof fn law_filter_as_written(root: YamlValue, yaml: YamlValue, items: Seq<YamlValue>, v: u32)
    ensures
        filter_entry(root) matches Ok(f) ==> filter_as_written(root, f),
        filter_doc(yaml) matches Ok(f) ==> (yaml.spec_get("filter"@) matches Some(r)
            && filter_as_written(r, f)),
        filters_items(items, v) matches Ok(l) ==> l.filters.len() == items.len() && forall|i: int|
            0 <= i < items.len() ==> filter_as_written(#[trigger] items[i], l.filters[i]),
{
    if let Ok(l) = filters_items(items, v) {
        let g = |i: YamlValue| filter_item(i);
        let xs = parse_all(items, g)->Ok_0;
        lemma_parse_all_ok(items, g, xs);
        assert forall|i: int| 0 <= i < items.len() implies filter_as_written(
            #[trigger] items[i],
            l.filters[i],
        ) by {
            assert(g(items[i]) == Ok::<FilterSpecView, ErrorView>(xs[i]));
        }
    }
}

/// A document `version: 1` + `filters: [..]` (at least one entry).
pub open spec fn filters_doc(yaml: YamlValue) -> core::result::Result<FiltersSpecView, ErrorView> {
    match version_check(yaml) {
        Err(e) => Err(e),
        Ok(v) => match yaml.spec_get("filters"@) {
            None => Err(ser("missing 'filters'"@)),
            Some(root) => if !root.spec_is_sequence() {
                Err(ser("'filters' must be a sequence"@))
            } else if root.spec_items().len() == 0 {
                Err(ser("'filters' sequence must not be empty (minItems=1)"@))
            } else {
                filters_items(root.spec_items(), v)
            },
        },
    }
}


/// The entries of a `filters` sequence, in order; the first bad entry fails.
pub open spec fn filters_items(items: Seq<YamlValue>, v: u32) -> core::result::Result<FiltersSpecView, ErrorView> {
    match parse_all(items, |i: YamlValue| filter_item(i)) {
        Err(e) => Err(e),
        Ok(xs) => Ok(FiltersSpecView { version: v, filters: xs }),
    }
}

pub fn parse_filters_items(items: &Vec<YamlValue>, v: u32) -> (r: Result<FiltersSpec>)
    ensures
        res_view(r) == filters_items(items@, v),
{
    let ghost f = |i: YamlValue| filter_item(i);
    let mut spec = FiltersSpec::new(v);
    let mut k: usize = 0;
    proof {
        lemma_parse_all_empty(items@, f);
    }
    while k < items.len()
        invariant
            k <= items.len(),
            spec@.version == v,
            f == (|i: YamlValue| filter_item(i)),
            parse_all(items@.take(k as int), f) == Ok::<Seq<FilterSpecView>, ErrorView>(spec@.filters),
        decreases items.len() - k,
    {
        proof {
            lemma_parse_all_step(items@, f, k as int);
        }
        let item = &items[k];
        if !item.is_mapping() {
            let e = ser_err("filter entry must be a mapping");
            proof {
                lemma_parse_all_err_sticks(items@, f, k + 1);
            }
            return Err(e);
        }
        match parse_filter_entry(item) {
            Err(e) => {
                proof {
                    lemma_parse_all_err_sticks(items@, f, k + 1);
                }
                return Err(e);
            },
            Ok(c) => {
                spec.push(c);
            },
        }
        k = k + 1;
    }
    proof {
        lemma_parse_all_full(items@, f);
    }
    Ok(spec)
}

fn parse_filter_entry(root: &YamlValue) -> (r: Result<FilterSpec>)
    ensures
        res_view(r) == filter_entry(*root),
{
    let from = req_text_field_exec(root, "filter.", "from")?;
    let when = req_text_field_exec(root, "filter.", "when")?;
    let to = opt_text_field_exec(root, "filter.", "to")?;
    let id = opt_text_field_exec(root, "filter.", "id")?;
    Ok(FilterSpec { id, from, to, when })
}

/// Parser of single-filter documents.
pub struct FilterSpecYamlParser;

impl FilterSpecYamlParser {
    /// Parse a YAML text: read it as a document, then as [`Self::parse_value`] does.
    pub fn parse_str(raw: &str) -> (r: Result<FilterSpec>)
        ensures
            res_view(r) == match yaml_read(raw@) {
                Ok(v) => filter_doc(v),
                Err(e) => Err(yaml_syntax_error(e)),
            },
    {
        match read_yaml(raw) {
            Ok(v) => Self::parse_value(&v),
            Err(e) => Err(yaml_error(e.as_str())),
        }
    }

    pub fn parse_value(yaml: &YamlValue) -> (r: Result<FilterSpec>)
        ensures
            res_view(r) == filter_doc(*yaml),
    {
        validate_version(yaml)?;
        let root = match yaml.get("filter") {
            None => return Err(ser_err("missing 'filter'")),
            Some(r) => r,
        };
        if !root.is_mapping() {
            return Err(ser_err("'filter' must be a mapping"));
        }
        parse_filter_entry(root)
    }
}

/// Parser of filter collection documents.
pub struct FiltersSpecYamlParser;

impl FiltersSpecYamlParser {
    /// Parse a YAML text: read it as a document, then as [`Self::parse_value`] does.
    pub fn parse_str(raw: &str) -> (r: Result<FiltersSpec>)
        ensures
            res_view(r) == match yaml_read(raw@) {
                Ok(v) => filters_doc(v),
                Err(e) => Err(yaml_syntax_error(e)),
            },
    {
        match read_yaml(raw) {
            Ok(v) => Self::parse_value(&v),
            Err(e) => Err(yaml_error(e.as_str())),
        }
    }

    pub fn parse_value(yaml: &YamlValue) -> (r: Result<FiltersSpec>)
        ensures
            res_view(r) == filters_doc(*yaml),
    {
        let v = validate_version(yaml)?;
        let root = match yaml.get("filters") {
            None => return Err(ser_err("missing 'filters'")),
            Some(r) => r,
        };
        let items = match root.as_sequence() {
            None => return Err(ser_err("'filters' must be a sequence")),
            Some(items) => items,
        };
        if items.len() == 0 {
            return Err(ser_err("'filters' sequence must not be empty (minItems=1)"));
        }
        parse_filters_items(items, v)
    }
}

} // verus!
