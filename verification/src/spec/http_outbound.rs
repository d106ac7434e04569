//! HTTP outbound adapter specification: a target URL, optional method and
//! id, whether to send the outbound message, and optional channel wiring.
use vstd::prelude::*;
use super::common::{
    lemma_parse_all_empty, lemma_parse_all_err_sticks, lemma_parse_all_full,
    lemma_parse_all_step, lemma_parse_all_ok, opt_as_str, opt_owned, opt_str_view, opt_string_view,
    parse_all, yaml_text,
};
use super::version::{res_view, yaml_error, ser, ser_err};
use crate::error::{Error, ErrorView, Result};
use crate::text::{concat3, decimal, decimal_chars, owned, string_of, text_eq};
use crate::yaml::{read_yaml, yaml_read, yaml_syntax_error, YamlValue};

verus! {

/// A URL as `url::Url` holds it after parsing: its serialization, scheme,
/// host (when it has one) and path.
#[derive(Debug)]
pub struct ParsedUrl {
    href: String,
    scheme: String,
    host: Option<String>,
    path: String,
}

pub struct ParsedUrlView {
    pub href: Seq<char>,
    pub scheme: Seq<char>,
    pub host: Option<Seq<char>>,
    pub path: Seq<char>,
}

impl View for ParsedUrl {
    type V = ParsedUrlView;

    closed spec fn view(&self) -> ParsedUrlView {
        ParsedUrlView {
            href: self.href@,
            scheme: self.scheme@,
            host: opt_string_view(self.host),
            path: self.path@,
        }
    }
}

impl ParsedUrl {
    /// The whole URL as `url` writes it (`Url::as_str`).
    pub fn as_str(&self) -> (r: &str)
        ensures
            r@ == self@.href,
    {
        self.href.as_str()
    }

    /// The scheme (`Url::scheme`).
    pub fn scheme(&self) -> (r: &str)
        ensures
            r@ == self@.scheme,
    {
        self.scheme.as_str()
    }

    /// The host, when the URL has one (`Url::host_str`).
    pub fn host_str(&self) -> (r: Option<&str>)
        ensures
            opt_str_view(r) == self@.host,
    {
        opt_as_str(&self.host)
    }

    /// The path (`Url::path`).
    pub fn path(&self) -> (r: &str)
        ensures
            r@ == self@.path,
    {
        self.path.as_str()
    }
}

/// What `url::Url::parse` makes of `raw`: the parsed URL, or the display
/// text of the error it reports.
pub uninterp spec fn url_read(raw: Seq<char>) -> core::result::Result<ParsedUrlView, Seq<char>>;

/// Scheme of `raw` as a URL, or `None` when it is not an absolute URL.
pub open spec fn parsed_url_scheme(raw: Seq<char>) -> Option<Seq<char>> {
    match url_read(raw) {
        Ok(u) => Some(u.scheme),
        Err(_) => None,
    }
}

/// Why `raw` is not an absolute URL (empty when it is one).
pub open spec fn url_error_text(raw: Seq<char>) -> Seq<char> {
    match url_read(raw) {
        Ok(_) => Seq::empty(),
        Err(e) => e,
    }
}

/// Calls `url::Url::parse(raw)`; on success reads the parsed URL's
/// `as_str`, `scheme`, `host_str` and `path`, on failure the error's
/// `to_string`. Claimed: the outcome is a function of the text alone
/// (named [`url_read`]).
#[verifier::external_body]
pub(crate) fn parse_url(raw: &str) -> (r: core::result::Result<ParsedUrl, String>)
    ensures
        match r {
            Ok(u) => url_read(raw@) == Ok::<ParsedUrlView, Seq<char>>(u@),
            Err(e) => url_read(raw@) == Err::<ParsedUrlView, Seq<char>>(e@),
        },
{
    match url::Url::parse(raw) {
        Ok(u) => Ok(ParsedUrl {
            href: u.as_str().to_string(),
            scheme: u.scheme().to_string(),
            host: u.host_str().map(|h| h.to_string()),
            path: u.path().to_string(),
        }),
        Err(e) => Err(e.to_string()),
    }
}

/// The scheme of `raw` as a URL, when it parses.
pub(crate) fn url_scheme(raw: &str) -> (r: Option<String>)
    ensures
        opt_string_view(r) == parsed_url_scheme(raw@),
{
    match parse_url(raw) {
        Ok(u) => Some(u.scheme),
        Err(_) => None,
    }
}

/// Fields of an HTTP outbound adapter entry.
#[derive(Debug)]
pub struct HttpOutboundAdapterSpecBlock {
    pub id: Option<String>,
    /// Full target URL including its scheme (`http://` or `https://`).
    pub url: String,
    pub method: Option<String>,
    pub use_out_msg: Option<bool>,
    /// Channel whose exchanges the runtime dispatches through this adapter.
    pub from: Option<String>,
    /// Channel receiving the exchange after dispatch.
    pub to: Option<String>,
}

/// A whole single-adapter document.
#[derive(Debug)]
pub struct HttpOutboundAdapterSpecRootV1 {
    pub version: u32,
    pub http_outbound_adapter: HttpOutboundAdapterSpecBlock,
}

pub struct HttpOutboundAdapterSpecView {
    pub id: Option<Seq<char>>,
    pub url: Seq<char>,
    pub method: Option<Seq<char>>,
    pub use_out_msg: Option<bool>,
    pub from: Option<Seq<char>>,
    pub to: Option<Seq<char>>,
}

impl View for HttpOutboundAdapterSpecBlock {
    type V = HttpOutboundAdapterSpecView;

    open spec fn view(&self) -> HttpOutboundAdapterSpecView {
        HttpOutboundAdapterSpecView {
            id: opt_string_view(self.id),
            url: self.url@,
            method: opt_string_view(self.method),
            use_out_msg: self.use_out_msg,
            from: opt_string_view(self.from),
            to: opt_string_view(self.to),
        }
    }
}

/// Specification of one HTTP outbound adapter.
#[derive(Debug)]
pub struct HttpOutboundAdapterSpec(HttpOutboundAdapterSpecBlock);

impl View for HttpOutboundAdapterSpec {
    type V = HttpOutboundAdapterSpecView;

    closed spec fn view(&self) -> HttpOutboundAdapterSpecView {
        self.0@
    }
}

impl HttpOutboundAdapterSpec {
    pub fn from_block(b: HttpOutboundAdapterSpecBlock) -> (r: Self)
        ensures
            r@ == b@,
    {
        HttpOutboundAdapterSpec(b)
    }

    /// Programmatic constructor; `url` is not validated here.
    pub fn new(url: &str, method: Option<&str>, id: Option<&str>, use_out_msg: bool) -> (r: Self)
        ensures
            r@ == (HttpOutboundAdapterSpecView {
                id: opt_str_view(id),
                url: url@,
                method: opt_str_view(method),
                use_out_msg: Some(use_out_msg),
                from: None,
                to: None,
            }),
    {
        HttpOutboundAdapterSpec(
            HttpOutboundAdapterSpecBlock {
                id: opt_owned(id),
                url: owned(url),
                method: opt_owned(method),
                use_out_msg: Some(use_out_msg),
                from: None,
                to: None,
            },
        )
    }

    pub fn with_from(self, from: &str) -> (r: Self)
        ensures
            r@ == (HttpOutboundAdapterSpecView { from: Some(from@), ..self@ }),
    {
        let HttpOutboundAdapterSpec(b) = self;
        HttpOutboundAdapterSpec(HttpOutboundAdapterSpecBlock { from: Some(owned(from)), ..b })
    }

    pub fn with_to(self, to: &str) -> (r: Self)
        ensures
            r@ == (HttpOutboundAdapterSpecView { to: Some(to@), ..self@ }),
    {
        let HttpOutboundAdapterSpec(b) = self;
        HttpOutboundAdapterSpec(HttpOutboundAdapterSpecBlock { to: Some(owned(to)), ..b })
    }

    pub fn with_id(id: &str, url: &str, method: Option<&str>, use_out_msg: bool) -> (r: Self)
        ensures
            r@ == (HttpOutboundAdapterSpecView {
                id: Some(id@),
                url: url@,
                method: opt_str_view(method),
                use_out_msg: Some(use_out_msg),
                from: None,
                to: None,
            }),
    {
        Self::new(url, method, Some(id), use_out_msg)
    }

    pub fn id(&self) -> (r: Option<&str>)
        ensures
            opt_str_view(r) == self@.id,
    {
        opt_as_str(&self.0.id)
    }

    /// Target URL as configured.
    pub fn url(&self) -> (r: &str)
        ensures
            r@ == self@.url,
    {
        self.0.url.as_str()
    }

    pub fn method(&self) -> (r: Option<&str>)
        ensures
            opt_str_view(r) == self@.method,
    {
        opt_as_str(&self.0.method)
    }

    /// Whether dispatch prefers the outbound message (default: yes).
    pub fn use_out_msg(&self) -> (r: bool)
        ensures
            r == match self@.use_out_msg {
                Some(b) => b,
                None => true,
            },
    {
        match self.0.use_out_msg {
            Some(b) => b,
            None => true,
        }
    }

    pub fn from(&self) -> (r: Option<&str>)
        ensures
            opt_str_view(r) == self@.from,
    {
        opt_as_str(&self.0.from)
    }

    pub fn to(&self) -> (r: Option<&str>)
        ensures
            opt_str_view(r) == self@.to,
    {
        opt_as_str(&self.0.to)
    }

    /// An equal copy of this specification.
    pub fn duplicate(&self) -> (r: Self)
        ensures
            r@ == self@,
    {
        HttpOutboundAdapterSpec(
            HttpOutboundAdapterSpecBlock {
                id: opt_owned(opt_as_str(&self.0.id)),
                url: owned(self.0.url.as_str()),
                method: opt_owned(opt_as_str(&self.0.method)),
                use_out_msg: self.0.use_out_msg,
                from: opt_owned(opt_as_str(&self.0.from)),
                to: opt_owned(opt_as_str(&self.0.to)),
            },
        )
    }
}

/// Ordered collection of HTTP outbound adapter specifications sharing one version (declaration order is kept;
/// ids are not checked for uniqueness here).
#[derive(Debug)]
pub struct HttpOutboundAdaptersSpec {
    version: u32,
    adapters: Vec<HttpOutboundAdapterSpec>,
}

pub struct HttpOutboundAdaptersSpecView {
    pub version: u32,
    pub adapters: Seq<HttpOutboundAdapterSpecView>,
}

impl View for HttpOutboundAdaptersSpec {
    type V = HttpOutboundAdaptersSpecView;

    closed spec fn view(&self) -> HttpOutboundAdaptersSpecView {
        HttpOutboundAdaptersSpecView { version: self.version, adapters: self.adapters@.map_values(|c: HttpOutboundAdapterSpec| c@) }
    }
}

impl HttpOutboundAdaptersSpec {
    pub fn new(version: u32) -> (r: Self)
        ensures
            r@.version == version,
            r@.adapters == Seq::<HttpOutboundAdapterSpecView>::empty(),
    {
        let r = HttpOutboundAdaptersSpec { version, adapters: Vec::new() };
        assert(r@.adapters =~= Seq::<HttpOutboundAdapterSpecView>::empty());
        r
    }

    pub fn add(self, item: HttpOutboundAdapterSpec) -> (r: Self)
        ensures
            r@.version == self@.version,
            r@.adapters == self@.adapters.push(item@),
    {
        let mut s = self;
        s.push(item);
        s
    }

    pub fn push(&mut self, item: HttpOutboundAdapterSpec)
        ensures
            final(self)@.version == old(self)@.version,
            final(self)@.adapters == old(self)@.adapters.push(item@),
    {
        self.adapters.push(item);
        assert(self@.adapters =~= old(self)@.adapters.push(item@));
    }

    pub fn version(&self) -> (r: u32)
        ensures
            r == self@.version,
    {
        self.version
    }

    pub fn adapters(&self) -> (r: &[HttpOutboundAdapterSpec])
        ensures
            r@.map_values(|c: HttpOutboundAdapterSpec| c@) == self@.adapters,
    {
        self.adapters.as_slice()
    }

    pub fn into_adapters(self) -> (r: Vec<HttpOutboundAdapterSpec>)
        ensures
            r@.map_values(|c: HttpOutboundAdapterSpec| c@) == self@.adapters,
    {
        self.adapters
    }

    /// An equal copy.
    pub fn duplicate(&self) -> (r: Self)
        ensures
            r@ == self@,
    {
        let mut items: Vec<HttpOutboundAdapterSpec> = Vec::new();
        let mut i: usize = 0;
        while i < self.adapters.len()
            invariant
                i <= self.adapters.len(),
                items.len() == i,
                forall|k: int| 0 <= k < i ==> (#[trigger] items@[k])@ == self.adapters@[k]@,
            decreases self.adapters.len() - i,
        {
            items.push(self.adapters[i].duplicate());
            i = i + 1;
        }
        let r = HttpOutboundAdaptersSpec { version: self.version, adapters: items };
        assert(r@.adapters =~= self@.adapters);
        r
    }
}

/// Version check of outbound adapter documents: an unsigned integer whose
/// 32-bit truncation is 1.
pub open spec fn outbound_version(yaml: YamlValue) -> core::result::Result<u32, ErrorView> {
    match yaml.spec_get("version"@) {
        None => Err(ser("missing or invalid version"@)),
        Some(v) => match v.spec_as_u64() {
            None => Err(ser("missing or invalid version"@)),
            Some(n) => if (n as u32) != 1 {
                Err(ser("unsupported version "@ + decimal((n as u32) as nat) + " (expected 1)"@))
            } else {
                Ok(1u32)
            },
        },
    }
}

/// Optional text field decoded as an optional string: absent or null is
/// `None`, a text is `Some`, anything else is a decoding error.
pub open spec fn typed_opt_text(root: YamlValue, field: Seq<char>) -> core::result::Result<
    Option<Seq<char>>,
    ErrorView,
> {
    match root.spec_get(field) {
        None => Ok(None),
        Some(v) => if v.spec_is_null() {
            Ok(None)
        } else {
            match v.spec_as_str() {
                Some(s) => Ok(Some(s)),
                None => Err(
                    ser("yaml parse error: http-outbound-adapter."@ + field + " must be string"@),
                ),
            }
        },
    }
}

/// The `url` entry when present; a missing one is reported only after the
/// other fields, as `serde` reports a missing field.
pub open spec fn url_field(root: YamlValue) -> core::result::Result<Option<Seq<char>>, ErrorView> {
    match root.spec_get("url"@) {
        None => Ok(None),
        Some(v) => match v.spec_as_str() {
            Some(s) => Ok(Some(s)),
            None => Err(ser("yaml parse error: http-outbound-adapter.url must be string"@)),
        },
    }
}

pub open spec fn use_out_msg_field(root: YamlValue) -> core::result::Result<Option<bool>, ErrorView> {
    match root.spec_get("use-out-msg"@) {
        None => Ok(None),
        Some(v) => match v {
            YamlValue::Null => Ok(None),
            YamlValue::Bool(b) => Ok(Some(b)),
            _ => Err(ser("yaml parse error: http-outbound-adapter.use-out-msg must be boolean"@)),
        },
    }
}

/// Checks of a decoded entry: non-empty URL that parses with an `http` or
/// `https` scheme, and a non-empty id when one is given.
pub open spec fn outbound_checks(b: HttpOutboundAdapterSpecView) -> core::result::Result<
    HttpOutboundAdapterSpecView,
    ErrorView,
> {
    if b.url.len() == 0 {
        Err(ser("http-outbound-adapter.url must not be empty"@))
    } else {
        match parsed_url_scheme(b.url) {
            None => Err(ser("http-outbound-adapter.url invalid: '"@ + b.url + "'"@)),
            Some(scheme) => if scheme != "http"@ && scheme != "https"@ {
                Err(
                    ser(
                        "http-outbound-adapter.url unsupported scheme '"@ + scheme
                            + "' (expected http or https)"@,
                    ),
                )
            } else if b.id == Some(Seq::<char>::empty()) {
                Err(ser("http-outbound-adapter.id must not be empty"@))
            } else {
                Ok(b)
            },
        }
    }
}

/// An HTTP outbound adapter entry: fields decoded in the order `id`,
/// `url`, `method`, `use-out-msg`, `from`, `to`, then checked.
pub open spec fn outbound_entry(root: YamlValue) -> core::result::Result<HttpOutboundAdapterSpecView, ErrorView> {
    match typed_opt_text(root, "id"@) {
        Err(e) => Err(e),
        Ok(id) => match url_field(root) {
            Err(e) => Err(e),
            Ok(url) => match typed_opt_text(root, "method"@) {
                Err(e) => Err(e),
                Ok(method) => match use_out_msg_field(root) {
                    Err(e) => Err(e),
                    Ok(use_out_msg) => match typed_opt_text(root, "from"@) {
                        Err(e) => Err(e),
                        Ok(from) => match typed_opt_text(root, "to"@) {
                            Err(e) => Err(e),
                            Ok(to) => match url {
                                None => Err(ser("yaml parse error: missing field `url`"@)),
                                Some(url) => outbound_checks(
                                    HttpOutboundAdapterSpecView { id, url, method, use_out_msg, from, to },
                                ),
                            },
                        },
                    },
                },
            },
        },
    }
}

pub open spec fn outbound_item(v: YamlValue) -> core::result::Result<HttpOutboundAdapterSpecView, ErrorView> {
    if !v.spec_is_mapping() {
        Err(ser("http-outbound-adapter entry must be a mapping"@))
    } else {
        outbound_entry(v)
    }
}

/// A document `version: 1` + `http-outbound-adapter: {..}`.
pub open spec fn outbound_doc(yaml: YamlValue) -> core::result::Result<HttpOutboundAdapterSpecView, ErrorView> {
    match outbound_version(yaml) {
        Err(e) => Err(e),
        Ok(_) => match yaml.spec_get("http-outbound-adapter"@) {
            None => Err(ser("missing 'http-outbound-adapter'"@)),
            Some(root) => if !root.spec_is_mapping() {
                Err(ser("'http-outbound-adapter' must be a mapping"@))
            } else {
                outbound_entry(root)
            },
        },
    }
}

/// The fields of `root` are those of `s` as written: its url, method and
/// channels are the texts under `url`, `method`, `from` and `to`.
pub open spec fn outbound_as_written(root: YamlValue, s: HttpOutboundAdapterSpecView) -> bool {
    &&& yaml_text(root, "url"@) == Some(s.url)
    &&& yaml_text(root, "method"@) == s.method
    &&& yaml_text(root, "from"@) == s.from
    &&& yaml_text(root, "to"@) == s.to
}

/// An outbound adapter is configured as written: when an entry (or a
/// `http-outbound-adapter` document, or every entry of a sequence) parses,
/// its url, method and channels are the texts under those keys.
pub proof fn law_outbound_as_written(root: YamlValue, yaml: YamlValue, items: Seq<YamlValue>, v: u32)
    ensures
        outbound_entry(root) matches Ok(s) ==> outbound_as_written(root, s),
        outbound_doc(yaml) matches Ok(s) ==> (yaml.spec_get("http-outbound-adapter"@) matches Some(r)
            && outbound_as_written(r, s)),
        outbounds_items(items, v) matches Ok(l) ==> l.adapters.len() == items.len() && forall|i: int|
            0 <= i < items.len() ==> outbound_as_written(#[trigger] items[i], l.adapters[i]),
{
    if let Ok(l) = outbounds_items(items, v) {
        let f = |i: YamlValue| outbound_item(i);
        let xs = parse_all(items, f)->Ok_0;
        lemma_parse_all_ok(items, f, xs);
        assert forall|i: int| 0 <= i < items.len() implies outbound_as_written(
            #[trigger] items[i],
            l.adapters[i],
        ) by {
            assert(f(items[i]) == Ok::<HttpOutboundAdapterSpecView, ErrorView>(xs[i]));
        }
    }
}

/// A document `version: 1` + `http-outbound-adapters: [..]` (at least one).
pub open spec fn outbounds_doc(yaml: YamlValue) -> core::result::Result<HttpOutboundAdaptersSpecView, ErrorView> {
    match outbound_version(yaml) {
        Err(e) => Err(e),
        Ok(v) => match yaml.spec_get("http-outbound-adapters"@) {
            None => Err(ser("missing 'http-outbound-adapters'"@)),
            Some(root) => if !root.spec_is_sequence() {
                Err(ser("'http-outbound-adapters' must be a sequence"@))
            } else if root.spec_items().len() == 0 {
                Err(ser("'http-outbound-adapters' sequence must not be empty (minItems=1)"@))
            } else {
                outbounds_items(root.spec_items(), v)
            },
        },
    }
}

/// The entries of a `http-outbound-adapters` sequence, in order; the first bad entry fails.
pub open spec fn outbounds_items(items: Seq<YamlValue>, v: u32) -> core::result::Result<HttpOutboundAdaptersSpecView, ErrorView> {
    match parse_all(items, |i: YamlValue| outbound_item(i)) {
        Err(e) => Err(e),
        Ok(xs) => Ok(HttpOutboundAdaptersSpecView { version: v, adapters: xs }),
    }
}

pub fn parse_outbounds_items(items: &Vec<YamlValue>, v: u32) -> (r: Result<HttpOutboundAdaptersSpec>)
    ensures
        res_view(r) == outbounds_items(items@, v),
{
    let ghost f = |i: YamlValue| outbound_item(i);
    let mut spec = HttpOutboundAdaptersSpec::new(v);
    let mut k: usize = 0;
    proof {
        lemma_parse_all_empty(items@, f);
    }
    while k < items.len()
        invariant
            k <= items.len(),
            spec@.version == v,
            f == (|i: YamlValue| outbound_item(i)),
            parse_all(items@.take(k as int), f) == Ok::<Seq<HttpOutboundAdapterSpecView>, ErrorView>(spec@.adapters),
        decreases items.len() - k,
    {
        proof {
            lemma_parse_all_step(items@, f, k as int);
        }
        let item = &items[k];
        if !item.is_mapping() {
            let e = ser_err("http-outbound-adapter entry must be a mapping");
            proof {
                lemma_parse_all_err_sticks(items@, f, k + 1);
            }
            return Err(e);
        }
        match parse_outbound_entry(item) {
            Err(e) => {
                proof {
                    lemma_parse_all_err_sticks(items@, f, k + 1);
                }
                return Err(e);
            },
            Ok(c) => {
                spec.push(c);
            },
        }
        k = k + 1;
    }
    proof {
        lemma_parse_all_full(items@, f);
    }
    Ok(spec)
}

fn typed_opt_text_exec(root: &YamlValue, field: &str) -> (r: Result<Option<String>>)
    ensures
        match r {
            Ok(o) => typed_opt_text(*root, field@) == Ok::<Option<Seq<char>>, ErrorView>(
                opt_string_view(o),
            ),
            Err(e) => typed_opt_text(*root, field@) == Err::<Option<Seq<char>>, ErrorView>(e@),
        },
{
    match root.get(field) {
        None => Ok(None),
        Some(v) => {
            if v.is_null() {
                Ok(None)
            } else {
                match v.as_str() {
                    Some(s) => Ok(Some(owned(s))),
                    None => Err(
                        Error::serialization(
                            concat3(
                                "yaml parse error: http-outbound-adapter.",
                                field,
                                " must be string",
                            ),
                        ),
                    ),
                }
            }
        },
    }
}

fn check_outbound(b: HttpOutboundAdapterSpecBlock) -> (r: Result<HttpOutboundAdapterSpec>)
    ensures
        res_view(r) == outbound_checks(b@),
{
    if b.url.as_str().unicode_len() == 0 {
        return Err(ser_err("http-outbound-adapter.url must not be empty"));
    }
    match url_scheme(b.url.as_str()) {
        None => {
            return Err(
                Error::serialization(
                    concat3("http-outbound-adapter.url invalid: '", b.url.as_str(), "'"),
                ),
            );
        },
        Some(scheme) => {
            if !text_eq(scheme.as_str(), "http") && !text_eq(scheme.as_str(), "https") {
                return Err(
                    Error::serialization(
                        concat3(
                            "http-outbound-adapter.url unsupported scheme '",
                            scheme.as_str(),
                            "' (expected http or https)",
                        ),
                    ),
                );
            }
        },
    }
    match &b.id {
        Some(i) => {
            if i.as_str().unicode_len() == 0 {
                assert(i@ =~= Seq::<char>::empty());
                return Err(ser_err("http-outbound-adapter.id must not be empty"));
            }
        },
        None => {},
    }
    Ok(HttpOutboundAdapterSpec(b))
}

fn parse_outbound_entry(root: &YamlValue) -> (r: Result<HttpOutboundAdapterSpec>)
    ensures
        res_view(r) == outbound_entry(*root),
{
    let id = typed_opt_text_exec(root, "id")?;
    let url = match root.get("url") {
        None => None,
        Some(v) => match v.as_str() {
            Some(s) => Some(owned(s)),
            None => return Err(ser_err("yaml parse error: http-outbound-adapter.url must be string")),
        },
    };
    let method = typed_opt_text_exec(root, "method")?;
    let use_out_msg = match root.get("use-out-msg") {
        None => None,
        Some(v) => match v {
            YamlValue::Null => None,
            YamlValue::Bool(b) => Some(*b),
            _ => return Err(
                ser_err("yaml parse error: http-outbound-adapter.use-out-msg must be boolean"),
            ),
        },
    };
    let from = typed_opt_text_exec(root, "from")?;
    let to = typed_opt_text_exec(root, "to")?;
    let url = match url {
        None => return Err(ser_err("yaml parse error: missing field `url`")),
        Some(u) => u,
    };
    check_outbound(HttpOutboundAdapterSpecBlock { id, url, method, use_out_msg, from, to })
}

fn check_outbound_version(yaml: &YamlValue) -> (r: Result<u32>)
    ensures
        match r {
            Ok(v) => outbound_version(*yaml) == Ok::<u32, ErrorView>(v),
            Err(e) => outbound_version(*yaml) == Err::<u32, ErrorView>(e@),
        },
{
    let n = match yaml.get("version") {
        None => return Err(ser_err("missing or invalid version")),
        Some(v) => match v.as_u64() {
            None => return Err(ser_err("missing or invalid version")),
            Some(n) => n,
        },
    };
    let v32 = n as u32;
    if v32 != 1 {
        let digits = decimal_chars(v32 as u64);
        let ds = string_of(digits.as_slice());
        return Err(Error::serialization(concat3("unsupported version ", ds.as_str(), " (expected 1)")));
    }
    Ok(1)
}

/// Parser of single HTTP outbound adapter documents.
pub struct HttpOutboundAdapterSpecYamlParser;

impl HttpOutboundAdapterSpecYamlParser {
    /// Parse a YAML text: read it as a document, then as [`Self::parse_value`] does.
    pub fn parse_str(raw: &str) -> (r: Result<HttpOutboundAdapterSpec>)
        ensures
            res_view(r) == match yaml_read(raw@) {
                Ok(v) => outbound_doc(v),
                Err(e) => Err(yaml_syntax_error(e)),
            },
    {
        match read_yaml(raw) {
            Ok(v) => Self::parse_value(&v),
            Err(e) => Err(yaml_error(e.as_str())),
        }
    }

    pub fn parse_value(yaml: &YamlValue) -> (r: Result<HttpOutboundAdapterSpec>)
        ensures
            res_view(r) == outbound_doc(*yaml),
    {
        check_outbound_version(yaml)?;
        let root = match yaml.get("http-outbound-adapter") {
            None => return Err(ser_err("missing 'http-outbound-adapter'")),
            Some(r) => r,
        };
        if !root.is_mapping() {
            return Err(ser_err("'http-outbound-adapter' must be a mapping"));
        }
        parse_outbound_entry(root)
    }
}

/// Parser of HTTP outbound adapter collection documents.
pub struct HttpOutboundAdaptersSpecYamlParser;

impl HttpOutboundAdaptersSpecYamlParser {
    /// Parse a YAML text: read it as a document, then as [`Self::parse_value`] does.
    pub fn parse_str(raw: &str) -> (r: Result<HttpOutboundAdaptersSpec>)
        ensures
            res_view(r) == match yaml_read(raw@) {
                Ok(v) => outbounds_doc(v),
                Err(e) => Err(yaml_syntax_error(e)),
            },
    {
        match read_yaml(raw) {
            Ok(v) => Self::parse_value(&v),
            Err(e) => Err(yaml_error(e.as_str())),
        }
    }

    pub fn parse_value(yaml: &YamlValue) -> (r: Result<HttpOutboundAdaptersSpec>)
        ensures
            res_view(r) == outbounds_doc(*yaml),
    {
        let v = check_outbound_version(yaml)?;
        let root = match yaml.get("http-outbound-adapters") {
            None => return Err(ser_err("missing 'http-outbound-adapters'")),
            Some(r) => r,
        };
        let items = match root.as_sequence() {
            None => return Err(ser_err("'http-outbound-adapters' must be a sequence")),
            Some(items) => items,
        };
        if items.len() == 0 {
            return Err(ser_err("'http-outbound-adapters' sequence must not be empty (minItems=1)"));
        }
        parse_outbounds_items(items, v)
    }
}

} // verus!
