//! HTTP inbound adapter specification: an HTTP endpoint (host, port, path,
//! methods) that publishes requests onto a request channel and optionally
//! answers from a reply channel.
use vstd::prelude::*;
use super::common::{
    lemma_parse_all_empty, lemma_parse_all_err_sticks, lemma_parse_all_full,
    lemma_parse_all_step, lemma_parse_all_ok, yaml_text, opt_as_str, opt_str_view, opt_string_view, parse_all,
    req_text_field, req_text_field_exec,
};
use super::version::{res_view, yaml_error, ser, ser_err, validate_version, version_check};
use crate::error::{Error, ErrorView, Result};
use crate::text::{concat3, owned, text_eq};
use crate::yaml::{read_yaml, yaml_read, yaml_syntax_error, YamlValue};

verus! {

/// Specification of one HTTP inbound adapter.
#[derive(Debug)]
pub struct HttpInboundAdapterSpec {
    id: Option<String>,
    host: String,
    port: u16,
    path: String,
    methods: Vec<String>,
    request_channel: String,
    reply_channel: Option<String>,
}

pub struct HttpInboundAdapterSpecView {
    pub id: Option<Seq<char>>,
    pub host: Seq<char>,
    pub port: u16,
    pub path: Seq<char>,
    pub methods: Seq<Seq<char>>,
    pub request_channel: Seq<char>,
    pub reply_channel: Option<Seq<char>>,
}

pub open spec fn texts_view(v: Seq<String>) -> Seq<Seq<char>> {
    v.map_values(|s: String| s@)
}

impl View for HttpInboundAdapterSpec {
    type V = HttpInboundAdapterSpecView;

    closed spec fn view(&self) -> HttpInboundAdapterSpecView {
        HttpInboundAdapterSpecView {
            id: opt_string_view(self.id),
            host: self.host@,
            port: self.port,
            path: self.path@,
            methods: texts_view(self.methods@),
            request_channel: self.request_channel@,
            reply_channel: opt_string_view(self.reply_channel),
        }
    }
}

impl HttpInboundAdapterSpec {
    fn make(
        id: Option<String>,
        host: &str,
        port: u16,
        path: &str,
        methods: Vec<String>,
        request_channel: &str,
        reply_channel: Option<String>,
    ) -> (r: Self)
        ensures
            r@ == (HttpInboundAdapterSpecView {
                id: opt_string_view(id),
                host: host@,
                port,
                path: path@,
                methods: texts_view(methods@),
                request_channel: request_channel@,
                reply_channel: opt_string_view(reply_channel),
            }),
    {
        HttpInboundAdapterSpec {
            id,
            host: owned(host),
            port,
            path: owned(path),
            methods,
            request_channel: owned(request_channel),
            reply_channel,
        }
    }

    pub fn new(host: &str, port: u16, path: &str, methods: Vec<String>, request_channel: &str) -> (r:
        Self)
        ensures
            r@ == (HttpInboundAdapterSpecView {
                id: None,
                host: host@,
                port,
                path: path@,
                methods: texts_view(methods@),
                request_channel: request_channel@,
                reply_channel: None,
            }),
    {
        Self::make(None, host, port, path, methods, request_channel, None)
    }

    pub fn with_id(
        id: &str,
        host: &str,
        port: u16,
        path: &str,
        methods: Vec<String>,
        request_channel: &str,
    ) -> (r: Self)
        ensures
            r@ == (HttpInboundAdapterSpecView {
                id: Some(id@),
                host: host@,
                port,
                path: path@,
                methods: texts_view(methods@),
                request_channel: request_channel@,
                reply_channel: None,
            }),
    {
        Self::make(Some(owned(id)), host, port, path, methods, request_channel, None)
    }

    pub fn with_reply(
        host: &str,
        port: u16,
        path: &str,
        methods: Vec<String>,
        request_channel: &str,
        reply_channel: &str,
    ) -> (r: Self)
        ensures
            r@ == (HttpInboundAdapterSpecView {
                id: None,
                host: host@,
                port,
                path: path@,
                methods: texts_view(methods@),
                request_channel: request_channel@,
                reply_channel: Some(reply_channel@),
            }),
    {
        Self::make(None, host, port, path, methods, request_channel, Some(owned(reply_channel)))
    }

    pub fn with_id_reply(
        id: &str,
        host: &str,
        port: u16,
        path: &str,
        methods: Vec<String>,
        request_channel: &str,
        reply_channel: &str,
    ) -> (r: Self)
        ensures
            r@ == (HttpInboundAdapterSpecView {
                id: Some(id@),
                host: host@,
                port,
                path: path@,
                methods: texts_view(methods@),
                request_channel: request_channel@,
                reply_channel: Some(reply_channel@),
            }),
    {
        Self::make(
            Some(owned(id)),
            host,
            port,
            path,
            methods,
            request_channel,
            Some(owned(reply_channel)),
        )
    }

    pub fn id(&self) -> (r: Option<&str>)
        ensures
            opt_str_view(r) == self@.id,
    {
        opt_as_str(&self.id)
    }

    pub fn host(&self) -> (r: &str)
        ensures
            r@ == self@.host,
    {
        self.host.as_str()
    }

    pub fn port(&self) -> (r: u16)
        ensures
            r == self@.port,
    {
        self.port
    }

    pub fn path(&self) -> (r: &str)
        ensures
            r@ == self@.path,
    {
        self.path.as_str()
    }

    pub fn methods(&self) -> (r: &[String])
        ensures
            texts_view(r@) == self@.methods,
    {
        self.methods.as_slice()
    }

    pub fn request_channel(&self) -> (r: &str)
        ensures
            r@ == self@.request_channel,
    {
        self.request_channel.as_str()
    }

    pub fn reply_channel(&self) -> (r: Option<&str>)
        ensures
            opt_str_view(r) == self@.reply_channel,
    {
        opt_as_str(&self.reply_channel)
    }

    pub fn set_id(&mut self, id: String)
        ensures
            final(self)@ == (HttpInboundAdapterSpecView { id: Some(id@), ..old(self)@ }),
    {
        self.id = Some(id);
    }
}

/// Ordered collection of HTTP inbound adapter specifications sharing one version (declaration order is kept;
/// ids are not checked for uniqueness here).
#[derive(Debug)]
pub struct HttpInboundAdaptersSpec {
    version: u32,
    adapters: Vec<HttpInboundAdapterSpec>,
}

pub struct HttpInboundAdaptersSpecView {
    pub version: u32,
    pub adapters: Seq<HttpInboundAdapterSpecView>,
}

impl View for HttpInboundAdaptersSpec {
    type V = HttpInboundAdaptersSpecView;

    closed spec fn view(&self) -> HttpInboundAdaptersSpecView {
        HttpInboundAdaptersSpecView { version: self.version, adapters: self.adapters@.map_values(|c: HttpInboundAdapterSpec| c@) }
    }
}

impl HttpInboundAdaptersSpec {
    pub fn new(version: u32) -> (r: Self)
        ensures
            r@.version == version,
            r@.adapters == Seq::<HttpInboundAdapterSpecView>::empty(),
    {
        let r = HttpInboundAdaptersSpec { version, adapters: Vec::new() };
        assert(r@.adapters =~= Seq::<HttpInboundAdapterSpecView>::empty());
        r
    }

    pub fn add(self, item: HttpInboundAdapterSpec) -> (r: Self)
        ensures
            r@.version == self@.version,
            r@.adapters == self@.adapters.push(item@),
    {
        let mut s = self;
        s.push(item);
        s
    }

    pub fn push(&mut self, item: HttpInboundAdapterSpec)
        ensures
            final(self)@.version == old(self)@.version,
            final(self)@.adapters == old(self)@.adapters.push(item@),
    {
        self.adapters.push(item);
        assert(self@.adapters =~= old(self)@.adapters.push(item@));
    }

    pub fn version(&self) -> (r: u32)
        ensures
            r == self@.version,
    {
        self.version
    }

    pub fn adapters(&self) -> (r: &[HttpInboundAdapterSpec])
        ensures
            r@.map_values(|c: HttpInboundAdapterSpec| c@) == self@.adapters,
    {
        self.adapters.as_slice()
    }

    pub fn into_adapters(self) -> (r: Vec<HttpInboundAdapterSpec>)
        ensures
            r@.map_values(|c: HttpInboundAdapterSpec| c@) == self@.adapters,
    {
        self.adapters
    }
}

/// The text under `field` when it is a text; anything else counts as absent.
pub open spec fn loose_text(root: YamlValue, field: Seq<char>) -> Option<Seq<char>> {
    match root.spec_get(field) {
        Some(v) => v.spec_as_str(),
        None => None,
    }
}

/// HTTP methods an inbound adapter may accept.
pub open spec fn method_allowed(m: Seq<char>) -> bool {
    ||| m == "GET"@
    ||| m == "POST"@
    ||| m == "PUT"@
    ||| m == "PATCH"@
    ||| m == "DELETE"@
    ||| m == "OPTIONS"@
    ||| m == "HEAD"@
}

pub open spec fn method_item(v: YamlValue) -> core::result::Result<Seq<char>, ErrorView> {
    match v.spec_as_str() {
        None => Err(ser("http-inbound-adapter.method must be string"@)),
        Some(m) => if method_allowed(m) {
            Ok(m)
        } else {
            Err(ser("unsupported http-inbound-adapter.method '"@ + m + "'"@))
        },
    }
}

pub open spec fn port_field(root: YamlValue) -> core::result::Result<u16, ErrorView> {
    match root.spec_get("port"@) {
        None => Err(ser("http-inbound-adapter.port required"@)),
        Some(p) => match p.spec_as_u64() {
            None => Err(ser("http-inbound-adapter.port must be integer"@)),
            Some(n) => if n == 0 || n > 65535 {
                Err(ser("http-inbound-adapter.port out of range (1-65535)"@))
            } else {
                Ok(n as u16)
            },
        },
    }
}

pub open spec fn methods_field(root: YamlValue) -> core::result::Result<Seq<Seq<char>>, ErrorView> {
    match root.spec_get("methods"@) {
        None => Err(ser("http-inbound-adapter.methods required"@)),
        Some(m) => if !m.spec_is_sequence() {
            Err(ser("http-inbound-adapter.methods must be a sequence"@))
        } else if m.spec_items().len() == 0 {
            Err(ser("http-inbound-adapter.methods sequence must not be empty"@))
        } else {
            parse_all(m.spec_items(), |i: YamlValue| method_item(i))
        },
    }
}

pub open spec fn path_field(root: YamlValue) -> core::result::Result<Seq<char>, ErrorView> {
    match req_text_field(root, "http-inbound-adapter."@, "path"@) {
        Err(e) => Err(e),
        Ok(p) => if p[0] != '/' {
            Err(ser("http-inbound-adapter.path must start with '/'"@))
        } else {
            Ok(p)
        },
    }
}

/// An HTTP inbound adapter entry.
pub open spec fn inbound_entry(root: YamlValue) -> core::result::Result<HttpInboundAdapterSpecView, ErrorView> {
    match req_text_field(root, "http-inbound-adapter."@, "host"@) {
        Err(e) => Err(e),
        Ok(host) => match port_field(root) {
            Err(e) => Err(e),
            Ok(port) => match path_field(root) {
                Err(e) => Err(e),
                Ok(path) => match methods_field(root) {
                    Err(e) => Err(e),
                    Ok(methods) => match req_text_field(
                        root,
                        "http-inbound-adapter."@,
                        "request-channel"@,
                    ) {
                        Err(e) => Err(e),
                        Ok(request_channel) => {
                            let reply = loose_text(root, "reply-channel"@);
                            let id = loose_text(root, "id"@);
                            if reply == Some(Seq::<char>::empty()) {
                                Err(ser("http-inbound-adapter.reply-channel must not be empty"@))
                            } else if id == Some(Seq::<char>::empty()) {
                                Err(ser("http-inbound-adapter.id must not be empty"@))
                            } else {
                                Ok(
                                    HttpInboundAdapterSpecView {
                                        id,
                                        host,
                                        port,
                                        path,
                                        methods,
                                        request_channel,
                                        reply_channel: reply,
                                    },
                                )
                            }
                        },
                    },
                },
            },
        },
    }
}

pub open spec fn inbound_item(v: YamlValue) -> core::result::Result<HttpInboundAdapterSpecView, ErrorView> {
    if !v.spec_is_mapping() {
        Err(ser("http-inbound-adapter entry must be a mapping"@))
    } else {
        inbound_entry(v)
    }
}

/// The `methods` of `root` are exactly `ms`: a sequence whose i-th entry
/// is the text `ms[i]`.
pub open spec fn methods_as_written(root: YamlValue, ms: Seq<Seq<char>>) -> bool {
    &&& root.spec_get("methods"@) matches Some(m)
    &&& m.spec_items().len() == ms.len()
    &&& forall|i: int| 0 <= i < ms.len() ==> (#[trigger] m.spec_items()[i]).spec_as_str() == Some(ms[i])
}

/// An inbound adapter keeps its methods as written: when an entry (or a
/// `http-inbound-adapter` document, or every entry of a sequence) parses,
/// its i-th method is the i-th text of the `methods` sequence, and its
/// request channel is the text under `request-channel`.
pub proof fn law_inbound_methods_as_written(
    root: YamlValue,
    yaml: YamlValue,
    items: Seq<YamlValue>,
    v: u32,
)
    ensures
        inbounds_items(items, v) matches Ok(l) ==> l.adapters.len() == items.len() && forall|i: int|
            0 <= i < items.len() ==> methods_as_written(#[trigger] items[i], l.adapters[i].methods),
        inbound_entry(root) matches Ok(s) ==> methods_as_written(root, s.methods) && yaml_text(
            root,
            "request-channel"@,
        ) == Some(s.request_channel) && yaml_text(root, "host"@) == Some(s.host),
        inbound_doc(yaml) matches Ok(s) ==> (yaml.spec_get("http-inbound-adapter"@) matches Some(r)
            && methods_as_written(r, s.methods)),
{
    lemma_methods_field(root);
    if let Some(r) = yaml.spec_get("http-inbound-adapter"@) {
        lemma_methods_field(r);
    }
    if let Ok(l) = inbounds_items(items, v) {
        let f = |i: YamlValue| inbound_item(i);
        let xs = parse_all(items, f)->Ok_0;
        lemma_parse_all_ok(items, f, xs);
        assert forall|i: int| 0 <= i < items.len() implies methods_as_written(
            #[trigger] items[i],
            l.adapters[i].methods,
        ) by {
            assert(f(items[i]) == Ok::<HttpInboundAdapterSpecView, ErrorView>(xs[i]));
            lemma_methods_field(items[i]);
        }
    }
}

proof fn lemma_methods_field(root: YamlValue)
    ensures
        methods_field(root) matches Ok(ms) ==> methods_as_written(root, ms),
{
    if let Ok(ms) = methods_field(root) {
        let m = root.spec_get("methods"@)->0;
        let f = |i: YamlValue| method_item(i);
        lemma_parse_all_ok(m.spec_items(), f, ms);
        assert forall|i: int| 0 <= i < ms.len() implies (#[trigger] m.spec_items()[i]).spec_as_str() == Some(
            ms[i],
        ) by {
            assert(f(m.spec_items()[i]) == Ok::<Seq<char>, ErrorView>(ms[i]));
        }
    }
}

/// A document `version: 1` + `http-inbound-adapter: {..}`.
pub open spec fn inbound_doc(yaml: YamlValue) -> core::result::Result<HttpInboundAdapterSpecView, ErrorView> {
    match version_check(yaml) {
        Err(e) => Err(e),
        Ok(_) => match yaml.spec_get("http-inbound-adapter"@) {
            None => Err(ser("missing 'http-inbound-adapter'"@)),
            Some(root) => if !root.spec_is_mapping() {
                Err(ser("'http-inbound-adapter' must be a mapping"@))
            } else {
                inbound_entry(root)
            },
        },
    }
}

/// A document `version: 1` + `http-inbound-adapters: [..]` (at least one).
pub open spec fn inbounds_doc(yaml: YamlValue) -> core::result::Result<HttpInboundAdaptersSpecView, ErrorView> {
    match version_check(yaml) {
        Err(e) => Err(e),
        Ok(v) => match yaml.spec_get("http-inbound-adapters"@) {
            None => Err(ser("missing 'http-inbound-adapters'"@)),
            Some(root) => if !root.spec_is_sequence() {
                Err(ser("'http-inbound-adapters' must be a sequence"@))
            } else if root.spec_items().len() == 0 {
                Err(ser("'http-inbound-adapters' sequence must not be empty (minItems=1)"@))
            } else {
                inbounds_items(root.spec_items(), v)
            },
        },
    }
}

/// The entries of a `http-inbound-adapters` sequence, in order; the first bad entry fails.
pub open spec fn inbounds_items(items: Seq<YamlValue>, v: u32) -> core::result::Result<HttpInboundAdaptersSpecView, ErrorView> {
    match parse_all(items, |i: YamlValue| inbound_item(i)) {
        Err(e) => Err(e),
        Ok(xs) => Ok(HttpInboundAdaptersSpecView { version: v, adapters: xs }),
    }
}

pub fn parse_inbounds_items(items: &Vec<YamlValue>, v: u32) -> (r: Result<HttpInboundAdaptersSpec>)
    ensures
        res_view(r) == inbounds_items(items@, v),
{
    let ghost f = |i: YamlValue| inbound_item(i);
    let mut spec = HttpInboundAdaptersSpec::new(v);
    let mut k: usize = 0;
    proof {
        lemma_parse_all_empty(items@, f);
    }
    while k < items.len()
        invariant
            k <= items.len(),
            spec@.version == v,
            f == (|i: YamlValue| inbound_item(i)),
            parse_all(items@.take(k as int), f) == Ok::<Seq<HttpInboundAdapterSpecView>, ErrorView>(spec@.adapters),
        decreases items.len() - k,
    {
        proof {
            lemma_parse_all_step(items@, f, k as int);
        }
        let item = &items[k];
        if !item.is_mapping() {
            let e = ser_err("http-inbound-adapter entry must be a mapping");
            proof {
                lemma_parse_all_err_sticks(items@, f, k + 1);
            }
            return Err(e);
        }
        match parse_inbound_entry(item) {
            Err(e) => {
                proof {
                    lemma_parse_all_err_sticks(items@, f, k + 1);
                }
                return Err(e);
            },
            Ok(c) => {
                spec.push(c);
            },
        }
        k = k + 1;
    }
    proof {
        lemma_parse_all_full(items@, f);
    }
    Ok(spec)
}

fn loose_text_exec(root: &YamlValue, field: &str) -> (r: Option<String>)
    ensures
        opt_string_view(r) == loose_text(*root, field@),
{
    match root.get(field) {
        Some(v) => match v.as_str() {
            Some(s) => Some(owned(s)),
            None => None,
        },
        None => None,
    }
}

fn parse_method(v: &YamlValue) -> (r: Result<String>)
    ensures
        match r {
            Ok(s) => method_item(*v) == Ok::<Seq<char>, ErrorView>(s@),
            Err(e) => method_item(*v) == Err::<Seq<char>, ErrorView>(e@),
        },
{
    match v.as_str() {
        None => Err(ser_err("http-inbound-adapter.method must be string")),
        Some(m) => {
            if text_eq(m, "GET") || text_eq(m, "POST") || text_eq(m, "PUT") || text_eq(m, "PATCH")
                || text_eq(m, "DELETE") || text_eq(m, "OPTIONS") || text_eq(m, "HEAD") {
                Ok(owned(m))
            } else {
                Err(Error::serialization(concat3("unsupported http-inbound-adapter.method '", m, "'")))
            }
        },
    }
}

#[verifier::loop_isolation(false)]
fn parse_methods(root: &YamlValue) -> (r: Result<Vec<String>>)
    ensures
        match r {
            Ok(ms) => methods_field(*root) == Ok::<Seq<Seq<char>>, ErrorView>(texts_view(ms@)),
            Err(e) => methods_field(*root) == Err::<Seq<Seq<char>>, ErrorView>(e@),
        },
{
    let m = match root.get("methods") {
        None => return Err(ser_err("http-inbound-adapter.methods required")),
        Some(m) => m,
    };
    let items = match m.as_sequence() {
        None => return Err(ser_err("http-inbound-adapter.methods must be a sequence")),
        Some(items) => items,
    };
    if items.len() == 0 {
        return Err(ser_err("http-inbound-adapter.methods sequence must not be empty"));
    }
    let ghost f = |i: YamlValue| method_item(i);
    let mut out: Vec<String> = Vec::new();
    let mut k: usize = 0;
    proof {
        lemma_parse_all_empty(items@, f);
        assert(texts_view(out@) =~= Seq::<Seq<char>>::empty());
    }
    while k < items.len()
        invariant
            k <= items.len(),
            f == (|i: YamlValue| method_item(i)),
            parse_all(items@.take(k as int), f) == Ok::<Seq<Seq<char>>, ErrorView>(texts_view(out@)),
        decreases items.len() - k,
    {
        proof {
            lemma_parse_all_step(items@, f, k as int);
        }
        match parse_method(&items[k]) {
            Err(e) => {
                proof {
                    lemma_parse_all_err_sticks(items@, f, k + 1);
                }
                return Err(e);
            },
            Ok(s) => {
                let ghost before = out@;
                out.push(s);
                assert(texts_view(out@) =~= texts_view(before).push(s@));
            },
        }
        k = k + 1;
    }
    proof {
        lemma_parse_all_full(items@, f);
    }
    Ok(out)
}

fn parse_inbound_entry(root: &YamlValue) -> (r: Result<HttpInboundAdapterSpec>)
    ensures
        res_view(r) == inbound_entry(*root),
{
    let host = req_text_field_exec(root, "http-inbound-adapter.", "host")?;
    let port_val = match root.get("port") {
        None => return Err(ser_err("http-inbound-adapter.port required")),
        Some(p) => p,
    };
    let port_num = match port_val.as_u64() {
        None => return Err(ser_err("http-inbound-adapter.port must be integer")),
        Some(n) => n,
    };
    if port_num == 0 || port_num > 65535 {
        return Err(ser_err("http-inbound-adapter.port out of range (1-65535)"));
    }
    let port = port_num as u16;
    let path = req_text_field_exec(root, "http-inbound-adapter.", "path")?;
    if path.as_str().get_char(0) != '/' {
        return Err(ser_err("http-inbound-adapter.path must start with '/'"));
    }
    let methods = parse_methods(root)?;
    let request_channel = req_text_field_exec(root, "http-inbound-adapter.", "request-channel")?;
    let reply = loose_text_exec(root, "reply-channel");
    let id = loose_text_exec(root, "id");
    match &reply {
        Some(rc) => {
            if rc.as_str().unicode_len() == 0 {
                assert(rc@ =~= Seq::<char>::empty());
                return Err(ser_err("http-inbound-adapter.reply-channel must not be empty"));
            }
        },
        None => {},
    }
    match &id {
        Some(i) => {
            if i.as_str().unicode_len() == 0 {
                assert(i@ =~= Seq::<char>::empty());
                return Err(ser_err("http-inbound-adapter.id must not be empty"));
            }
        },
        None => {},
    }
    Ok(
        HttpInboundAdapterSpec {
            id,
            host,
            port,
            path,
            methods,
            request_channel,
            reply_channel: reply,
        },
    )
}

/// Parser of single HTTP inbound adapter documents.
pub struct HttpInboundAdapterSpecYamlParser;

impl HttpInboundAdapterSpecYamlParser {
    /// Parse a YAML text: read it as a document, then as [`Self::parse_value`] does.
    pub fn parse_str(raw: &str) -> (r: Result<HttpInboundAdapterSpec>)
        ensures
            res_view(r) == match yaml_read(raw@) {
                Ok(v) => inbound_doc(v),
                Err(e) => Err(yaml_syntax_error(e)),
            },
    {
        match read_yaml(raw) {
            Ok(v) => Self::parse_value(&v),
            Err(e) => Err(yaml_error(e.as_str())),
        }
    }

    pub fn parse_value(yaml: &YamlValue) -> (r: Result<HttpInboundAdapterSpec>)
        ensures
            res_view(r) == inbound_doc(*yaml),
    {
        validate_version(yaml)?;
        let root = match yaml.get("http-inbound-adapter") {
            None => return Err(ser_err("missing 'http-inbound-adapter'")),
            Some(r) => r,
        };
        if !root.is_mapping() {
            return Err(ser_err("'http-inbound-adapter' must be a mapping"));
        }
        parse_inbound_entry(root)
    }
}

/// Parser of HTTP inbound adapter collection documents.
pub struct HttpInboundAdaptersSpecYamlParser;

impl HttpInboundAdaptersSpecYamlParser {
    /// Parse a YAML text: read it as a document, then as [`Self::parse_value`] does.
    pub fn parse_str(raw: &str) -> (r: Result<HttpInboundAdaptersSpec>)
        ensures
            res_view(r) == match yaml_read(raw@) {
                Ok(v) => inbounds_doc(v),
                Err(e) => Err(yaml_syntax_error(e)),
            },
    {
        match read_yaml(raw) {
            Ok(v) => Self::parse_value(&v),
            Err(e) => Err(yaml_error(e.as_str())),
        }
    }

    pub fn parse_value(yaml: &YamlValue) -> (r: Result<HttpInboundAdaptersSpec>)
        ensures
            res_view(r) == inbounds_doc(*yaml),
    {
        let v = validate_version(yaml)?;
        let root = match yaml.get("http-inbound-adapters") {
            None => return Err(ser_err("missing 'http-inbound-adapters'")),
            Some(r) => r,
        };
        let items = match root.as_sequence() {
            None => return Err(ser_err("'http-inbound-adapters' must be a sequence")),
            Some(items) => items,
        };
        if items.len() == 0 {
            return Err(ser_err("'http-inbound-adapters' sequence must not be empty (minItems=1)"));
        }
        parse_inbounds_items(items, v)
    }
}

} // verus!
