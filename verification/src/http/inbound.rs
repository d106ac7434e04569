//! HTTP inbound adapter: configuration, endpoint registrations, and how an
//! HTTP request becomes a message and an HTTP response.
//!
//! The listening socket, the waiting and the channel sends are done by the
//! embedding program; this module decides what they carry.
use vstd::prelude::*;
use crate::endpoint::{EndpointSource, EndpointSourceView, InMemoryEndpoint, stamped};
use crate::error::Result;
use crate::message::{Exchange, ExchangeView, Message, MessageView, Payload, PayloadView, new_uuid, uuid_v4_text};
use crate::spec::common::{opt_as_str, opt_string_view};
use crate::text::{
    chars_of, concat2, concat3, decimal, decimal_chars, has_prefix, lower_ascii_chars,
    lower_ascii_text, owned, string_of, text_eq,
};

verus! {

/// Message exchange pattern of an inbound adapter.
#[derive(Clone, Copy, Debug, PartialEq, Eq, Structural)]
pub enum Mep {
    /// Wait for the route and answer with its result.
    InOut,
    /// Answer 202 at once and dispatch in the background.
    InOnly202,
}

impl Default for Mep {
    fn default() -> (r: Mep)
        ensures
            r == Mep::InOut,
    {
        Mep::InOut
    }
}

// ---------------------------------------------------------------------------
// Paths and versions
// ---------------------------------------------------------------------------

/// The request path relative to the adapter's base path: unchanged for
/// base `/` or a path outside the base, `/` for the base itself or a
/// remainder that does not start with `/`.
pub open spec fn relative_path(base: Seq<char>, full: Seq<char>) -> Seq<char> {
    if base == "/"@ {
        full
    } else if has_prefix(full, base) {
        let rest = full.subrange(base.len() as int, full.len() as int);
        if rest.len() == 0 {
            "/"@
        } else if rest[0] == '/' {
            rest
        } else {
            "/"@
        }
    } else {
        full
    }
}

/// The request path relative to the base path.
pub fn normalize_path(base: &str, full: &str) -> (r: String)
    ensures
        r@ == relative_path(base@, full@),
{
    if text_eq(base, "/") {
        return owned(full);
    }
    let b = chars_of(base);
    let f = chars_of(full);
    if crate::text::occurs_at(f.as_slice(), b.as_slice(), 0) {
        if f.len() == b.len() {
            owned("/")
        } else if f[b.len()] == '/' {
            let rest = crate::text::chars_slice(&f, b.len(), f.len());
            string_of(rest.as_slice())
        } else {
            owned("/")
        }
    } else {
        owned(full)
    }
}

/// HTTP protocol version of a request.
#[derive(Clone, Copy, Debug, PartialEq, Eq, Structural)]
pub enum HttpVersion {
    Http09,
    Http10,
    Http11,
    Http2,
    Http3,
    Other,
}

/// The version as text: `0.9`, `1.0`, `1.1`, `2.0`, `3.0`, else `unknown`.
pub fn http_version_str(v: HttpVersion) -> (r: &'static str)
    ensures
        r@ == match v {
            HttpVersion::Http09 => "0.9"@,
            HttpVersion::Http10 => "1.0"@,
            HttpVersion::Http11 => "1.1"@,
            HttpVersion::Http2 => "2.0"@,
            HttpVersion::Http3 => "3.0"@,
            HttpVersion::Other => "unknown"@,
        },
{
    match v {
        HttpVersion::Http09 => "0.9",
        HttpVersion::Http10 => "1.0",
        HttpVersion::Http11 => "1.1",
        HttpVersion::Http2 => "2.0",
        HttpVersion::Http3 => "3.0",
        HttpVersion::Other => "unknown",
    }
}

// ---------------------------------------------------------------------------
// Request to message
// ---------------------------------------------------------------------------

/// Calls `std::str::from_utf8`: the text when the bytes are valid UTF-8.
#[verifier::external_body]
fn utf8_text(b: &[u8]) -> (r: Option<String>)
    ensures
        r is Some <==> vstd::utf8::valid_utf8(b@),
        r matches Some(s) ==> s@ == vstd::utf8::decode_utf8(b@),
{
    match std::str::from_utf8(b) {
        Ok(s) => Some(s.to_string()),
        Err(_) => None,
    }
}

/// What `String::from_utf8_lossy` makes of `b` (invalid sequences become
/// U+FFFD).
pub uninterp spec fn utf8_lossy(b: Seq<u8>) -> Seq<char>;

/// Calls `String::from_utf8_lossy`. Claimed: the result is
/// `utf8_lossy(b)`, and is the decoded text when `b` is valid UTF-8.
#[verifier::external_body]
fn utf8_lossy_text(b: &[u8]) -> (r: String)
    ensures
        r@ == utf8_lossy(b@),
        vstd::utf8::valid_utf8(b@) ==> r@ == vstd::utf8::decode_utf8(b@),
{
    String::from_utf8_lossy(b).to_string()
}

/// An HTTP request as received.
#[derive(Debug)]
pub struct InboundRequest {
    pub method: String,
    /// The full request path.
    pub path: String,
    /// The query string (empty when there is none).
    pub query: String,
    pub version: HttpVersion,
    /// Header names and values (values that are visible text only).
    pub headers: Vec<(String, String)>,
    pub body: Vec<u8>,
}

/// Headers `h` with `http.header.<lowercase name>` set for each request
/// header, in order (a later header of the same name wins).
pub open spec fn with_request_headers(
    h: Map<Seq<char>, Seq<char>>,
    hs: Seq<(String, String)>,
) -> Map<Seq<char>, Seq<char>>
    decreases hs.len(),
{
    if hs.len() == 0 {
        h
    } else {
        with_request_headers(h, hs.drop_last()).insert(
            "http.header."@ + lower_ascii_text(hs.last().0@),
            hs.last().1@,
        )
    }
}

/// Value of the first header whose lowercase name is `content-type`.
pub open spec fn content_type(hs: Seq<(String, String)>, i: int) -> Option<Seq<char>>
    decreases hs.len() - i,
{
    if i < 0 || i >= hs.len() {
        None
    } else if lower_ascii_text(hs[i].0@) == "content-type"@ {
        Some(hs[i].1@)
    } else {
        content_type(hs, i + 1)
    }
}

/// The headers a request message carries (besides `message_id`).
pub open spec fn request_headers(
    h0: Map<Seq<char>, Seq<char>>,
    method: Seq<char>,
    path: Seq<char>,
    query: Seq<char>,
    version: Seq<char>,
    hs: Seq<(String, String)>,
    body: Seq<u8>,
) -> Map<Seq<char>, Seq<char>> {
    let h1 = h0.insert("http.method"@, method).insert("http.path"@, path);
    let h2 = if query.len() > 0 {
        h1.insert("http.query"@, query)
    } else {
        h1
    };
    let h3 = with_request_headers(h2.insert("http.version"@, version), hs);
    let h4 = match content_type(hs, 0) {
        Some(ct) => h3.insert("http.content_type"@, ct),
        None => h3,
    };
    if vstd::utf8::valid_utf8(body) {
        h4.insert("http.body_text"@, vstd::utf8::decode_utf8(body))
    } else {
        h4
    }
}

fn set_request_headers(msg: &mut Message, hs: &Vec<(String, String)>)
    ensures
        final(msg)@.payload == old(msg)@.payload,
        final(msg)@.headers == with_request_headers(old(msg)@.headers, hs@),
{
    let mut i: usize = 0;
    let ghost h0 = msg@.headers;
    assert(hs@.subrange(0, 0) =~= Seq::<(String, String)>::empty());
    while i < hs.len()
        invariant
            i <= hs.len(),
            msg@.payload == old(msg)@.payload,
            h0 == old(msg)@.headers,
            msg@.headers == with_request_headers(h0, hs@.subrange(0, i as int)),
        decreases hs.len() - i,
    {
        let name = chars_of(hs[i].0.as_str());
        let lower = lower_ascii_chars(name.as_slice());
        let lower_text = string_of(lower.as_slice());
        let key = concat2("http.header.", lower_text.as_str());
        msg.set_header(key.as_str(), hs[i].1.as_str());
        proof {
            let s = hs@.subrange(0, i + 1);
            assert(s.drop_last() =~= hs@.subrange(0, i as int));
            assert(s.last() == hs@[i as int]);
        }
        i = i + 1;
    }
    assert(hs@.subrange(0, hs.len() as int) =~= hs@);
}

fn find_content_type(hs: &Vec<(String, String)>) -> (r: Option<String>)
    ensures
        opt_string_view(r) == content_type(hs@, 0),
{
    let mut i: usize = 0;
    while i < hs.len()
        invariant
            i <= hs.len(),
            content_type(hs@, 0) == content_type(hs@, i as int),
        decreases hs.len() - i,
    {
        let name = chars_of(hs[i].0.as_str());
        let lower = lower_ascii_chars(name.as_slice());
        let lower_text = string_of(lower.as_slice());
        if text_eq(lower_text.as_str(), "content-type") {
            return Some(owned(hs[i].1.as_str()));
        }
        i = i + 1;
    }
    None
}

/// The inbound message for a request: a text body when the bytes are
/// UTF-8 (else the raw bytes), a fresh `message_id`, and `http.*`
/// headers describing the request (path relative to `base_path`).
pub fn request_message(req: &InboundRequest, base_path: &str) -> (r: Message)
    ensures
        r@.payload == if vstd::utf8::valid_utf8(req.body@) {
            PayloadView::Text(vstd::utf8::decode_utf8(req.body@))
        } else {
            PayloadView::Bytes(req.body@)
        },
        exists|mid: Seq<char>|
            uuid_v4_text(mid) && r@.headers == request_headers(
                map![crate::message::message_id_key() => mid],
                req.method@,
                relative_path(base_path@, req.path@),
                req.query@,
                match req.version {
                    HttpVersion::Http09 => "0.9"@,
                    HttpVersion::Http10 => "1.0"@,
                    HttpVersion::Http11 => "1.1"@,
                    HttpVersion::Http2 => "2.0"@,
                    HttpVersion::Http3 => "3.0"@,
                    HttpVersion::Other => "unknown"@,
                },
                req.headers@,
                req.body@,
            ),
{
    let text = utf8_text(req.body.as_slice());
    let mut msg = match &text {
        Some(t) => Message::from_text(t.as_str()),
        None => {
            let b = req.body.clone();
            assert(b@ =~= req.body@);
            Message::new(Payload::Bytes(b))
        },
    };
    let ghost mid = msg@.headers[crate::message::message_id_key()];
    assert(msg@.headers =~= map![crate::message::message_id_key() => mid]);
    let path = normalize_path(base_path, req.path.as_str());
    msg.set_header("http.method", req.method.as_str());
    msg.set_header("http.path", path.as_str());
    if chars_of(req.query.as_str()).len() > 0 {
        msg.set_header("http.query", req.query.as_str());
    }
    msg.set_header("http.version", http_version_str(req.version));
    set_request_headers(&mut msg, &req.headers);
    match find_content_type(&req.headers) {
        Some(ct) => msg.set_header("http.content_type", ct.as_str()),
        None => {},
    }
    match &text {
        Some(t) => msg.set_header("http.body_text", t.as_str()),
        None => {},
    }
    msg
}

/// Give the exchange a `corr_id` header (a fresh UUID) when it has none.
pub fn ensure_correlation(exchange: &mut Exchange)
    ensures
        final(exchange)@.out_msg == old(exchange)@.out_msg,
        final(exchange)@.properties == old(exchange)@.properties,
        final(exchange)@.in_msg.payload == old(exchange)@.in_msg.payload,
        old(exchange)@.in_msg.headers.contains_key("corr_id"@) ==> final(exchange)@.in_msg.headers
            == old(exchange)@.in_msg.headers,
        !old(exchange)@.in_msg.headers.contains_key("corr_id"@) ==> exists|c: Seq<char>|
            uuid_v4_text(c) && final(exchange)@.in_msg.headers == old(exchange)@.in_msg.headers.insert(
                "corr_id"@,
                c,
            ),
{
    if exchange.in_msg.header("corr_id").is_none() {
        let c = new_uuid();
        exchange.in_msg.set_header("corr_id", c.as_str());
    }
}

/// The copy of an exchange handed to a matched endpoint: stamped with the
/// HTTP source (adapter, method, path).
pub fn endpoint_exchange(exchange: &Exchange, adapter_id: &str, method: &str, path: &str) -> (r:
    Exchange)
    ensures
        r@ == stamped(
            EndpointSourceView::Http { adapter_id: adapter_id@, method: method@, path: path@ },
            exchange@,
        ),
{
    let mut ex = exchange.duplicate();
    let src = EndpointSource::Http {
        adapter_id: owned(adapter_id),
        method: owned(method),
        path: owned(path),
    };
    src.apply_headers(&mut ex);
    ex
}

/// The body of the answer taken from a reply exchange: its outbound text,
/// else its inbound text, else empty.
pub fn reply_body(reply: &Exchange) -> (r: String)
    ensures
        r@ == match reply@.out_msg {
            Some(m) => match m.payload {
                PayloadView::Text(t) => t,
                _ => match reply@.in_msg.payload {
                    PayloadView::Text(t) => t,
                    _ => Seq::empty(),
                },
            },
            None => match reply@.in_msg.payload {
                PayloadView::Text(t) => t,
                _ => Seq::empty(),
            },
        },
{
    match &reply.out_msg {
        Some(m) => {
            assert(reply@.out_msg == Some(m@));
            match m.body_text() {
                Some(t) => {
                    return owned(t);
                },
                None => {},
            }
        },
        None => {},
    }
    match reply.in_msg.body_text() {
        Some(t) => owned(t),
        None => {
            proof {
                reveal_strlit("");
            }
            owned("")
        },
    }
}

/// The body answered when no endpoint handled the request and no reply
/// arrived: the inbound text, else the raw body decoded lossily.
pub fn fallback_body(exchange: &Exchange, raw: &Vec<u8>) -> (r: String)
    ensures
        r@ == match exchange@.in_msg.payload {
            PayloadView::Text(t) => t,
            _ => utf8_lossy(raw@),
        },
{
    match exchange.in_msg.body_text() {
        Some(t) => owned(t),
        None => utf8_lossy_text(raw.as_slice()),
    }
}

// ---------------------------------------------------------------------------
// Adapter configuration and endpoint registrations
// ---------------------------------------------------------------------------

/// One registration: requests with `method` (or `ANY`) on `path` go to the
/// endpoint `endpoint`.
#[derive(Debug)]
pub struct RouteEntry {
    pub method: String,
    pub path: String,
    pub endpoint: String,
}

/// A configured HTTP inbound adapter.
#[derive(Debug)]
pub struct HttpInboundAdapter {
    id: String,
    host: String,
    port: u16,
    base_path: String,
    channel: String,
    mep: Mep,
    reply_channel: Option<String>,
    routes: Vec<RouteEntry>,
}

pub struct HttpInboundAdapterView {
    pub id: Seq<char>,
    pub host: Seq<char>,
    pub port: u16,
    pub base_path: Seq<char>,
    pub channel: Seq<char>,
    pub mep: Mep,
    pub reply_channel: Option<Seq<char>>,
    /// (method, path, endpoint) in registration order.
    pub routes: Seq<(Seq<char>, Seq<char>, Seq<char>)>,
}

impl View for HttpInboundAdapter {
    type V = HttpInboundAdapterView;

    closed spec fn view(&self) -> HttpInboundAdapterView {
        HttpInboundAdapterView {
            id: self.id@,
            host: self.host@,
            port: self.port,
            base_path: self.base_path@,
            channel: self.channel@,
            mep: self.mep,
            reply_channel: opt_string_view(self.reply_channel),
            routes: self.routes@.map_values(|e: RouteEntry| (e.method@, e.path@, e.endpoint@)),
        }
    }
}

/// `host:port` as text.
pub open spec fn addr_text(host: Seq<char>, port: u16) -> Seq<char> {
    host + ":"@ + decimal(port as nat)
}

/// The id an adapter gets when none is given: `http-inbound:host:port`.
pub open spec fn inbound_auto_id(host: Seq<char>, port: u16) -> Seq<char> {
    "http-inbound:"@ + addr_text(host, port)
}

fn addr_string(host: &str, port: u16) -> (r: String)
    ensures
        r@ == addr_text(host@, port),
{
    let digits = decimal_chars(port as u64);
    let p = string_of(digits.as_slice());
    concat3(host, ":", p.as_str())
}

/// `b`, or `/` when `b` is empty.
pub open spec fn base_or_root(b: Seq<char>) -> Seq<char> {
    if b.len() == 0 {
        "/"@
    } else {
        b
    }
}

/// Uppercase ASCII letters of `s`.
pub open spec fn upper_ascii_text(s: Seq<char>) -> Seq<char> {
    s.map_values(|c: char| if 'a' <= c && c <= 'z' {
        ((c as u32) - 32) as char
    } else {
        c
    })
}

/// The character with ASCII code `code` (an uppercase letter).
fn upper_code_to_char(code: u32) -> (c: char)
    requires
        65 <= code <= 90,
    ensures
        c == code as char,
{
    let b: u8 = code as u8;
    b as char
}

/// ASCII uppercase (as `str::to_ascii_uppercase`).
pub fn to_ascii_uppercase(s: &str) -> (r: String)
    ensures
        r@ == upper_ascii_text(s@),
{
    let cs = chars_of(s);
    let mut out: Vec<char> = Vec::new();
    let mut i: usize = 0;
    while i < cs.len()
        invariant
            i <= cs.len(),
            out@ == upper_ascii_text(cs@.subrange(0, i as int)),
        decreases cs.len() - i,
    {
        let c = cs[i];
        let d = if 'a' <= c && c <= 'z' {
            upper_code_to_char((c as u32) - 32)
        } else {
            c
        };
        out.push(d);
        i = i + 1;
        assert(out@ =~= upper_ascii_text(cs@.subrange(0, i as int)));
    }
    assert(cs@.subrange(0, cs.len() as int) =~= cs@);
    string_of(out.as_slice())
}

/// Endpoints registered for `method` (exactly, after uppercasing) on
/// `path`, in registration order.
pub open spec fn endpoints_for(
    routes: Seq<(Seq<char>, Seq<char>, Seq<char>)>,
    method: Seq<char>,
    path: Seq<char>,
) -> Seq<Seq<char>>
    decreases routes.len(),
{
    if routes.len() == 0 {
        Seq::empty()
    } else {
        let r = routes.last();
        let rest = endpoints_for(routes.drop_last(), method, path);
        if r.0 == method && r.1 == path {
            rest.push(r.2)
        } else {
            rest
        }
    }
}

/// The endpoints a request matches: those of its method, then those
/// registered for `ANY`.
pub open spec fn matched_endpoints(
    routes: Seq<(Seq<char>, Seq<char>, Seq<char>)>,
    method: Seq<char>,
    path: Seq<char>,
) -> Seq<Seq<char>> {
    endpoints_for(routes, upper_ascii_text(method), path) + endpoints_for(routes, "ANY"@, path)
}

/// `e` is registered on exactly `path` for method `m` (at some position).
pub open spec fn registered_on(
    routes: Seq<(Seq<char>, Seq<char>, Seq<char>)>,
    m: Seq<char>,
    path: Seq<char>,
    e: Seq<char>,
) -> bool {
    exists|j: int| 0 <= j < routes.len() && #[trigger] routes[j] == (m, path, e)
}

proof fn lemma_endpoints_for_exact(
    routes: Seq<(Seq<char>, Seq<char>, Seq<char>)>,
    m: Seq<char>,
    path: Seq<char>,
)
    ensures
        forall|e: Seq<char>| #[trigger] endpoints_for(routes, m, path).contains(e) <==> registered_on(
            routes,
            m,
            path,
            e,
        ),
    decreases routes.len(),
{
    if routes.len() > 0 {
        let t = routes.drop_last();
        lemma_endpoints_for_exact(t, m, path);
        let last = routes.last();
        let rest = endpoints_for(t, m, path);
        assert forall|e: Seq<char>| #[trigger] endpoints_for(routes, m, path).contains(e) <==> registered_on(
            routes,
            m,
            path,
            e,
        ) by {
            if endpoints_for(routes, m, path).contains(e) {
                if rest.contains(e) {
                    let j = choose|j: int| 0 <= j < t.len() && #[trigger] t[j] == (m, path, e);
                    assert(routes[j] == t[j]);
                } else {
                    let k = choose|k: int|
                        0 <= k < endpoints_for(routes, m, path).len() && endpoints_for(routes, m, path)[k]
                            == e;
                    assert(last.0 == m && last.1 == path);
                    assert(k == rest.len());
                    assert(routes[routes.len() - 1] == (m, path, e));
                }
            }
            if registered_on(routes, m, path, e) {
                let j = choose|j: int| 0 <= j < routes.len() && #[trigger] routes[j] == (m, path, e);
                if j < routes.len() - 1 {
                    assert(t[j] == routes[j]);
                    assert(registered_on(t, m, path, e));
                    assert(rest.contains(e));
                    let k = choose|k: int| 0 <= k < rest.len() && rest[k] == e;
                    if last.0 == m && last.1 == path {
                        assert(endpoints_for(routes, m, path) == rest.push(last.2));
                        assert(rest.push(last.2)[k] == e);
                    } else {
                        assert(endpoints_for(routes, m, path) == rest);
                    }
                    assert(endpoints_for(routes, m, path)[k] == e);
                } else {
                    assert(last == (m, path, e));
                    assert(endpoints_for(routes, m, path) == rest.push(last.2));
                    assert(rest.push(last.2)[rest.len() as int] == e);
                }
            }
        }
    }
}

/// Requests are routed by exact path: an endpoint matches a request only
/// when it was registered on exactly the request's path, for the request's
/// method (in upper case) or for `ANY`; every such registration matches.
/// So a registration on `p` never matches a request on another path `q`.
pub proof fn law_exact_path_routing(
    routes: Seq<(Seq<char>, Seq<char>, Seq<char>)>,
    method: Seq<char>,
    path: Seq<char>,
    m0: Seq<char>,
    p: Seq<char>,
    e0: Seq<char>,
)
    ensures
        forall|e: Seq<char>| #[trigger] matched_endpoints(routes, method, path).contains(e) <==> (
        registered_on(routes, upper_ascii_text(method), path, e) || registered_on(
            routes,
            "ANY"@,
            path,
            e,
        )),
        p != path ==> matched_endpoints(seq![(m0, p, e0)], method, path).len() == 0,
{
    lemma_endpoints_for_exact(routes, upper_ascii_text(method), path);
    lemma_endpoints_for_exact(routes, "ANY"@, path);
    let a = endpoints_for(routes, upper_ascii_text(method), path);
    let b = endpoints_for(routes, "ANY"@, path);
    assert forall|e: Seq<char>| #[trigger] matched_endpoints(routes, method, path).contains(e) <==> (
    a.contains(e) || b.contains(e)) by {
        let ab = a + b;
        if ab.contains(e) {
            let k = choose|k: int| 0 <= k < ab.len() && ab[k] == e;
            if k < a.len() {
                assert(a[k] == e);
            } else {
                assert(b[k - a.len()] == e);
            }
        }
        if a.contains(e) {
            let k = choose|k: int| 0 <= k < a.len() && a[k] == e;
            assert(ab[k] == e);
        }
        if b.contains(e) {
            let k = choose|k: int| 0 <= k < b.len() && b[k] == e;
            assert(ab[a.len() + k] == e);
        }
    }
    if p != path {
        let one = seq![(m0, p, e0)];
        let none = Seq::<(Seq<char>, Seq<char>, Seq<char>)>::empty();
        assert(one.drop_last() =~= none);
        assert(one.last() == (m0, p, e0));
        assert(endpoints_for(none, upper_ascii_text(method), path).len() == 0);
        assert(endpoints_for(none, "ANY"@, path).len() == 0);
        assert(endpoints_for(one, upper_ascii_text(method), path).len() == 0);
        assert(endpoints_for(one, "ANY"@, path).len() == 0);
    }
}

/// The registrations `register_endpoint_any` adds: every common method,
/// then `ANY`.
pub open spec fn any_method_routes(path: Seq<char>, endpoint: Seq<char>) -> Seq<
    (Seq<char>, Seq<char>, Seq<char>),
> {
    seq![
        ("GET"@, path, endpoint),
        ("POST"@, path, endpoint),
        ("PUT"@, path, endpoint),
        ("DELETE"@, path, endpoint),
        ("PATCH"@, path, endpoint),
        ("OPTIONS"@, path, endpoint),
        ("HEAD"@, path, endpoint),
        ("ANY"@, path, endpoint),
    ]
}

impl HttpInboundAdapter {
    /// An adapter without registrations. An empty base path means `/`;
    /// without an id it is `http-inbound:host:port`.
    pub fn new(
        host: &str,
        port: u16,
        base_path: &str,
        channel: &str,
        reply_channel: Option<&str>,
        mep: Mep,
        id: Option<&str>,
    ) -> (r: HttpInboundAdapter)
        ensures
            r@.host == host@,
            r@.port == port,
            r@.base_path == base_or_root(base_path@),
            r@.channel == channel@,
            r@.reply_channel == crate::spec::common::opt_str_view(reply_channel),
            r@.mep == mep,
            r@.routes.len() == 0,
            r@.id == match id {
                Some(i) => i@,
                None => inbound_auto_id(host@, port),
            },
    {
        let base = if chars_of(base_path).len() == 0 {
            owned("/")
        } else {
            owned(base_path)
        };
        let id_final = match id {
            Some(i) => owned(i),
            None => {
                let a = addr_string(host, port);
                concat2("http-inbound:", a.as_str())
            },
        };
        let rc = match reply_channel {
            Some(c) => Some(owned(c)),
            None => None,
        };
        let a = HttpInboundAdapter {
            id: id_final,
            host: owned(host),
            port,
            base_path: base,
            channel: owned(channel),
            mep,
            reply_channel: rc,
            routes: Vec::new(),
        };
        assert(a@.routes =~= Seq::<(Seq<char>, Seq<char>, Seq<char>)>::empty());
        a
    }

    /// Request/reply adapter.
    pub fn new_in_out(
        host: &str,
        port: u16,
        base_path: &str,
        channel: &str,
        reply_channel: Option<&str>,
        id: Option<&str>,
    ) -> (r: HttpInboundAdapter)
        ensures
            r@.mep == Mep::InOut,
            r@.host == host@ && r@.port == port && r@.channel == channel@,
            r@.base_path == base_or_root(base_path@),
            r@.reply_channel == crate::spec::common::opt_str_view(reply_channel),
            r@.routes.len() == 0,
            r@.id == match id {
                Some(i) => i@,
                None => inbound_auto_id(host@, port),
            },
    {
        HttpInboundAdapter::new(host, port, base_path, channel, reply_channel, Mep::InOut, id)
    }

    /// Fire-and-forget adapter (answers 202).
    pub fn new_in_only_202(host: &str, port: u16, base_path: &str, channel: &str, id: Option<&str>) -> (r:
        HttpInboundAdapter)
        ensures
            r@.mep == Mep::InOnly202,
            r@.host == host@ && r@.port == port && r@.channel == channel@,
            r@.base_path == base_or_root(base_path@),
            r@.reply_channel is None,
            r@.routes.len() == 0,
            r@.id == match id {
                Some(i) => i@,
                None => inbound_auto_id(host@, port),
            },
    {
        HttpInboundAdapter::new(host, port, base_path, channel, None, Mep::InOnly202, id)
    }

    pub fn id(&self) -> (r: &str)
        ensures
            r@ == self@.id,
    {
        self.id.as_str()
    }

    pub fn host(&self) -> (r: &str)
        ensures
            r@ == self@.host,
    {
        self.host.as_str()
    }

    pub fn port(&self) -> (r: u16)
        ensures
            r == self@.port,
    {
        self.port
    }

    /// `host:port`.
    pub fn addr(&self) -> (r: String)
        ensures
            r@ == addr_text(self@.host, self@.port),
    {
        addr_string(self.host.as_str(), self.port)
    }

    pub fn base_path(&self) -> (r: &str)
        ensures
            r@ == self@.base_path,
    {
        self.base_path.as_str()
    }

    pub fn mep(&self) -> (r: Mep)
        ensures
            r == self@.mep,
    {
        self.mep
    }

    /// Id of the channel requests are published on.
    pub fn channel(&self) -> (r: &str)
        ensures
            r@ == self@.channel,
    {
        self.channel.as_str()
    }

    /// Id of the channel replies are read from, if any.
    pub fn reply_channel(&self) -> (r: Option<&str>)
        ensures
            crate::spec::common::opt_str_view(r) == self@.reply_channel,
    {
        opt_as_str(&self.reply_channel)
    }

    /// Route requests with `method` (uppercased) on `path` to `endpoint`.
    pub fn register_endpoint(&mut self, method: &str, path: &str, endpoint: &str)
        ensures
            final(self)@ == (HttpInboundAdapterView {
                routes: old(self)@.routes.push((upper_ascii_text(method@), path@, endpoint@)),
                ..old(self)@
            }),
    {
        let e = RouteEntry {
            method: to_ascii_uppercase(method),
            path: owned(path),
            endpoint: owned(endpoint),
        };
        self.routes.push(e);
        assert(self@.routes =~= old(self)@.routes.push((upper_ascii_text(method@), path@, endpoint@)));
    }

    /// Route every common method and `ANY` on `path` to `endpoint`.
    pub fn register_endpoint_any(&mut self, path: &str, endpoint: &str)
        ensures
            final(self)@ == (HttpInboundAdapterView {
                routes: old(self)@.routes + any_method_routes(path@, endpoint@),
                ..old(self)@
            }),
    {
        proof {
            reveal_strlit("GET");
            reveal_strlit("POST");
            reveal_strlit("PUT");
            reveal_strlit("DELETE");
            reveal_strlit("PATCH");
            reveal_strlit("OPTIONS");
            reveal_strlit("HEAD");
            reveal_strlit("ANY");
            assert(upper_ascii_text("GET"@) =~= "GET"@);
            assert(upper_ascii_text("POST"@) =~= "POST"@);
            assert(upper_ascii_text("PUT"@) =~= "PUT"@);
            assert(upper_ascii_text("DELETE"@) =~= "DELETE"@);
            assert(upper_ascii_text("PATCH"@) =~= "PATCH"@);
            assert(upper_ascii_text("OPTIONS"@) =~= "OPTIONS"@);
            assert(upper_ascii_text("HEAD"@) =~= "HEAD"@);
            assert(upper_ascii_text("ANY"@) =~= "ANY"@);
        }
        self.register_endpoint("GET", path, endpoint);
        self.register_endpoint("POST", path, endpoint);
        self.register_endpoint("PUT", path, endpoint);
        self.register_endpoint("DELETE", path, endpoint);
        self.register_endpoint("PATCH", path, endpoint);
        self.register_endpoint("OPTIONS", path, endpoint);
        self.register_endpoint("HEAD", path, endpoint);
        self.register_endpoint("ANY", path, endpoint);
        assert(self@.routes =~= old(self)@.routes + any_method_routes(path@, endpoint@));
    }

    /// The endpoints a request with `method` on `path` is handed to: those
    /// registered for its method, then those registered for `ANY`.
    pub fn matched_endpoints(&self, method: &str, path: &str) -> (r: Vec<String>)
        ensures
            r@.map_values(|s: String| s@) == matched_endpoints(self@.routes, method@, path@),
    {
        let m = to_ascii_uppercase(method);
        let mut exact = self.endpoints_for(m.as_str(), path);
        let any = self.endpoints_for("ANY", path);
        let ghost a = exact@.map_values(|s: String| s@);
        let ghost b = any@.map_values(|s: String| s@);
        let mut j: usize = 0;
        while j < any.len()
            invariant
                j <= any.len(),
                b == any@.map_values(|s: String| s@),
                exact@.map_values(|s: String| s@) == a + b.subrange(0, j as int),
            decreases any.len() - j,
        {
            assert(b[j as int] == any@[j as int]@);
            let ghost before = exact@.map_values(|s: String| s@);
            exact.push(owned(any[j].as_str()));
            assert(exact@.map_values(|s: String| s@) =~= before.push(b[j as int]));
            assert(b.subrange(0, j + 1) =~= b.subrange(0, j as int).push(b[j as int]));
            j = j + 1;
            assert(exact@.map_values(|s: String| s@) =~= a + b.subrange(0, j as int));
        }
        assert(b.subrange(0, any.len() as int) =~= b);
        exact
    }

    fn endpoints_for(&self, method: &str, path: &str) -> (r: Vec<String>)
        ensures
            r@.map_values(|s: String| s@) == endpoints_for(self@.routes, method@, path@),
    {
        let ghost rv = self@.routes;
        let mut out: Vec<String> = Vec::new();
        let mut i: usize = 0;
        while i < self.routes.len()
            invariant
                i <= self.routes.len(),
                rv == self@.routes,
                out@.map_values(|s: String| s@) == endpoints_for(rv.subrange(0, i as int), method@, path@),
            decreases self.routes.len() - i,
        {
            let e = &self.routes[i];
            proof {
                let s = rv.subrange(0, i + 1);
                assert(s.drop_last() =~= rv.subrange(0, i as int));
                assert(s.last() == rv[i as int]);
            }
            let ghost before = out@.map_values(|s: String| s@);
            if text_eq(e.method.as_str(), method) && text_eq(e.path.as_str(), path) {
                out.push(owned(e.endpoint.as_str()));
                assert(out@.map_values(|s: String| s@) =~= before.push(e.endpoint@));
            }
            i = i + 1;
        }
        assert(rv.subrange(0, self.routes.len() as int) =~= rv);
        out
    }
}

impl InMemoryEndpoint {
    /// Hand requests with `method` on `path` received by `adapter` to this
    /// endpoint.
    pub fn attach_http(&self, adapter: &mut HttpInboundAdapter, method: &str, path: &str)
        ensures
            final(adapter)@ == (HttpInboundAdapterView {
                routes: old(adapter)@.routes.push((upper_ascii_text(method@), path@, self@.id)),
                ..old(adapter)@
            }),
    {
        adapter.register_endpoint(method, path, self.id());
    }

    /// Hand requests with any method on `path` received by `adapter` to
    /// this endpoint.
    pub fn attach_http_any(&self, adapter: &mut HttpInboundAdapter, path: &str)
        ensures
            final(adapter)@ == (HttpInboundAdapterView {
                routes: old(adapter)@.routes.push(("ANY"@, path@, self@.id)),
                ..old(adapter)@
            }),
    {
        proof {
            reveal_strlit("ANY");
            assert(upper_ascii_text("ANY"@) =~= "ANY"@);
        }
        adapter.register_endpoint("ANY", path, self.id());
    }
}

// ---------------------------------------------------------------------------
// Handling a request
// ---------------------------------------------------------------------------

/// What the adapter does with a request once its exchange is prepared.
#[derive(Debug)]
pub enum InboundAction {
    /// Hand a source-stamped copy to each of these endpoints, in order, and
    /// answer with [`endpoints_answer`].
    Endpoints(Vec<String>),
    /// Send to the primary channel, then poll the reply channel for an
    /// answer ([`reply_body`]), answering [`fallback_body`] on timeout.
    ChannelAwaitReply,
    /// Send to the primary channel and answer [`fallback_body`].
    Channel,
    /// Answer `202 ok` at once and send to the primary channel in the
    /// background.
    Acknowledge,
}

pub enum InboundActionView {
    Endpoints(Seq<Seq<char>>),
    ChannelAwaitReply,
    Channel,
    Acknowledge,
}

impl View for InboundAction {
    type V = InboundActionView;

    open spec fn view(&self) -> InboundActionView {
        match self {
            InboundAction::Endpoints(es) => InboundActionView::Endpoints(
                es@.map_values(|s: String| s@),
            ),
            InboundAction::ChannelAwaitReply => InboundActionView::ChannelAwaitReply,
            InboundAction::Channel => InboundActionView::Channel,
            InboundAction::Acknowledge => InboundActionView::Acknowledge,
        }
    }
}

/// The action for a request with `method` on (normalized) `path`; a reply
/// is awaited only when the reply channel exists and can be polled.
pub open spec fn inbound_plan(
    a: HttpInboundAdapterView,
    method: Seq<char>,
    path: Seq<char>,
    reply_pollable: bool,
) -> InboundActionView {
    match a.mep {
        Mep::InOnly202 => InboundActionView::Acknowledge,
        Mep::InOut => {
            let eps = matched_endpoints(a.routes, method, path);
            if eps.len() > 0 {
                InboundActionView::Endpoints(eps)
            } else if a.reply_channel is Some && reply_pollable {
                InboundActionView::ChannelAwaitReply
            } else {
                InboundActionView::Channel
            }
        },
    }
}

impl HttpInboundAdapter {
    /// Decide what to do with a request with `method` on the normalized
    /// `path`; `reply_pollable` tells whether the reply channel (if any)
    /// can be polled.
    pub fn plan_request(&self, method: &str, path: &str, reply_pollable: bool) -> (r: InboundAction)
        ensures
            r@ == inbound_plan(self@, method@, path@, reply_pollable),
    {
        match self.mep {
            Mep::InOnly202 => InboundAction::Acknowledge,
            Mep::InOut => {
                let eps = self.matched_endpoints(method, path);
                if eps.len() > 0 {
                    InboundAction::Endpoints(eps)
                } else if self.reply_channel.is_some() && reply_pollable {
                    InboundAction::ChannelAwaitReply
                } else {
                    InboundAction::Channel
                }
            },
        }
    }
}

/// The answer after handing a request to its endpoints: the request's
/// text body when at least one endpoint took it, else empty.
pub fn endpoints_answer(exchange: &Exchange, delivered: bool) -> (r: String)
    ensures
        r@ == if delivered {
            match exchange@.in_msg.payload {
                PayloadView::Text(t) => t,
                _ => Seq::empty(),
            }
        } else {
            Seq::empty()
        },
{
    proof {
        reveal_strlit("");
    }
    if delivered {
        match exchange.in_msg.body_text() {
            Some(t) => owned(t),
            None => owned(""),
        }
    } else {
        owned("")
    }
}

// ---------------------------------------------------------------------------
// Builder
// ---------------------------------------------------------------------------

/// Staged builder for [`HttpInboundAdapter`].
#[derive(Debug)]
pub struct HttpInboundBuilder {
    id: Option<String>,
    host: String,
    port: u16,
    base_path: String,
    channel: Option<String>,
    mep: Mep,
    reply_channel: Option<String>,
    registrations: Vec<RouteEntry>,
}

pub struct InboundSettingsView {
    pub id: Option<Seq<char>>,
    pub host: Seq<char>,
    pub port: u16,
    pub base_path: Seq<char>,
    pub channel: Option<Seq<char>>,
    pub mep: Mep,
    pub reply_channel: Option<Seq<char>>,
    pub registrations: Seq<(Seq<char>, Seq<char>, Seq<char>)>,
}

/// `p` with a leading `/` added when missing.
pub open spec fn rooted(p: Seq<char>) -> Seq<char> {
    if p.len() > 0 && p[0] == '/' {
        p
    } else {
        "/"@ + p
    }
}

impl HttpInboundBuilder {
    pub closed spec fn settings(&self) -> InboundSettingsView {
        InboundSettingsView {
            id: opt_string_view(self.id),
            host: self.host@,
            port: self.port,
            base_path: self.base_path@,
            channel: opt_string_view(self.channel),
            mep: self.mep,
            reply_channel: opt_string_view(self.reply_channel),
            registrations: self.registrations@.map_values(
                |e: RouteEntry| (e.method@, e.path@, e.endpoint@),
            ),
        }
    }

    /// Nothing set: empty host, port 0, empty base path, request/reply.
    pub fn new() -> (r: Self)
        ensures
            r.settings().id is None && r.settings().host.len() == 0 && r.settings().port == 0
                && r.settings().base_path.len() == 0 && r.settings().channel is None
                && r.settings().mep == Mep::InOut && r.settings().reply_channel is None
                && r.settings().registrations.len() == 0,
    {
        let b = HttpInboundBuilder {
            id: None,
            host: owned(""),
            port: 0,
            base_path: owned(""),
            channel: None,
            mep: Mep::InOut,
            reply_channel: None,
            registrations: Vec::new(),
        };
        proof {
            reveal_strlit("");
        }
        assert(b.settings().registrations =~= Seq::<(Seq<char>, Seq<char>, Seq<char>)>::empty());
        b
    }

    /// Register `endpoint` for `method` (uppercased) on `path` (made to
    /// start with `/`).
    pub fn register(self, method: &str, path: &str, endpoint: &str) -> (r: Self)
        ensures
            r.settings() == (InboundSettingsView {
                registrations: self.settings().registrations.push(
                    (upper_ascii_text(method@), rooted(path@), endpoint@),
                ),
                ..self.settings()
            }),
    {
        let cs = chars_of(path);
        let norm = if cs.len() > 0 && cs[0] == '/' {
            owned(path)
        } else {
            proof {
                reveal_strlit("/");
            }
            concat2("/", path)
        };
        let mut s = self;
        let ghost before = s.settings().registrations;
        s.registrations.push(
            RouteEntry { method: to_ascii_uppercase(method), path: norm, endpoint: owned(endpoint) },
        );
        assert(s.settings().registrations =~= before.push(
            (upper_ascii_text(method@), rooted(path@), endpoint@),
        ));
        s
    }

    /// Register `endpoint` for every method (`ANY`).
    pub fn register_any(self, path: &str, endpoint: &str) -> (r: Self)
        ensures
            r.settings() == (InboundSettingsView {
                registrations: self.settings().registrations.push(
                    (upper_ascii_text("ANY"@), rooted(path@), endpoint@),
                ),
                ..self.settings()
            }),
    {
        self.register("ANY", path, endpoint)
    }

    pub fn id(self, id: &str) -> (r: Self)
        ensures
            r.settings() == (InboundSettingsView { id: Some(id@), ..self.settings() }),
    {
        HttpInboundBuilder { id: Some(owned(id)), ..self }
    }

    pub fn host(self, host: &str) -> (r: Self)
        ensures
            r.settings() == (InboundSettingsView { host: host@, ..self.settings() }),
    {
        HttpInboundBuilder { host: owned(host), ..self }
    }

    pub fn port(self, port: u16) -> (r: Self)
        ensures
            r.settings() == (InboundSettingsView { port, ..self.settings() }),
    {
        HttpInboundBuilder { port, ..self }
    }

    pub fn base_path(self, path: &str) -> (r: Self)
        ensures
            r.settings() == (InboundSettingsView { base_path: path@, ..self.settings() }),
    {
        HttpInboundBuilder { base_path: owned(path), ..self }
    }

    /// Publish requests on the channel with id `channel`.
    pub fn channel(self, channel: &str) -> (r: Self)
        ensures
            r.settings() == (InboundSettingsView { channel: Some(channel@), ..self.settings() }),
    {
        HttpInboundBuilder { channel: Some(owned(channel)), ..self }
    }

    /// Read replies from the channel with id `channel`.
    pub fn reply_channel(self, channel: &str) -> (r: Self)
        ensures
            r.settings() == (InboundSettingsView { reply_channel: Some(channel@), ..self.settings() }),
    {
        HttpInboundBuilder { reply_channel: Some(owned(channel)), ..self }
    }

    pub fn mep(self, mep: Mep) -> (r: Self)
        ensures
            r.settings() == (InboundSettingsView { mep, ..self.settings() }),
    {
        HttpInboundBuilder { mep, ..self }
    }

    /// Answer 202 at once and dispatch in the background.
    pub fn in_only_202(self) -> (r: Self)
        ensures
            r.settings() == (InboundSettingsView { mep: Mep::InOnly202, ..self.settings() }),
    {
        self.mep(Mep::InOnly202)
    }

    /// The adapter. The channel must be set. With a reply channel the
    /// pattern is request/reply whatever was chosen; an empty base path
    /// means `/`; without an id it is `http-inbound:host:port`; the
    /// registrations are applied in order.
    pub fn build(self) -> (r: HttpInboundAdapter)
        requires
            self.settings().channel is Some,
        ensures
            r@.host == self.settings().host,
            r@.port == self.settings().port,
            r@.base_path == base_or_root(self.settings().base_path),
            r@.channel == self.settings().channel->0,
            r@.reply_channel == self.settings().reply_channel,
            r@.mep == if self.settings().reply_channel is Some {
                Mep::InOut
            } else {
                self.settings().mep
            },
            r@.id == match self.settings().id {
                Some(i) => i,
                None => inbound_auto_id(self.settings().host, self.settings().port),
            },
            r@.routes == self.settings().registrations.map_values(
                |t: (Seq<char>, Seq<char>, Seq<char>)| (upper_ascii_text(t.0), t.1, t.2),
            ),
    {
        let ghost st = self.settings();
        let mep = if self.reply_channel.is_some() {
            Mep::InOut
        } else {
            self.mep
        };
        let channel = match &self.channel {
            Some(c) => owned(c.as_str()),
            None => owned(""),
        };
        let reply = opt_as_str(&self.reply_channel);
        let id = opt_as_str(&self.id);
        let mut adapter = HttpInboundAdapter::new(
            self.host.as_str(),
            self.port,
            self.base_path.as_str(),
            channel.as_str(),
            reply,
            mep,
            id,
        );
        let ghost regs = st.registrations;
        let mut i: usize = 0;
        while i < self.registrations.len()
            invariant
                i <= self.registrations.len(),
                st == self.settings(),
                regs == st.registrations,
                adapter@.routes == regs.subrange(0, i as int).map_values(
                    |t: (Seq<char>, Seq<char>, Seq<char>)| (upper_ascii_text(t.0), t.1, t.2),
                ),
                adapter@.host == st.host,
                adapter@.port == st.port,
                adapter@.base_path == base_or_root(st.base_path),
                adapter@.channel == st.channel->0,
                adapter@.reply_channel == st.reply_channel,
                adapter@.mep == if st.reply_channel is Some {
                    Mep::InOut
                } else {
                    st.mep
                },
                adapter@.id == match st.id {
                    Some(x) => x,
                    None => inbound_auto_id(st.host, st.port),
                },
            decreases self.registrations.len() - i,
        {
            let e = &self.registrations[i];
            adapter.register_endpoint(e.method.as_str(), e.path.as_str(), e.endpoint.as_str());
            proof {
                assert(regs[i as int] == (e.method@, e.path@, e.endpoint@));
                assert(regs.subrange(0, i + 1).map_values(
                    |t: (Seq<char>, Seq<char>, Seq<char>)| (upper_ascii_text(t.0), t.1, t.2),
                ) =~= regs.subrange(0, i as int).map_values(
                    |t: (Seq<char>, Seq<char>, Seq<char>)| (upper_ascii_text(t.0), t.1, t.2),
                ).push((upper_ascii_text(e.method@), e.path@, e.endpoint@)));
            }
            i = i + 1;
        }
        assert(regs.subrange(0, self.registrations.len() as int) =~= regs);
        adapter
    }
}

} // verus!
