//! HTTP outbound adapter: configuration, the request it makes from an
//! exchange, and how the response becomes a dispatch result.
//!
//! The request itself is performed by the embedding program; this module
//! decides what is sent and what the answer means.
use vstd::prelude::*;
use vstd::string::StrSliceExecFns;
use crate::error::{err_view, Error, ErrorKind, ErrorView, Result};
use crate::json::{encode_json, json_encoding};
use crate::message::{Exchange, ExchangeView, Message, MessageView, Payload, PayloadView, new_uuid, uuid_v4_text};
use crate::spec::common::{opt_as_str, opt_string_view};
use crate::spec::http_outbound::{parse_url, parsed_url_scheme, url_error_text, url_read, ParsedUrl, ParsedUrlView};
use crate::text::{chars_of, concat2, concat3, decimal, decimal_chars, owned, string_of, text_eq};

verus! {

/// A known HTTP method token: one or more of the characters HTTP allows in
/// a method name.
pub open spec fn is_method_char(c: char) -> bool {
    ||| ('0' <= c && c <= '9')
    ||| ('a' <= c && c <= 'z')
    ||| ('A' <= c && c <= 'Z')
    ||| c == '!' || c == '*' || c == '+' || c == '-' || c == '.' || c == '^' || c == '_'
    ||| c == '`' || c == '|' || c == '~'
}

pub open spec fn is_method_token(m: Seq<char>) -> bool {
    m.len() > 0 && forall|i: int| 0 <= i < m.len() ==> is_method_char(#[trigger] m[i])
}

/// Calls `hyper::Method::from_bytes` on the UTF-8 bytes of `m`. Claimed:
/// it accepts exactly non-empty texts whose every character is a method
/// character (the table in `http`'s `method.rs`; any non-ASCII byte is
/// rejected).
#[verifier::external_body]
fn method_accepted(m: &str) -> (r: bool)
    ensures
        r == is_method_token(m@),
{
    hyper::Method::from_bytes(m.as_bytes()).is_ok()
}

/// The method a configured name selects: a well-formed method name is
/// used as written, anything else falls back to `POST`.
pub open spec fn method_named(m: Seq<char>) -> Seq<char> {
    if is_method_token(m) {
        m
    } else {
        "POST"@
    }
}

/// The HTTP method for a configured method name (common verbs and any
/// well-formed extension method; otherwise `POST`).
pub fn parse_http_method(m: &str) -> (r: String)
    ensures
        r@ == method_named(m@),
{
    if method_accepted(m) {
        owned(m)
    } else {
        owned("POST")
    }
}

/// Outcome of one dispatch.
#[derive(Debug)]
pub struct OutboundDispatchResult {
    /// The status was 2xx.
    pub acknowledged: bool,
    /// `HTTP <status>`.
    pub message: Option<String>,
    pub status_code: Option<u16>,
    pub body: Option<String>,
}

/// Whether a status code is a success (2xx).
pub open spec fn is_success(code: u16) -> bool {
    200 <= code && code < 300
}

impl OutboundDispatchResult {
    /// The result for a response with status `code` (whose display form is
    /// `status_text`, e.g. `200 OK`) and body `body`.
    pub fn from_response(code: u16, status_text: &str, body: String) -> (r: OutboundDispatchResult)
        ensures
            r.acknowledged == is_success(code),
            r.message matches Some(m) && m@ == "HTTP "@ + status_text@,
            r.status_code == Some(code),
            r.body matches Some(b) && b@ == body@,
    {
        OutboundDispatchResult {
            acknowledged: 200 <= code && code < 300,
            message: Some(concat2("HTTP ", status_text)),
            status_code: Some(code),
            body: Some(body),
        }
    }
}

/// Headers after a dispatch result was recorded.
pub open spec fn result_headers(
    h: Map<Seq<char>, Seq<char>>,
    status_code: Option<u16>,
    acknowledged: bool,
) -> Map<Seq<char>, Seq<char>> {
    let h1 = match status_code {
        Some(c) => h.insert("dispatch-result.status-code"@, decimal(c as nat)),
        None => h,
    };
    h1.insert(
        "dispatch-result.acknowledged"@,
        if acknowledged {
            "true"@
        } else {
            "false"@
        },
    )
}

/// The exchange forwarded after a successful dispatch: the response body
/// (if any) becomes the text payload, and the status lands in
/// `dispatch-result.*` headers.
pub fn shape_dispatch_result(exchange: Exchange, result: &OutboundDispatchResult) -> (r: Exchange)
    ensures
        r@.out_msg == exchange@.out_msg,
        r@.properties == exchange@.properties,
        r@.in_msg.payload == match result.body {
            Some(b) => PayloadView::Text(b@),
            None => exchange@.in_msg.payload,
        },
        r@.in_msg.headers == result_headers(
            exchange@.in_msg.headers,
            result.status_code,
            result.acknowledged,
        ),
{
    let mut ex = exchange;
    match &result.body {
        Some(b) => {
            ex.in_msg.payload = Payload::Text(owned(b.as_str()));
        },
        None => {},
    }
    match result.status_code {
        Some(code) => {
            let digits = decimal_chars(code as u64);
            let text = string_of(digits.as_slice());
            ex.in_msg.set_header("dispatch-result.status-code", text.as_str());
        },
        None => {},
    }
    let ack = if result.acknowledged {
        "true"
    } else {
        "false"
    };
    ex.in_msg.set_header("dispatch-result.acknowledged", ack);
    ex
}

/// The request body for a payload: its UTF-8 for text, the bytes
/// themselves, the `serde_json` encoding of a JSON value (an error there is
/// a serialization error with its text), nothing for an empty body.
pub open spec fn body_outcome(p: PayloadView, r: Result<Vec<u8>>) -> bool {
    match p {
        PayloadView::Text(s) => r matches Ok(b) && b@ == vstd::utf8::encode_utf8(s),
        PayloadView::Bytes(b) => r matches Ok(v) && v@ == b,
        PayloadView::Empty => r matches Ok(v) && v@.len() == 0,
        PayloadView::Json(j) => match json_encoding(j) {
            Ok(bytes) => r matches Ok(v) && v@ == bytes,
            Err(m) => r matches Err(e) && e@ == err_view(ErrorKind::Serialization, m),
        },
    }
}

/// The request body for a payload: UTF-8 of text, the bytes themselves,
/// JSON text of a JSON value, or nothing. A JSON value that cannot be
/// written is a serialization error.
pub fn request_body(payload: &Payload) -> (r: Result<Vec<u8>>)
    ensures
        body_outcome(payload@, r),
{
    match payload {
        Payload::Text(s) => Ok(s.as_str().as_bytes_vec()),
        Payload::Bytes(b) => {
            let c = b.clone();
            assert(c@ =~= b@);
            Ok(c)
        },
        Payload::Json(v) => match encode_json(v) {
            Ok(b) => Ok(b),
            Err(m) => Err(Error::serialization(m)),
        },
        Payload::Empty => Ok(Vec::new()),
    }
}

/// A configured HTTP outbound adapter.
#[derive(Debug)]
pub struct HttpOutboundAdapter {
    id: String,
    url: ParsedUrl,
    url_text: String,
    method: String,
    use_out_msg: bool,
    accept_invalid_certs: bool,
}

pub struct HttpOutboundAdapterView {
    pub id: Seq<char>,
    /// The URL as configured (it parsed with an http or https scheme).
    pub url: Seq<char>,
    /// The URL as `url::Url::parse` read it from `url`.
    pub parsed: ParsedUrlView,
    pub method: Seq<char>,
    pub use_out_msg: bool,
    pub accept_invalid_certs: bool,
}

impl View for HttpOutboundAdapter {
    type V = HttpOutboundAdapterView;

    closed spec fn view(&self) -> HttpOutboundAdapterView {
        HttpOutboundAdapterView {
            id: self.id@,
            url: self.url_text@,
            parsed: self.url@,
            method: self.method@,
            use_out_msg: self.use_out_msg,
            accept_invalid_certs: self.accept_invalid_certs,
        }
    }
}

/// The message a dispatch sends: the outbound message when preferred and
/// present, else the inbound one.
pub open spec fn dispatched_message(ex: ExchangeView, use_out_msg: bool) -> MessageView {
    if use_out_msg {
        match ex.out_msg {
            Some(m) => m,
            None => ex.in_msg,
        }
    } else {
        ex.in_msg
    }
}

impl HttpOutboundAdapter {
    /// A builder with nothing set.
    pub fn builder() -> (r: HttpOutboundAdapterBuilder)
        ensures
            r.settings() == (OutboundSettingsView {
                id: None,
                url: None,
                method: None,
                use_out_msg: None,
                accept_invalid_certs: false,
            }),
    {
        HttpOutboundAdapterBuilder {
            id: None,
            url: None,
            method: None,
            use_out_msg: None,
            accept_invalid_certs: false,
        }
    }

    /// The adapter id.
    pub fn id(&self) -> (r: &str)
        ensures
            r@ == self@.id,
    {
        self.id.as_str()
    }

    /// The parsed target URL, where requests are sent.
    pub fn url(&self) -> (r: &ParsedUrl)
        ensures
            r@ == self@.parsed,
    {
        &self.url
    }

    /// The target URL as configured.
    pub fn url_text(&self) -> (r: &str)
        ensures
            r@ == self@.url,
    {
        self.url_text.as_str()
    }

    /// The HTTP method (default `POST`).
    pub fn method(&self) -> (r: &str)
        ensures
            r@ == self@.method,
    {
        self.method.as_str()
    }

    /// Whether the outbound message is preferred.
    pub fn use_out_msg(&self) -> (r: bool)
        ensures
            r == self@.use_out_msg,
    {
        self.use_out_msg
    }

    /// Whether certificate validation is switched off (tests only).
    pub fn accepts_invalid_certs(&self) -> (r: bool)
        ensures
            r == self@.accept_invalid_certs,
    {
        self.accept_invalid_certs
    }

    /// The message to send for `exchange`.
    pub fn dispatch_message<'a>(&self, exchange: &'a Exchange) -> (r: &'a Message)
        ensures
            r@ == dispatched_message(exchange@, self@.use_out_msg),
    {
        if self.use_out_msg {
            match &exchange.out_msg {
                Some(m) => m,
                None => &exchange.in_msg,
            }
        } else {
            &exchange.in_msg
        }
    }

    /// The request body for `exchange`.
    pub fn dispatch_body(&self, exchange: &Exchange) -> (r: Result<Vec<u8>>)
        ensures
            body_outcome(dispatched_message(exchange@, self@.use_out_msg).payload, r),
    {
        let m = self.dispatch_message(exchange);
        request_body(&m.payload)
    }
}

/// Builder for [`HttpOutboundAdapter`].
pub struct HttpOutboundAdapterBuilder {
    id: Option<String>,
    url: Option<String>,
    method: Option<String>,
    use_out_msg: Option<bool>,
    accept_invalid_certs: bool,
}

pub struct OutboundSettingsView {
    pub id: Option<Seq<char>>,
    pub url: Option<Seq<char>>,
    pub method: Option<Seq<char>>,
    pub use_out_msg: Option<bool>,
    pub accept_invalid_certs: bool,
}

/// Why a URL cannot be used, if it cannot.
pub open spec fn url_problem(raw: Seq<char>) -> Option<Seq<char>> {
    match parsed_url_scheme(raw) {
        None => Some("invalid url '"@ + raw + "': "@ + url_error_text(raw)),
        Some(s) => if s == "http"@ || s == "https"@ {
            None
        } else {
            Some("unsupported url scheme '"@ + s + "' (expected http or https)"@)
        },
    }
}

impl HttpOutboundAdapterBuilder {
    pub closed spec fn settings(&self) -> OutboundSettingsView {
        OutboundSettingsView {
            id: opt_string_view(self.id),
            url: opt_string_view(self.url),
            method: opt_string_view(self.method),
            use_out_msg: self.use_out_msg,
            accept_invalid_certs: self.accept_invalid_certs,
        }
    }

    pub fn id(self, v: &str) -> (r: Self)
        ensures
            r.settings() == (OutboundSettingsView { id: Some(v@), ..self.settings() }),
    {
        HttpOutboundAdapterBuilder { id: Some(owned(v)), ..self }
    }

    /// The full target URL, scheme included.
    pub fn url(self, v: &str) -> (r: Self)
        ensures
            r.settings() == (OutboundSettingsView { url: Some(v@), ..self.settings() }),
    {
        HttpOutboundAdapterBuilder { url: Some(owned(v)), ..self }
    }

    pub fn method(self, m: &str) -> (r: Self)
        ensures
            r.settings() == (OutboundSettingsView { method: Some(m@), ..self.settings() }),
    {
        HttpOutboundAdapterBuilder { method: Some(owned(m)), ..self }
    }

    pub fn use_out_msg(self, flag: bool) -> (r: Self)
        ensures
            r.settings() == (OutboundSettingsView { use_out_msg: Some(flag), ..self.settings() }),
    {
        HttpOutboundAdapterBuilder { use_out_msg: Some(flag), ..self }
    }

    /// Switch off certificate validation. For tests against self-signed
    /// servers only.
    pub fn dangerous_accept_invalid_certs(self, flag: bool) -> (r: Self)
        ensures
            r.settings() == (OutboundSettingsView { accept_invalid_certs: flag, ..self.settings() }),
    {
        HttpOutboundAdapterBuilder { accept_invalid_certs: flag, ..self }
    }

    /// The adapter. A URL is required and must parse with an `http` or
    /// `https` scheme; the id defaults to a random UUID, the method to
    /// `POST`, and the outbound message is preferred unless disabled.
    pub fn build(self) -> (r: Result<HttpOutboundAdapter>)
        ensures
            match self.settings().url {
                None => r matches Err(e) && e@ == err_view(ErrorKind::Other, "url required"@),
                Some(u) => match url_problem(u) {
                    Some(m) => r matches Err(e) && e@ == err_view(ErrorKind::Other, m),
                    None => r matches Ok(a) && a@.url == u && url_read(u) == Ok::<
                        ParsedUrlView,
                        Seq<char>,
                    >(a@.parsed) && a@.method == match self.settings().method {
                        Some(m) => m,
                        None => "POST"@,
                    } && a@.use_out_msg == match self.settings().use_out_msg {
                        Some(b) => b,
                        None => true,
                    } && a@.accept_invalid_certs == self.settings().accept_invalid_certs
                        && match self.settings().id {
                        Some(i) => a@.id == i,
                        None => uuid_v4_text(a@.id),
                    },
                },
            },
    {
        let raw = match self.url {
            Some(u) => u,
            None => {
                return Err(Error::other(owned("url required")));
            },
        };
        let url = match parse_url(raw.as_str()) {
            Ok(u) => {
                if !text_eq(u.scheme(), "http") && !text_eq(u.scheme(), "https") {
                    let m = concat3("unsupported url scheme '", u.scheme(), "' (expected http or https)");
                    return Err(Error::other(m));
                }
                u
            },
            Err(e) => {
                let m = concat3("invalid url '", raw.as_str(), "': ");
                return Err(Error::other(concat2(m.as_str(), e.as_str())));
            },
        };
        let id = match self.id {
            Some(i) => i,
            None => new_uuid(),
        };
        let method = match self.method {
            Some(m) => m,
            None => owned("POST"),
        };
        let use_out_msg = match self.use_out_msg {
            Some(b) => b,
            None => true,
        };
        Ok(HttpOutboundAdapter {
            id,
            url,
            url_text: raw,
            method,
            use_out_msg,
            accept_invalid_certs: self.accept_invalid_certs,
        })
    }
}

} // verus!
