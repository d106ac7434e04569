//! Endpoints: minimal first-in first-out inboxes of exchanges, optionally
//! stamping each exchange with where it came from.
use vstd::prelude::*;
use crate::channel::Channel;
use crate::error::Result;
use crate::message::{Exchange, ExchangeView, Message, MessageView, new_uuid};
use crate::spec::common::{opt_as_str, opt_string_view};
use crate::text::{concat2, owned};

use std::collections::VecDeque;

verus! {

/// `h` with `k` set to `v` unless `k` is already present.
pub open spec fn set_if_absent(
    h: Map<Seq<char>, Seq<char>>,
    k: Seq<char>,
    v: Seq<char>,
) -> Map<Seq<char>, Seq<char>> {
    if h.contains_key(k) {
        h
    } else {
        h.insert(k, v)
    }
}

/// Set header `k` to `v` unless it is already present.
pub fn set_header_if_absent(msg: &mut Message, k: &str, v: &str)
    ensures
        final(msg)@.payload == old(msg)@.payload,
        final(msg)@.headers == set_if_absent(old(msg)@.headers, k@, v@),
{
    if msg.header(k).is_none() {
        msg.set_header(k, v);
    }
}

/// Where the exchanges entering an endpoint come from.
#[derive(Debug)]
pub enum EndpointSource {
    Http { adapter_id: String, method: String, path: String },
    Channel { channel_id: String },
}

pub enum EndpointSourceView {
    Http { adapter_id: Seq<char>, method: Seq<char>, path: Seq<char> },
    Channel { channel_id: Seq<char> },
}

impl View for EndpointSource {
    type V = EndpointSourceView;

    open spec fn view(&self) -> EndpointSourceView {
        match self {
            EndpointSource::Http { adapter_id, method, path } => EndpointSourceView::Http {
                adapter_id: adapter_id@,
                method: method@,
                path: path@,
            },
            EndpointSource::Channel { channel_id } => EndpointSourceView::Channel {
                channel_id: channel_id@,
            },
        }
    }
}

pub open spec fn opt_source_view(s: Option<EndpointSource>) -> Option<EndpointSourceView> {
    match s {
        Some(x) => Some(x@),
        None => None,
    }
}

/// The source headers stamped onto headers `h`; headers already present win.
pub open spec fn source_headers(
    src: EndpointSourceView,
    h: Map<Seq<char>, Seq<char>>,
) -> Map<Seq<char>, Seq<char>> {
    match src {
        EndpointSourceView::Http { adapter_id, method, path } => set_if_absent(
            set_if_absent(
                set_if_absent(set_if_absent(h, "source.kind"@, "http"@), "source.adapter_id"@, adapter_id),
                "source.http.method"@,
                method,
            ),
            "source.http.path"@,
            path,
        ),
        EndpointSourceView::Channel { channel_id } => set_if_absent(
            set_if_absent(h, "source.kind"@, "channel"@),
            "source.channel_id"@,
            channel_id,
        ),
    }
}

/// `ex` with the source headers stamped on its inbound message.
pub open spec fn stamped(src: EndpointSourceView, ex: ExchangeView) -> ExchangeView {
    ExchangeView {
        in_msg: MessageView { headers: source_headers(src, ex.in_msg.headers), ..ex.in_msg },
        ..ex
    }
}

/// `ex` stamped with the source, when there is one.
pub open spec fn stamped_opt(src: Option<EndpointSourceView>, ex: ExchangeView) -> ExchangeView {
    match src {
        Some(s) => stamped(s, ex),
        None => ex,
    }
}

/// Stamping a source never changes a header that is already set, and
/// stamping twice is the same as stamping once.
pub proof fn law_stamping_keeps_headers(src: EndpointSourceView, h: Map<Seq<char>, Seq<char>>, k: Seq<char>)
    ensures
        h.contains_key(k) ==> source_headers(src, h).contains_key(k) && source_headers(src, h)[k]
            == h[k],
        source_headers(src, source_headers(src, h)) == source_headers(src, h),
{
}

impl EndpointSource {
    /// Stamp the source onto the inbound message's headers, keeping any
    /// header that is already set.
    pub fn apply_headers(&self, exchange: &mut Exchange)
        ensures
            final(exchange)@ == stamped(self@, old(exchange)@),
    {
        match self {
            EndpointSource::Http { adapter_id, method, path } => {
                set_header_if_absent(&mut exchange.in_msg, "source.kind", "http");
                set_header_if_absent(&mut exchange.in_msg, "source.adapter_id", adapter_id.as_str());
                set_header_if_absent(&mut exchange.in_msg, "source.http.method", method.as_str());
                set_header_if_absent(&mut exchange.in_msg, "source.http.path", path.as_str());
            },
            EndpointSource::Channel { channel_id } => {
                set_header_if_absent(&mut exchange.in_msg, "source.kind", "channel");
                set_header_if_absent(&mut exchange.in_msg, "source.channel_id", channel_id.as_str());
            },
        }
    }

    /// An equal copy.
    pub fn duplicate(&self) -> (r: EndpointSource)
        ensures
            r@ == self@,
    {
        match self {
            EndpointSource::Http { adapter_id, method, path } => EndpointSource::Http {
                adapter_id: owned(adapter_id.as_str()),
                method: owned(method.as_str()),
                path: owned(path.as_str()),
            },
            EndpointSource::Channel { channel_id } => EndpointSource::Channel {
                channel_id: owned(channel_id.as_str()),
            },
        }
    }
}

/// An id of the form `endpoint:<uuid>`.
pub open spec fn is_endpoint_auto_id(id: Seq<char>) -> bool {
    id.len() == 9 + 36 && id.subrange(0, 9) == "endpoint:"@
}

fn endpoint_auto_id() -> (r: String)
    ensures
        is_endpoint_auto_id(r@),
{
    let u = new_uuid();
    let id = concat2("endpoint:", u.as_str());
    proof {
        reveal_strlit("endpoint:");
        assert(id@.subrange(0, 9) =~= "endpoint:"@);
    }
    id
}

/// Staged builder root for endpoints.
pub struct EndpointBuilder;

/// Stage selecting an in-out (send and receive) endpoint.
pub struct InOutStage;

/// Stage selecting an in-only (send only) endpoint.
pub struct InOnlyStage;

impl EndpointBuilder {
    pub fn in_out() -> (r: InOutStage) {
        InOutStage
    }

    pub fn in_only() -> (r: InOnlyStage) {
        InOnlyStage
    }
}

impl InOutStage {
    /// A builder with nothing set.
    pub fn queue(self) -> (r: InOutQueueEndpointBuilder)
        ensures
            r.settings().id is None && r.settings().source is None && r.settings().channel is None,
    {
        InOutQueueEndpointBuilder { id: None, source: None, channel: None }
    }
}

impl InOnlyStage {
    /// A builder with nothing set.
    pub fn queue(self) -> (r: InOnlyInMemoryEndpointBuilder)
        ensures
            r.settings().id is None && r.settings().source is None,
    {
        InOnlyInMemoryEndpointBuilder { id: None, source: None }
    }
}

/// Builder for an in-out in-memory endpoint.
pub struct InOutQueueEndpointBuilder {
    id: Option<String>,
    source: Option<EndpointSource>,
    channel: Option<String>,
}

/// Builder for an in-only in-memory endpoint.
pub struct InOnlyInMemoryEndpointBuilder {
    id: Option<String>,
    source: Option<EndpointSource>,
}

/// What a builder has been given so far.
pub struct EndpointSettingsView {
    pub id: Option<Seq<char>>,
    pub source: Option<EndpointSourceView>,
    pub channel: Option<Seq<char>>,
}

impl InOutQueueEndpointBuilder {
    pub closed spec fn settings(&self) -> EndpointSettingsView {
        EndpointSettingsView {
            id: opt_string_view(self.id),
            source: opt_source_view(self.source),
            channel: opt_string_view(self.channel),
        }
    }

    /// Set the endpoint id.
    pub fn id(self, id: &str) -> (r: Self)
        ensures
            r.settings() == (EndpointSettingsView { id: Some(id@), ..self.settings() }),
    {
        InOutQueueEndpointBuilder { id: Some(owned(id)), ..self }
    }

    /// Attach the endpoint to the channel with id `channel_id`.
    pub fn channel(self, channel_id: &str) -> (r: Self)
        ensures
            r.settings() == (EndpointSettingsView { channel: Some(channel_id@), ..self.settings() }),
    {
        InOutQueueEndpointBuilder { channel: Some(owned(channel_id)), ..self }
    }

    /// Set the source descriptor.
    pub fn source(self, src: EndpointSource) -> (r: Self)
        ensures
            r.settings() == (EndpointSettingsView { source: Some(src@), ..self.settings() }),
    {
        InOutQueueEndpointBuilder { source: Some(src), ..self }
    }

    /// Accepted for API symmetry; changes nothing.
    pub fn source_http(self, method: &str, path: &str) -> (r: Self)
        ensures
            r.settings() == self.settings(),
    {
        self
    }

    /// Take exchanges from `channel`: records it as the source and as the
    /// endpoint's channel.
    pub fn source_channel(self, channel: &Channel) -> (r: Self)
        ensures
            r.settings() == (EndpointSettingsView {
                source: Some(EndpointSourceView::Channel { channel_id: channel.spec_id() }),
                channel: Some(channel.spec_id()),
                ..self.settings()
            }),
    {
        let cid = owned(channel.id());
        InOutQueueEndpointBuilder {
            source: Some(EndpointSource::Channel { channel_id: cid }),
            channel: Some(owned(channel.id())),
            ..self
        }
    }

    /// The endpoint: the given id or `endpoint:<uuid>`, empty inbox.
    pub fn build(self) -> (r: InMemoryEndpoint)
        ensures
            r@.source == self.settings().source,
            r@.channel == self.settings().channel,
            r@.inbox.len() == 0,
            match self.settings().id {
                Some(i) => r@.id == i,
                None => is_endpoint_auto_id(r@.id),
            },
    {
        let id = match self.id {
            Some(i) => i,
            None => endpoint_auto_id(),
        };
        let ep = InMemoryEndpoint { id, inner: VecDeque::new(), source: self.source, channel: self.channel };
        assert(ep@.inbox =~= Seq::<ExchangeView>::empty());
        ep
    }
}

impl InOnlyInMemoryEndpointBuilder {
    pub closed spec fn settings(&self) -> EndpointSettingsView {
        EndpointSettingsView {
            id: opt_string_view(self.id),
            source: opt_source_view(self.source),
            channel: None,
        }
    }

    /// Set the endpoint id.
    pub fn id(self, id: &str) -> (r: Self)
        ensures
            r.settings() == (EndpointSettingsView { id: Some(id@), ..self.settings() }),
    {
        InOnlyInMemoryEndpointBuilder { id: Some(owned(id)), ..self }
    }

    /// Accepted for API symmetry; changes nothing.
    pub fn source_http(self, method: &str, path: &str) -> (r: Self)
        ensures
            r.settings() == self.settings(),
    {
        self
    }

    /// Record `channel` as the source.
    pub fn source_channel(self, channel: &Channel) -> (r: Self)
        ensures
            r.settings() == (EndpointSettingsView {
                source: Some(EndpointSourceView::Channel { channel_id: channel.spec_id() }),
                ..self.settings()
            }),
    {
        InOnlyInMemoryEndpointBuilder {
            source: Some(EndpointSource::Channel { channel_id: owned(channel.id()) }),
            ..self
        }
    }

    /// The endpoint: the given id or `endpoint:<uuid>`, empty inbox.
    pub fn build(self) -> (r: InMemoryInOnlyEndpoint)
        ensures
            r@.source == self.settings().source,
            r@.inbox.len() == 0,
            match self.settings().id {
                Some(i) => r@.id == i,
                None => is_endpoint_auto_id(r@.id),
            },
    {
        let id = match self.id {
            Some(i) => i,
            None => endpoint_auto_id(),
        };
        let ep = InMemoryInOnlyEndpoint { id, inner: VecDeque::new(), source: self.source };
        assert(ep@.inbox =~= Seq::<ExchangeView>::empty());
        ep
    }
}

/// An in-memory first-in first-out endpoint.
#[derive(Debug)]
pub struct InMemoryEndpoint {
    id: String,
    inner: VecDeque<Exchange>,
    source: Option<EndpointSource>,
    channel: Option<String>,
}

pub struct EndpointView {
    pub id: Seq<char>,
    pub inbox: Seq<ExchangeView>,
    pub source: Option<EndpointSourceView>,
    pub channel: Option<Seq<char>>,
}

impl View for InMemoryEndpoint {
    type V = EndpointView;

    closed spec fn view(&self) -> EndpointView {
        EndpointView {
            id: self.id@,
            inbox: self.inner@.map_values(|e: Exchange| e@),
            source: opt_source_view(self.source),
            channel: opt_string_view(self.channel),
        }
    }
}

impl InMemoryEndpoint {
    /// The endpoint id.
    pub fn id(&self) -> (r: &str)
        ensures
            r@ == self@.id,
    {
        self.id.as_str()
    }

    /// The source descriptor, if any.
    pub fn source(&self) -> (r: Option<&EndpointSource>)
        ensures
            match r {
                Some(s) => self@.source == Some(s@),
                None => self@.source is None,
            },
    {
        match &self.source {
            Some(s) => Some(s),
            None => None,
        }
    }

    /// The id of the attached channel, if any.
    pub fn channel(&self) -> (r: Option<&str>)
        ensures
            match r {
                Some(c) => self@.channel == Some(c@),
                None => self@.channel is None,
            },
    {
        opt_as_str(&self.channel)
    }

    /// Stamp the source (if any) and enqueue.
    pub fn send(&mut self, exchange: Exchange) -> (r: Result<()>)
        ensures
            r is Ok,
            final(self)@ == (EndpointView {
                inbox: old(self)@.inbox.push(stamped_opt(old(self)@.source, exchange@)),
                ..old(self)@
            }),
    {
        let mut ex = exchange;
        match &self.source {
            Some(src) => src.apply_headers(&mut ex),
            None => {},
        }
        self.inner.push_back(ex);
        assert(self@.inbox =~= old(self)@.inbox.push(stamped_opt(old(self)@.source, exchange@)));
        Ok(())
    }

    /// Dequeue the oldest exchange, if any.
    pub fn try_receive(&mut self) -> (r: Option<Exchange>)
        ensures
            old(self)@.inbox.len() == 0 ==> r is None && final(self)@ == old(self)@,
            old(self)@.inbox.len() > 0 ==> (r matches Some(e) && e@ == old(self)@.inbox[0]
                && final(self)@ == (EndpointView {
                inbox: old(self)@.inbox.drop_first(),
                ..old(self)@
            })),
    {
        let r = self.inner.pop_front();
        assert(self@.inbox =~= if old(self)@.inbox.len() == 0 {
            old(self)@.inbox
        } else {
            old(self)@.inbox.drop_first()
        });
        r
    }
}

/// An in-memory endpoint that accepts exchanges but never hands any out.
#[derive(Debug)]
pub struct InMemoryInOnlyEndpoint {
    id: String,
    inner: VecDeque<Exchange>,
    source: Option<EndpointSource>,
}

pub struct InOnlyEndpointView {
    pub id: Seq<char>,
    pub inbox: Seq<ExchangeView>,
    pub source: Option<EndpointSourceView>,
}

impl View for InMemoryInOnlyEndpoint {
    type V = InOnlyEndpointView;

    closed spec fn view(&self) -> InOnlyEndpointView {
        InOnlyEndpointView {
            id: self.id@,
            inbox: self.inner@.map_values(|e: Exchange| e@),
            source: opt_source_view(self.source),
        }
    }
}

impl InMemoryInOnlyEndpoint {
    /// The endpoint id.
    pub fn id(&self) -> (r: &str)
        ensures
            r@ == self@.id,
    {
        self.id.as_str()
    }

    /// Stamp the source (if any) and store.
    pub fn send(&mut self, exchange: Exchange) -> (r: Result<()>)
        ensures
            r is Ok,
            final(self)@ == (InOnlyEndpointView {
                inbox: old(self)@.inbox.push(stamped_opt(old(self)@.source, exchange@)),
                ..old(self)@
            }),
    {
        let mut ex = exchange;
        match &self.source {
            Some(src) => src.apply_headers(&mut ex),
            None => {},
        }
        self.inner.push_back(ex);
        assert(self@.inbox =~= old(self)@.inbox.push(stamped_opt(old(self)@.source, exchange@)));
        Ok(())
    }

    /// Never yields an exchange.
    pub fn try_receive(&mut self) -> (r: Option<Exchange>)
        ensures
            r is None,
            final(self)@ == old(self)@,
    {
        None
    }
}

} // verus!
