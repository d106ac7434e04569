//! The assembled runtime: channels and components built from a
//! specification, lookups over them, and the wiring plans that say which
//! component listens on which channel.
use vstd::prelude::*;
use crate::channel::{Channel, ChannelKind, DirectChannel, QueueChannel};
use crate::http::inbound::{HttpInboundAdapter, HttpInboundAdapterView};
use crate::http::outbound::{HttpOutboundAdapter, HttpOutboundAdapterView};
use crate::patterns::filter::{Filter, FilterView};
use crate::runtime::builders::{ServiceProcessor, ServiceProcessorView};
use crate::spec::common::{opt_as_str, opt_str_view, opt_string_view};
use crate::spec::service::{ServiceActivatorSpec, ServiceActivatorSpecView};
use crate::text::{owned, text_eq};

verus! {

// ---------------------------------------------------------------------------
// Activations
// ---------------------------------------------------------------------------

/// A filter bound to the channel it reads (`from`) and, optionally, the
/// channel accepted exchanges go to (`to`).
#[derive(Debug)]
pub struct FilterActivation {
    filter: Filter,
    from: String,
    to: Option<String>,
    id: String,
}

pub struct FilterActivationView {
    pub filter: FilterView,
    pub from: Seq<char>,
    pub to: Option<Seq<char>>,
    pub id: Seq<char>,
}

impl View for FilterActivation {
    type V = FilterActivationView;

    closed spec fn view(&self) -> FilterActivationView {
        FilterActivationView {
            filter: self.filter@,
            from: self.from@,
            to: opt_string_view(self.to),
            id: self.id@,
        }
    }
}

impl FilterActivation {
    pub fn new(filter: Filter, from: &str, to: Option<&str>, id: &str) -> (r: FilterActivation)
        ensures
            r@ == (FilterActivationView { filter: filter@, from: from@, to: opt_str_view(to), id: id@ }),
    {
        let t = match to {
            Some(x) => Some(owned(x)),
            None => None,
        };
        FilterActivation { filter, from: owned(from), to: t, id: owned(id) }
    }

    pub fn filter(&self) -> (r: &Filter)
        ensures
            r@ == self@.filter,
    {
        &self.filter
    }

    pub fn from(&self) -> (r: &str)
        ensures
            r@ == self@.from,
    {
        self.from.as_str()
    }

    pub fn to(&self) -> (r: Option<&str>)
        ensures
            opt_str_view(r) == self@.to,
    {
        opt_as_str(&self.to)
    }

    pub fn id(&self) -> (r: &str)
        ensures
            r@ == self@.id,
    {
        self.id.as_str()
    }
}

/// An HTTP outbound adapter with the channel it is fed from (if any) and
/// the channel its results go to (if any).
#[derive(Debug)]
pub struct HttpOutboundAdapterActivation {
    adapter: HttpOutboundAdapter,
    from: Option<String>,
    to: Option<String>,
    id: String,
}

pub struct OutboundActivationView {
    pub adapter: HttpOutboundAdapterView,
    pub from: Option<Seq<char>>,
    pub to: Option<Seq<char>>,
    pub id: Seq<char>,
}

impl View for HttpOutboundAdapterActivation {
    type V = OutboundActivationView;

    closed spec fn view(&self) -> OutboundActivationView {
        OutboundActivationView {
            adapter: self.adapter@,
            from: opt_string_view(self.from),
            to: opt_string_view(self.to),
            id: self.id@,
        }
    }
}

impl HttpOutboundAdapterActivation {
    pub fn new(adapter: HttpOutboundAdapter, from: Option<&str>, to: Option<&str>, id: &str) -> (r:
        HttpOutboundAdapterActivation)
        ensures
            r@ == (OutboundActivationView {
                adapter: adapter@,
                from: opt_str_view(from),
                to: opt_str_view(to),
                id: id@,
            }),
    {
        let f = match from {
            Some(x) => Some(owned(x)),
            None => None,
        };
        let t = match to {
            Some(x) => Some(owned(x)),
            None => None,
        };
        HttpOutboundAdapterActivation { adapter, from: f, to: t, id: owned(id) }
    }

    pub fn adapter(&self) -> (r: &HttpOutboundAdapter)
        ensures
            r@ == self@.adapter,
    {
        &self.adapter
    }

    pub fn from(&self) -> (r: Option<&str>)
        ensures
            opt_str_view(r) == self@.from,
    {
        opt_as_str(&self.from)
    }

    pub fn to(&self) -> (r: Option<&str>)
        ensures
            opt_str_view(r) == self@.to,
    {
        opt_as_str(&self.to)
    }

    pub fn id(&self) -> (r: &str)
        ensures
            r@ == self@.id,
    {
        self.id.as_str()
    }
}

/// A service activator's declaration, and whether service logic has been
/// bound to it.
#[derive(Debug)]
pub struct ServiceActivatorProcessor {
    activator: ServiceActivatorSpec,
    bound: bool,
}

pub struct ServiceActivatorProcessorView {
    pub activator: ServiceActivatorSpecView,
    pub bound: bool,
}

impl View for ServiceActivatorProcessor {
    type V = ServiceActivatorProcessorView;

    closed spec fn view(&self) -> ServiceActivatorProcessorView {
        ServiceActivatorProcessorView { activator: self.activator@, bound: self.bound }
    }
}

/// A processor after one step: a binding (`bind`), or a query, which
/// changes nothing.
pub open spec fn binding_step(p: ServiceActivatorProcessorView, bind: bool) -> ServiceActivatorProcessorView {
    if bind {
        ServiceActivatorProcessorView { bound: true, ..p }
    } else {
        p
    }
}

/// A processor after the steps `binds`, in order.
pub open spec fn after_steps(p: ServiceActivatorProcessorView, binds: Seq<bool>) -> ServiceActivatorProcessorView
    decreases binds.len(),
{
    if binds.len() == 0 {
        p
    } else {
        binding_step(after_steps(p, binds.drop_last()), binds.last())
    }
}

/// A processor reports a service exactly when one has been bound: a new
/// processor reports none, and after any steps it reports one if and only
/// if it had one or some step bound one; its declaration never changes.
pub proof fn law_binding_sticks(p: ServiceActivatorProcessorView, binds: Seq<bool>)
    ensures
        after_steps(p, binds).bound == (p.bound || binds.contains(true)),
        after_steps(p, binds).activator == p.activator,
    decreases binds.len(),
{
    if binds.len() > 0 {
        let t = binds.drop_last();
        law_binding_sticks(p, t);
        if t.contains(true) {
            let i = choose|i: int| 0 <= i < t.len() && t[i] == true;
            assert(binds[i] == true);
        }
        if binds.contains(true) && !binds.last() {
            let i = choose|i: int| 0 <= i < binds.len() && binds[i] == true;
            assert(i != binds.len() - 1);
            assert(t[i] == true);
        }
        if binds.last() {
            assert(binds[binds.len() - 1] == true);
        }
    }
}

impl ServiceActivatorProcessor {
    /// No service bound yet.
    pub fn new(activator: ServiceActivatorSpec) -> (r: ServiceActivatorProcessor)
        ensures
            r@ == (ServiceActivatorProcessorView { activator: activator@, bound: false }),
    {
        ServiceActivatorProcessor { activator, bound: false }
    }

    /// The activator id, or empty when it has none.
    pub fn id(&self) -> (r: &str)
        ensures
            r@ == match self@.activator.id {
                Some(i) => i,
                None => Seq::<char>::empty(),
            },
    {
        match self.activator.id() {
            Some(i) => i,
            None => {
                proof {
                    reveal_strlit("");
                }
                ""
            },
        }
    }

    pub fn from(&self) -> (r: &str)
        ensures
            r@ == self@.activator.from,
    {
        self.activator.from()
    }

    pub fn to(&self) -> (r: &str)
        ensures
            r@ == self@.activator.to,
    {
        self.activator.to()
    }

    pub fn ref_name(&self) -> (r: &str)
        ensures
            r@ == self@.activator.ref_name,
    {
        self.activator.ref_name()
    }

    /// Whether service logic has been bound.
    pub fn has_service(&self) -> (r: bool)
        ensures
            r == self@.bound,
    {
        self.bound
    }

    /// Record that service logic is now bound (the program subscribes it
    /// to the `from` channel and forwards its results to `to`).
    pub fn bind_service(&mut self)
        ensures
            final(self)@ == binding_step(old(self)@, true),
    {
        self.bound = true;
    }
}

// ---------------------------------------------------------------------------
// The runtime
// ---------------------------------------------------------------------------

/// The components of a runtime.
#[derive(Debug)]
pub struct AlloraRuntime {
    channels: Vec<Channel>,
    filters: Vec<FilterActivation>,
    services: Vec<ServiceProcessor>,
    service_activator_processors: Vec<ServiceActivatorProcessor>,
    http_inbound_adapters: Vec<HttpInboundAdapter>,
    http_outbound_adapters: Vec<HttpOutboundAdapterActivation>,
}

pub struct AlloraRuntimeView {
    /// (id, kind) of each channel, in order.
    pub channels: Seq<(Seq<char>, ChannelKind)>,
    pub filters: Seq<FilterActivationView>,
    pub services: Seq<ServiceProcessorView>,
    pub service_processors: Seq<ServiceActivatorProcessorView>,
    pub http_inbound_adapters: Seq<HttpInboundAdapterView>,
    pub http_outbound_adapters: Seq<OutboundActivationView>,
}

pub open spec fn channel_entries(cs: Seq<Channel>) -> Seq<(Seq<char>, ChannelKind)> {
    cs.map_values(|c: Channel| (c.spec_id(), c.spec_kind()))
}

impl View for AlloraRuntime {
    type V = AlloraRuntimeView;

    closed spec fn view(&self) -> AlloraRuntimeView {
        AlloraRuntimeView {
            channels: channel_entries(self.channels@),
            filters: self.filters@.map_values(|f: FilterActivation| f@),
            services: self.services@.map_values(|s: ServiceProcessor| s@),
            service_processors: self.service_activator_processors@.map_values(
                |p: ServiceActivatorProcessor| p@,
            ),
            http_inbound_adapters: self.http_inbound_adapters@.map_values(
                |a: HttpInboundAdapter| a@,
            ),
            http_outbound_adapters: self.http_outbound_adapters@.map_values(
                |a: HttpOutboundAdapterActivation| a@,
            ),
        }
    }
}

/// The processor's id (empty when it has none) is `id`.
pub open spec fn has_id(p: ServiceActivatorProcessorView, id: Seq<char>) -> bool {
    match p.activator.id {
        Some(x) => x == id,
        None => id.len() == 0,
    }
}

/// Position of the first channel with id `id`.
pub open spec fn channel_index(chs: Seq<(Seq<char>, ChannelKind)>, id: Seq<char>, i: int) -> Option<
    int,
>
    decreases chs.len() - i,
{
    if i < 0 || i >= chs.len() {
        None
    } else if chs[i].0 == id {
        Some(i)
    } else {
        channel_index(chs, id, i + 1)
    }
}

/// Kind of the first channel with id `id`, if any.
pub open spec fn channel_kind_of(chs: Seq<(Seq<char>, ChannelKind)>, id: Seq<char>) -> Option<ChannelKind> {
    match channel_index(chs, id, 0) {
        Some(i) => Some(chs[i].1),
        None => None,
    }
}

pub proof fn lemma_channel_index(chs: Seq<(Seq<char>, ChannelKind)>, id: Seq<char>, i: int)
    requires
        0 <= i,
    ensures
        match channel_index(chs, id, i) {
            Some(k) => i <= k < chs.len() && chs[k].0 == id && forall|m: int|
                i <= m < k ==> (#[trigger] chs[m]).0 != id,
            None => forall|m: int| i <= m < chs.len() ==> (#[trigger] chs[m]).0 != id,
        },
    decreases chs.len() - i,
{
    if i < chs.len() && chs[i].0 != id {
        lemma_channel_index(chs, id, i + 1);
    }
}

impl AlloraRuntime {
    /// The channels themselves, in order; `self@.channels` holds their ids
    /// and kinds ([`AlloraRuntime::lemma_stored_channels`]).
    pub closed spec fn stored_channels(&self) -> Seq<Channel> {
        self.channels@
    }

    /// The ids and kinds in the view are those of the stored channels.
    pub proof fn lemma_stored_channels(&self)
        ensures
            channel_entries(self.stored_channels()) == self@.channels,
    {
    }

    /// A runtime with `channels` and nothing else.
    pub fn new(channels: Vec<Channel>) -> (r: AlloraRuntime)
        ensures
            r.stored_channels() == channels@,
            r@.channels == channel_entries(channels@),
            r@.filters.len() == 0 && r@.services.len() == 0 && r@.service_processors.len() == 0
                && r@.http_inbound_adapters.len() == 0 && r@.http_outbound_adapters.len() == 0,
    {
        AlloraRuntime {
            channels,
            filters: Vec::new(),
            services: Vec::new(),
            service_activator_processors: Vec::new(),
            http_inbound_adapters: Vec::new(),
            http_outbound_adapters: Vec::new(),
        }
    }

    pub fn with_filters(self, filters: Vec<FilterActivation>) -> (r: AlloraRuntime)
        ensures
            r.stored_channels() == self.stored_channels(),
            r@ == (AlloraRuntimeView {
                filters: filters@.map_values(|f: FilterActivation| f@),
                ..self@
            }),
    {
        AlloraRuntime { filters, ..self }
    }

    pub fn with_services(self, services: Vec<ServiceProcessor>) -> (r: AlloraRuntime)
        ensures
            r.stored_channels() == self.stored_channels(),
            r@ == (AlloraRuntimeView {
                services: services@.map_values(|s: ServiceProcessor| s@),
                ..self@
            }),
    {
        AlloraRuntime { services, ..self }
    }

    pub fn with_service_processors(self, procs: Vec<ServiceActivatorProcessor>) -> (r: AlloraRuntime)
        ensures
            r.stored_channels() == self.stored_channels(),
            r@ == (AlloraRuntimeView {
                service_processors: procs@.map_values(|p: ServiceActivatorProcessor| p@),
                ..self@
            }),
    {
        AlloraRuntime { service_activator_processors: procs, ..self }
    }

    pub fn with_http_inbound_adapters(self, adapters: Vec<HttpInboundAdapter>) -> (r: AlloraRuntime)
        ensures
            r.stored_channels() == self.stored_channels(),
            r@ == (AlloraRuntimeView {
                http_inbound_adapters: adapters@.map_values(|a: HttpInboundAdapter| a@),
                ..self@
            }),
    {
        AlloraRuntime { http_inbound_adapters: adapters, ..self }
    }

    pub fn with_http_outbound_adapters(self, adapters: Vec<HttpOutboundAdapterActivation>) -> (r:
        AlloraRuntime)
        ensures
            r.stored_channels() == self.stored_channels(),
            r@ == (AlloraRuntimeView {
                http_outbound_adapters: adapters@.map_values(|a: HttpOutboundAdapterActivation| a@),
                ..self@
            }),
    {
        AlloraRuntime { http_outbound_adapters: adapters, ..self }
    }

    /// The channels, in order.
    pub fn channels(&self) -> (r: &[Channel])
        ensures
            r@ == self.stored_channels(),
            channel_entries(r@) == self@.channels,
    {
        self.channels.as_slice()
    }

    /// The channels, in order.
    pub fn channels_slice(&self) -> (r: &[Channel])
        ensures
            r@ == self.stored_channels(),
            channel_entries(r@) == self@.channels,
    {
        self.channels.as_slice()
    }

    /// The ids of the channels, in order.
    pub fn channel_ids(&self) -> (r: Vec<String>)
        ensures
            r@.map_values(|s: String| s@) == self@.channels.map_values(
                |e: (Seq<char>, ChannelKind)| e.0,
            ),
    {
        let mut out: Vec<String> = Vec::new();
        let mut i: usize = 0;
        while i < self.channels.len()
            invariant
                i <= self.channels.len(),
                out.len() == i,
                forall|k: int| 0 <= k < i ==> (#[trigger] out@[k])@ == self.channels@[k].spec_id(),
            decreases self.channels.len() - i,
        {
            out.push(owned(self.channels[i].id()));
            i = i + 1;
        }
        assert(out@.map_values(|s: String| s@) =~= self@.channels.map_values(
            |e: (Seq<char>, ChannelKind)| e.0,
        ));
        out
    }

    pub fn filters(&self) -> (r: &[FilterActivation])
        ensures
            r@.map_values(|f: FilterActivation| f@) == self@.filters,
    {
        self.filters.as_slice()
    }

    pub fn services(&self) -> (r: &[ServiceProcessor])
        ensures
            r@.map_values(|s: ServiceProcessor| s@) == self@.services,
    {
        self.services.as_slice()
    }

    pub fn into_channels(self) -> (r: Vec<Channel>)
        ensures
            r@ == self.stored_channels(),
            channel_entries(r@) == self@.channels,
    {
        self.channels
    }

    pub fn into_filters(self) -> (r: Vec<FilterActivation>)
        ensures
            r@.map_values(|f: FilterActivation| f@) == self@.filters,
    {
        self.filters
    }

    pub fn into_services(self) -> (r: Vec<ServiceProcessor>)
        ensures
            r@.map_values(|s: ServiceProcessor| s@) == self@.services,
    {
        self.services
    }

    fn find_channel(&self, id: &str) -> (r: Option<usize>)
        ensures
            match r {
                Some(i) => i < self.channels.len() && channel_index(self@.channels, id@, 0) == Some(
                    i as int,
                ) && self@.channels[i as int] == (self.channels@[i as int].spec_id(),
                    self.channels@[i as int].spec_kind()),
                None => channel_index(self@.channels, id@, 0) is None,
            },
    {
        let ghost chs = self@.channels;
        let mut i: usize = 0;
        while i < self.channels.len()
            invariant
                i <= self.channels.len(),
                chs == self@.channels,
                channel_index(chs, id@, 0) == channel_index(chs, id@, i as int),
            decreases self.channels.len() - i,
        {
            assert(chs[i as int].0 == self.channels@[i as int].spec_id());
            if text_eq(self.channels[i].id(), id) {
                return Some(i);
            }
            i = i + 1;
        }
        None
    }

    /// The first channel with id `id`.
    pub fn channel_by_id(&self, id: &str) -> (r: Option<&Channel>)
        ensures
            match channel_index(self@.channels, id@, 0) {
                Some(i) => r matches Some(c) && *c == self.stored_channels()[i] && (c.spec_id(), c.spec_kind())
                    == self@.channels[i],
                None => r is None,
            },
    {
        match self.find_channel(id) {
            Some(i) => Some(&self.channels[i]),
            None => None,
        }
    }

    /// The first channel with id `id` (shared handle form).
    pub fn channel_ref_by_id(&self, id: &str) -> (r: Option<&Channel>)
        ensures
            match channel_index(self@.channels, id@, 0) {
                Some(i) => r matches Some(c) && *c == self.stored_channels()[i] && (c.spec_id(), c.spec_kind())
                    == self@.channels[i],
                None => r is None,
            },
    {
        self.channel_by_id(id)
    }

    /// The first channel with id `id`, when it is a queue channel.
    pub fn queue_channel(&self, id: &str) -> (r: Option<&QueueChannel>)
        ensures
            r is Some <==> channel_kind_of(self@.channels, id@) == Some(ChannelKind::Queue),
            r matches Some(q) ==> q@.id == id@ && self.stored_channels()[channel_index(
                self@.channels,
                id@,
                0,
            )->0] == Channel::Queue(*q),
    {
        proof {
            lemma_channel_index(self@.channels, id@, 0);
        }
        match self.find_channel(id) {
            Some(i) => match &self.channels[i] {
                Channel::Queue(q) => Some(q),
                Channel::Direct(_) => None,
            },
            None => None,
        }
    }

    /// The first channel with id `id`, when it is a direct channel.
    pub fn direct_channel(&self, id: &str) -> (r: Option<&DirectChannel>)
        ensures
            r is Some <==> channel_kind_of(self@.channels, id@) == Some(ChannelKind::Direct),
            r matches Some(d) ==> d.spec_id() == id@ && self.stored_channels()[channel_index(
                self@.channels,
                id@,
                0,
            )->0] == Channel::Direct(*d),
    {
        proof {
            lemma_channel_index(self@.channels, id@, 0);
        }
        match self.find_channel(id) {
            Some(i) => match &self.channels[i] {
                Channel::Direct(d) => Some(d),
                Channel::Queue(_) => None,
            },
            None => None,
        }
    }

    /// Whether the first channel with id `id` has kind `kind`.
    pub fn channel_is(&self, id: &str, kind: ChannelKind) -> (r: bool)
        ensures
            r == (channel_kind_of(self@.channels, id@) == Some(kind)),
    {
        match self.find_channel(id) {
            Some(i) => self.channels[i].kind() == kind,
            None => false,
        }
    }

    pub fn channel_count(&self) -> (r: usize)
        ensures
            r == self@.channels.len(),
    {
        self.channels.len()
    }

    pub fn filter_count(&self) -> (r: usize)
        ensures
            r == self@.filters.len(),
    {
        self.filters.len()
    }

    pub fn service_count(&self) -> (r: usize)
        ensures
            r == self@.services.len(),
    {
        self.services.len()
    }

    pub fn service_processor_count(&self) -> (r: usize)
        ensures
            r == self@.service_processors.len(),
    {
        self.service_activator_processors.len()
    }

    pub fn service_activator_processors(&self) -> (r: &[ServiceActivatorProcessor])
        ensures
            r@.map_values(|p: ServiceActivatorProcessor| p@) == self@.service_processors,
    {
        self.service_activator_processors.as_slice()
    }

    /// Position of the first service activator processor with id `id`.
    pub fn service_activator_processor_index(&self, id: &str) -> (r: Option<usize>)
        ensures
            match r {
                Some(i) => i < self@.service_processors.len() && has_id(
                    self@.service_processors[i as int],
                    id@,
                ),
                None => forall|k: int|
                    0 <= k < self@.service_processors.len() ==> !has_id(
                        #[trigger] self@.service_processors[k],
                        id@,
                    ),
            },
    {
        let mut i: usize = 0;
        while i < self.service_activator_processors.len()
            invariant
                i <= self.service_activator_processors.len(),
                forall|k: int| 0 <= k < i ==> !has_id(#[trigger] self@.service_processors[k], id@),
            decreases self.service_activator_processors.len() - i,
        {
            let p = &self.service_activator_processors[i];
            assert(self@.service_processors[i as int] == p@);
            if text_eq(p.id(), id) {
                return Some(i);
            }
            proof {
                if id@.len() == 0 {
                    assert(id@ =~= Seq::<char>::empty());
                }
            }
            i = i + 1;
        }
        None
    }

    /// The first service activator processor with id `id` (an activator
    /// without id has the empty id).
    pub fn service_activator_processor_by_id(&self, id: &str) -> (r: Option<&ServiceActivatorProcessor>)
        ensures
            match r {
                Some(p) => has_id(p@, id@),
                None => forall|k: int|
                    0 <= k < self@.service_processors.len() ==> !has_id(
                        #[trigger] self@.service_processors[k],
                        id@,
                    ),
            },
    {
        match self.service_activator_processor_index(id) {
            Some(i) => {
                assert(self@.service_processors[i as int] == self.service_activator_processors@[i as int]@);
                Some(&self.service_activator_processors[i])
            },
            None => None,
        }
    }

    /// Mark the processor at `index` as having its service bound.
    pub fn bind_service_at(&mut self, index: usize)
        requires
            index < old(self)@.service_processors.len(),
        ensures
            final(self).stored_channels() == old(self).stored_channels(),
            final(self)@ == (AlloraRuntimeView {
                service_processors: old(self)@.service_processors.update(
                    index as int,
                    binding_step(old(self)@.service_processors[index as int], true),
                ),
                ..old(self)@
            }),
    {
        let mut procs: Vec<ServiceActivatorProcessor> = Vec::new();
        core::mem::swap(&mut procs, &mut self.service_activator_processors);
        let mut p = procs.remove(index);
        p.bind_service();
        procs.insert(index, p);
        self.service_activator_processors = procs;
        assert(self@.service_processors =~= old(self)@.service_processors.update(
            index as int,
            ServiceActivatorProcessorView { bound: true, ..old(self)@.service_processors[index as int] },
        ));
    }

    pub fn http_inbound_adapters(&self) -> (r: &[HttpInboundAdapter])
        ensures
            r@.map_values(|a: HttpInboundAdapter| a@) == self@.http_inbound_adapters,
    {
        self.http_inbound_adapters.as_slice()
    }

    pub fn http_inbound_adapter_count(&self) -> (r: usize)
        ensures
            r == self@.http_inbound_adapters.len(),
    {
        self.http_inbound_adapters.len()
    }

    pub fn http_outbound_adapters(&self) -> (r: &[HttpOutboundAdapterActivation])
        ensures
            r@.map_values(|a: HttpOutboundAdapterActivation| a@) == self@.http_outbound_adapters,
    {
        self.http_outbound_adapters.as_slice()
    }

    pub fn http_outbound_adapter_count(&self) -> (r: usize)
        ensures
            r == self@.http_outbound_adapters.len(),
    {
        self.http_outbound_adapters.len()
    }
}

} // verus!
