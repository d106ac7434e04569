//! Wiring plans: which components the program subscribes to which
//! channels. Only direct channels are wired; a component whose channels
//! cannot be found is left out.
use vstd::prelude::*;
use crate::channel::ChannelKind;
use crate::message::Exchange;
use crate::runtime::assembly::{
    AlloraRuntime, AlloraRuntimeView, FilterActivationView, OutboundActivationView,
    ServiceActivatorProcessorView, channel_index, channel_kind_of,
};
use crate::text::{owned, text_eq};

verus! {

/// A service to subscribe on `from`, forwarding its results to `to`.
#[derive(Debug)]
pub struct ServiceWiring {
    pub from: String,
    pub to: String,
    pub ref_name: String,
}

/// Channel `id` exists.
pub open spec fn has_channel(chs: Seq<(Seq<char>, ChannelKind)>, id: Seq<char>) -> bool {
    channel_index(chs, id, 0) is Some
}

/// The wirings one service activator gets from the descriptor names: one
/// per descriptor with its ref-name, when both channels exist and the
/// inbound one is direct.
pub open spec fn one_service_wirings(
    sp: ServiceActivatorProcessorView,
    names: Seq<Seq<char>>,
    chs: Seq<(Seq<char>, ChannelKind)>,
) -> Seq<(Seq<char>, Seq<char>, Seq<char>)>
    decreases names.len(),
{
    if names.len() == 0 {
        Seq::empty()
    } else {
        let rest = one_service_wirings(sp, names.drop_last(), chs);
        let a = sp.activator;
        if names.last() == a.ref_name && has_channel(chs, a.from) && has_channel(chs, a.to)
            && channel_kind_of(chs, a.from) == Some(ChannelKind::Direct) {
            rest.push((a.from, a.to, a.ref_name))
        } else {
            rest
        }
    }
}

/// The service wirings, service activators in order, then descriptors in
/// order.
pub open spec fn service_wirings(
    sps: Seq<ServiceActivatorProcessorView>,
    names: Seq<Seq<char>>,
    chs: Seq<(Seq<char>, ChannelKind)>,
) -> Seq<(Seq<char>, Seq<char>, Seq<char>)>
    decreases sps.len(),
{
    if sps.len() == 0 {
        Seq::empty()
    } else {
        service_wirings(sps.drop_last(), names, chs) + one_service_wirings(sps.last(), names, chs)
    }
}

pub open spec fn service_wiring_view(w: ServiceWiring) -> (Seq<char>, Seq<char>, Seq<char>) {
    (w.from@, w.to@, w.ref_name@)
}

/// A filter activation to subscribe on `from`, forwarding accepted
/// exchanges to `to`.
#[derive(Debug)]
pub struct FilterWiring {
    pub index: usize,
    pub from: String,
    pub to: String,
    pub id: String,
}

/// Filter wirings: activations with a `to`, whose channels exist and whose
/// inbound channel is direct, in order.
pub open spec fn filter_wirings(
    fas: Seq<FilterActivationView>,
    chs: Seq<(Seq<char>, ChannelKind)>,
) -> Seq<(int, Seq<char>, Seq<char>, Seq<char>)>
    decreases fas.len(),
{
    if fas.len() == 0 {
        Seq::empty()
    } else {
        let rest = filter_wirings(fas.drop_last(), chs);
        let fa = fas.last();
        let i = fas.len() - 1;
        match fa.to {
            Some(to) => if has_channel(chs, fa.from) && has_channel(chs, to) && channel_kind_of(
                chs,
                fa.from,
            ) == Some(ChannelKind::Direct) {
                rest.push((i, fa.from, to, fa.id))
            } else {
                rest
            },
            None => rest,
        }
    }
}

pub open spec fn filter_wiring_view(w: FilterWiring) -> (int, Seq<char>, Seq<char>, Seq<char>) {
    (w.index as int, w.from@, w.to@, w.id@)
}

/// An outbound adapter activation to subscribe on `from`; results go to
/// `to` when that channel exists, else they are dropped.
#[derive(Debug)]
pub struct OutboundWiring {
    pub index: usize,
    pub from: String,
    pub to: Option<String>,
    pub id: String,
}

/// Outbound wirings: activations with a `from` that exists and is direct;
/// `to` is kept when its channel exists.
pub open spec fn outbound_wirings(
    oas: Seq<OutboundActivationView>,
    chs: Seq<(Seq<char>, ChannelKind)>,
) -> Seq<(int, Seq<char>, Option<Seq<char>>, Seq<char>)>
    decreases oas.len(),
{
    if oas.len() == 0 {
        Seq::empty()
    } else {
        let rest = outbound_wirings(oas.drop_last(), chs);
        let oa = oas.last();
        let i = oas.len() - 1;
        match oa.from {
            Some(from) => if has_channel(chs, from) && channel_kind_of(chs, from) == Some(
                ChannelKind::Direct,
            ) {
                let to = match oa.to {
                    Some(t) => if has_channel(chs, t) {
                        Some(t)
                    } else {
                        None
                    },
                    None => None,
                };
                rest.push((i, from, to, oa.id))
            } else {
                rest
            },
            None => rest,
        }
    }
}

pub open spec fn outbound_wiring_view(w: OutboundWiring) -> (int, Seq<char>, Option<Seq<char>>, Seq<char>) {
    (w.index as int, w.from@, crate::spec::common::opt_string_view(w.to), w.id@)
}

fn is_direct(rt: &AlloraRuntime, id: &str) -> (r: bool)
    ensures
        r == (has_channel(rt@.channels, id@) && channel_kind_of(rt@.channels, id@) == Some(
            ChannelKind::Direct,
        )),
{
    rt.channel_is(id, ChannelKind::Direct)
}

fn exists_channel(rt: &AlloraRuntime, id: &str) -> (r: bool)
    ensures
        r == has_channel(rt@.channels, id@),
{
    rt.channel_by_id(id).is_some()
}

/// Plan the service wirings for the given service descriptor names.
pub fn plan_service_wirings(rt: &AlloraRuntime, names: &Vec<String>) -> (r: Vec<ServiceWiring>)
    ensures
        r@.map_values(|w: ServiceWiring| service_wiring_view(w)) == service_wirings(
            rt@.service_processors,
            names@.map_values(|s: String| s@),
            rt@.channels,
        ),
{
    let ghost nv = names@.map_values(|s: String| s@);
    let ghost sps = rt@.service_processors;
    let procs = rt.service_activator_processors();
    let mut out: Vec<ServiceWiring> = Vec::new();
    let mut i: usize = 0;
    assert(sps.subrange(0, 0) =~= Seq::<ServiceActivatorProcessorView>::empty());
    assert(out@.map_values(|w: ServiceWiring| service_wiring_view(w)) =~= Seq::<(Seq<char>, Seq<char>, Seq<char>)>::empty());
    while i < procs.len()
        invariant
            i <= procs.len(),
            procs@.map_values(|p: crate::runtime::assembly::ServiceActivatorProcessor| p@) == sps,
            sps == rt@.service_processors,
            nv == names@.map_values(|s: String| s@),
            out@.map_values(|w: ServiceWiring| service_wiring_view(w)) == service_wirings(
                sps.subrange(0, i as int),
                nv,
                rt@.channels,
            ),
        decreases procs.len() - i,
    {
        let sp = &procs[i];
        assert(sps[i as int] == sp@);
        let ghost base = out@.map_values(|w: ServiceWiring| service_wiring_view(w));
        let mut j: usize = 0;
        assert(nv.subrange(0, 0) =~= Seq::<Seq<char>>::empty());
        assert(base + one_service_wirings(sp@, nv.subrange(0, 0), rt@.channels) =~= base);
        while j < names.len()
            invariant
                j <= names.len(),
                nv == names@.map_values(|s: String| s@),
                out@.map_values(|w: ServiceWiring| service_wiring_view(w)) == base
                    + one_service_wirings(sp@, nv.subrange(0, j as int), rt@.channels),
            decreases names.len() - j,
        {
            let ghost before = out@.map_values(|w: ServiceWiring| service_wiring_view(w));
            proof {
                let s = nv.subrange(0, j + 1);
                assert(s.drop_last() =~= nv.subrange(0, j as int));
                assert(s.last() == names@[j as int]@);
            }
            if text_eq(names[j].as_str(), sp.ref_name()) && exists_channel(rt, sp.from())
                && exists_channel(rt, sp.to()) && is_direct(rt, sp.from()) {
                out.push(
                    ServiceWiring {
                        from: owned(sp.from()),
                        to: owned(sp.to()),
                        ref_name: owned(sp.ref_name()),
                    },
                );
                assert(out@.map_values(|w: ServiceWiring| service_wiring_view(w)) =~= before.push(
                    (sp@.activator.from, sp@.activator.to, sp@.activator.ref_name),
                ));
            }
            j = j + 1;
        }
        proof {
            assert(nv.subrange(0, names.len() as int) =~= nv);
            let s = sps.subrange(0, i + 1);
            assert(s.drop_last() =~= sps.subrange(0, i as int));
            assert(s.last() == sp@);
        }
        i = i + 1;
    }
    assert(sps.subrange(0, procs.len() as int) =~= sps);
    out
}

/// Plan the filter wirings.
pub fn plan_filter_wirings(rt: &AlloraRuntime) -> (r: Vec<FilterWiring>)
    ensures
        r@.map_values(|w: FilterWiring| filter_wiring_view(w)) == filter_wirings(
            rt@.filters,
            rt@.channels,
        ),
{
    let ghost fas = rt@.filters;
    let filters = rt.filters();
    let mut out: Vec<FilterWiring> = Vec::new();
    let mut i: usize = 0;
    assert(fas.subrange(0, 0) =~= Seq::<FilterActivationView>::empty());
    assert(out@.map_values(|w: FilterWiring| filter_wiring_view(w)) =~= Seq::<(int, Seq<char>, Seq<char>, Seq<char>)>::empty());
    while i < filters.len()
        invariant
            i <= filters.len(),
            filters@.map_values(|f: crate::runtime::assembly::FilterActivation| f@) == fas,
            fas == rt@.filters,
            out@.map_values(|w: FilterWiring| filter_wiring_view(w)) == filter_wirings(
                fas.subrange(0, i as int),
                rt@.channels,
            ),
        decreases filters.len() - i,
    {
        let fa = &filters[i];
        assert(fas[i as int] == fa@);
        let ghost before = out@.map_values(|w: FilterWiring| filter_wiring_view(w));
        proof {
            let s = fas.subrange(0, i + 1);
            assert(s.drop_last() =~= fas.subrange(0, i as int));
            assert(s.last() == fa@);
        }
        match fa.to() {
            Some(to) => {
                if exists_channel(rt, fa.from()) && exists_channel(rt, to) && is_direct(rt, fa.from()) {
                    out.push(
                        FilterWiring { index: i, from: owned(fa.from()), to: owned(to), id: owned(fa.id()) },
                    );
                    assert(out@.map_values(|w: FilterWiring| filter_wiring_view(w)) =~= before.push(
                        (i as int, fa@.from, to@, fa@.id),
                    ));
                }
            },
            None => {},
        }
        i = i + 1;
    }
    assert(fas.subrange(0, filters.len() as int) =~= fas);
    out
}

/// Plan the HTTP outbound wirings.
pub fn plan_http_outbound_wirings(rt: &AlloraRuntime) -> (r: Vec<OutboundWiring>)
    ensures
        r@.map_values(|w: OutboundWiring| outbound_wiring_view(w)) == outbound_wirings(
            rt@.http_outbound_adapters,
            rt@.channels,
        ),
{
    let ghost oas = rt@.http_outbound_adapters;
    let acts = rt.http_outbound_adapters();
    let mut out: Vec<OutboundWiring> = Vec::new();
    let mut i: usize = 0;
    assert(oas.subrange(0, 0) =~= Seq::<OutboundActivationView>::empty());
    assert(out@.map_values(|w: OutboundWiring| outbound_wiring_view(w)) =~= Seq::<(int, Seq<char>, Option<Seq<char>>, Seq<char>)>::empty());
    while i < acts.len()
        invariant
            i <= acts.len(),
            acts@.map_values(|a: crate::runtime::assembly::HttpOutboundAdapterActivation| a@) == oas,
            oas == rt@.http_outbound_adapters,
            out@.map_values(|w: OutboundWiring| outbound_wiring_view(w)) == outbound_wirings(
                oas.subrange(0, i as int),
                rt@.channels,
            ),
        decreases acts.len() - i,
    {
        let oa = &acts[i];
        assert(oas[i as int] == oa@);
        let ghost before = out@.map_values(|w: OutboundWiring| outbound_wiring_view(w));
        proof {
            let s = oas.subrange(0, i + 1);
            assert(s.drop_last() =~= oas.subrange(0, i as int));
            assert(s.last() == oa@);
        }
        match oa.from() {
            Some(from) => {
                if exists_channel(rt, from) && is_direct(rt, from) {
                    let to = match oa.to() {
                        Some(t) => if exists_channel(rt, t) {
                            Some(owned(t))
                        } else {
                            None
                        },
                        None => None,
                    };
                    let ghost tv = crate::spec::common::opt_string_view(to);
                    out.push(OutboundWiring { index: i, from: owned(from), to, id: owned(oa.id()) });
                    assert(out@.map_values(|w: OutboundWiring| outbound_wiring_view(w)) =~= before.push(
                        (i as int, from@, tv, oa@.id),
                    ));
                }
            },
            None => {},
        }
        i = i + 1;
    }
    assert(oas.subrange(0, acts.len() as int) =~= oas);
    out
}

/// What a wired filter does with an exchange: `Some` (forward it) when the
/// filter accepts it, `None` (drop it) otherwise.
pub fn filter_step(rt: &AlloraRuntime, index: usize, exchange: Exchange) -> (r: Option<Exchange>)
    requires
        index < rt@.filters.len(),
    ensures
        crate::patterns::filter::plan_accepts(
            rt@.filters[index as int].filter.atoms,
            rt@.filters[index as int].filter.ops,
            exchange@,
        ) ==> (r matches Some(e) && e@ == exchange@),
        !crate::patterns::filter::plan_accepts(
            rt@.filters[index as int].filter.atoms,
            rt@.filters[index as int].filter.ops,
            exchange@,
        ) ==> r is None,
{
    let fa = &rt.filters()[index];
    assert(rt@.filters[index as int] == fa@);
    if fa.filter().accepts(&exchange) {
        Some(exchange)
    } else {
        None
    }
}

} // verus!
