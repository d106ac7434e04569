//! Component builders: turn validated specifications into runtime
//! components, enforcing id rules and resolving references.
use vstd::prelude::*;
use crate::channel::{Channel, ChannelKind, DirectChannel, QueueChannel};
use crate::error::{err_view, Error, ErrorKind, ErrorView, Result};
use crate::message::{Exchange, ExchangeView, MessageView, uuid_v4_text};
use crate::patterns::apl::{AtomView, LogicalOp};
use crate::patterns::filter::{Filter, apl_plan};
use crate::runtime::ids::{
    lemma_reserved_of_auto, reserved_number,
    assign_from, assign_ids, assigned_ids, auto_id, ids_fit, ids_view, id_scan, max_reserved,
    missing_count, scan_ids,
};
use crate::spec::channel::{ChannelKindSpec, ChannelSpec, ChannelSpecView, ChannelsSpec};
use crate::spec::common::{opt_as_str, opt_str_view, opt_string_view};
use crate::spec::filter::{FilterSpec, FilterSpecView, FiltersSpec};
use crate::spec::service::{ServiceActivatorSpec, ServiceActivatorSpecView, ServiceActivatorsSpec};
use crate::text::{concat2, concat3, decimal, decimal_chars, owned, string_of, text_eq};
use crate::http::inbound::{
    HttpInboundAdapter, HttpInboundAdapterView, HttpInboundBuilder, Mep, base_or_root,
    inbound_auto_id,
};
use crate::http::outbound::{
    HttpOutboundAdapter, HttpOutboundAdapterView, method_named, parse_http_method, url_problem,
};
use crate::patterns::aggregator::{
    Aggregator, AggregatorView, Completion, GroupView, InMemoryGroupStore, Strategy,
};
use crate::runtime::registry::{PatternRegistry, PatternRegistryView, joined, lookup, names_of};
use crate::spec::aggregator::{AggregatorSpec, AggregatorSpecView, AggregatorsSpec};
use crate::spec::http_inbound::{
    HttpInboundAdapterSpec, HttpInboundAdapterSpecView, HttpInboundAdaptersSpec,
};
use crate::spec::http_outbound::{
    HttpOutboundAdapterSpec, HttpOutboundAdapterSpecView, HttpOutboundAdaptersSpec,
};

use crate::spec::http_outbound::{url_read, ParsedUrlView};

verus! {

// ---------------------------------------------------------------------------
// Channels
// ---------------------------------------------------------------------------

/// First free generated channel number at or after `c` (the counter stops
/// at `u64::MAX`).
pub open spec fn next_free(used: Seq<Seq<char>>, c: u64) -> u64
    decreases u64::MAX - c,
{
    if c < u64::MAX && used.contains(auto_id("channel:auto."@, c as nat)) {
        next_free(used, (c + 1) as u64)
    } else {
        c
    }
}

/// Final channel ids in one pass: explicit ids must be non-empty and
/// unused; a missing id takes the next free `channel:auto.N`.
pub open spec fn channel_ids_from(
    ids: Seq<Option<Seq<char>>>,
    used: Seq<Seq<char>>,
    ctr: u64,
) -> core::result::Result<Seq<Seq<char>>, Seq<char>>
    decreases ids.len(),
{
    if ids.len() == 0 {
        Ok(Seq::empty())
    } else {
        match ids[0] {
            Some(x) => if x.len() == 0 {
                Err("channel.id must not be empty"@)
            } else if used.contains(x) {
                Err("duplicate channel.id '"@ + x + "'"@)
            } else {
                match channel_ids_from(ids.drop_first(), used.push(x), ctr) {
                    Ok(rest) => Ok(seq![x] + rest),
                    Err(e) => Err(e),
                }
            },
            None => {
                let n = next_free(used, ctr);
                let g = auto_id("channel:auto."@, n as nat);
                let c2 = if n == u64::MAX {
                    n
                } else {
                    (n + 1) as u64
                };
                match channel_ids_from(ids.drop_first(), used.push(g), c2) {
                    Ok(rest) => Ok(seq![g] + rest),
                    Err(e) => Err(e),
                }
            },
        }
    }
}

/// The texts of `u` that are generated channel ids numbered `c` or more.
pub open spec fn autos_from(u: Set<Seq<char>>, c: int) -> Set<Seq<char>> {
    u.filter(|s: Seq<char>| match reserved_number(s, "channel:auto."@) {
        Some(k) => k >= c,
        None => false,
    })
}

proof fn lemma_next_free_run(used: Seq<Seq<char>>, c: u64)
    ensures
        c <= next_free(used, c),
        forall|k: nat|
            c <= k < next_free(used, c) ==> used.contains(#[trigger] auto_id("channel:auto."@, k)),
        next_free(used, c) < u64::MAX ==> !used.contains(
            auto_id("channel:auto."@, next_free(used, c) as nat),
        ),
    decreases u64::MAX - c,
{
    if c < u64::MAX && used.contains(auto_id("channel:auto."@, c as nat)) {
        lemma_next_free_run(used, (c + 1) as u64);
    }
}

/// Generating an id at `next_free(used, c)` consumes the taken generated
/// ids it skipped: they and the generated ids numbered above the new one
/// are disjoint parts of those numbered `c` or more.
proof fn lemma_generate_potential(used: Seq<Seq<char>>, c: u64)
    ensures
        ({
            let n = next_free(used, c);
            let u = used.to_set();
            (n - c) + autos_from(u.insert(auto_id("channel:auto."@, n as nat)), n + 1).len()
                <= autos_from(u, c as int).len()
        }),
{
    broadcast use vstd::set::group_set_axioms, vstd::set_lib::group_set_properties, vstd::seq_lib::group_seq_properties;

    let p = "channel:auto."@;
    let n = next_free(used, c);
    let u = used.to_set();
    let g = auto_id(p, n as nat);
    lemma_next_free_run(used, c);
    let range = vstd::set_lib::set_int_range(c as int, n as int);
    vstd::set_lib::lemma_int_range(c as int, n as int);
    let f = |k: int| auto_id(p, k as nat);
    let r = range.map(f);
    assert(vstd::relations::injective_on(f, range)) by {
        assert forall|a: int, b: int| range.contains(a) && range.contains(b) && #[trigger] f(a) == #[trigger] f(b) implies a == b by {
            lemma_reserved_of_auto(p, a as u64);
            lemma_reserved_of_auto(p, b as u64);
        }
    }
    vstd::set_lib::lemma_map_size(range, r, f);
    let a = autos_from(u, c as int);
    let a2 = autos_from(u.insert(g), n + 1);
    vstd::set_lib::lemma_len_subset(a, u);
    assert(r.subset_of(a)) by {
        assert forall|s: Seq<char>| r.contains(s) implies a.contains(s) by {
            let k = choose|k: int| range.contains(k) && f(k) == s;
            assert(used.contains(auto_id(p, k as nat)));
            lemma_reserved_of_auto(p, k as u64);
        }
    }
    lemma_reserved_of_auto(p, n);
    assert(a2.subset_of(a)) by {
        assert forall|s: Seq<char>| a2.contains(s) implies a.contains(s) by {
            if s == g {
                assert(reserved_number(s, p) == Some(n));
            }
        }
    }
    vstd::set_lib::lemma_len_subset(a2, a);
    assert(r.disjoint(a2)) by {
        assert forall|s: Seq<char>| r.contains(s) implies !a2.contains(s) by {
            let k = choose|k: int| range.contains(k) && f(k) == s;
            lemma_reserved_of_auto(p, k as u64);
        }
    }
    vstd::set_lib::lemma_set_disjoint_lens(r, a2);
    vstd::set_lib::lemma_len_subset(r + a2, a);
}

proof fn lemma_channel_ids_distinct(ids: Seq<Option<Seq<char>>>, used: Seq<Seq<char>>, ctr: u64)
    requires
        ctr + autos_from(used.to_set(), ctr as int).len() + ids.len() < u64::MAX,
    ensures
        channel_ids_from(ids, used, ctr) matches Ok(r) ==> (forall|i: int, j: int|
            0 <= i < j < r.len() ==> r[i] != r[j]) && (forall|i: int|
            0 <= i < r.len() ==> !used.contains(#[trigger] r[i])),
    decreases ids.len(),
{
    broadcast use vstd::set::group_set_axioms, vstd::set_lib::group_set_properties, vstd::seq_lib::group_seq_properties;

    if ids.len() > 0 {
        let p = "channel:auto."@;
        let u = used.to_set();
        match ids[0] {
            Some(x) => {
                if x.len() > 0 && !used.contains(x) {
                    let used2 = used.push(x);
                    assert(used2.to_set() =~= u.insert(x));
                    let a = autos_from(u, ctr as int);
                    let a2 = autos_from(u.insert(x), ctr as int);
                    vstd::set_lib::lemma_len_subset(a, u);
                    assert(a2.subset_of(a.insert(x)));
                    vstd::set_lib::lemma_len_subset(a2, a.insert(x));
                    lemma_channel_ids_distinct(ids.drop_first(), used2, ctr);
                }
            },
            None => {
                let n = next_free(used, ctr);
                let g = auto_id(p, n as nat);
                lemma_generate_potential(used, ctr);
                lemma_next_free_run(used, ctr);
                assert(n < u64::MAX);
                let used2 = used.push(g);
                assert(used2.to_set() =~= u.insert(g));
                lemma_channel_ids_distinct(ids.drop_first(), used2, (n + 1) as u64);
            },
        }
        match channel_ids_from(ids, used, ctr) {
            Ok(r) => {
                let x = r[0];
                assert(!used.contains(x));
                let rest = r.drop_first();
                assert forall|i: int, j: int| 0 <= i < j < r.len() implies r[i] != r[j] by {
                    if i == 0 {
                        assert(r[j] == rest[j - 1]);
                        assert(!used.push(x).contains(rest[j - 1]));
                    } else {
                        assert(r[i] == rest[i - 1] && r[j] == rest[j - 1]);
                    }
                }
                assert forall|i: int| 0 <= i < r.len() implies !used.contains(#[trigger] r[i]) by {
                    if i > 0 {
                        assert(r[i] == rest[i - 1]);
                        assert(!used.push(x).contains(rest[i - 1]));
                    }
                }
            },
            Err(_) => {},
        }
    }
}

/// The channel ids one build assigns are all different, and different
/// from every id already in use: explicit ids are checked and generated
/// ones skip every id already taken (while the generator's counter stays
/// below `u64::MAX`).
pub proof fn law_channel_ids_distinct(ids: Seq<Option<Seq<char>>>, used: Seq<Seq<char>>, ctr: u64)
    requires
        ctr + used.len() + ids.len() < u64::MAX,
    ensures
        channel_ids_from(ids, used, ctr) matches Ok(r) ==> (forall|i: int, j: int|
            0 <= i < j < r.len() ==> r[i] != r[j]) && (forall|i: int|
            0 <= i < r.len() ==> !used.contains(#[trigger] r[i])),
{
    broadcast use vstd::set::group_set_axioms, vstd::set_lib::group_set_properties, vstd::seq_lib::group_seq_properties;

    let u = used.to_set();
    used.lemma_cardinality_of_set();
    vstd::set_lib::lemma_len_subset(autos_from(u, ctr as int), u);
    lemma_channel_ids_distinct(ids, used, ctr);
}

/// The id a channel of `kind` gets when built alone without an id:
/// `queue:<uuid>` or `direct:<uuid>`.
pub open spec fn random_channel_id(kind: ChannelKindSpec, id: Seq<char>) -> bool {
    match kind {
        ChannelKindSpec::Queue => id.len() == 42 && id.subrange(0, 6) == "queue:"@,
        ChannelKindSpec::Direct => id.len() == 43 && id.subrange(0, 7) == "direct:"@,
    }
}

/// The channel kind a spec kind builds.
pub open spec fn kind_of(k: ChannelKindSpec) -> ChannelKind {
    match k {
        ChannelKindSpec::Queue => ChannelKind::Queue,
        ChannelKindSpec::Direct => ChannelKind::Direct,
    }
}

fn channel_with_id(kind: ChannelKindSpec, id: &str) -> (r: Channel)
    ensures
        r.spec_id() == id@,
        r.spec_kind() == kind_of(kind),
{
    match kind {
        ChannelKindSpec::Queue => Channel::Queue(QueueChannel::with_id(id)),
        ChannelKindSpec::Direct => Channel::Direct(DirectChannel::with_id(id)),
    }
}

/// `r` is what building the channel `s` gives: a channel of its kind under
/// its id (which must not be empty), or under a fresh random id.
pub open spec fn channel_built(s: ChannelSpecView, r: Result<Channel>) -> bool {
    match s.id {
        Some(x) => if x.len() == 0 {
            r matches Err(e) && e@ == err_view(ErrorKind::Serialization, "channel.id must not be empty"@)
        } else {
            r matches Ok(c) && c.spec_id() == x && c.spec_kind() == kind_of(s.kind)
        },
        None => r matches Ok(c) && random_channel_id(s.kind, c.spec_id()) && c.spec_kind() == kind_of(s.kind),
    }
}

/// Build one channel. An explicit empty id is an error; without an id the
/// channel gets a random one.
pub fn build_channel_from_spec(spec: ChannelSpec) -> (r: Result<Channel>)
    ensures
        channel_built(spec@, r),
{
    match spec.channel_id() {
        Some(id) => {
            if crate::text::chars_of(id).len() == 0 {
                return Err(Error::serialization(owned("channel.id must not be empty")));
            }
            Ok(channel_with_id(spec.kind(), id))
        },
        None => match spec.kind() {
            ChannelKindSpec::Queue => Ok(Channel::Queue(QueueChannel::with_random_id())),
            ChannelKindSpec::Direct => {
                let d = DirectChannel::with_random_id();
                Ok(Channel::Direct(d))
            },
        },
    }
}

fn contains_text_in(used: &Vec<String>, x: &str) -> (r: bool)
    ensures
        r == used@.map_values(|s: String| s@).contains(x@),
{
    let ghost uv = used@.map_values(|s: String| s@);
    let mut i: usize = 0;
    while i < used.len()
        invariant
            i <= used.len(),
            uv == used@.map_values(|s: String| s@),
            forall|k: int| 0 <= k < i ==> uv[k] != x@,
        decreases used.len() - i,
    {
        if text_eq(used[i].as_str(), x) {
            assert(uv[i as int] == x@);
            return true;
        }
        i = i + 1;
    }
    false
}

fn auto_text(prefix: &str, n: u64) -> (r: String)
    ensures
        r@ == auto_id(prefix@, n as nat),
{
    let digits = decimal_chars(n);
    let d = string_of(digits.as_slice());
    concat2(prefix, d.as_str())
}

/// Build every channel, in order, with unique ids: explicit ids must be
/// non-empty and distinct; missing ids become `channel:auto.N` (N from 1,
/// skipping ids already in use).
pub fn build_channels_from_spec(spec: ChannelsSpec) -> (r: Result<Vec<Channel>>)
    ensures
        match channel_ids_from(
            spec@.channels.map_values(|c: ChannelSpecView| c.id),
            Seq::empty(),
            1,
        ) {
            Err(m) => r matches Err(e) && e@ == err_view(ErrorKind::Serialization, m),
            Ok(ids) => r matches Ok(cs) && cs.len() == spec@.channels.len() && ids.len() == cs.len() && forall|i: int|
                0 <= i < cs.len() ==> (#[trigger] cs[i]).spec_id() == ids[i] && cs[i].spec_kind()
                    == kind_of(spec@.channels[i].kind),
        },
{
    let specs = spec.channels();
    let ghost sv = specs@.map_values(|c: ChannelSpec| c@);
    let ghost all_ids = sv.map_values(|c: ChannelSpecView| c.id);
    let mut used: Vec<String> = Vec::new();
    let mut ctr: u64 = 1;
    let mut out: Vec<Channel> = Vec::new();
    let mut i: usize = 0;
    proof {
        assert(all_ids.subrange(0, all_ids.len() as int) =~= all_ids);
        assert(used@.map_values(|s: String| s@) =~= Seq::<Seq<char>>::empty());
        assert(out@.map_values(|c: Channel| c.spec_id()) =~= Seq::<Seq<char>>::empty());
        match channel_ids_from(all_ids, Seq::empty(), 1) {
            Ok(t) => {
                assert(Seq::<Seq<char>>::empty() + t =~= t);
            },
            Err(_) => {},
        }
    }
    while i < specs.len()
        invariant
            i <= specs.len(),
            sv == specs@.map_values(|c: ChannelSpec| c@),
            sv == spec@.channels,
            all_ids == sv.map_values(|c: ChannelSpecView| c.id),
            out.len() == i,
            forall|k: int|
                0 <= k < i ==> (#[trigger] out@[k]).spec_kind() == kind_of(sv[k].kind),
            ({
                let whole = channel_ids_from(all_ids, Seq::empty(), 1);
                let rest = channel_ids_from(
                    all_ids.subrange(i as int, all_ids.len() as int),
                    used@.map_values(|s: String| s@),
                    ctr,
                );
                match rest {
                    Err(m) => whole == Err::<Seq<Seq<char>>, Seq<char>>(m),
                    Ok(tail) => whole matches Ok(ids) && ids == out@.map_values(
                        |c: Channel| c.spec_id(),
                    ) + tail,
                }
            }),
        decreases specs.len() - i,
    {
        let ghost rest = all_ids.subrange(i as int, all_ids.len() as int);
        let ghost uv = used@.map_values(|s: String| s@);
        proof {
            assert(rest[0] == sv[i as int].id);
            assert(rest.drop_first() =~= all_ids.subrange(i + 1, all_ids.len() as int));
        }
        let ghost before = out@.map_values(|c: Channel| c.spec_id());
        match specs[i].channel_id() {
            Some(x) => {
                if crate::text::chars_of(x).len() == 0 {
                    return Err(Error::serialization(owned("channel.id must not be empty")));
                }
                if contains_text_in(&used, x) {
                    return Err(Error::serialization(concat3("duplicate channel.id '", x, "'")));
                }
                out.push(channel_with_id(specs[i].kind(), x));
                used.push(owned(x));
                proof {
                    assert(used@.map_values(|s: String| s@) =~= uv.push(x@));
                    assert(out@.map_values(|c: Channel| c.spec_id()) =~= before.push(x@));
                }
            },
            None => {
                let ghost n0 = next_free(uv, ctr);
                let mut c = ctr;
                let mut gen = auto_text("channel:auto.", c);
                while c < u64::MAX && contains_text_in(&used, gen.as_str())
                    invariant
                        uv == used@.map_values(|s: String| s@),
                        next_free(uv, c) == n0,
                        gen@ == auto_id("channel:auto."@, c as nat),
                    decreases u64::MAX - c,
                {
                    c = c + 1;
                    gen = auto_text("channel:auto.", c);
                }
                ctr = if c == u64::MAX {
                    c
                } else {
                    c + 1
                };
                out.push(channel_with_id(specs[i].kind(), gen.as_str()));
                used.push(gen);
                proof {
                    assert(used@.map_values(|s: String| s@) =~= uv.push(auto_id("channel:auto."@, n0 as nat)));
                    assert(out@.map_values(|c: Channel| c.spec_id()) =~= before.push(auto_id("channel:auto."@, n0 as nat)));
                }
            },
        }
        proof {
            assert(out@[i as int].spec_kind() == kind_of(sv[i as int].kind));
        }
        i = i + 1;
    }
    proof {
        assert(all_ids.subrange(i as int, all_ids.len() as int) =~= Seq::<Option<Seq<char>>>::empty());
        let ids = channel_ids_from(all_ids, Seq::empty(), 1)->Ok_0;
        assert(ids =~= out@.map_values(|c: Channel| c.spec_id()));
        assert forall|k: int| 0 <= k < out.len() implies (#[trigger] out@[k]).spec_id() == ids[k] by {
            assert(out@.map_values(|c: Channel| c.spec_id())[k] == out@[k].spec_id());
        }
    }
    Ok(out)
}

// ---------------------------------------------------------------------------
// Filters
// ---------------------------------------------------------------------------

/// Reserved prefix of generated filter ids.
pub open spec fn filter_prefix() -> Seq<char> {
    "filter:auto."@
}

/// Ids of filter specs.
pub open spec fn filter_ids(specs: Seq<FilterSpecView>) -> Seq<Option<Seq<char>>> {
    specs.map_values(|f: FilterSpecView| f.id)
}

/// No element-level problem for any of `n` elements.
pub open spec fn no_pre(n: nat) -> Seq<Option<Seq<char>>> {
    Seq::new(n, |i: int| None::<Seq<char>>)
}

/// Index of the first spec whose expression does not compile.
pub open spec fn first_bad_when(specs: Seq<FilterSpecView>, i: int) -> Option<int>
    decreases specs.len() - i,
{
    if i < 0 || i >= specs.len() {
        None
    } else if apl_plan(specs[i].when) is Err {
        Some(i)
    } else {
        first_bad_when(specs, i + 1)
    }
}

/// A filter built from expression `when` with id `id`.
pub open spec fn filter_matches(f: crate::patterns::filter::FilterView, when: Seq<char>, id: Seq<char>) -> bool {
    apl_plan(when) matches Ok((atoms, ops)) && f.atoms == atoms && f.ops == ops && f.id == id
        && f.error_message is None
}

fn build_one_filter(id: &str, when: &str) -> (r: Result<Filter>)
    ensures
        match apl_plan(when@) {
            Err(m) => r matches Err(e) && e@ == err_view(ErrorKind::Serialization, m),
            Ok(_) => r matches Ok(f) && filter_matches(f@, when@, id@),
        },
{
    Filter::from_apl_with_id(Some(owned(id)), when)
}

/// `r` is what building the filter `s` gives: its compiled `when`
/// expression (or the compile error) under its id or a fresh random one.
pub open spec fn filter_built(s: FilterSpecView, r: Result<Filter>) -> bool {
    match apl_plan(s.when) {
        Err(m) => r matches Err(e) && e@ == err_view(ErrorKind::Serialization, m),
        Ok((atoms, ops)) => r matches Ok(f) && f@.atoms == atoms && f@.ops == ops
            && f@.error_message is None && match s.id {
            Some(given) => f@.id == given,
            None => uuid_v4_text(f@.id),
        },
    }
}

/// Build one filter (id from the spec, else random).
pub fn build_filter_from_spec(spec: FilterSpec) -> (r: Result<Filter>)
    ensures
        filter_built(spec@, r),
{
    let id = match spec.id() {
        Some(i) => Some(owned(i)),
        None => None,
    };
    Filter::from_apl_with_id(id, spec.when())
}

/// Build every filter, in order. Explicit ids must be distinct; missing
/// ids become `filter:auto.N`, numbered after the largest `N` used
/// explicitly. Id problems are reported before expression problems.
pub fn build_filters_from_spec(spec: FiltersSpec) -> (r: Result<Vec<Filter>>)
    requires
        ids_fit(filter_ids(spec@.filters), filter_prefix()),
    ensures
        ({
            let specs = spec@.filters;
            let ids = filter_ids(specs);
            match id_scan(no_pre(specs.len()), ids, "filter"@, false, 0) {
                Some(m) => r matches Err(e) && e@ == err_view(ErrorKind::Serialization, m),
                None => match first_bad_when(specs, 0) {
                    Some(k) => r matches Err(e) && apl_plan(specs[k].when) matches Err(m) && e@
                        == err_view(ErrorKind::Serialization, m),
                    None => r matches Ok(fs) && fs.len() == specs.len() && forall|i: int|
                        0 <= i < fs.len() ==> filter_matches(
                            (#[trigger] fs[i])@,
                            specs[i].when,
                            assigned_ids(ids, filter_prefix())[i],
                        ),
                },
            }
        }),
{
    let specs = spec.filters();
    let ghost sv = specs@.map_values(|f: FilterSpec| f@);
    let mut ids: Vec<Option<String>> = Vec::new();
    let mut pre: Vec<Option<String>> = Vec::new();
    let mut i: usize = 0;
    while i < specs.len()
        invariant
            i <= specs.len(),
            sv == specs@.map_values(|f: FilterSpec| f@),
            ids.len() == i,
            pre.len() == i,
            forall|k: int| 0 <= k < i ==> opt_string_view(#[trigger] ids@[k]) == sv[k].id,
            forall|k: int| 0 <= k < i ==> (#[trigger] pre@[k]) is None,
        decreases specs.len() - i,
    {
        let id = match specs[i].id() {
            Some(x) => Some(owned(x)),
            None => None,
        };
        ids.push(id);
        pre.push(None);

        i = i + 1;
    }
    proof {
        assert(ids_view(ids@) =~= filter_ids(sv));
        assert(ids_view(pre@) =~= no_pre(sv.len())) by {
            assert forall|k: int| 0 <= k < pre.len() implies ids_view(pre@)[k] == no_pre(sv.len())[k] by {
                assert(pre@[k] is None);
            }
        }
    }
    let max = scan_ids(&pre, &ids, "filter", false, "filter:auto.")?;
    let final_ids = assign_ids(&ids, "filter:auto.", max + 1);
    proof {
        crate::runtime::ids::lemma_assign_len(filter_ids(sv), filter_prefix(), (max + 1) as nat);
    }
    filters_with_ids(specs, &final_ids)
}

fn filters_with_ids(specs: &[FilterSpec], ids: &Vec<String>) -> (r: Result<Vec<Filter>>)
    requires
        specs.len() == ids.len(),
    ensures
        ({
            let sv = specs@.map_values(|f: FilterSpec| f@);
            match first_bad_when(sv, 0) {
                Some(k) => r matches Err(e) && apl_plan(sv[k].when) matches Err(m) && e@ == err_view(
                    ErrorKind::Serialization,
                    m,
                ),
                None => r matches Ok(fs) && fs.len() == sv.len() && forall|i: int|
                    0 <= i < fs.len() ==> filter_matches((#[trigger] fs[i])@, sv[i].when, ids@[i]@),
            }
        }),
{
    let ghost sv = specs@.map_values(|f: FilterSpec| f@);
    let mut out: Vec<Filter> = Vec::new();
    let mut j: usize = 0;
    while j < specs.len()
        invariant
            j <= specs.len() == ids.len(),
            sv == specs@.map_values(|f: FilterSpec| f@),
            first_bad_when(sv, 0) == first_bad_when(sv, j as int),
            out.len() == j,
            forall|k: int| 0 <= k < j ==> filter_matches((#[trigger] out@[k])@, sv[k].when, ids@[k]@),
        decreases specs.len() - j,
    {
        assert(sv[j as int] == specs@[j as int]@);
        match build_one_filter(ids[j].as_str(), specs[j].when()) {
            Ok(f) => {
                out.push(f);
            },
            Err(e) => {
                return Err(e);
            },
        }
        j = j + 1;
    }
    Ok(out)
}

// ---------------------------------------------------------------------------
// Services
// ---------------------------------------------------------------------------

/// The processor a service activator runs: stamps
/// `service-activator.id` (when known) and `service-activator.ref-name`.
#[derive(Debug)]
pub struct ServiceProcessor {
    id: Option<String>,
    ref_name: String,
}

pub struct ServiceProcessorView {
    pub id: Option<Seq<char>>,
    pub ref_name: Seq<char>,
}

impl View for ServiceProcessor {
    type V = ServiceProcessorView;

    closed spec fn view(&self) -> ServiceProcessorView {
        ServiceProcessorView { id: opt_string_view(self.id), ref_name: self.ref_name@ }
    }
}

/// Headers after a service processor ran.
pub open spec fn service_stamped(
    p: ServiceProcessorView,
    h: Map<Seq<char>, Seq<char>>,
) -> Map<Seq<char>, Seq<char>> {
    let h1 = match p.id {
        Some(id) => h.insert("service-activator.id"@, id),
        None => h,
    };
    h1.insert("service-activator.ref-name"@, p.ref_name)
}

impl ServiceProcessor {
    /// Stamp the activator's id (if any) and ref-name on the inbound message.
    pub fn process(&self, exchange: &mut Exchange) -> (r: Result<()>)
        ensures
            r is Ok,
            final(exchange)@ == (ExchangeView {
                in_msg: MessageView {
                    headers: service_stamped(self@, old(exchange)@.in_msg.headers),
                    ..old(exchange)@.in_msg
                },
                ..old(exchange)@
            }),
    {
        match &self.id {
            Some(id) => exchange.in_msg.set_header("service-activator.id", id.as_str()),
            None => {},
        }
        exchange.in_msg.set_header("service-activator.ref-name", self.ref_name.as_str());
        Ok(())
    }
}

/// The first missing required field of a service activator, if any.
pub open spec fn service_problem(s: ServiceActivatorSpecView) -> Option<Seq<char>> {
    if s.from.len() == 0 {
        Some("service.from must not be empty"@)
    } else if s.to.len() == 0 {
        Some("service.to must not be empty"@)
    } else if s.ref_name.len() == 0 {
        Some("service.ref-name must not be empty"@)
    } else {
        None
    }
}

fn service_problem_exec(s: &ServiceActivatorSpec) -> (r: Option<String>)
    ensures
        opt_string_view(r) == service_problem(s@),
{
    if crate::text::chars_of(s.from()).len() == 0 {
        Some(owned("service.from must not be empty"))
    } else if crate::text::chars_of(s.to()).len() == 0 {
        Some(owned("service.to must not be empty"))
    } else if crate::text::chars_of(s.ref_name()).len() == 0 {
        Some(owned("service.ref-name must not be empty"))
    } else {
        None
    }
}

/// `r` is what building the service activator `s` gives: the first missing
/// required field as an error, or a processor with its id and ref-name.
pub open spec fn service_built(s: ServiceActivatorSpecView, r: Result<ServiceProcessor>) -> bool {
    match service_problem(s) {
        Some(m) => r matches Err(e) && e@ == err_view(ErrorKind::Serialization, m),
        None => r matches Ok(p) && p@ == (ServiceProcessorView { id: s.id, ref_name: s.ref_name }),
    }
}

/// Build one service processor (stamps the spec's id only when it has one).
pub fn build_service_from_spec(spec: ServiceActivatorSpec) -> (r: Result<ServiceProcessor>)
    ensures
        service_built(spec@, r),
{
    match service_problem_exec(&spec) {
        Some(m) => Err(Error::serialization(m)),
        None => {
            let id = match spec.id() {
                Some(x) => Some(owned(x)),
                None => None,
            };
            Ok(ServiceProcessor { id, ref_name: owned(spec.ref_name()) })
        },
    }
}

/// Reserved prefix of generated service ids.
pub open spec fn service_prefix() -> Seq<char> {
    "service:auto."@
}

/// Ids of service specs.
pub open spec fn service_ids(specs: Seq<ServiceActivatorSpecView>) -> Seq<Option<Seq<char>>> {
    specs.map_values(|s: ServiceActivatorSpecView| s.id)
}

/// Element problems of service specs.
pub open spec fn service_problems(specs: Seq<ServiceActivatorSpecView>) -> Seq<Option<Seq<char>>> {
    specs.map_values(|s: ServiceActivatorSpecView| service_problem(s))
}

/// Build every service processor, in order. Each spec must have `from`,
/// `to` and `ref-name`; explicit ids must be distinct; missing ids become
/// `service:auto.N` after the largest explicit `N`. Every processor
/// stamps its final id.
pub fn build_service_activators_from_spec(spec: ServiceActivatorsSpec) -> (r: Result<
    Vec<ServiceProcessor>,
>)
    requires
        ids_fit(service_ids(spec@.services), service_prefix()),
    ensures
        ({
            let specs = spec@.services;
            let ids = service_ids(specs);
            match id_scan(service_problems(specs), ids, "service"@, false, 0) {
                Some(m) => r matches Err(e) && e@ == err_view(ErrorKind::Serialization, m),
                None => r matches Ok(ps) && ps.len() == specs.len() && forall|i: int|
                    0 <= i < ps.len() ==> (#[trigger] ps[i])@ == (ServiceProcessorView {
                        id: Some(assigned_ids(ids, service_prefix())[i]),
                        ref_name: specs[i].ref_name,
                    }),
            }
        }),
{
    let specs = spec.services_activators();
    let ghost sv = specs@.map_values(|s: ServiceActivatorSpec| s@);
    let mut ids: Vec<Option<String>> = Vec::new();
    let mut pre: Vec<Option<String>> = Vec::new();
    let mut i: usize = 0;
    while i < specs.len()
        invariant
            i <= specs.len(),
            sv == specs@.map_values(|s: ServiceActivatorSpec| s@),
            ids.len() == i,
            pre.len() == i,
            forall|k: int| 0 <= k < i ==> opt_string_view(#[trigger] ids@[k]) == sv[k].id,
            forall|k: int| 0 <= k < i ==> opt_string_view(#[trigger] pre@[k]) == service_problem(sv[k]),
        decreases specs.len() - i,
    {
        let id = match specs[i].id() {
            Some(x) => Some(owned(x)),
            None => None,
        };
        ids.push(id);
        pre.push(service_problem_exec(&specs[i]));

        i = i + 1;
    }
    proof {
        assert(ids_view(ids@) =~= service_ids(sv));
        assert(ids_view(pre@) =~= service_problems(sv));
    }
    let max = scan_ids(&pre, &ids, "service", false, "service:auto.")?;
    let final_ids = assign_ids(&ids, "service:auto.", max + 1);
    let ghost fidv = final_ids@.map_values(|s: String| s@);
    proof {
        crate::runtime::ids::lemma_assign_len(service_ids(sv), service_prefix(), (max + 1) as nat);
    }
    let mut out: Vec<ServiceProcessor> = Vec::new();
    let mut j: usize = 0;
    while j < specs.len()
        invariant
            j <= specs.len(),
            sv == specs@.map_values(|s: ServiceActivatorSpec| s@),
            fidv == final_ids@.map_values(|s: String| s@),
            final_ids.len() == specs.len(),
            out.len() == j,
            forall|k: int|
                0 <= k < j ==> (#[trigger] out@[k])@ == (ServiceProcessorView {
                    id: Some(fidv[k]),
                    ref_name: sv[k].ref_name,
                }),
        decreases specs.len() - j,
    {
        let p = ServiceProcessor {
            id: Some(owned(final_ids[j].as_str())),
            ref_name: owned(specs[j].ref_name()),
        };
        out.push(p);
        j = j + 1;
    }
    Ok(out)
}

// ---------------------------------------------------------------------------
// HTTP inbound adapters
// ---------------------------------------------------------------------------

/// Message for a channel reference that names no known channel.
pub open spec fn unknown_channel(id: Seq<char>, field: Seq<char>) -> Seq<char> {
    "unknown channel id '"@ + id + "' for http-inbound-adapter."@ + field
}

/// Problems resolving an inbound adapter's channels among `known`.
pub open spec fn inbound_lookup_problem(
    a: HttpInboundAdapterSpecView,
    known: Seq<Seq<char>>,
) -> Option<Seq<char>> {
    if !known.contains(a.request_channel) {
        Some(unknown_channel(a.request_channel, "request-channel"@))
    } else {
        match a.reply_channel {
            Some(rc) => if !known.contains(rc) {
                Some(unknown_channel(rc, "reply-channel"@))
            } else {
                None
            },
            None => None,
        }
    }
}

/// The adapter built for spec `a` under id `id`: request/reply when a reply
/// channel is configured, otherwise fire-and-forget (202).
pub open spec fn inbound_built(r: HttpInboundAdapterView, a: HttpInboundAdapterSpecView, id: Seq<char>) -> bool {
    &&& r.id == id
    &&& r.host == a.host
    &&& r.port == a.port
    &&& r.base_path == base_or_root(a.path)
    &&& r.channel == a.request_channel
    &&& r.reply_channel == a.reply_channel
    &&& r.mep == if a.reply_channel is Some {
        Mep::InOut
    } else {
        Mep::InOnly202
    }
    &&& r.routes.len() == 0
}

/// Problem of an inbound spec found before ids are looked at.
pub open spec fn inbound_pre_problem(a: HttpInboundAdapterSpecView) -> Option<Seq<char>> {
    if a.request_channel.len() == 0 {
        Some("http-inbound-adapter.request-channel must not be empty"@)
    } else {
        None
    }
}

fn known_channel(known: &Vec<String>, id: &str) -> (r: bool)
    ensures
        r == known@.map_values(|s: String| s@).contains(id@),
{
    contains_text_in(known, id)
}

fn inbound_adapter_with_id(a: &HttpInboundAdapterSpec, id: &str, known: &Vec<String>) -> (r: Result<
    HttpInboundAdapter,
>)
    ensures
        match inbound_lookup_problem(a@, known@.map_values(|s: String| s@)) {
            Some(m) => r matches Err(e) && e@ == err_view(ErrorKind::Serialization, m),
            None => r matches Ok(x) && inbound_built(x@, a@, id@),
        },
{
    if !known_channel(known, a.request_channel()) {
        let m = concat3("unknown channel id '", a.request_channel(), "' for http-inbound-adapter.");
        return Err(Error::serialization(concat2(m.as_str(), "request-channel")));
    }
    let mut b = HttpInboundBuilder::new().host(a.host()).port(a.port()).base_path(a.path()).channel(
        a.request_channel(),
    ).id(id);
    match a.reply_channel() {
        Some(rc) => {
            if !known_channel(known, rc) {
                let m = concat3("unknown channel id '", rc, "' for http-inbound-adapter.");
                return Err(Error::serialization(concat2(m.as_str(), "reply-channel")));
            }
            b = b.reply_channel(rc);
        },
        None => {
            b = b.mep(Mep::InOnly202);
        },
    }
    let x = b.build();
    assert(x@.routes =~= Seq::<(Seq<char>, Seq<char>, Seq<char>)>::empty());
    Ok(x)
}

/// Build one HTTP inbound adapter. Its request channel must be named and
/// known (`known` lists the channel ids), an explicit id must be
/// non-empty, and a reply channel, when given, must be known and makes the
/// adapter request/reply; without one it answers 202 at once.
pub fn build_http_inbound_adapter_from_spec(
    spec: HttpInboundAdapterSpec,
    known: &Vec<String>,
) -> (r: Result<HttpInboundAdapter>)
    ensures
        match inbound_pre_problem(spec@) {
            Some(m) => r matches Err(e) && e@ == err_view(ErrorKind::Serialization, m),
            None => if spec@.id == Some(Seq::<char>::empty()) {
                r matches Err(e) && e@ == err_view(
                    ErrorKind::Serialization,
                    "http-inbound-adapter.id must not be empty"@,
                )
            } else {
                match inbound_lookup_problem(spec@, known@.map_values(|s: String| s@)) {
                    Some(m) => r matches Err(e) && e@ == err_view(ErrorKind::Serialization, m),
                    None => r matches Ok(x) && inbound_built(
                        x@,
                        spec@,
                        match spec@.id {
                            Some(i) => i,
                            None => inbound_auto_id(spec@.host, spec@.port),
                        },
                    ),
                }
            },
        },
{
    if crate::text::chars_of(spec.request_channel()).len() == 0 {
        return Err(Error::serialization(owned("http-inbound-adapter.request-channel must not be empty")));
    }
    let id = match spec.id() {
        Some(i) => {
            if crate::text::chars_of(i).len() == 0 {
                assert(spec@.id == Some(Seq::<char>::empty()));
                return Err(Error::serialization(owned("http-inbound-adapter.id must not be empty")));
            }
            owned(i)
        },
        None => {
            let a = HttpInboundAdapter::new(spec.host(), spec.port(), "", "", None, Mep::InOut, None);
            owned(a.id())
        },
    };
    inbound_adapter_with_id(&spec, id.as_str(), known)
}

/// Reserved prefix of generated inbound adapter ids.
pub open spec fn inbound_prefix() -> Seq<char> {
    "http-inbound-adapter:auto."@
}

pub open spec fn inbound_ids(specs: Seq<HttpInboundAdapterSpecView>) -> Seq<Option<Seq<char>>> {
    specs.map_values(|a: HttpInboundAdapterSpecView| a.id)
}

pub open spec fn inbound_pre(specs: Seq<HttpInboundAdapterSpecView>) -> Seq<Option<Seq<char>>> {
    specs.map_values(|a: HttpInboundAdapterSpecView| inbound_pre_problem(a))
}

/// First adapter whose channels do not resolve.
pub open spec fn first_lookup_problem(
    specs: Seq<HttpInboundAdapterSpecView>,
    known: Seq<Seq<char>>,
    i: int,
) -> Option<Seq<char>>
    decreases specs.len() - i,
{
    if i < 0 || i >= specs.len() {
        None
    } else if inbound_lookup_problem(specs[i], known) is Some {
        inbound_lookup_problem(specs[i], known)
    } else {
        first_lookup_problem(specs, known, i + 1)
    }
}

fn inbound_with_ids(
    specs: &[HttpInboundAdapterSpec],
    ids: &Vec<String>,
    known: &Vec<String>,
) -> (r: Result<Vec<HttpInboundAdapter>>)
    requires
        specs.len() == ids.len(),
    ensures
        ({
            let sv = specs@.map_values(|a: HttpInboundAdapterSpec| a@);
            let kv = known@.map_values(|s: String| s@);
            match first_lookup_problem(sv, kv, 0) {
                Some(m) => r matches Err(e) && e@ == err_view(ErrorKind::Serialization, m),
                None => r matches Ok(xs) && xs.len() == sv.len() && forall|i: int|
                    0 <= i < xs.len() ==> inbound_built((#[trigger] xs[i])@, sv[i], ids@[i]@),
            }
        }),
{
    let ghost sv = specs@.map_values(|a: HttpInboundAdapterSpec| a@);
    let ghost kv = known@.map_values(|s: String| s@);
    let mut out: Vec<HttpInboundAdapter> = Vec::new();
    let mut j: usize = 0;
    while j < specs.len()
        invariant
            j <= specs.len() == ids.len(),
            sv == specs@.map_values(|a: HttpInboundAdapterSpec| a@),
            kv == known@.map_values(|s: String| s@),
            first_lookup_problem(sv, kv, 0) == first_lookup_problem(sv, kv, j as int),
            out.len() == j,
            forall|k: int| 0 <= k < j ==> inbound_built((#[trigger] out@[k])@, sv[k], ids@[k]@),
        decreases specs.len() - j,
    {
        assert(sv[j as int] == specs@[j as int]@);
        match inbound_adapter_with_id(&specs[j], ids[j].as_str(), known) {
            Ok(x) => {
                out.push(x);
            },
            Err(e) => {
                return Err(e);
            },
        }
        j = j + 1;
    }
    Ok(out)
}

/// Build every HTTP inbound adapter, in order. Each must name a request
/// channel; explicit ids must be non-empty and distinct; missing ids
/// become `http-inbound-adapter:auto.N` after the largest explicit `N`;
/// then each adapter's channels must resolve among `known`.
pub fn build_http_inbound_adapters_from_spec(
    spec: HttpInboundAdaptersSpec,
    known: &Vec<String>,
) -> (r: Result<Vec<HttpInboundAdapter>>)
    requires
        ids_fit(inbound_ids(spec@.adapters), inbound_prefix()),
    ensures
        ({
            let specs = spec@.adapters;
            let ids = inbound_ids(specs);
            let kv = known@.map_values(|s: String| s@);
            match id_scan(inbound_pre(specs), ids, "http-inbound-adapter"@, true, 0) {
                Some(m) => r matches Err(e) && e@ == err_view(ErrorKind::Serialization, m),
                None => match first_lookup_problem(specs, kv, 0) {
                    Some(m) => r matches Err(e) && e@ == err_view(ErrorKind::Serialization, m),
                    None => r matches Ok(xs) && xs.len() == specs.len() && forall|i: int|
                        0 <= i < xs.len() ==> inbound_built(
                            (#[trigger] xs[i])@,
                            specs[i],
                            assigned_ids(ids, inbound_prefix())[i],
                        ),
                },
            }
        }),
{
    let specs = spec.adapters();
    let ghost sv = specs@.map_values(|a: HttpInboundAdapterSpec| a@);
    let mut ids: Vec<Option<String>> = Vec::new();
    let mut pre: Vec<Option<String>> = Vec::new();
    let mut i: usize = 0;
    while i < specs.len()
        invariant
            i <= specs.len(),
            sv == specs@.map_values(|a: HttpInboundAdapterSpec| a@),
            ids.len() == i,
            pre.len() == i,
            forall|k: int| 0 <= k < i ==> opt_string_view(#[trigger] ids@[k]) == sv[k].id,
            forall|k: int| 0 <= k < i ==> opt_string_view(#[trigger] pre@[k]) == inbound_pre_problem(sv[k]),
        decreases specs.len() - i,
    {
        let id = match specs[i].id() {
            Some(x) => Some(owned(x)),
            None => None,
        };
        ids.push(id);
        let p = if crate::text::chars_of(specs[i].request_channel()).len() == 0 {
            Some(owned("http-inbound-adapter.request-channel must not be empty"))
        } else {
            None
        };
        pre.push(p);
        i = i + 1;
    }
    proof {
        assert(ids_view(ids@) =~= inbound_ids(sv));
        assert(ids_view(pre@) =~= inbound_pre(sv));
    }
    let max = scan_ids(&pre, &ids, "http-inbound-adapter", true, "http-inbound-adapter:auto.")?;
    let final_ids = assign_ids(&ids, "http-inbound-adapter:auto.", max + 1);
    proof {
        crate::runtime::ids::lemma_assign_len(inbound_ids(sv), inbound_prefix(), (max + 1) as nat);
    }
    inbound_with_ids(specs, &final_ids, known)
}

// ---------------------------------------------------------------------------
// HTTP outbound adapters
// ---------------------------------------------------------------------------

/// The adapter built for spec `a` under id `id`.
pub open spec fn outbound_built(x: HttpOutboundAdapterView, a: HttpOutboundAdapterSpecView, id: Seq<char>) -> bool {
    &&& x.id == id
    &&& x.url == a.url
    &&& url_read(a.url) == Ok::<ParsedUrlView, Seq<char>>(x.parsed)
    &&& x.method == match a.method {
        Some(m) => method_named(m),
        None => "POST"@,
    }
    &&& x.use_out_msg == match a.use_out_msg {
        Some(b) => b,
        None => true,
    }
    &&& !x.accept_invalid_certs
}

fn outbound_adapter_with_id(a: &HttpOutboundAdapterSpec, id: &str) -> (r: Result<HttpOutboundAdapter>)
    ensures
        match url_problem(a@.url) {
            Some(m) => r matches Err(e) && e@ == err_view(ErrorKind::Other, m),
            None => r matches Ok(x) && outbound_built(x@, a@, id@),
        },
{
    let mut b = HttpOutboundAdapter::builder().url(a.url()).id(id);
    match a.method() {
        Some(m) => {
            let pm = parse_http_method(m);
            b = b.method(pm.as_str());
        },
        None => {},
    }
    if !a.use_out_msg() {
        b = b.use_out_msg(false);
    }
    b.build()
}

/// Build one HTTP outbound adapter: an explicit id must be non-empty
/// (without one the id is a random UUID); the method name is resolved
/// with [`parse_http_method`].
pub fn build_http_outbound_adapter_from_spec(spec: HttpOutboundAdapterSpec) -> (r: Result<
    HttpOutboundAdapter,
>)
    ensures
        if spec@.id == Some(Seq::<char>::empty()) {
            r matches Err(e) && e@ == err_view(
                ErrorKind::Serialization,
                "http-outbound-adapter.id must not be empty"@,
            )
        } else {
            match url_problem(spec@.url) {
                Some(m) => r matches Err(e) && e@ == err_view(ErrorKind::Other, m),
                None => r matches Ok(x) && (match spec@.id {
                    Some(i) => outbound_built(x@, spec@, i),
                    None => outbound_built(x@, spec@, x@.id) && uuid_v4_text(x@.id),
                }),
            }
        },
{
    let id = match spec.id() {
        Some(i) => {
            if crate::text::chars_of(i).len() == 0 {
                assert(spec@.id == Some(Seq::<char>::empty()));
                return Err(Error::serialization(owned("http-outbound-adapter.id must not be empty")));
            }
            owned(i)
        },
        None => crate::message::new_uuid(),
    };
    outbound_adapter_with_id(&spec, id.as_str())
}

/// Reserved prefix of generated outbound adapter ids.
pub open spec fn outbound_prefix() -> Seq<char> {
    "http-outbound-adapter:auto."@
}

pub open spec fn outbound_ids(specs: Seq<HttpOutboundAdapterSpecView>) -> Seq<Option<Seq<char>>> {
    specs.map_values(|a: HttpOutboundAdapterSpecView| a.id)
}

/// First adapter whose URL cannot be used.
pub open spec fn first_url_problem(specs: Seq<HttpOutboundAdapterSpecView>, i: int) -> Option<int>
    decreases specs.len() - i,
{
    if i < 0 || i >= specs.len() {
        None
    } else if url_problem(specs[i].url) is Some {
        Some(i)
    } else {
        first_url_problem(specs, i + 1)
    }
}

fn outbound_with_ids(specs: &[HttpOutboundAdapterSpec], ids: &Vec<String>) -> (r: Result<
    Vec<HttpOutboundAdapter>,
>)
    requires
        specs.len() == ids.len(),
    ensures
        ({
            let sv = specs@.map_values(|a: HttpOutboundAdapterSpec| a@);
            match first_url_problem(sv, 0) {
                Some(k) => r matches Err(e) && url_problem(sv[k].url) matches Some(m) && e@
                    == err_view(ErrorKind::Other, m),
                None => r matches Ok(xs) && xs.len() == sv.len() && forall|i: int|
                    0 <= i < xs.len() ==> outbound_built((#[trigger] xs[i])@, sv[i], ids@[i]@),
            }
        }),
{
    let ghost sv = specs@.map_values(|a: HttpOutboundAdapterSpec| a@);
    let mut out: Vec<HttpOutboundAdapter> = Vec::new();
    let mut j: usize = 0;
    while j < specs.len()
        invariant
            j <= specs.len() == ids.len(),
            sv == specs@.map_values(|a: HttpOutboundAdapterSpec| a@),
            first_url_problem(sv, 0) == first_url_problem(sv, j as int),
            out.len() == j,
            forall|k: int| 0 <= k < j ==> outbound_built((#[trigger] out@[k])@, sv[k], ids@[k]@),
        decreases specs.len() - j,
    {
        assert(sv[j as int] == specs@[j as int]@);
        match outbound_adapter_with_id(&specs[j], ids[j].as_str()) {
            Ok(x) => {
                out.push(x);
            },
            Err(e) => {
                return Err(e);
            },
        }
        j = j + 1;
    }
    Ok(out)
}

/// Build every HTTP outbound adapter, in order: explicit ids must be
/// non-empty and distinct; missing ids become
/// `http-outbound-adapter:auto.N` after the largest explicit `N`.
pub fn build_http_outbound_adapters_from_spec(spec: HttpOutboundAdaptersSpec) -> (r: Result<
    Vec<HttpOutboundAdapter>,
>)
    requires
        ids_fit(outbound_ids(spec@.adapters), outbound_prefix()),
    ensures
        ({
            let specs = spec@.adapters;
            let ids = outbound_ids(specs);
            match id_scan(no_pre(specs.len()), ids, "http-outbound-adapter"@, true, 0) {
                Some(m) => r matches Err(e) && e@ == err_view(ErrorKind::Serialization, m),
                None => match first_url_problem(specs, 0) {
                    Some(k) => r matches Err(e) && url_problem(specs[k].url) matches Some(m) && e@
                        == err_view(ErrorKind::Other, m),
                    None => r matches Ok(xs) && xs.len() == specs.len() && forall|i: int|
                        0 <= i < xs.len() ==> outbound_built(
                            (#[trigger] xs[i])@,
                            specs[i],
                            assigned_ids(ids, outbound_prefix())[i],
                        ),
                },
            }
        }),
{
    let specs = spec.adapters();
    let ghost sv = specs@.map_values(|a: HttpOutboundAdapterSpec| a@);
    let mut ids: Vec<Option<String>> = Vec::new();
    let mut pre: Vec<Option<String>> = Vec::new();
    let mut i: usize = 0;
    while i < specs.len()
        invariant
            i <= specs.len(),
            sv == specs@.map_values(|a: HttpOutboundAdapterSpec| a@),
            ids.len() == i,
            pre.len() == i,
            forall|k: int| 0 <= k < i ==> opt_string_view(#[trigger] ids@[k]) == sv[k].id,
            forall|k: int| 0 <= k < i ==> (#[trigger] pre@[k]) is None,
        decreases specs.len() - i,
    {
        let id = match specs[i].id() {
            Some(x) => Some(owned(x)),
            None => None,
        };
        ids.push(id);
        pre.push(None);
        i = i + 1;
    }
    proof {
        assert(ids_view(ids@) =~= outbound_ids(sv));
        assert(ids_view(pre@) =~= no_pre(sv.len())) by {
            assert forall|k: int| 0 <= k < pre.len() implies ids_view(pre@)[k] == no_pre(sv.len())[k] by {
                assert(pre@[k] is None);
            }
        }
    }
    let max = scan_ids(&pre, &ids, "http-outbound-adapter", true, "http-outbound-adapter:auto.")?;
    let final_ids = assign_ids(&ids, "http-outbound-adapter:auto.", max + 1);
    proof {
        crate::runtime::ids::lemma_assign_len(outbound_ids(sv), outbound_prefix(), (max + 1) as nat);
    }
    outbound_with_ids(specs, &final_ids)
}

// ---------------------------------------------------------------------------
// Aggregators
// ---------------------------------------------------------------------------

/// Why an aggregator spec cannot be built with `reg`, if it cannot.
pub open spec fn aggregator_problem(a: AggregatorSpecView, reg: PatternRegistryView) -> Option<Seq<char>> {
    if a.id == Some(Seq::<char>::empty()) {
        Some("aggregator.id must not be empty"@)
    } else if a.correlation_header.len() == 0 {
        Some("aggregator.correlation_header must not be empty"@)
    } else if lookup(reg.completions, a.completion) is None {
        Some(
            "unknown completion '"@ + a.completion + "' for aggregator (registered completions: ["@
                + joined(names_of(reg.completions)) + "])"@,
        )
    } else if a.strategy matches Some(s) && lookup(reg.strategies, s) is None {
        Some(
            "unknown strategy '"@ + a.strategy->0 + "' for aggregator (registered strategies: ["@
                + joined(names_of(reg.strategies)) + "])"@,
        )
    } else if a.store matches Some(s) && lookup(reg.stores, s) is None {
        Some(
            "unknown store '"@ + a.store->0 + "' for aggregator (registered stores: ["@ + joined(
                names_of(reg.stores),
            ) + "])"@,
        )
    } else {
        None
    }
}

/// The aggregator built from spec `a`: the registered completion, the
/// registered strategy (text concatenation by default), no groups yet.
pub open spec fn aggregator_built(
    x: AggregatorView<Completion, Strategy>,
    a: AggregatorSpecView,
    reg: PatternRegistryView,
) -> bool {
    &&& x.correlation_header == a.correlation_header
    &&& lookup(reg.completions, a.completion) == Some(x.completion@)
    &&& x.strategy == match a.strategy {
        Some(s) => lookup(reg.strategies, s)->0,
        None => Strategy::ConcatText,
    }
    &&& x.groups == Map::<Seq<char>, GroupView>::empty()
}

/// Build one aggregator, resolving its completion, strategy and store by
/// name in `registry`.
pub fn build_aggregator_from_spec(spec: &AggregatorSpec, registry: &PatternRegistry) -> (r: Result<
    Aggregator,
>)
    ensures
        match aggregator_problem(spec@, registry@) {
            Some(m) => r matches Err(e) && e@ == err_view(ErrorKind::Serialization, m),
            None => r matches Ok(x) && aggregator_built(x@, spec@, registry@),
        },
{
    match spec.id() {
        Some(i) => {
            if crate::text::chars_of(i).len() == 0 {
                assert(spec@.id == Some(Seq::<char>::empty()));
                return Err(Error::serialization(owned("aggregator.id must not be empty")));
            }
        },
        None => {},
    }
    if crate::text::chars_of(spec.correlation_header()).len() == 0 {
        return Err(Error::serialization(owned("aggregator.correlation_header must not be empty")));
    }
    let completion = match registry.completion(spec.completion()) {
        Some(c) => c,
        None => {
            let names = registry.completion_names_joined();
            let m = concat3("unknown completion '", spec.completion(), "' for aggregator (registered completions: [");
            return Err(Error::serialization(concat3(m.as_str(), names.as_str(), "])")));
        },
    };
    let mut agg = Aggregator::with_completion(spec.correlation_header(), completion);
    match spec.strategy() {
        Some(name) => match registry.strategy(name) {
            Some(s) => {
                agg = agg.with_strategy(s);
            },
            None => {
                let names = registry.strategy_names_joined();
                let m = concat3("unknown strategy '", name, "' for aggregator (registered strategies: [");
                return Err(Error::serialization(concat3(m.as_str(), names.as_str(), "])")));
            },
        },
        None => {},
    }
    match spec.store() {
        Some(name) => {
            if registry.store(name) {
                agg = agg.with_store(InMemoryGroupStore::new());
            } else {
                let names = registry.store_names_joined();
                let m = concat3("unknown store '", name, "' for aggregator (registered stores: [");
                return Err(Error::serialization(concat3(m.as_str(), names.as_str(), "])")));
            }
        },
        None => {},
    }
    Ok(agg)
}

/// Reserved prefix of generated aggregator ids.
pub open spec fn aggregator_prefix() -> Seq<char> {
    "aggregator:auto."@
}

pub open spec fn aggregator_ids(specs: Seq<AggregatorSpecView>) -> Seq<Option<Seq<char>>> {
    specs.map_values(|a: AggregatorSpecView| a.id)
}

/// First aggregator spec that cannot be built.
pub open spec fn first_aggregator_problem(
    specs: Seq<AggregatorSpecView>,
    reg: PatternRegistryView,
    i: int,
) -> Option<Seq<char>>
    decreases specs.len() - i,
{
    if i < 0 || i >= specs.len() {
        None
    } else if aggregator_problem(specs[i], reg) is Some {
        aggregator_problem(specs[i], reg)
    } else {
        first_aggregator_problem(specs, reg, i + 1)
    }
}

fn aggregators_with_ids(
    specs: &[AggregatorSpec],
    ids: &Vec<String>,
    registry: &PatternRegistry,
) -> (r: Result<Vec<(String, Aggregator)>>)
    requires
        specs.len() == ids.len(),
    ensures
        ({
            let sv = specs@.map_values(|a: AggregatorSpec| a@);
            match first_aggregator_problem(sv, registry@, 0) {
                Some(m) => r matches Err(e) && e@ == err_view(ErrorKind::Serialization, m),
                None => r matches Ok(xs) && xs.len() == sv.len() && forall|i: int|
                    0 <= i < xs.len() ==> (#[trigger] xs[i]).0@ == ids@[i]@ && aggregator_built(
                        xs[i].1@,
                        sv[i],
                        registry@,
                    ),
            }
        }),
{
    let ghost sv = specs@.map_values(|a: AggregatorSpec| a@);
    let mut out: Vec<(String, Aggregator)> = Vec::new();
    let mut j: usize = 0;
    while j < specs.len()
        invariant
            j <= specs.len() == ids.len(),
            sv == specs@.map_values(|a: AggregatorSpec| a@),
            first_aggregator_problem(sv, registry@, 0) == first_aggregator_problem(sv, registry@, j as int),
            out.len() == j,
            forall|k: int|
                0 <= k < j ==> (#[trigger] out@[k]).0@ == ids@[k]@ && aggregator_built(
                    out@[k].1@,
                    sv[k],
                    registry@,
                ),
        decreases specs.len() - j,
    {
        assert(sv[j as int] == specs@[j as int]@);
        match build_aggregator_from_spec(&specs[j], registry) {
            Ok(x) => {
                out.push((owned(ids[j].as_str()), x));
            },
            Err(e) => {
                return Err(e);
            },
        }
        j = j + 1;
    }
    Ok(out)
}

/// Build every aggregator, paired with its id, in spec order: explicit ids
/// must be non-empty and distinct; missing ids become
/// `aggregator:auto.N` after the largest explicit `N`.
pub fn build_aggregators_from_spec(spec: AggregatorsSpec, registry: &PatternRegistry) -> (r: Result<
    Vec<(String, Aggregator)>,
>)
    requires
        ids_fit(aggregator_ids(spec@.aggregators), aggregator_prefix()),
    ensures
        ({
            let specs = spec@.aggregators;
            let ids = aggregator_ids(specs);
            match id_scan(no_pre(specs.len()), ids, "aggregator"@, true, 0) {
                Some(m) => r matches Err(e) && e@ == err_view(ErrorKind::Serialization, m),
                None => match first_aggregator_problem(specs, registry@, 0) {
                    Some(m) => r matches Err(e) && e@ == err_view(ErrorKind::Serialization, m),
                    None => r matches Ok(xs) && xs.len() == specs.len() && forall|i: int|
                        0 <= i < xs.len() ==> (#[trigger] xs[i]).0@ == assigned_ids(
                            ids,
                            aggregator_prefix(),
                        )[i] && aggregator_built(xs[i].1@, specs[i], registry@),
                },
            }
        }),
{
    let specs = spec.aggregators();
    let ghost sv = specs@.map_values(|a: AggregatorSpec| a@);
    let mut ids: Vec<Option<String>> = Vec::new();
    let mut pre: Vec<Option<String>> = Vec::new();
    let mut i: usize = 0;
    while i < specs.len()
        invariant
            i <= specs.len(),
            sv == specs@.map_values(|a: AggregatorSpec| a@),
            ids.len() == i,
            pre.len() == i,
            forall|k: int| 0 <= k < i ==> opt_string_view(#[trigger] ids@[k]) == sv[k].id,
            forall|k: int| 0 <= k < i ==> (#[trigger] pre@[k]) is None,
        decreases specs.len() - i,
    {
        let id = match specs[i].id() {
            Some(x) => Some(owned(x)),
            None => None,
        };
        ids.push(id);
        pre.push(None);
        i = i + 1;
    }
    proof {
        assert(ids_view(ids@) =~= aggregator_ids(sv));
        assert(ids_view(pre@) =~= no_pre(sv.len())) by {
            assert forall|k: int| 0 <= k < pre.len() implies ids_view(pre@)[k] == no_pre(sv.len())[k] by {
                assert(pre@[k] is None);
            }
        }
    }
    let max = scan_ids(&pre, &ids, "aggregator", true, "aggregator:auto.")?;
    let final_ids = assign_ids(&ids, "aggregator:auto.", max + 1);
    proof {
        crate::runtime::ids::lemma_assign_len(aggregator_ids(sv), aggregator_prefix(), (max + 1) as nat);
    }
    aggregators_with_ids(specs, &final_ids, registry)
}

} // verus!
