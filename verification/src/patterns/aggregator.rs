//! Aggregator: collects messages that share a correlation header into a
//! group, decides when the group is complete, and folds a complete group
//! into one outbound message. The completion condition, the strategy and
//! the group store are pluggable ([`CompletionCondition`],
//! [`AggregationStrategy`], [`GroupStore`]); the built-in ones are
//! [`Completion`], [`ByPredicate`], [`ByWeight`], [`Strategy`] and
//! [`InMemoryGroupStore`].
//!
//! Time is supplied by the caller as milliseconds on a monotonic clock;
//! a timeout completion is evaluated when a message arrives.
use vstd::prelude::*;
use crate::error::Result;
use crate::json::{JsonValue, JsonView, byte_array};
use crate::message::{Exchange, Message, MessageView, Payload, PayloadView, message_id_key, uuid_v4_text};
use crate::text::{chars_of, owned, parse_u64, parse_u64_spec, push_all, string_of};

verus! {

// ---------------------------------------------------------------------------
// Completion conditions
// ---------------------------------------------------------------------------

/// When a group is complete.
#[derive(Debug)]
pub enum Completion {
    /// At least `n` messages.
    BySize(usize),
    /// At least this many milliseconds since the group's first message.
    ByTimeout(u64),
    /// The weights of the messages add up to at least `threshold`; a
    /// message weighs the number in its `header` (0 when absent or not a
    /// number).
    ByWeight { header: String, threshold: u64 },
}

pub enum CompletionView {
    BySize(nat),
    ByTimeout(u64),
    ByWeight(Seq<char>, u64),
}

impl View for Completion {
    type V = CompletionView;

    open spec fn view(&self) -> CompletionView {
        match self {
            Completion::BySize(n) => CompletionView::BySize(*n as nat),
            Completion::ByTimeout(ms) => CompletionView::ByTimeout(*ms),
            Completion::ByWeight { header, threshold } => CompletionView::ByWeight(
                header@,
                *threshold,
            ),
        }
    }
}

/// The weight a message carries in `header`.
pub open spec fn weight_of(m: MessageView, header: Seq<char>) -> nat {
    if m.headers.contains_key(header) {
        match parse_u64_spec(m.headers[header]) {
            Some(w) => w as nat,
            None => 0,
        }
    } else {
        0
    }
}

/// Total weight of a group.
pub open spec fn total_weight(g: Seq<MessageView>, header: Seq<char>) -> nat
    decreases g.len(),
{
    if g.len() == 0 {
        0
    } else {
        total_weight(g.drop_last(), header) + weight_of(g.last(), header)
    }
}

/// Whether a group that started at `first_seen` is complete at `now`.
pub open spec fn is_complete(
    c: CompletionView,
    g: Seq<MessageView>,
    first_seen: u64,
    now: u64,
) -> bool {
    match c {
        CompletionView::BySize(n) => g.len() >= n,
        CompletionView::ByTimeout(ms) => now >= first_seen && now - first_seen >= ms,
        CompletionView::ByWeight(h, t) => total_weight(g, h) >= t,
    }
}

fn message_weight(m: &Message, header: &str) -> (r: u64)
    ensures
        r == weight_of(m@, header@),
{
    match m.header(header) {
        Some(v) => {
            let cs = chars_of(v);
            match parse_u64(cs.as_slice()) {
                Some(w) => w,
                None => 0,
            }
        },
        None => 0,
    }
}

impl Completion {
    /// Whether `group` (first message at `first_seen`) is complete at `now`.
    fn complete_at(&self, group: &[Message], first_seen: u64, now: u64) -> (r: bool)
        ensures
            r == is_complete(self@, group@.map_values(|m: Message| m@), first_seen, now),
    {
        let ghost g = group@.map_values(|m: Message| m@);
        match self {
            Completion::BySize(n) => group.len() >= *n,
            Completion::ByTimeout(ms) => now >= first_seen && now - first_seen >= *ms,
            Completion::ByWeight { header, threshold } => {
                let mut sum: u64 = 0;
                let mut i: usize = 0;
                while i < group.len()
                    invariant
                        i <= group.len(),
                        g == group@.map_values(|m: Message| m@),
                        sum == if total_weight(g.subrange(0, i as int), header@) > u64::MAX {
                            u64::MAX as nat
                        } else {
                            total_weight(g.subrange(0, i as int), header@)
                        },
                    decreases group.len() - i,
                {
                    let w = message_weight(&group[i], header.as_str());
                    proof {
                        assert(g.subrange(0, i + 1).drop_last() =~= g.subrange(0, i as int));
                        assert(g.subrange(0, i + 1).last() == group@[i as int]@);
                    }
                    sum = if w > u64::MAX - sum {
                        u64::MAX
                    } else {
                        sum + w
                    };
                    i = i + 1;
                }
                assert(g.subrange(0, group.len() as int) =~= g);
                sum >= *threshold
            },
        }
    }
}

// ---------------------------------------------------------------------------
// Aggregation strategies
// ---------------------------------------------------------------------------

/// How a complete group becomes one message.
#[derive(Clone, Copy, Debug, PartialEq, Eq, Structural)]
pub enum Strategy {
    /// Concatenate the text bodies (nothing when any body is not text).
    ConcatText,
    /// A JSON array with one element per message.
    JsonArray,
    /// An empty message, as a bare "complete" signal.
    EmitSignal,
}

/// The text bodies of a group, or `None` when some body is not text.
pub open spec fn all_texts(g: Seq<MessageView>) -> Option<Seq<char>>
    decreases g.len(),
{
    if g.len() == 0 {
        Some(Seq::empty())
    } else {
        match (all_texts(g.drop_last()), g.last().payload) {
            (Some(t), PayloadView::Text(s)) => Some(t + s),
            _ => None,
        }
    }
}

/// What a strategy emits for a group: `out` matches the strategy's result.
pub open spec fn combined(s: Strategy, g: Seq<MessageView>, out: Option<MessageView>) -> bool {
    match s {
        Strategy::ConcatText => match all_texts(g) {
            Some(t) => out matches Some(m) && m.payload == PayloadView::Text(t)
                && m.headers.dom() == set![message_id_key()] && uuid_v4_text(m.headers[message_id_key()]),
            None => out is None,
        },
        Strategy::JsonArray => out matches Some(m) && m.payload == PayloadView::Json(
            JsonView::Array(g.map_values(|x: MessageView| json_element(x.payload))),
        ) && m.headers.dom() == set![message_id_key()] && uuid_v4_text(m.headers[message_id_key()]),
        Strategy::EmitSignal => out matches Some(m) && m.payload == PayloadView::Empty
            && m.headers == Map::<Seq<char>, Seq<char>>::empty(),
    }
}

/// The element a message body becomes in a JSON array: a string for
/// text, an array of numbers for bytes, the value itself for JSON, and
/// `null` for an empty body.
pub open spec fn json_element(p: PayloadView) -> JsonView {
    match p {
        PayloadView::Text(s) => JsonView::Str(s),
        PayloadView::Bytes(b) => byte_array(b),
        PayloadView::Json(v) => v,
        PayloadView::Empty => JsonView::Null,
    }
}

impl Strategy {
    /// Fold a complete group into its outbound message.
    fn fold(&self, group: Vec<Message>) -> (r: Option<Message>)
        ensures
            combined(*self, group@.map_values(|m: Message| m@), crate::message::opt_msg_view(r)),
    {
        let ghost g = group@.map_values(|m: Message| m@);
        match self {
            Strategy::ConcatText => {
                let mut acc: Vec<char> = Vec::new();
                let mut i: usize = 0;
                while i < group.len()
                    invariant
                        i <= group.len(),
                        g == group@.map_values(|m: Message| m@),
                        *self == Strategy::ConcatText,
                        all_texts(g.subrange(0, i as int)) == Some(acc@),
                    decreases group.len() - i,
                {
                    proof {
                        assert(g.subrange(0, i + 1).drop_last() =~= g.subrange(0, i as int));
                        assert(g.subrange(0, i + 1).last() == group@[i as int]@);
                    }
                    match group[i].body_text() {
                        Some(t) => {
                            let cs = chars_of(t);
                            push_all(&mut acc, cs.as_slice());
                        },
                        None => {
                            proof {
                                let gi = g.subrange(0, i + 1);
                                assert(gi.drop_last() =~= g.subrange(0, i as int));
                                assert(gi.last() == group@[i as int]@);
                                assert(!(gi.last().payload is Text));
                                assert(all_texts(gi) is None);
                                lemma_all_texts_none_extends(g, i as int + 1);
                            }
                            assert(g.subrange(0, group.len() as int) =~= g);
                            return None;
                        },
                    }
                    i = i + 1;
                }
                assert(g.subrange(0, group.len() as int) =~= g);
                let text = string_of(acc.as_slice());
                Some(Message::from_text(text.as_str()))
            },
            Strategy::JsonArray => {
                let mut items: Vec<JsonValue> = Vec::new();
                let mut rest = group;
                while rest.len() > 0
                    invariant
                        items@.len() + rest@.len() == g.len(),
                        forall|j: int|
                            0 <= j < items@.len() ==> (#[trigger] items@[j])@ == json_element(
                                g[j].payload,
                            ),
                        forall|j: int|
                            0 <= j < rest@.len() ==> (#[trigger] rest@[j])@ == g[items@.len() + j],
                    decreases rest.len(),
                {
                    let ghost k = items@.len() as int;
                    let ghost before = rest@;
                    let m = rest.remove(0);
                    assert(m@ == g[k]) by {
                        assert(before[0]@ == g[k + 0]);
                    }
                    assert forall|j: int| 0 <= j < rest@.len() implies (#[trigger] rest@[j])@
                        == g[k + 1 + j] by {
                        assert(rest@[j] == before[j + 1]);
                        assert(before[j + 1]@ == g[k + (j + 1)]);
                    }
                    let v = match m.payload {
                        Payload::Text(s) => JsonValue::Str(s),
                        Payload::Bytes(b) => JsonValue::from_bytes(b.as_slice()),
                        Payload::Json(v) => v,
                        Payload::Empty => JsonValue::Null,
                    };
                    items.push(v);
                }
                let arr = JsonValue::Array(items);
                assert(arr@ == JsonView::Array(
                    g.map_values(|x: MessageView| json_element(x.payload)),
                )) by {
                    if let JsonView::Array(a) = arr@ {
                        assert(a =~= g.map_values(|x: MessageView| json_element(x.payload)));
                    }
                }
                Some(Message::new(Payload::Json(arr)))
            },
            Strategy::EmitSignal => Some(Message::empty()),
        }
    }
}

proof fn lemma_all_texts_none_extends(g: Seq<MessageView>, i: int)
    requires
        0 <= i <= g.len(),
        all_texts(g.subrange(0, i)) is None,
    ensures
        all_texts(g) is None,
    decreases g.len() - i,
{
    if i < g.len() {
        assert(g.subrange(0, i + 1).drop_last() =~= g.subrange(0, i));
        lemma_all_texts_none_extends(g, i + 1);
    } else {
        assert(g.subrange(0, i) =~= g);
    }
}

// ---------------------------------------------------------------------------
// Group store
// ---------------------------------------------------------------------------

/// An in-progress group: its messages in arrival order and when the first
/// one arrived.
pub struct GroupView {
    pub messages: Seq<MessageView>,
    pub first_seen: u64,
}

#[derive(Debug)]
struct Group {
    key: String,
    messages: Vec<Message>,
    first_seen: u64,
}

pub open spec fn msgs_view(ms: Seq<Message>) -> Seq<MessageView> {
    ms.map_values(|m: Message| m@)
}

spec fn groups_map(gs: Seq<Group>) -> Map<Seq<char>, GroupView>
    decreases gs.len(),
{
    if gs.len() == 0 {
        Map::empty()
    } else {
        let g = gs.last();
        groups_map(gs.drop_last()).insert(
            g.key@,
            GroupView { messages: msgs_view(g.messages@), first_seen: g.first_seen },
        )
    }
}

spec fn keys_unique(gs: Seq<Group>) -> bool {
    forall|a: int, b: int|
        0 <= a < gs.len() && 0 <= b < gs.len() && a != b ==> (#[trigger] gs[a]).key@
            != (#[trigger] gs[b]).key@
}

proof fn lemma_groups_map_has(gs: Seq<Group>, i: int)
    requires
        keys_unique(gs),
        0 <= i < gs.len(),
    ensures
        groups_map(gs).contains_key(gs[i].key@),
        groups_map(gs)[gs[i].key@] == (GroupView {
            messages: msgs_view(gs[i].messages@),
            first_seen: gs[i].first_seen,
        }),
    decreases gs.len(),
{
    if i < gs.len() - 1 {
        let t = gs.drop_last();
        assert(t[i] == gs[i]);
        assert(keys_unique(t)) by {
            assert forall|a: int, b: int|
                0 <= a < t.len() && 0 <= b < t.len() && a != b implies (#[trigger] t[a]).key@
                != (#[trigger] t[b]).key@ by {
                assert(t[a] == gs[a] && t[b] == gs[b]);
            }
        }
        lemma_groups_map_has(t, i);
        assert(gs.last() == gs[gs.len() - 1]);
        assert(gs[gs.len() - 1].key@ != gs[i].key@);
    }
}

proof fn lemma_groups_map_lacks(gs: Seq<Group>, k: Seq<char>)
    requires
        forall|i: int| 0 <= i < gs.len() ==> (#[trigger] gs[i]).key@ != k,
    ensures
        !groups_map(gs).contains_key(k),
    decreases gs.len(),
{
    if gs.len() > 0 {
        let t = gs.drop_last();
        assert forall|i: int| 0 <= i < t.len() implies (#[trigger] t[i]).key@ != k by {
            assert(t[i] == gs[i]);
        }
        lemma_groups_map_lacks(t, k);
        assert(gs.last() == gs[gs.len() - 1]);
    }
}

proof fn lemma_groups_map_dom(gs: Seq<Group>, k: Seq<char>)
    requires
        groups_map(gs).contains_key(k),
    ensures
        exists|i: int| 0 <= i < gs.len() && (#[trigger] gs[i]).key@ == k,
    decreases gs.len(),
{
    if gs.len() > 0 {
        let t = gs.drop_last();
        if k != gs.last().key@ {
            lemma_groups_map_dom(t, k);
            let i = choose|i: int| 0 <= i < t.len() && (#[trigger] t[i]).key@ == k;
            assert(gs[i] == t[i]);
        } else {
            assert(gs[gs.len() - 1].key@ == k);
        }
    }
}

proof fn lemma_groups_map_ext(gs: Seq<Group>, hs: Seq<Group>, m: Map<Seq<char>, GroupView>)
    requires
        keys_unique(gs),
        keys_unique(hs),
        forall|i: int| 0 <= i < hs.len() ==> #[trigger] m.contains_key(hs[i].key@) && m[hs[i].key@]
            == (GroupView { messages: msgs_view(hs[i].messages@), first_seen: hs[i].first_seen }),
        forall|k: Seq<char>| #[trigger] m.contains_key(k) ==> exists|i: int|
            0 <= i < hs.len() && (#[trigger] hs[i]).key@ == k,
    ensures
        groups_map(hs) == m,
{
    assert forall|k: Seq<char>| #[trigger] groups_map(hs).contains_key(k) <==> m.contains_key(k) by {
        if groups_map(hs).contains_key(k) {
            lemma_groups_map_dom(hs, k);
            let i = choose|i: int| 0 <= i < hs.len() && (#[trigger] hs[i]).key@ == k;
            assert(m.contains_key(hs[i].key@));
        }
        if m.contains_key(k) {
            let i = choose|i: int| 0 <= i < hs.len() && (#[trigger] hs[i]).key@ == k;
            lemma_groups_map_has(hs, i);
        }
    }
    assert forall|k: Seq<char>| #[trigger] groups_map(hs).contains_key(k) implies groups_map(hs)[k]
        == m[k] by {
        lemma_groups_map_dom(hs, k);
        let i = choose|i: int| 0 <= i < hs.len() && (#[trigger] hs[i]).key@ == k;
        lemma_groups_map_has(hs, i);
    }
    assert(groups_map(hs) =~= m);
}

/// In-memory store of in-progress groups, keyed by correlation value.
#[derive(Debug)]
pub struct InMemoryGroupStore {
    groups: Vec<Group>,
}

impl View for InMemoryGroupStore {
    type V = Map<Seq<char>, GroupView>;

    closed spec fn view(&self) -> Map<Seq<char>, GroupView> {
        groups_map(self.groups@)
    }
}

fn copy_messages(ms: &Vec<Message>) -> (r: Vec<Message>)
    ensures
        msgs_view(r@) == msgs_view(ms@),
{
    let mut out: Vec<Message> = Vec::new();
    let mut i: usize = 0;
    while i < ms.len()
        invariant
            i <= ms.len(),
            out.len() == i,
            forall|j: int| 0 <= j < i ==> (#[trigger] out@[j])@ == ms@[j]@,
        decreases ms.len() - i,
    {
        out.push(ms[i].duplicate());
        i = i + 1;
    }
    assert(msgs_view(out@) =~= msgs_view(ms@));
    out
}

impl InMemoryGroupStore {
    #[verifier::type_invariant]
    closed spec fn wf(&self) -> bool {
        keys_unique(self.groups@)
    }

    /// No groups.
    pub fn new() -> (r: InMemoryGroupStore)
        ensures
            r@ == Map::<Seq<char>, GroupView>::empty(),
    {
        InMemoryGroupStore { groups: Vec::new() }
    }

    fn find(&self, key: &str) -> (r: Option<usize>)
        ensures
            match r {
                Some(i) => i < self.groups.len() && self.groups@[i as int].key@ == key@,
                None => forall|i: int|
                    0 <= i < self.groups.len() ==> (#[trigger] self.groups@[i]).key@ != key@,
            },
    {
        let mut i: usize = 0;
        while i < self.groups.len()
            invariant
                i <= self.groups.len(),
                forall|j: int| 0 <= j < i ==> (#[trigger] self.groups@[j]).key@ != key@,
            decreases self.groups.len() - i,
        {
            if crate::text::text_eq(self.groups[i].key.as_str(), key) {
                return Some(i);
            }
            i = i + 1;
        }
        None
    }

    /// Append `msg` to the group `key` (starting the group at `now` when it
    /// is new) and return a copy of the group and when it started.
    fn add(&mut self, key: &str, msg: Message, now: u64) -> (r: (Vec<Message>, u64))
        ensures
            ({
                let g = if old(self)@.contains_key(key@) {
                    GroupView {
                        messages: old(self)@[key@].messages.push(msg@),
                        first_seen: old(self)@[key@].first_seen,
                    }
                } else {
                    GroupView { messages: seq![msg@], first_seen: now }
                };
                &&& final(self)@ == old(self)@.insert(key@, g)
                &&& msgs_view(r.0@) == g.messages
                &&& r.1 == g.first_seen
            }),
    {
        proof {
            use_type_invariant(&*self);
        }
        let ghost old_gs = self.groups@;
        let mut gs: Vec<Group> = Vec::new();
        core::mem::swap(&mut gs, &mut self.groups);
        match self.find_in(&gs, key) {
            Some(i) => {
                proof {
                    lemma_groups_map_has(old_gs, i as int);
                }
                let mut g = gs.remove(i);
                g.messages.push(msg);
                let snapshot = copy_messages(&g.messages);
                let first = g.first_seen;
                let ghost gv = GroupView { messages: msgs_view(g.messages@), first_seen: first };
                assert(msgs_view(g.messages@) =~= msgs_view(old_gs[i as int].messages@).push(msg@));
                gs.insert(i, g);
                proof {
                    let target = groups_map(old_gs).insert(key@, gv);
                    assert(gs@ == old_gs.update(i as int, gs@[i as int]));
                    assert(keys_unique(gs@)) by {
                        assert forall|a: int, b: int|
                            0 <= a < gs@.len() && 0 <= b < gs@.len() && a != b implies (
                            #[trigger] gs@[a]).key@ != (#[trigger] gs@[b]).key@ by {
                            if a != i && b != i {
                                assert(gs@[a] == old_gs[a] && gs@[b] == old_gs[b]);
                            } else if a == i {
                                assert(gs@[b] == old_gs[b]);
                                assert(old_gs[a].key@ == key@);
                            } else {
                                assert(gs@[a] == old_gs[a]);
                                assert(old_gs[b].key@ == key@);
                            }
                        }
                    }
                    assert forall|j: int| 0 <= j < gs@.len() implies #[trigger] target.contains_key(
                        gs@[j].key@,
                    ) && target[gs@[j].key@] == (GroupView {
                        messages: msgs_view(gs@[j].messages@),
                        first_seen: gs@[j].first_seen,
                    }) by {
                        if j != i {
                            assert(gs@[j] == old_gs[j]);
                            lemma_groups_map_has(old_gs, j);
                        }
                    }
                    assert forall|k: Seq<char>| #[trigger] target.contains_key(k) implies exists|j: int| 0 <= j < gs@.len() && (#[trigger] gs@[j]).key@ == k by {
                        if k != key@ {
                            lemma_groups_map_dom(old_gs, k);
                            let j = choose|j: int| 0 <= j < old_gs.len() && (#[trigger] old_gs[j]).key@
                                == k;
                            assert(gs@[j] == old_gs[j]);
                        } else {
                            assert(gs@[i as int].key@ == k);
                        }
                    }
                    lemma_groups_map_ext(old_gs, gs@, target);
                }
                self.groups = gs;
                (snapshot, first)
            },
            None => {
                proof {
                    lemma_groups_map_lacks(old_gs, key@);
                }
                let g = Group { key: owned(key), messages: vec![msg], first_seen: now };
                let snapshot = copy_messages(&g.messages);
                gs.push(g);
                proof {
                    assert(gs@.drop_last() =~= old_gs);
                    assert(keys_unique(gs@)) by {
                        assert forall|a: int, b: int|
                            0 <= a < gs@.len() && 0 <= b < gs@.len() && a != b implies (
                            #[trigger] gs@[a]).key@ != (#[trigger] gs@[b]).key@ by {
                            if a < old_gs.len() && b < old_gs.len() {
                                assert(gs@[a] == old_gs[a] && gs@[b] == old_gs[b]);
                            } else if a < old_gs.len() {
                                assert(gs@[a] == old_gs[a]);
                            } else {
                                assert(gs@[b] == old_gs[b]);
                            }
                        }
                    }
                    assert(msgs_view(gs@.last().messages@) =~= seq![msg@]);
                }
                self.groups = gs;
                (snapshot, now)
            },
        }
    }

    fn find_in(&self, gs: &Vec<Group>, key: &str) -> (r: Option<usize>)
        ensures
            match r {
                Some(i) => i < gs.len() && gs@[i as int].key@ == key@,
                None => forall|i: int| 0 <= i < gs.len() ==> (#[trigger] gs@[i]).key@ != key@,
            },
    {
        let mut i: usize = 0;
        while i < gs.len()
            invariant
                i <= gs.len(),
                forall|j: int| 0 <= j < i ==> (#[trigger] gs@[j]).key@ != key@,
            decreases gs.len() - i,
        {
            if crate::text::text_eq(gs[i].key.as_str(), key) {
                return Some(i);
            }
            i = i + 1;
        }
        None
    }

    /// Remove group `key` and return its messages.
    fn remove_group(&mut self, key: &str) -> (r: Option<Vec<Message>>)
        ensures
            final(self)@ == old(self)@.remove(key@),
            match r {
                Some(ms) => old(self)@.contains_key(key@) && msgs_view(ms@) == old(self)@[key@].messages,
                None => !old(self)@.contains_key(key@),
            },
    {
        proof {
            use_type_invariant(&*self);
        }
        let ghost old_gs = self.groups@;
        match self.find(key) {
            Some(i) => {
                proof {
                    lemma_groups_map_has(old_gs, i as int);
                }
                let mut gs: Vec<Group> = Vec::new();
                core::mem::swap(&mut gs, &mut self.groups);
                let g = gs.remove(i);
                proof {
                    let target = groups_map(old_gs).remove(key@);
                    assert forall|a: int| 0 <= a < gs@.len() implies #[trigger] gs@[a] == (if a < i {
                        old_gs[a]
                    } else {
                        old_gs[a + 1]
                    }) by {}
                    assert(keys_unique(gs@)) by {
                        assert forall|a: int, b: int|
                            0 <= a < gs@.len() && 0 <= b < gs@.len() && a != b implies (
                            #[trigger] gs@[a]).key@ != (#[trigger] gs@[b]).key@ by {
                            let a2 = if a < i {
                                a
                            } else {
                                a + 1
                            };
                            let b2 = if b < i {
                                b
                            } else {
                                b + 1
                            };
                            assert(gs@[a] == old_gs[a2] && gs@[b] == old_gs[b2]);
                        }
                    }
                    assert forall|j: int| 0 <= j < gs@.len() implies #[trigger] target.contains_key(
                        gs@[j].key@,
                    ) && target[gs@[j].key@] == (GroupView {
                        messages: msgs_view(gs@[j].messages@),
                        first_seen: gs@[j].first_seen,
                    }) by {
                        let j2 = if j < i {
                            j
                        } else {
                            j + 1
                        };
                        assert(gs@[j] == old_gs[j2]);
                        lemma_groups_map_has(old_gs, j2);
                        assert(old_gs[j2].key@ != old_gs[i as int].key@);
                    }
                    assert forall|k: Seq<char>| #[trigger] target.contains_key(k) implies exists|j: int| 0 <= j < gs@.len() && (#[trigger] gs@[j]).key@ == k by {
                        lemma_groups_map_dom(old_gs, k);
                        let j2 = choose|j: int| 0 <= j < old_gs.len() && (#[trigger] old_gs[j]).key@
                            == k;
                        assert(j2 != i);
                        let j = if j2 < i {
                            j2
                        } else {
                            j2 - 1
                        };
                        assert(gs@[j] == old_gs[j2]);
                    }
                    lemma_groups_map_ext(old_gs, gs@, target);
                }
                self.groups = gs;
                Some(g.messages)
            },
            None => {
                proof {
                    lemma_groups_map_lacks(old_gs, key@);
                    assert(groups_map(old_gs).remove(key@) =~= groups_map(old_gs));
                }
                None
            },
        }
    }

    fn remove_all(&mut self)
        ensures
            final(self)@ == Map::<Seq<char>, GroupView>::empty(),
    {
        self.groups = Vec::new();
    }
}

// ---------------------------------------------------------------------------
// Pluggable parts
// ---------------------------------------------------------------------------

/// Decides when an in-progress group is complete. [`Completion`] holds the
/// built-in conditions and [`ByPredicate`] a caller's predicate; other
/// conditions implement this trait.
pub trait CompletionCondition {
    /// Whether the condition can be asked about any group (unless a
    /// condition says otherwise, it can).
    open spec fn can_decide(&self) -> bool {
        true
    }

    /// `complete` is an answer the condition may give for `group` (whose
    /// first message arrived at `first_seen`) at `now`. Unless a condition
    /// says more, any answer may be given.
    open spec fn decides(&self, group: Seq<MessageView>, first_seen: u64, now: u64, complete: bool) -> bool {
        true
    }

    /// Whether `group` is complete.
    fn is_complete(&self, group: &[Message], first_seen: u64, now: u64) -> (r: bool)
        requires
            self.can_decide(),
        ensures
            self.decides(msgs_view(group@), first_seen, now, r),
    ;
}

impl CompletionCondition for Completion {
    open spec fn can_decide(&self) -> bool {
        true
    }

    open spec fn decides(&self, group: Seq<MessageView>, first_seen: u64, now: u64, complete: bool) -> bool {
        complete == is_complete(self@, group, first_seen, now)
    }

    fn is_complete(&self, group: &[Message], first_seen: u64, now: u64) -> (r: bool) {
        self.complete_at(group, first_seen, now)
    }
}

/// Completion decided by a caller's predicate over the group's messages.
pub struct ByPredicate<F: Fn(&[Message]) -> bool>(pub F);

impl<F: Fn(&[Message]) -> bool> CompletionCondition for ByPredicate<F> {
    /// The predicate accepts every group.
    open spec fn can_decide(&self) -> bool {
        forall|g: &[Message]| #[trigger] call_requires(self.0, (g,))
    }

    /// `complete` is what the predicate may answer for messages whose views
    /// are `group`.
    open spec fn decides(&self, group: Seq<MessageView>, first_seen: u64, now: u64, complete: bool) -> bool {
        exists|g: &[Message]| msgs_view(g@) == group && #[trigger] call_ensures(self.0, (g,), complete)
    }

    fn is_complete(&self, group: &[Message], first_seen: u64, now: u64) -> (r: bool) {
        (self.0)(group)
    }
}

/// Sum of a sequence of weights.
pub open spec fn weights_sum(ws: Seq<u64>) -> nat
    decreases ws.len(),
{
    if ws.len() == 0 {
        0
    } else {
        weights_sum(ws.drop_last()) + ws.last() as nat
    }
}

/// Weighted completion with a caller's weight function: complete when the
/// weights of the group's messages add up to at least `threshold`.
pub struct ByWeight<F: Fn(&Message) -> u64> {
    pub weight: F,
    pub threshold: u64,
}

impl<F: Fn(&Message) -> u64> CompletionCondition for ByWeight<F> {
    /// The weight function accepts every message.
    open spec fn can_decide(&self) -> bool {
        forall|m: &Message| #[trigger] call_requires(self.weight, (m,))
    }

    /// `complete` says whether weights the function may give the messages
    /// (whose views are `group`) add up to `threshold`.
    open spec fn decides(&self, group: Seq<MessageView>, first_seen: u64, now: u64, complete: bool) -> bool {
        exists|ms: Seq<Message>, ws: Seq<u64>|
            #![trigger msgs_view(ms), weights_sum(ws)]
            msgs_view(ms) == group && ws.len() == ms.len() && (forall|i: int|
                0 <= i < ms.len() ==> call_ensures(self.weight, (&ms[i],), #[trigger] ws[i]))
                && complete == (weights_sum(ws) >= self.threshold)
    }

    fn is_complete(&self, group: &[Message], first_seen: u64, now: u64) -> (r: bool) {
        let mut sum: u64 = 0;
        let ghost mut ws: Seq<u64> = Seq::empty();
        let mut i: usize = 0;
        while i < group.len()
            invariant
                i <= group.len(),
                forall|m: &Message| #[trigger] call_requires(self.weight, (m,)),
                ws.len() == i,
                forall|j: int| 0 <= j < i ==> call_ensures(self.weight, (&group@[j],), #[trigger] ws[j]),
                sum == if weights_sum(ws) > u64::MAX {
                    u64::MAX as nat
                } else {
                    weights_sum(ws)
                },
            decreases group.len() - i,
        {
            let w = (self.weight)(&group[i]);
            proof {
                let ws2 = ws.push(w);
                assert(ws2.drop_last() =~= ws);
                ws = ws2;
            }
            sum = if w > u64::MAX - sum {
                u64::MAX
            } else {
                sum + w
            };
            i = i + 1;
        }
        sum >= self.threshold
    }
}

/// Folds a complete group into one message; `None` means the group is
/// complete but nothing is emitted. [`Strategy`] holds the built-in
/// strategies; others implement this trait.
pub trait AggregationStrategy {
    /// `out` is what the strategy may emit for `group`. Unless a strategy
    /// says more, it may emit anything.
    open spec fn folds(&self, group: Seq<MessageView>, out: Option<MessageView>) -> bool {
        true
    }

    /// Fold `group`.
    fn combine(&self, group: Vec<Message>) -> (r: Option<Message>)
        ensures
            self.folds(msgs_view(group@), crate::message::opt_msg_view(r)),
    ;
}

impl AggregationStrategy for Strategy {
    open spec fn folds(&self, group: Seq<MessageView>, out: Option<MessageView>) -> bool {
        combined(*self, group, out)
    }

    fn combine(&self, group: Vec<Message>) -> (r: Option<Message>) {
        self.fold(group)
    }
}

/// Keeps the in-progress groups, keyed by correlation value.
/// [`InMemoryGroupStore`] is the built-in store; a durable one implements
/// this trait. A store promises the bookkeeping below only when it keeps
/// groups (`keeps_groups`); a store that does not say so promises nothing.
pub trait GroupStore {
    /// Whether the store keeps [`GroupStore::groups`] as described.
    open spec fn keeps_groups(&self) -> bool {
        false
    }

    /// The groups held.
    open spec fn groups(&self) -> Map<Seq<char>, GroupView> {
        Map::empty()
    }

    /// Append `msg` to the group `key` (starting it at `now` when it is new)
    /// and return a copy of the group and when it started.
    fn append(&mut self, key: &str, msg: Message, now: u64) -> (r: (Vec<Message>, u64))
        ensures
            final(self).keeps_groups() == old(self).keeps_groups(),
            old(self).keeps_groups() ==> ({
                let g = grown(old(self).groups(), key@, msg@, now);
                &&& final(self).groups() == old(self).groups().insert(key@, g)
                &&& msgs_view(r.0@) == g.messages
                &&& r.1 == g.first_seen
            }),
    ;

    /// Remove group `key` and return its messages.
    fn take(&mut self, key: &str) -> (r: Option<Vec<Message>>)
        ensures
            final(self).keeps_groups() == old(self).keeps_groups(),
            old(self).keeps_groups() ==> final(self).groups() == old(self).groups().remove(key@),
            old(self).keeps_groups() ==> match r {
                Some(ms) => old(self).groups().contains_key(key@) && msgs_view(ms@) == old(
                    self,
                ).groups()[key@].messages,
                None => !old(self).groups().contains_key(key@),
            },
    ;

    /// Drop every group.
    fn clear(&mut self)
        ensures
            final(self).keeps_groups() == old(self).keeps_groups(),
            old(self).keeps_groups() ==> final(self).groups() == Map::<Seq<char>, GroupView>::empty(),
    ;
}

impl GroupStore for InMemoryGroupStore {
    open spec fn keeps_groups(&self) -> bool {
        true
    }

    open spec fn groups(&self) -> Map<Seq<char>, GroupView> {
        self@
    }

    fn append(&mut self, key: &str, msg: Message, now: u64) -> (r: (Vec<Message>, u64)) {
        self.add(key, msg, now)
    }

    fn take(&mut self, key: &str) -> (r: Option<Vec<Message>>) {
        self.remove_group(key)
    }

    fn clear(&mut self) {
        self.remove_all()
    }
}

// ---------------------------------------------------------------------------
// Aggregator
// ---------------------------------------------------------------------------

/// Groups messages by a correlation header and emits a combined message
/// when a group completes: a completion condition `C`, a strategy `S` and a
/// group store `G`.
#[derive(Debug)]
pub struct Aggregator<
    C: CompletionCondition = Completion,
    S: AggregationStrategy = Strategy,
    G: GroupStore = InMemoryGroupStore,
> {
    correlation_header: String,
    completion: C,
    strategy: S,
    store: G,
}

pub struct AggregatorView<C, S> {
    pub correlation_header: Seq<char>,
    pub completion: C,
    pub strategy: S,
    /// Whether the store keeps its groups as [`GroupStore`] describes.
    pub keeps_groups: bool,
    pub groups: Map<Seq<char>, GroupView>,
}

impl<C: CompletionCondition, S: AggregationStrategy, G: GroupStore> View for Aggregator<C, S, G> {
    type V = AggregatorView<C, S>;

    closed spec fn view(&self) -> AggregatorView<C, S> {
        AggregatorView {
            correlation_header: self.correlation_header@,
            completion: self.completion,
            strategy: self.strategy,
            keeps_groups: self.store.keeps_groups(),
            groups: self.store.groups(),
        }
    }
}

/// The group `key` would hold after `m` arrives at `now`.
pub open spec fn grown(groups: Map<Seq<char>, GroupView>, key: Seq<char>, m: MessageView, now: u64) -> GroupView {
    if groups.contains_key(key) {
        GroupView { messages: groups[key].messages.push(m), first_seen: groups[key].first_seen }
    } else {
        GroupView { messages: seq![m], first_seen: now }
    }
}

/// Groups are kept per correlation key: adding to one group or removing a
/// completed one leaves every other group as it was, and the first message
/// after a group completed starts a new group of its own.
pub proof fn law_groups_per_key(
    groups: Map<Seq<char>, GroupView>,
    key: Seq<char>,
    other: Seq<char>,
    m: MessageView,
    now: u64,
)
    ensures
        other != key ==> groups.insert(key, grown(groups, key, m, now)).contains_key(other)
            == groups.contains_key(other) && groups.insert(key, grown(groups, key, m, now))[other]
            == groups[other],
        other != key ==> groups.remove(key).contains_key(other) == groups.contains_key(other)
            && groups.remove(key)[other] == groups[other],
        grown(groups.remove(key), key, m, now) == (GroupView { messages: seq![m], first_seen: now }),
{
}

impl Aggregator {
    /// Size completion (`n` messages), text concatenation, empty store.
    pub fn new(correlation_header: &str, completion_size: usize) -> (r: Aggregator)
        ensures
            r@.correlation_header == correlation_header@,
            r@.completion@ == CompletionView::BySize(completion_size as nat),
            r@.strategy == Strategy::ConcatText,
            r@.keeps_groups,
            r@.groups == Map::<Seq<char>, GroupView>::empty(),
    {
        Aggregator::with_completion(correlation_header, Completion::BySize(completion_size))
    }

    /// Timeout completion after `millis` milliseconds.
    pub fn timed(correlation_header: &str, millis: u64) -> (r: Aggregator)
        ensures
            r@.correlation_header == correlation_header@,
            r@.completion@ == CompletionView::ByTimeout(millis),
            r@.strategy == Strategy::ConcatText,
            r@.keeps_groups,
            r@.groups == Map::<Seq<char>, GroupView>::empty(),
    {
        Aggregator::with_completion(correlation_header, Completion::ByTimeout(millis))
    }
}

impl<F: Fn(&Message) -> u64> Aggregator<ByWeight<F>> {
    /// Weighted completion: the weights `weight` gives the messages must
    /// add up to `threshold`.
    pub fn weighted(correlation_header: &str, weight: F, threshold: u64) -> (r: Aggregator<ByWeight<F>>)
        ensures
            r@.correlation_header == correlation_header@,
            r@.completion == (ByWeight { weight, threshold }),
            r@.strategy == Strategy::ConcatText,
            r@.keeps_groups,
            r@.groups == Map::<Seq<char>, GroupView>::empty(),
    {
        Aggregator::with_completion(correlation_header, ByWeight { weight, threshold })
    }
}

impl<F: Fn(&[Message]) -> bool> Aggregator<ByPredicate<F>> {
    /// Completion decided by `predicate` over the group's messages.
    pub fn when(correlation_header: &str, predicate: F) -> (r: Aggregator<ByPredicate<F>>)
        ensures
            r@.correlation_header == correlation_header@,
            r@.completion == ByPredicate(predicate),
            r@.strategy == Strategy::ConcatText,
            r@.keeps_groups,
            r@.groups == Map::<Seq<char>, GroupView>::empty(),
    {
        Aggregator::with_completion(correlation_header, ByPredicate(predicate))
    }
}

impl<C: CompletionCondition> Aggregator<C> {
    /// Any completion, text concatenation, empty store.
    pub fn with_completion(correlation_header: &str, completion: C) -> (r: Aggregator<C>)
        ensures
            r@.correlation_header == correlation_header@,
            r@.completion == completion,
            r@.strategy == Strategy::ConcatText,
            r@.keeps_groups,
            r@.groups == Map::<Seq<char>, GroupView>::empty(),
    {
        Aggregator {
            correlation_header: owned(correlation_header),
            completion,
            strategy: Strategy::ConcatText,
            store: InMemoryGroupStore::new(),
        }
    }
}

impl<C: CompletionCondition, S: AggregationStrategy, G: GroupStore> Aggregator<C, S, G> {
    /// Replace the strategy.
    pub fn with_strategy<T: AggregationStrategy>(self, strategy: T) -> (r: Aggregator<C, T, G>)
        ensures
            r@ == (AggregatorView {
                correlation_header: self@.correlation_header,
                completion: self@.completion,
                strategy,
                keeps_groups: self@.keeps_groups,
                groups: self@.groups,
            }),
    {
        Aggregator {
            correlation_header: self.correlation_header,
            completion: self.completion,
            strategy,
            store: self.store,
        }
    }

    /// Replace the group store.
    pub fn with_store<H: GroupStore>(self, store: H) -> (r: Aggregator<C, S, H>)
        ensures
            r@ == (AggregatorView {
                correlation_header: self@.correlation_header,
                completion: self@.completion,
                strategy: self@.strategy,
                keeps_groups: store.keeps_groups(),
                groups: store.groups(),
            }),
    {
        Aggregator {
            correlation_header: self.correlation_header,
            completion: self.completion,
            strategy: self.strategy,
            store,
        }
    }

    /// Drop every in-progress group.
    pub fn clear_store(&mut self)
        ensures
            final(self)@.correlation_header == old(self)@.correlation_header,
            final(self)@.completion == old(self)@.completion,
            final(self)@.strategy == old(self)@.strategy,
            final(self)@.keeps_groups == old(self)@.keeps_groups,
            old(self)@.keeps_groups ==> final(self)@.groups == Map::<Seq<char>, GroupView>::empty(),
    {
        self.store.clear();
    }

    /// Add the exchange's inbound message to its group (selected by the
    /// correlation header; exchanges without it pass untouched). When the
    /// condition finds the group complete it leaves the store and the
    /// strategy's message, if any, becomes the exchange's outbound message.
    pub fn process(&mut self, exchange: &mut Exchange, now: u64) -> (r: Result<()>)
        requires
            old(self)@.completion.can_decide(),
        ensures
            r is Ok,
            final(self)@.correlation_header == old(self)@.correlation_header,
            final(self)@.completion == old(self)@.completion,
            final(self)@.strategy == old(self)@.strategy,
            final(self)@.keeps_groups == old(self)@.keeps_groups,
            final(exchange)@.in_msg == old(exchange)@.in_msg,
            final(exchange)@.properties == old(exchange)@.properties,
            ({
                let h = old(self)@.correlation_header;
                let hs = old(exchange)@.in_msg.headers;
                if !hs.contains_key(h) {
                    final(self)@.groups == old(self)@.groups && final(exchange)@ == old(exchange)@
                } else if old(self)@.keeps_groups {
                    let key = hs[h];
                    let g = grown(old(self)@.groups, key, old(exchange)@.in_msg, now);
                    exists|complete: bool|
                        #[trigger] old(self)@.completion.decides(g.messages, g.first_seen, now, complete)
                            && if complete {
                            &&& final(self)@.groups == old(self)@.groups.remove(key)
                            &&& exists|out: Option<MessageView>|
                                #[trigger] old(self)@.strategy.folds(g.messages, out)
                                    && final(exchange)@.out_msg == match out {
                                    Some(m) => Some(m),
                                    None => old(exchange)@.out_msg,
                                }
                        } else {
                            &&& final(self)@.groups == old(self)@.groups.insert(key, g)
                            &&& final(exchange)@ == old(exchange)@
                        }
                } else {
                    final(exchange)@.out_msg == old(exchange)@.out_msg || exists|
                        gs: Seq<MessageView>,
                        m: MessageView,
                    | #[trigger] old(self)@.strategy.folds(gs, Some(m)) && final(exchange)@.out_msg
                        == Some(m)
                }
            }),
    {
        let key = match exchange.in_msg.header(self.correlation_header.as_str()) {
            Some(k) => owned(k),
            None => {
                return Ok(());
            },
        };
        let copy = exchange.in_msg.duplicate();
        let ghost g = grown(old(self)@.groups, key@, old(exchange)@.in_msg, now);
        let (group, first_seen) = self.store.append(key.as_str(), copy, now);
        let complete = self.completion.is_complete(group.as_slice(), first_seen, now);
        assert(old(self)@.keeps_groups ==> old(self)@.completion.decides(g.messages, g.first_seen, now, complete));
        if complete {
            match self.store.take(key.as_str()) {
                Some(completed) => {
                    let ghost gs = msgs_view(completed@);
                    let out = self.strategy.combine(completed);
                    let ghost outv = crate::message::opt_msg_view(out);
                    match out {
                        Some(m) => {
                            exchange.out_msg = Some(m);
                        },
                        None => {},
                    }
                    assert(old(self)@.strategy.folds(gs, outv));
                    assert(old(self)@.keeps_groups ==> gs == g.messages);
                    proof {
                        if let Some(m) = outv {
                            assert(old(self)@.strategy.folds(gs, Some(m)));
                        }
                    }
                },
                None => {},
            }
            assert(old(self)@.keeps_groups ==> self.store.groups() =~= old(self)@.groups.remove(key@)) by {
                assert(old(self)@.groups.insert(key@, g).remove(key@) =~= old(self)@.groups.remove(
                    key@,
                ));
            }
        }
        Ok(())
    }
}

} // verus!
