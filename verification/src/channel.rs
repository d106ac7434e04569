//! Channels: in-process pipes that move exchanges between stages.
//!
//! * [`QueueChannel`] buffers exchanges first-in first-out and supports
//!   correlation: exchanges can be sent under a correlation id and taken
//!   back out by that id.
//! * [`DirectChannel`] hands each exchange to its subscribers at once; the
//!   subscriptions themselves are callbacks kept by the embedding program.
use vstd::prelude::*;
use crate::error::Result;
use crate::message::{Exchange, ExchangeView, new_uuid};
use crate::text::{concat2, decimal, decimal_chars, owned, string_of};
use crate::runtime::ids::lemma_parse_decimal;

use std::collections::VecDeque;

verus! {

/// Header under which a queue channel records correlation ids.
pub open spec fn corr_id_key() -> Seq<char> {
    "corr_id"@
}

/// The correlation id an exchange carries, if any.
pub open spec fn corr_of(ex: ExchangeView) -> Option<Seq<char>> {
    if ex.in_msg.headers.contains_key(corr_id_key()) {
        Some(ex.in_msg.headers[corr_id_key()])
    } else {
        None
    }
}

/// The correlation id text generated from counter value `n`: `c<n>`.
pub open spec fn corr_text(n: u64) -> Seq<char> {
    seq!['c'] + decimal(n as nat)
}

/// The counter after one id was drawn (it wraps like an atomic add).
pub open spec fn next_seq(n: u64) -> u64 {
    if n == u64::MAX {
        0
    } else {
        (n + 1) as u64
    }
}

/// `ex` after correlation was ensured: an existing `corr_id` is kept (and
/// copied to `correlation_id` when that is missing); otherwise `fresh` is
/// stored under both keys (an existing `correlation_id` stays).
pub open spec fn correlated(ex: ExchangeView, fresh: Seq<char>) -> ExchangeView {
    let h = ex.in_msg.headers;
    let cid = match corr_of(ex) {
        Some(c) => c,
        None => fresh,
    };
    let h1 = h.insert(corr_id_key(), cid);
    let h2 = if h.contains_key("correlation_id"@) {
        h1
    } else {
        h1.insert("correlation_id"@, cid)
    };
    ExchangeView { in_msg: crate::message::MessageView { headers: h2, ..ex.in_msg }, ..ex }
}

/// Position of the first queued exchange whose `corr_id` is `cid`.
pub open spec fn first_with_corr(q: Seq<ExchangeView>, cid: Seq<char>, i: int) -> Option<int>
    decreases q.len() - i,
{
    if i < 0 || i >= q.len() {
        None
    } else if corr_of(q[i]) == Some(cid) {
        Some(i)
    } else {
        first_with_corr(q, cid, i + 1)
    }
}

pub proof fn lemma_first_with_corr(q: Seq<ExchangeView>, cid: Seq<char>, i: int)
    requires
        0 <= i,
    ensures
        match first_with_corr(q, cid, i) {
            Some(k) => i <= k < q.len() && corr_of(q[k]) == Some(cid) && forall|m: int|
                i <= m < k ==> corr_of(#[trigger] q[m]) != Some(cid),
            None => forall|m: int| i <= m < q.len() ==> corr_of(#[trigger] q[m]) != Some(cid),
        },
    decreases q.len() - i,
{
    if i < q.len() && corr_of(q[i]) != Some(cid) {
        lemma_first_with_corr(q, cid, i + 1);
    }
}

/// A buffered first-in first-out channel.
#[derive(Debug)]
pub struct QueueChannel {
    id: String,
    queue: VecDeque<Exchange>,
    corr_seq: u64,
}

pub struct QueueChannelView {
    pub id: Seq<char>,
    pub queue: Seq<ExchangeView>,
    pub corr_seq: u64,
}

impl View for QueueChannel {
    type V = QueueChannelView;

    closed spec fn view(&self) -> QueueChannelView {
        QueueChannelView {
            id: self.id@,
            queue: self.queue@.map_values(|e: Exchange| e@),
            corr_seq: self.corr_seq,
        }
    }
}

impl QueueChannel {
    /// An empty queue with id `id`; correlation ids start at `c1`.
    pub fn with_id(id: &str) -> (r: QueueChannel)
        ensures
            r@.id == id@,
            r@.queue == Seq::<ExchangeView>::empty(),
            r@.corr_seq == 1,
    {
        let q = QueueChannel { id: owned(id), queue: VecDeque::new(), corr_seq: 1 };
        assert(q@.queue =~= Seq::<ExchangeView>::empty());
        q
    }

    /// An empty queue with id `queue:<uuid>`.
    pub fn with_random_id() -> (r: QueueChannel)
        ensures
            r@.id.len() == 6 + 36,
            r@.id.subrange(0, 6) == "queue:"@,
            r@.queue == Seq::<ExchangeView>::empty(),
            r@.corr_seq == 1,
    {
        let u = new_uuid();
        let id = concat2("queue:", u.as_str());
        proof {
            reveal_strlit("queue:");
            assert(id@.subrange(0, 6) =~= "queue:"@);
        }
        QueueChannel::with_id(id.as_str())
    }

    /// The channel id.
    pub fn id(&self) -> (r: &str)
        ensures
            r@ == self@.id,
    {
        self.id.as_str()
    }

    /// Number of queued exchanges.
    pub fn len(&self) -> (r: usize)
        ensures
            r == self@.queue.len(),
    {
        self.queue.len()
    }

    /// Enqueue at the back.
    pub fn send(&mut self, exchange: Exchange) -> (r: Result<()>)
        ensures
            r is Ok,
            final(self)@.id == old(self)@.id,
            final(self)@.corr_seq == old(self)@.corr_seq,
            final(self)@.queue == old(self)@.queue.push(exchange@),
    {
        self.queue.push_back(exchange);
        assert(self@.queue =~= old(self)@.queue.push(exchange@));
        Ok(())
    }

    /// Dequeue from the front, if anything is queued.
    pub fn try_receive(&mut self) -> (r: Option<Exchange>)
        ensures
            final(self)@.id == old(self)@.id,
            final(self)@.corr_seq == old(self)@.corr_seq,
            old(self)@.queue.len() == 0 ==> r is None && final(self)@.queue == old(self)@.queue,
            old(self)@.queue.len() > 0 ==> (r matches Some(e) && e@ == old(self)@.queue[0]
                && final(self)@.queue == old(self)@.queue.drop_first()),
    {
        let r = self.queue.pop_front();
        assert(self@.queue =~= if old(self)@.queue.len() == 0 {
            old(self)@.queue
        } else {
            old(self)@.queue.drop_first()
        });
        r
    }

    /// Draw the next correlation id, `c<n>`.
    pub fn next_corr_id(&mut self) -> (r: String)
        ensures
            r@ == corr_text(old(self)@.corr_seq),
            final(self)@.corr_seq == next_seq(old(self)@.corr_seq),
            final(self)@.id == old(self)@.id,
            final(self)@.queue == old(self)@.queue,
    {
        let n = self.corr_seq;
        self.corr_seq = if n == u64::MAX {
            0
        } else {
            n + 1
        };
        let digits = decimal_chars(n);
        let text = string_of(digits.as_slice());
        proof {
            reveal_strlit("c");
        }
        concat2("c", text.as_str())
    }

    /// Make sure `exchange` carries a correlation id and return it: an
    /// existing `corr_id` is reused, otherwise a new one is drawn.
    pub fn ensure_correlation(&mut self, exchange: &mut Exchange) -> (r: String)
        ensures
            final(self)@.id == old(self)@.id,
            final(self)@.queue == old(self)@.queue,
            corr_of(old(exchange)@) matches Some(c) ==> r@ == c && final(self)@.corr_seq == old(self)@.corr_seq && final(exchange)@ == correlated(old(exchange)@, c),
            corr_of(old(exchange)@) is None ==> r@ == corr_text(old(self)@.corr_seq) && final(self)@.corr_seq == next_seq(old(self)@.corr_seq) && final(exchange)@ == correlated(
                old(exchange)@,
                r@,
            ),
    {
        let existing = match exchange.in_msg.header("corr_id") {
            Some(v) => Some(owned(v)),
            None => None,
        };
        let id = match existing {
            Some(v) => v,
            None => {
                let fresh = self.next_corr_id();
                exchange.in_msg.set_header("corr_id", fresh.as_str());
                fresh
            },
        };
        if exchange.in_msg.header("correlation_id").is_none() {
            exchange.in_msg.set_header("correlation_id", id.as_str());
        }
        proof {
            let c = match corr_of(old(exchange)@) {
                Some(c) => c,
                None => id@,
            };
            assert(exchange@.in_msg.headers =~= correlated(old(exchange)@, c).in_msg.headers);
        }
        id
    }

    /// Ensure a correlation id, enqueue, and return the id.
    pub fn send_with_correlation(&mut self, exchange: Exchange) -> (r: Result<String>)
        ensures
            r matches Ok(cid) && final(self)@.queue == old(self)@.queue.push(
                correlated(exchange@, cid@),
            ) && (corr_of(exchange@) matches Some(c) ==> cid@ == c && final(self)@.corr_seq
                == old(self)@.corr_seq) && (corr_of(exchange@) is None ==> cid@ == corr_text(
                old(self)@.corr_seq,
            ) && final(self)@.corr_seq == next_seq(old(self)@.corr_seq)),
            final(self)@.id == old(self)@.id,
    {
        let mut ex = exchange;
        let cid = self.ensure_correlation(&mut ex);
        let _ = self.send(ex);
        Ok(cid)
    }

    /// Remove and return the first queued exchange whose `corr_id` is
    /// `corr_id`, if any.
    pub fn receive_by_correlation(&mut self, corr_id: &str) -> (r: Option<Exchange>)
        ensures
            final(self)@.id == old(self)@.id,
            final(self)@.corr_seq == old(self)@.corr_seq,
            match first_with_corr(old(self)@.queue, corr_id@, 0) {
                Some(k) => r matches Some(e) && e@ == old(self)@.queue[k] && final(self)@.queue
                    == old(self)@.queue.remove(k),
                None => r is None && final(self)@.queue == old(self)@.queue,
            },
    {
        let ghost q = self@.queue;
        proof {
            lemma_first_with_corr(q, corr_id@, 0);
        }
        let mut i: usize = 0;
        while i < self.queue.len()
            invariant
                i <= self.queue.len(),
                q == self@.queue,
                self@.id == old(self)@.id,
                self@.corr_seq == old(self)@.corr_seq,
                q == old(self)@.queue,
                first_with_corr(q, corr_id@, 0) == first_with_corr(q, corr_id@, i as int),
            decreases self.queue.len() - i,
        {
            let hit = match self.queue[i].in_msg.header("corr_id") {
                Some(v) => crate::text::text_eq(v, corr_id),
                None => false,
            };
            assert(self.queue@[i as int]@ == q[i as int]);
            if hit {
                let e = self.queue.remove(i);
                assert(self@.queue =~= q.remove(i as int));
                return e;
            }
            i = i + 1;
        }
        None
    }
}

/// A channel that hands each exchange straight to its subscribers.
#[derive(Debug)]
pub struct DirectChannel {
    id: String,
}

impl DirectChannel {
    /// A direct channel with id `id`.
    pub fn with_id(id: &str) -> (r: DirectChannel)
        ensures
            r.spec_id() == id@,
    {
        DirectChannel { id: owned(id) }
    }

    /// A direct channel with id `direct:<uuid>`.
    pub fn with_random_id() -> (r: DirectChannel)
        ensures
            r.spec_id().len() == 7 + 36,
            r.spec_id().subrange(0, 7) == "direct:"@,
    {
        let u = new_uuid();
        let id = concat2("direct:", u.as_str());
        proof {
            reveal_strlit("direct:");
            assert(id@.subrange(0, 7) =~= "direct:"@);
        }
        DirectChannel { id }
    }

    /// The channel id.
    pub fn id(&self) -> (r: &str)
        ensures
            r@ == self.spec_id(),
    {
        self.id.as_str()
    }

    pub closed spec fn spec_id(&self) -> Seq<char> {
        self.id@
    }
}

/// Kind of a channel.
#[derive(Clone, Copy, Debug, PartialEq, Eq, Structural)]
pub enum ChannelKind {
    Direct,
    Queue,
}

/// A channel of either kind.
#[derive(Debug)]
pub enum Channel {
    Direct(DirectChannel),
    Queue(QueueChannel),
}

impl Channel {
    pub open spec fn spec_id(&self) -> Seq<char> {
        match self {
            Channel::Direct(d) => d.spec_id(),
            Channel::Queue(q) => q@.id,
        }
    }

    pub open spec fn spec_kind(&self) -> ChannelKind {
        match self {
            Channel::Direct(_) => ChannelKind::Direct,
            Channel::Queue(_) => ChannelKind::Queue,
        }
    }

    /// The channel id.
    pub fn id(&self) -> (r: &str)
        ensures
            r@ == self.spec_id(),
    {
        match self {
            Channel::Direct(d) => {
                let r = d.id();
                assert(r@ == d.spec_id());
                r
            },
            Channel::Queue(q) => q.id(),
        }
    }

    /// The channel kind.
    pub fn kind(&self) -> (r: ChannelKind)
        ensures
            r == self.spec_kind(),
    {
        match self {
            Channel::Direct(_) => ChannelKind::Direct,
            Channel::Queue(_) => ChannelKind::Queue,
        }
    }

    /// The kind's name: `direct` or `queue`.
    pub fn kind_name(&self) -> (r: &'static str)
        ensures
            self.spec_kind() == ChannelKind::Direct ==> r@ == "direct"@,
            self.spec_kind() == ChannelKind::Queue ==> r@ == "queue"@,
    {
        match self {
            Channel::Direct(_) => "direct",
            Channel::Queue(_) => "queue",
        }
    }
}

/// A new queue channel with a random id, as a [`Channel`].
pub fn new_queue() -> (r: Channel)
    ensures
        r.spec_kind() == ChannelKind::Queue,
        r.spec_id().len() == 42,
        r.spec_id().subrange(0, 6) == "queue:"@,
{
    Channel::Queue(QueueChannel::with_random_id())
}

/// A new queue channel with id `id`, as a [`Channel`].
pub fn new_queue_with_id(id: &str) -> (r: Channel)
    ensures
        r.spec_kind() == ChannelKind::Queue,
        r.spec_id() == id@,
        r matches Channel::Queue(q) && q@.queue.len() == 0,
{
    Channel::Queue(QueueChannel::with_id(id))
}

/// Correlation ids drawn from one queue channel do not repeat before its
/// counter wraps: different counter values give different ids, and each
/// draw advances the counter by one until it reaches `u64::MAX`.
pub proof fn law_corr_ids_distinct(a: u64, b: u64)
    ensures
        a != b ==> corr_text(a) != corr_text(b),
        a < u64::MAX ==> next_seq(a) == a + 1,
{
    if a != b && corr_text(a) == corr_text(b) {
        assert(corr_text(a).drop_first() =~= decimal(a as nat));
        assert(corr_text(b).drop_first() =~= decimal(b as nat));
        lemma_parse_decimal(a);
        lemma_parse_decimal(b);
    }
}

/// A queue channel is first-in, first-out: after an exchange is sent to a
/// queue holding `queue`, the receives that follow (each takes the front)
/// give back the earlier exchanges in their order and then that exchange,
/// after which the queue is empty.
pub proof fn law_queue_fifo(queue: Seq<ExchangeView>, ex: ExchangeView)
    ensures
        forall|k: int| 0 <= k < queue.len() ==> #[trigger] queue.push(ex).skip(k)[0] == queue[k],
        queue.push(ex).skip(queue.len() as int)[0] == ex,
        queue.push(ex).skip(queue.len() as int).drop_first().len() == 0,
        forall|k: int| 0 <= k < queue.len() ==> #[trigger] queue.push(ex).skip(k).drop_first() == queue.push(ex).skip(k + 1),
{
    let q2 = queue.push(ex);
    assert forall|k: int| 0 <= k < queue.len() implies #[trigger] q2.skip(k).drop_first() == q2.skip(k + 1) by {
        assert(q2.skip(k).drop_first() =~= q2.skip(k + 1));
    }
}

/// Sending under a correlation id and then receiving by that id gives back
/// an exchange carrying that id; when no other queued exchange carries it,
/// the one given back is exactly the one sent (with its correlation
/// headers).
pub proof fn law_correlation_round_trip(
    queue: Seq<ExchangeView>,
    ex: ExchangeView,
    cid: Seq<char>,
)
    requires
        corr_of(correlated(ex, cid)) == Some(cid),
    ensures
        ({
            let q2 = queue.push(correlated(ex, cid));
            &&& first_with_corr(q2, cid, 0) is Some
            &&& corr_of(q2[first_with_corr(q2, cid, 0)->0]) == Some(cid)
            &&& (forall|k: int| 0 <= k < queue.len() ==> corr_of(#[trigger] queue[k]) != Some(cid))
                ==> q2[first_with_corr(q2, cid, 0)->0] == correlated(ex, cid)
                && q2.remove(first_with_corr(q2, cid, 0)->0) == queue
        }),
{
    let q2 = queue.push(correlated(ex, cid));
    lemma_first_with_corr(q2, cid, 0);
    let n = queue.len() as int;
    assert(q2[n] == correlated(ex, cid));
    if first_with_corr(q2, cid, 0) is None {
        assert(corr_of(q2[n]) != Some(cid));
    }
    if forall|k: int| 0 <= k < queue.len() ==> corr_of(#[trigger] queue[k]) != Some(cid) {
        let k = first_with_corr(q2, cid, 0)->0;
        if k < n {
            assert(q2[k] == queue[k]);
        }
        assert(k == n);
        assert(q2.remove(k) =~= queue);
    }
}

/// A freshly correlated exchange carries the id it was given.
pub proof fn law_correlated_carries_id(ex: ExchangeView, fresh: Seq<char>)
    ensures
        corr_of(correlated(ex, fresh)) == Some(
            match corr_of(ex) {
                Some(c) => c,
                None => fresh,
            },
        ),
        correlated(ex, fresh).in_msg.headers.contains_key("correlation_id"@),
        correlated(ex, fresh).in_msg.payload == ex.in_msg.payload,
        correlated(ex, fresh).out_msg == ex.out_msg,
{
    let h = ex.in_msg.headers;
    let cid = match corr_of(ex) {
        Some(c) => c,
        None => fresh,
    };
    let h1 = h.insert(corr_id_key(), cid);
    if !h.contains_key("correlation_id"@) {
        assert(h1.insert("correlation_id"@, cid).contains_key(corr_id_key()));
        if corr_id_key() != "correlation_id"@ {
            assert(h1.insert("correlation_id"@, cid)[corr_id_key()] == cid);
        } else {
            assert(h1.insert("correlation_id"@, cid)[corr_id_key()] == cid);
        }
    }
}

} // verus!
