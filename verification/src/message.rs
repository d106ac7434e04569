//! Messaging core types: `Payload`, `Headers`, `Message` and `Exchange`.
//!
//! A message is a payload plus text headers; every message built with
//! [`Message::new`] carries a fresh `message_id` header. An exchange carries
//! the inbound message, an optional outbound message and routing properties.
use vstd::prelude::*;
use crate::json::{JsonValue, JsonView};
use crate::text::{owned, text_eq};

verus! {

/// Key/value text pairs with distinct keys.
pub open spec fn keys_distinct(es: Seq<(String, String)>) -> bool {
    forall|i: int, j: int|
        0 <= i < es.len() && 0 <= j < es.len() && i != j ==> #[trigger] es[i].0@ != #[trigger] es[j].0@
}

/// The map that a list of entries describes (later entries win).
pub open spec fn entries_map(es: Seq<(String, String)>) -> Map<Seq<char>, Seq<char>>
    decreases es.len(),
{
    if es.len() == 0 {
        Map::empty()
    } else {
        entries_map(es.drop_last()).insert(es.last().0@, es.last().1@)
    }
}

pub proof fn lemma_entries_map_has(es: Seq<(String, String)>, i: int)
    requires
        keys_distinct(es),
        0 <= i < es.len(),
    ensures
        entries_map(es).contains_key(es[i].0@),
        entries_map(es)[es[i].0@] == es[i].1@,
    decreases es.len(),
{
    if i < es.len() - 1 {
        let t = es.drop_last();
        assert(keys_distinct(t)) by {
            assert forall|a: int, b: int|
                0 <= a < t.len() && 0 <= b < t.len() && a != b implies #[trigger] t[a].0@
                != #[trigger] t[b].0@ by {
                assert(t[a] == es[a]);
                assert(t[b] == es[b]);
            }
        }
        assert(t[i] == es[i]);
        lemma_entries_map_has(t, i);
        assert(es[i].0@ != es[es.len() - 1].0@);
    }
}

pub proof fn lemma_entries_map_lacks(es: Seq<(String, String)>, k: Seq<char>)
    requires
        forall|i: int| 0 <= i < es.len() ==> #[trigger] es[i].0@ != k,
    ensures
        !entries_map(es).contains_key(k),
    decreases es.len(),
{
    if es.len() > 0 {
        let t = es.drop_last();
        assert forall|i: int| 0 <= i < t.len() implies #[trigger] t[i].0@ != k by {
            assert(t[i] == es[i]);
        }
        lemma_entries_map_lacks(t, k);
        assert(es[es.len() - 1].0@ != k);
    }
}

pub proof fn lemma_entries_map_update(es: Seq<(String, String)>, i: int, e: (String, String))
    requires
        keys_distinct(es),
        0 <= i < es.len(),
        e.0@ == es[i].0@,
    ensures
        keys_distinct(es.update(i, e)),
        entries_map(es.update(i, e)) == entries_map(es).insert(e.0@, e.1@),
    decreases es.len(),
{
    let u = es.update(i, e);
    assert(keys_distinct(u)) by {
        assert forall|a: int, b: int|
            0 <= a < u.len() && 0 <= b < u.len() && a != b implies #[trigger] u[a].0@
            != #[trigger] u[b].0@ by {
            assert(u[a].0@ == es[a].0@);
            assert(u[b].0@ == es[b].0@);
        }
    }
    let t = es.drop_last();
    assert(keys_distinct(t)) by {
        assert forall|a: int, b: int|
            0 <= a < t.len() && 0 <= b < t.len() && a != b implies #[trigger] t[a].0@
            != #[trigger] t[b].0@ by {
            assert(t[a] == es[a]);
            assert(t[b] == es[b]);
        }
    }
    if i == es.len() - 1 {
        assert(u.drop_last() =~= t);
        assert(entries_map(u) =~= entries_map(es).insert(e.0@, e.1@));
    } else {
        assert(u.drop_last() =~= t.update(i, e));
        assert(t[i] == es[i]);
        lemma_entries_map_update(t, i, e);
        assert(es.last().0@ != e.0@) by {
            assert(es[i].0@ != es[es.len() - 1].0@);
        }
        assert(entries_map(u) =~= entries_map(es).insert(e.0@, e.1@));
    }
}

/// Text headers (or properties): a map from keys to values.
#[derive(Debug)]
pub struct Headers {
    entries: Vec<(String, String)>,
}

impl View for Headers {
    type V = Map<Seq<char>, Seq<char>>;

    closed spec fn view(&self) -> Map<Seq<char>, Seq<char>> {
        entries_map(self.entries@)
    }
}

impl Headers {
    #[verifier::type_invariant]
    closed spec fn wf(&self) -> bool {
        keys_distinct(self.entries@)
    }

    /// No entries.
    pub fn new() -> (r: Headers)
        ensures
            r@ == Map::<Seq<char>, Seq<char>>::empty(),
    {
        Headers { entries: Vec::new() }
    }

    fn find(&self, key: &str) -> (r: Option<usize>)
        ensures
            match r {
                Some(i) => i < self.entries.len() && self.entries@[i as int].0@ == key@,
                None => forall|i: int|
                    0 <= i < self.entries.len() ==> #[trigger] self.entries@[i].0@ != key@,
            },
    {
        let mut i: usize = 0;
        while i < self.entries.len()
            invariant
                i <= self.entries.len(),
                forall|j: int| 0 <= j < i ==> #[trigger] self.entries@[j].0@ != key@,
            decreases self.entries.len() - i,
        {
            if text_eq(self.entries[i].0.as_str(), key) {
                return Some(i);
            }
            i = i + 1;
        }
        None
    }

    /// Value under `key`, if any.
    pub fn get(&self, key: &str) -> (r: Option<&str>)
        ensures
            match r {
                Some(v) => self@.contains_key(key@) && self@[key@] == v@,
                None => !self@.contains_key(key@),
            },
    {
        proof {
            use_type_invariant(self);
        }
        match self.find(key) {
            Some(i) => {
                proof {
                    lemma_entries_map_has(self.entries@, i as int);
                }
                Some(self.entries[i].1.as_str())
            },
            None => {
                proof {
                    lemma_entries_map_lacks(self.entries@, key@);
                }
                None
            },
        }
    }

    /// Whether `key` is present.
    pub fn contains_key(&self, key: &str) -> (r: bool)
        ensures
            r == self@.contains_key(key@),
    {
        self.get(key).is_some()
    }

    /// Set `key` to `value`, replacing any previous value.
    pub fn insert(&mut self, key: &str, value: &str)
        ensures
            final(self)@ == old(self)@.insert(key@, value@),
    {
        proof {
            use_type_invariant(&*self);
        }
        let e = (owned(key), owned(value));
        match self.find(key) {
            Some(i) => {
                proof {
                    lemma_entries_map_update(self.entries@, i as int, e);
                }
                let mut entries: Vec<(String, String)> = Vec::new();
                core::mem::swap(&mut entries, &mut self.entries);
                entries.set(i, e);
                self.entries = entries;
            },
            None => {
                let ghost old_es = self.entries@;
                let ghost new_es = old_es.push(e);
                proof {
                    assert(new_es.drop_last() =~= old_es);
                    assert(keys_distinct(new_es)) by {
                        assert forall|a: int, b: int|
                            0 <= a < new_es.len() && 0 <= b < new_es.len() && a
                                != b implies #[trigger] new_es[a].0@ != #[trigger] new_es[b].0@ by {
                            if a < old_es.len() && b < old_es.len() {
                                assert(new_es[a] == old_es[a]);
                                assert(new_es[b] == old_es[b]);
                            } else if a < old_es.len() {
                                assert(new_es[a] == old_es[a]);
                            } else {
                                assert(new_es[b] == old_es[b]);
                            }
                        }
                    }
                }
                let mut entries: Vec<(String, String)> = Vec::new();
                core::mem::swap(&mut entries, &mut self.entries);
                entries.push(e);
                assert(entries@ == new_es);
                self.entries = entries;
            },
        }
    }

    /// The entries, each key once.
    pub fn entries(&self) -> (r: &[(String, String)])
        ensures
            entries_map(r@) == self@,
            keys_distinct(r@),
    {
        proof {
            use_type_invariant(self);
        }
        self.entries.as_slice()
    }

    /// Number of entries.
    pub fn len(&self) -> (r: usize)
        ensures
            r as nat == self@.len(),
    {
        proof {
            use_type_invariant(self);
            lemma_entries_map_len(self.entries@);
        }
        self.entries.len()
    }

    /// An equal copy.
    pub fn duplicate(&self) -> (r: Headers)
        ensures
            r@ == self@,
    {
        proof {
            use_type_invariant(self);
        }
        let mut out: Vec<(String, String)> = Vec::new();
        let mut i: usize = 0;
        while i < self.entries.len()
            invariant
                i <= self.entries.len(),
                keys_distinct(self.entries@),
                out@.len() == i,
                forall|j: int|
                    0 <= j < i ==> (#[trigger] out@[j]).0@ == self.entries@[j].0@ && out@[j].1@
                        == self.entries@[j].1@,
            decreases self.entries.len() - i,
        {
            let k = owned(self.entries[i].0.as_str());
            let v = owned(self.entries[i].1.as_str());
            out.push((k, v));
            i = i + 1;
        }
        proof {
            lemma_entries_map_same(out@, self.entries@);
            assert(keys_distinct(out@)) by {
                assert forall|a: int, b: int|
                    0 <= a < out@.len() && 0 <= b < out@.len() && a != b implies #[trigger] out@[a].0@
                    != #[trigger] out@[b].0@ by {
                    assert(out@[a].0@ == self.entries@[a].0@);
                    assert(out@[b].0@ == self.entries@[b].0@);
                }
            }
        }
        Headers { entries: out }
    }
}

pub proof fn lemma_entries_map_len(es: Seq<(String, String)>)
    requires
        keys_distinct(es),
    ensures
        entries_map(es).dom().finite(),
        entries_map(es).len() == es.len(),
    decreases es.len(),
{
    if es.len() > 0 {
        let t = es.drop_last();
        assert(keys_distinct(t)) by {
            assert forall|a: int, b: int|
                0 <= a < t.len() && 0 <= b < t.len() && a != b implies #[trigger] t[a].0@
                != #[trigger] t[b].0@ by {
                assert(t[a] == es[a]);
                assert(t[b] == es[b]);
            }
        }
        lemma_entries_map_len(t);
        assert forall|i: int| 0 <= i < t.len() implies #[trigger] t[i].0@ != es.last().0@ by {
            assert(t[i] == es[i]);
        }
        lemma_entries_map_lacks(t, es.last().0@);
    }
}

pub proof fn lemma_entries_map_same(a: Seq<(String, String)>, b: Seq<(String, String)>)
    requires
        a.len() == b.len(),
        forall|j: int| 0 <= j < a.len() ==> (#[trigger] a[j]).0@ == b[j].0@ && a[j].1@ == b[j].1@,
    ensures
        entries_map(a) == entries_map(b),
    decreases a.len(),
{
    if a.len() > 0 {
        let ta = a.drop_last();
        let tb = b.drop_last();
        assert forall|j: int| 0 <= j < ta.len() implies (#[trigger] ta[j]).0@ == tb[j].0@ && ta[j].1@
            == tb[j].1@ by {
            assert(ta[j] == a[j]);
            assert(tb[j] == b[j]);
        }
        lemma_entries_map_same(ta, tb);
        assert(a.last() == a[a.len() - 1]);
        assert(b.last() == b[b.len() - 1]);
    }
}

/// Body of a message.
#[derive(Debug)]
pub enum Payload {
    /// UTF-8 text.
    Text(String),
    /// Raw bytes.
    Bytes(Vec<u8>),
    /// A JSON value.
    Json(JsonValue),
    /// No body.
    Empty,
}

/// What a payload is.
pub enum PayloadView {
    Text(Seq<char>),
    Bytes(Seq<u8>),
    Json(JsonView),
    Empty,
}

impl View for Payload {
    type V = PayloadView;

    open spec fn view(&self) -> PayloadView {
        match self {
            Payload::Text(s) => PayloadView::Text(s@),
            Payload::Bytes(b) => PayloadView::Bytes(b@),
            Payload::Json(v) => PayloadView::Json(v@),
            Payload::Empty => PayloadView::Empty,
        }
    }
}

impl Default for Payload {
    /// The empty payload.
    fn default() -> (r: Payload)
        ensures
            r@ == PayloadView::Empty,
    {
        Payload::Empty
    }
}

impl Payload {

    /// The text, when the payload is text.
    pub fn as_text(&self) -> (r: Option<&str>)
        ensures
            match r {
                Some(s) => self@ == PayloadView::Text(s@),
                None => !(self@ is Text),
            },
    {
        match self {
            Payload::Text(s) => Some(s.as_str()),
            _ => None,
        }
    }

    /// The bytes, when the payload is bytes.
    pub fn as_bytes(&self) -> (r: Option<&[u8]>)
        ensures
            match r {
                Some(b) => self@ == PayloadView::Bytes(b@),
                None => !(self@ is Bytes),
            },
    {
        match self {
            Payload::Bytes(b) => Some(b.as_slice()),
            _ => None,
        }
    }

    /// An equal copy.
    pub fn duplicate(&self) -> (r: Payload)
        ensures
            r@ == self@,
    {
        match self {
            Payload::Text(s) => Payload::Text(owned(s.as_str())),
            Payload::Bytes(b) => {
                let c = b.clone();
                assert(c@ =~= b@);
                Payload::Bytes(c)
            },
            Payload::Json(v) => Payload::Json(v.duplicate()),
            Payload::Empty => Payload::Empty,
        }
    }
}

/// A lowercase hex digit.
pub open spec fn is_lower_hex(c: char) -> bool {
    ('0' <= c && c <= '9') || ('a' <= c && c <= 'f')
}

/// The hyphenated lowercase text of a version 4 UUID: 36 characters,
/// hyphens at 8, 13, 18 and 23, hex digits elsewhere, version digit `4`.
pub open spec fn uuid_v4_text(t: Seq<char>) -> bool {
    &&& t.len() == 36
    &&& forall|i: int| 0 <= i < 36 ==> if i == 8 || i == 13 || i == 18 || i == 23 {
        t[i] == '-'
    } else {
        is_lower_hex(#[trigger] t[i])
    }
    &&& t[14] == '4'
}

/// Calls `uuid::Uuid::new_v4` and renders it with `to_string`, which writes
/// the hyphenated lowercase form. Claimed: the text has that form (and the
/// version digit 4); which UUID it is, is random.
#[verifier::external_body]
pub(crate) fn new_uuid() -> (r: String)
    ensures
        uuid_v4_text(r@),
        r@.len() == 36,
{
    uuid::Uuid::new_v4().to_string()
}

/// A message: payload plus text headers.
#[derive(Debug)]
pub struct Message {
    pub payload: Payload,
    pub headers: Headers,
}

pub struct MessageView {
    pub payload: PayloadView,
    pub headers: Map<Seq<char>, Seq<char>>,
}

impl View for Message {
    type V = MessageView;

    open spec fn view(&self) -> MessageView {
        MessageView { payload: self.payload@, headers: self.headers@ }
    }
}

/// Header that holds a message's unique id.
pub open spec fn message_id_key() -> Seq<char> {
    "message_id"@
}

/// Header that holds a correlation id.
pub open spec fn correlation_id_key() -> Seq<char> {
    "correlation_id"@
}

impl Message {
    /// A message with `payload` and a fresh `message_id` header.
    pub fn new(payload: Payload) -> (r: Message)
        ensures
            r@.payload == payload@,
            r@.headers.dom() == set![message_id_key()],
            uuid_v4_text(r@.headers[message_id_key()]),
    {
        let mut headers = Headers::new();
        let mid = new_uuid();
        headers.insert("message_id", mid.as_str());
        assert(headers@.dom() =~= set![message_id_key()]);
        Message { payload, headers }
    }

    /// A message without payload or headers.
    pub fn empty() -> (r: Message)
        ensures
            r@.payload == PayloadView::Empty,
            r@.headers == Map::<Seq<char>, Seq<char>>::empty(),
    {
        Message { payload: Payload::Empty, headers: Headers::new() }
    }

    /// A text message with a fresh `message_id` header.
    pub fn from_text(s: &str) -> (r: Message)
        ensures
            r@.payload == PayloadView::Text(s@),
            r@.headers.dom() == set![message_id_key()],
            uuid_v4_text(r@.headers[message_id_key()]),
    {
        Message::new(Payload::Text(owned(s)))
    }

    /// The body as text, when it is text.
    pub fn body_text(&self) -> (r: Option<&str>)
        ensures
            match r {
                Some(s) => self@.payload == PayloadView::Text(s@),
                None => !(self@.payload is Text),
            },
    {
        self.payload.as_text()
    }

    /// Value of header `key`, if present.
    pub fn header(&self, key: &str) -> (r: Option<&str>)
        ensures
            match r {
                Some(v) => self@.headers.contains_key(key@) && self@.headers[key@] == v@,
                None => !self@.headers.contains_key(key@),
            },
    {
        self.headers.get(key)
    }

    /// Set header `key` to `value`.
    pub fn set_header(&mut self, key: &str, value: &str)
        ensures
            final(self)@.payload == old(self)@.payload,
            final(self)@.headers == old(self)@.headers.insert(key@, value@),
    {
        self.headers.insert(key, value);
    }

    /// Ensure a `correlation_id` header exists and return its value: an
    /// existing value is kept, otherwise a fresh UUID is stored.
    pub fn ensure_correlation_id(&mut self) -> (r: String)
        ensures
            final(self)@.payload == old(self)@.payload,
            old(self)@.headers.contains_key(correlation_id_key()) ==> final(self)@.headers == old(
                self,
            )@.headers && r@ == old(self)@.headers[correlation_id_key()],
            !old(self)@.headers.contains_key(correlation_id_key()) ==> final(self)@.headers == old(
                self,
            )@.headers.insert(correlation_id_key(), r@) && uuid_v4_text(r@),
    {
        match self.headers.get("correlation_id") {
            Some(v) => {
                return owned(v);
            },
            None => {},
        }
        let cid = new_uuid();
        self.headers.insert("correlation_id", cid.as_str());
        cid
    }

    /// An equal copy.
    pub fn duplicate(&self) -> (r: Message)
        ensures
            r@ == self@,
    {
        Message { payload: self.payload.duplicate(), headers: self.headers.duplicate() }
    }
}

/// Inbound message, optional outbound message, and routing properties.
#[derive(Debug)]
pub struct Exchange {
    pub in_msg: Message,
    pub out_msg: Option<Message>,
    pub properties: Headers,
}

pub struct ExchangeView {
    pub in_msg: MessageView,
    pub out_msg: Option<MessageView>,
    pub properties: Map<Seq<char>, Seq<char>>,
}

pub open spec fn opt_msg_view(m: Option<Message>) -> Option<MessageView> {
    match m {
        Some(x) => Some(x@),
        None => None,
    }
}

impl View for Exchange {
    type V = ExchangeView;

    open spec fn view(&self) -> ExchangeView {
        ExchangeView {
            in_msg: self.in_msg@,
            out_msg: opt_msg_view(self.out_msg),
            properties: self.properties@,
        }
    }
}

impl Exchange {
    /// An exchange around an inbound message.
    pub fn new(msg: Message) -> (r: Exchange)
        ensures
            r@.in_msg == msg@,
            r@.out_msg is None,
            r@.properties == Map::<Seq<char>, Seq<char>>::empty(),
    {
        Exchange { in_msg: msg, out_msg: None, properties: Headers::new() }
    }

    /// Set property `key` to `value`.
    pub fn set_property(&mut self, key: &str, value: &str)
        ensures
            final(self)@ == (ExchangeView {
                properties: old(self)@.properties.insert(key@, value@),
                ..old(self)@
            }),
    {
        self.properties.insert(key, value);
    }

    /// Value of property `key`, if present.
    pub fn property(&self, key: &str) -> (r: Option<&str>)
        ensures
            match r {
                Some(v) => self@.properties.contains_key(key@) && self@.properties[key@] == v@,
                None => !self@.properties.contains_key(key@),
            },
    {
        self.properties.get(key)
    }

    /// `in_msg.ensure_correlation_id()`.
    pub fn correlation_id(&mut self) -> (r: String)
        ensures
            final(self)@.out_msg == old(self)@.out_msg,
            final(self)@.properties == old(self)@.properties,
            final(self)@.in_msg.payload == old(self)@.in_msg.payload,
            old(self)@.in_msg.headers.contains_key(correlation_id_key()) ==> final(self)@.in_msg.headers
                == old(self)@.in_msg.headers && r@ == old(self)@.in_msg.headers[correlation_id_key()],
            !old(self)@.in_msg.headers.contains_key(correlation_id_key()) ==> final(self)@.in_msg.headers
                == old(self)@.in_msg.headers.insert(correlation_id_key(), r@) && uuid_v4_text(r@),
    {
        self.in_msg.ensure_correlation_id()
    }

    /// An equal copy.
    pub fn duplicate(&self) -> (r: Exchange)
        ensures
            r@ == self@,
    {
        let out_msg = match &self.out_msg {
            Some(m) => Some(m.duplicate()),
            None => None,
        };
        Exchange {
            in_msg: self.in_msg.duplicate(),
            out_msg,
            properties: self.properties.duplicate(),
        }
    }
}

} // verus!
