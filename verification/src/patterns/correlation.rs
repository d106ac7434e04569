//! Correlation initializer: makes sure an exchange carries a
//! `correlation_id` header, optionally mirrored under a second name.
use vstd::prelude::*;
use crate::error::Result;
use crate::message::{Exchange, ExchangeView, MessageView, correlation_id_key, new_uuid, uuid_v4_text};
use crate::spec::common::opt_string_view;
use crate::text::owned;

verus! {

/// Headers after initialization when a `correlation_id` already exists:
/// the id is kept, and the mirror header (if configured) is set to it.
pub open spec fn mirrored_existing(
    h: Map<Seq<char>, Seq<char>>,
    mirror: Option<Seq<char>>,
) -> Map<Seq<char>, Seq<char>> {
    match mirror {
        Some(mh) => h.insert(mh, h[correlation_id_key()]),
        None => h,
    }
}

/// Headers after initialization with the new id `cid`.
pub open spec fn initialized_with(
    h: Map<Seq<char>, Seq<char>>,
    mirror: Option<Seq<char>>,
    cid: Seq<char>,
) -> Map<Seq<char>, Seq<char>> {
    let h1 = h.insert(correlation_id_key(), cid);
    match mirror {
        Some(mh) => h1.insert(mh, cid),
        None => h1,
    }
}

/// Initializing is idempotent: an exchange that was initialized (with any
/// fresh id) has a `correlation_id`, and initializing it again changes
/// nothing.
pub proof fn law_initialization_idempotent(
    h: Map<Seq<char>, Seq<char>>,
    mirror: Option<Seq<char>>,
    cid: Seq<char>,
)
    ensures
        initialized_with(h, mirror, cid).contains_key(correlation_id_key()),
        mirrored_existing(initialized_with(h, mirror, cid), mirror) == initialized_with(h, mirror, cid),
        h.contains_key(correlation_id_key()) ==> mirrored_existing(mirrored_existing(h, mirror), mirror)
            == mirrored_existing(h, mirror),
{
    let h1 = initialized_with(h, mirror, cid);
    match mirror {
        Some(mh) => {
            assert(h1.contains_key(mh));
            if mh != correlation_id_key() {
                assert(h1.contains_key(correlation_id_key()));
            }
        },
        None => {},
    }
    if h.contains_key(correlation_id_key()) {
        match mirror {
            Some(mh) => {
                let h2 = mirrored_existing(h, mirror);
                assert(h2.contains_key(mh));
                assert(h2.contains_key(correlation_id_key()));
            },
            None => {},
        }
    }
}

/// Ensures a `correlation_id` header, generating a UUID when missing.
#[derive(Debug)]
pub struct CorrelationInitializer {
    mirror_header: Option<String>,
}

impl CorrelationInitializer {
    pub closed spec fn mirror(&self) -> Option<Seq<char>> {
        opt_string_view(self.mirror_header)
    }

    /// No mirror header.
    pub fn new() -> (r: CorrelationInitializer)
        ensures
            r.mirror() is None,
    {
        CorrelationInitializer { mirror_header: None }
    }

    /// Mirror the id under `header` as well.
    pub fn with_mirror(header: &str) -> (r: CorrelationInitializer)
        ensures
            r.mirror() == Some(header@),
    {
        CorrelationInitializer { mirror_header: Some(owned(header)) }
    }

    /// Keep an existing `correlation_id`, or add a fresh UUID v4 when it is
    /// missing; then set the mirror header (if configured) to that id.
    /// Nothing else changes, and it never fails.
    pub fn process(&self, exchange: &mut Exchange) -> (r: Result<()>)
        ensures
            r is Ok,
            final(exchange)@.out_msg == old(exchange)@.out_msg,
            final(exchange)@.properties == old(exchange)@.properties,
            final(exchange)@.in_msg.payload == old(exchange)@.in_msg.payload,
            final(exchange)@.in_msg.headers.contains_key(correlation_id_key()),
            self.mirror() matches Some(mh) ==> final(exchange)@.in_msg.headers.contains_key(mh)
                && final(exchange)@.in_msg.headers[mh] == final(exchange)@.in_msg.headers[correlation_id_key()],
            old(exchange)@.in_msg.headers.contains_key(correlation_id_key()) ==> final(exchange)@.in_msg.headers == mirrored_existing(old(exchange)@.in_msg.headers, self.mirror()),
            !old(exchange)@.in_msg.headers.contains_key(correlation_id_key()) ==> exists|cid: Seq<char>|
                uuid_v4_text(cid) && final(exchange)@.in_msg.headers == initialized_with(
                    old(exchange)@.in_msg.headers,
                    self.mirror(),
                    cid,
                ),
    {
        let existing = match exchange.in_msg.header("correlation_id") {
            Some(v) => Some(owned(v)),
            None => None,
        };
        match existing {
            None => {
                let cid = new_uuid();
                exchange.in_msg.set_header("correlation_id", cid.as_str());
                match &self.mirror_header {
                    Some(mh) => exchange.in_msg.set_header(mh.as_str(), cid.as_str()),
                    None => {},
                }
                assert(exchange@.in_msg.headers == initialized_with(
                    old(exchange)@.in_msg.headers,
                    self.mirror(),
                    cid@,
                ));
            },
            Some(v) => {
                match &self.mirror_header {
                    Some(mh) => exchange.in_msg.set_header(mh.as_str(), v.as_str()),
                    None => {},
                }
            },
        }
        Ok(())
    }
}

impl Default for CorrelationInitializer {
    fn default() -> (r: CorrelationInitializer)
        ensures
            r.mirror() is None,
    {
        CorrelationInitializer::new()
    }
}

} // verus!
