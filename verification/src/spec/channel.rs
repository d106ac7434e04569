//! Channel specification (a pure pipe) and the ordered collection of them.
use vstd::prelude::*;
use super::common::{
    lemma_parse_all_empty, lemma_parse_all_err_sticks, lemma_parse_all_full,
    lemma_parse_all_step, opt_as_str, opt_str_view, opt_string_view, opt_text_field,
    opt_text_field_exec, parse_all,
};
use super::version::{res_view, yaml_error, ser, ser_err, validate_version, version_check};
use crate::error::{Error, ErrorView, Result};
use crate::text::{concat3, owned, text_eq};
use crate::yaml::{read_yaml, yaml_read, yaml_syntax_error, YamlValue};

verus! {

/// Supported channel kinds.
#[derive(Clone, Copy, Debug, PartialEq, Eq, Structural)]
pub enum ChannelKindSpec {
    Direct,
    Queue,
}

impl Default for ChannelKindSpec {
    /// Direct.
    fn default() -> (r: ChannelKindSpec)
        ensures
            r == ChannelKindSpec::Direct,
    {
        ChannelKindSpec::Direct
    }
}

/// Specification of one channel: optional id and kind.
#[derive(Debug)]
pub struct ChannelSpec {
    pub(crate) id: Option<String>,
    pub(crate) kind: ChannelKindSpec,
}

pub struct ChannelSpecView {
    pub id: Option<Seq<char>>,
    pub kind: ChannelKindSpec,
}

impl View for ChannelSpec {
    type V = ChannelSpecView;

    closed spec fn view(&self) -> ChannelSpecView {
        ChannelSpecView { id: opt_string_view(self.id), kind: self.kind }
    }
}

impl ChannelSpec {
    pub fn direct() -> (r: Self)
        ensures
            r@ == (ChannelSpecView { id: None, kind: ChannelKindSpec::Direct }),
    {
        ChannelSpec { id: None, kind: ChannelKindSpec::Direct }
    }

    pub fn queue() -> (r: Self)
        ensures
            r@ == (ChannelSpecView { id: None, kind: ChannelKindSpec::Queue }),
    {
        ChannelSpec { id: None, kind: ChannelKindSpec::Queue }
    }

    /// Set the channel identifier.
    pub fn id(self, id: &str) -> (r: Self)
        ensures
            r@ == (ChannelSpecView { id: Some(id@), kind: self@.kind }),
    {
        ChannelSpec { id: Some(owned(id)), kind: self.kind }
    }

    /// The channel implementation kind.
    pub fn kind(&self) -> (r: ChannelKindSpec)
        ensures
            r == self@.kind,
    {
        self.kind
    }

    /// The channel identifier, if one was set.
    pub fn channel_id(&self) -> (r: Option<&str>)
        ensures
            opt_str_view(r) == self@.id,
    {
        opt_as_str(&self.id)
    }
}

/// Ordered collection of channel specifications sharing one version.
#[derive(Debug)]
pub struct ChannelsSpec {
    version: u32,
    channels: Vec<ChannelSpec>,
}

pub struct ChannelsSpecView {
    pub version: u32,
    pub channels: Seq<ChannelSpecView>,
}

impl View for ChannelsSpec {
    type V = ChannelsSpecView;

    closed spec fn view(&self) -> ChannelsSpecView {
        ChannelsSpecView {
            version: self.version,
            channels: self.channels@.map_values(|c: ChannelSpec| c@),
        }
    }
}

impl Default for ChannelsSpec {
    /// Version 1, no channels.
    fn default() -> (r: ChannelsSpec)
        ensures
            r@.version == 1,
            r@.channels == Seq::<ChannelSpecView>::empty(),
    {
        ChannelsSpec::new(1)
    }
}

impl ChannelsSpec {
    pub fn new(version: u32) -> (r: Self)
        ensures
            r@.version == version,
            r@.channels == Seq::<ChannelSpecView>::empty(),
    {
        let r = ChannelsSpec { version, channels: Vec::new() };
        assert(r@.channels =~= Seq::<ChannelSpecView>::empty());
        r
    }

    pub fn add(self, ch: ChannelSpec) -> (r: Self)
        ensures
            r@.version == self@.version,
            r@.channels == self@.channels.push(ch@),
    {
        let mut s = self;
        s.push(ch);
        s
    }

    pub fn push(&mut self, ch: ChannelSpec)
        ensures
            final(self)@.version == old(self)@.version,
            final(self)@.channels == old(self)@.channels.push(ch@),
    {
        self.channels.push(ch);
        assert(self@.channels =~= old(self)@.channels.push(ch@));
    }

    pub fn version(&self) -> (r: u32)
        ensures
            r == self@.version,
    {
        self.version
    }

    pub fn channels(&self) -> (r: &[ChannelSpec])
        ensures
            r@.map_values(|c: ChannelSpec| c@) == self@.channels,
    {
        self.channels.as_slice()
    }

    pub fn into_channels(self) -> (r: Vec<ChannelSpec>)
        ensures
            r@.map_values(|c: ChannelSpec| c@) == self@.channels,
    {
        self.channels
    }
}

/// Channel kind named by `k`.
pub open spec fn channel_kind_named(k: Seq<char>) -> Option<ChannelKindSpec> {
    if k == "direct"@ {
        Some(ChannelKindSpec::Direct)
    } else if k == "queue"@ {
        Some(ChannelKindSpec::Queue)
    } else {
        None
    }
}

/// Kind of a channel entry: `direct` when absent or null.
pub open spec fn channel_kind_field(root: YamlValue) -> core::result::Result<ChannelKindSpec, ErrorView> {
    match root.spec_get("kind"@) {
        None => Ok(ChannelKindSpec::Direct),
        Some(k) => if k.spec_is_null() {
            Ok(ChannelKindSpec::Direct)
        } else {
            match k.spec_as_str() {
                None => Err(ser("channel.kind must be string"@)),
                Some(ks) => match channel_kind_named(ks) {
                    Some(kind) => Ok(kind),
                    None => Err(ser("unsupported channel.kind '"@ + ks + "'"@)),
                },
            }
        },
    }
}

/// A channel entry (mapping with optional `kind` and `id`).
pub open spec fn channel_entry(root: YamlValue) -> core::result::Result<ChannelSpecView, ErrorView> {
    match channel_kind_field(root) {
        Err(e) => Err(e),
        Ok(kind) => match opt_text_field(root, "channel."@, "id"@) {
            Err(e) => Err(e),
            Ok(id) => Ok(ChannelSpecView { id, kind }),
        },
    }
}

/// A channel entry inside a `channels` sequence.
pub open spec fn channel_item(v: YamlValue) -> core::result::Result<ChannelSpecView, ErrorView> {
    if !v.spec_is_mapping() {
        Err(ser("channel entry must be a mapping"@))
    } else {
        channel_entry(v)
    }
}

/// A document `version: 1` + `channel: {..}`.
pub open spec fn channel_doc(yaml: YamlValue) -> core::result::Result<ChannelSpecView, ErrorView> {
    match version_check(yaml) {
        Err(e) => Err(e),
        Ok(_) => match yaml.spec_get("channel"@) {
            None => Err(ser("missing 'channel'"@)),
            Some(root) => if !root.spec_is_mapping() {
                Err(ser("'channel' must be a mapping"@))
            } else {
                channel_entry(root)
            },
        },
    }
}

/// A document `version: 1` + `channels: [..]`.
pub open spec fn channels_doc(yaml: YamlValue) -> core::result::Result<ChannelsSpecView, ErrorView> {
    match version_check(yaml) {
        Err(e) => Err(e),
        Ok(v) => match yaml.spec_get("channels"@) {
            None => Err(ser("missing 'channels'"@)),
            Some(root) => if !root.spec_is_sequence() {
                Err(ser("'channels' must be a sequence"@))
            } else {
                channels_items(root.spec_items(), v)
            },
        },
    }
}

/// The entries of a `channels` sequence, in order; the first bad entry fails.
pub open spec fn channels_items(items: Seq<YamlValue>, v: u32) -> core::result::Result<ChannelsSpecView, ErrorView> {
    match parse_all(items, |i: YamlValue| channel_item(i)) {
        Err(e) => Err(e),
        Ok(xs) => Ok(ChannelsSpecView { version: v, channels: xs }),
    }
}

pub fn parse_channels_items(items: &Vec<YamlValue>, v: u32) -> (r: Result<ChannelsSpec>)
    ensures
        res_view(r) == channels_items(items@, v),
{
    let ghost f = |i: YamlValue| channel_item(i);
    let mut spec = ChannelsSpec::new(v);
    let mut k: usize = 0;
    proof {
        lemma_parse_all_empty(items@, f);
    }
    while k < items.len()
        invariant
            k <= items.len(),
            spec@.version == v,
            f == (|i: YamlValue| channel_item(i)),
            parse_all(items@.take(k as int), f) == Ok::<Seq<ChannelSpecView>, ErrorView>(spec@.channels),
        decreases items.len() - k,
    {
        proof {
            lemma_parse_all_step(items@, f, k as int);
        }
        let item = &items[k];
        if !item.is_mapping() {
            let e = ser_err("channel entry must be a mapping");
            proof {
                lemma_parse_all_err_sticks(items@, f, k + 1);
            }
            return Err(e);
        }
        match parse_channel_entry(item) {
            Err(e) => {
                proof {
                    lemma_parse_all_err_sticks(items@, f, k + 1);
                }
                return Err(e);
            },
            Ok(c) => {
                spec.push(c);
            },
        }
        k = k + 1;
    }
    proof {
        lemma_parse_all_full(items@, f);
    }
    Ok(spec)
}

fn parse_channel_entry(root: &YamlValue) -> (r: Result<ChannelSpec>)
    ensures
        res_view(r) == channel_entry(*root),
{
    let kind = match root.get("kind") {
        None => ChannelKindSpec::Direct,
        Some(k) => {
            if k.is_null() {
                ChannelKindSpec::Direct
            } else {
                match k.as_str() {
                    None => return Err(ser_err("channel.kind must be string")),
                    Some(ks) => {
                        if text_eq(ks, "direct") {
                            ChannelKindSpec::Direct
                        } else if text_eq(ks, "queue") {
                            ChannelKindSpec::Queue
                        } else {
                            return Err(
                                Error::serialization(concat3("unsupported channel.kind '", ks, "'")),
                            );
                        }
                    },
                }
            }
        },
    };
    let id = opt_text_field_exec(root, "channel.", "id")?;
    Ok(ChannelSpec { id, kind })
}

/// Parser of single-channel documents.
pub struct ChannelSpecYamlParser;

impl ChannelSpecYamlParser {
    /// Parse a YAML text: read it as a document, then as [`Self::parse_value`] does.
    pub fn parse_str(raw: &str) -> (r: Result<ChannelSpec>)
        ensures
            res_view(r) == match yaml_read(raw@) {
                Ok(v) => channel_doc(v),
                Err(e) => Err(yaml_syntax_error(e)),
            },
    {
        match read_yaml(raw) {
            Ok(v) => Self::parse_value(&v),
            Err(e) => Err(yaml_error(e.as_str())),
        }
    }

    pub fn parse_value(yaml: &YamlValue) -> (r: Result<ChannelSpec>)
        ensures
            res_view(r) == channel_doc(*yaml),
    {
        validate_version(yaml)?;
        let root = match yaml.get("channel") {
            None => return Err(ser_err("missing 'channel'")),
            Some(r) => r,
        };
        if !root.is_mapping() {
            return Err(ser_err("'channel' must be a mapping"));
        }
        parse_channel_entry(root)
    }
}

/// Parser of channel collection documents.
pub struct ChannelsSpecYamlParser;

impl ChannelsSpecYamlParser {
    /// Parse a YAML text: read it as a document, then as [`Self::parse_value`] does.
    pub fn parse_str(raw: &str) -> (r: Result<ChannelsSpec>)
        ensures
            res_view(r) == match yaml_read(raw@) {
                Ok(v) => channels_doc(v),
                Err(e) => Err(yaml_syntax_error(e)),
            },
    {
        match read_yaml(raw) {
            Ok(v) => Self::parse_value(&v),
            Err(e) => Err(yaml_error(e.as_str())),
        }
    }

    pub fn parse_value(yaml: &YamlValue) -> (r: Result<ChannelsSpec>)
        ensures
            res_view(r) == channels_doc(*yaml),
    {
        let v = validate_version(yaml)?;
        let root = match yaml.get("channels") {
            None => return Err(ser_err("missing 'channels'")),
            Some(r) => r,
        };
        let items = match root.as_sequence() {
            None => return Err(ser_err("'channels' must be a sequence")),
            Some(items) => items,
        };
        parse_channels_items(items, v)
    }
}

} // verus!
