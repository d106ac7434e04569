//! Document model that the configuration parsers read: the shape of a
//! YAML document after tags are removed, with mapping entries keyed by
//! text (the parsers look entries up by text keys only), and the reading
//! of YAML text into it.
use vstd::prelude::*;
use crate::error::{err_view, ErrorKind, ErrorView};
use crate::text::text_eq;
use serde_yaml::Value;

verus! {

/// A YAML node.
#[derive(Debug)]
pub enum YamlValue {
    Null,
    Bool(bool),
    /// A non-negative integer.
    PosInt(u64),
    /// A negative integer.
    NegInt(i64),
    /// A floating-point number (its value is not needed by any parser).
    Float,
    Str(String),
    Sequence(Vec<YamlValue>),
    Mapping(Vec<YamlEntry>),
}

/// One `key: value` entry of a mapping. `key` is the key's text when the
/// key is an untagged string, and `None` for any other key (such an entry
/// is never found by a lookup by text).
#[derive(Debug)]
pub struct YamlEntry {
    pub key: Option<String>,
    pub value: YamlValue,
}

/// Value of the first entry of `es` whose key is `key`.
pub open spec fn entries_lookup(es: Seq<YamlEntry>, key: Seq<char>) -> Option<YamlValue>
    decreases es.len(),
{
    if es.len() == 0 {
        None
    } else if es[0].key matches Some(k) && k@ == key {
        Some(es[0].value)
    } else {
        entries_lookup(es.drop_first(), key)
    }
}

impl YamlValue {
    /// The value under `key` when `self` is a mapping.
    pub open spec fn spec_get(self, key: Seq<char>) -> Option<YamlValue> {
        match self {
            YamlValue::Mapping(es) => entries_lookup(es@, key),
            _ => None,
        }
    }

    pub open spec fn spec_as_str(self) -> Option<Seq<char>> {
        match self {
            YamlValue::Str(s) => Some(s@),
            _ => None,
        }
    }

    pub open spec fn spec_as_u64(self) -> Option<u64> {
        match self {
            YamlValue::PosInt(n) => Some(n),
            _ => None,
        }
    }

    pub open spec fn spec_as_i64(self) -> Option<i64> {
        match self {
            YamlValue::PosInt(n) => if n <= i64::MAX {
                Some(n as i64)
            } else {
                None
            },
            YamlValue::NegInt(n) => Some(n),
            _ => None,
        }
    }

    pub open spec fn spec_is_mapping(self) -> bool {
        self is Mapping
    }

    pub open spec fn spec_is_sequence(self) -> bool {
        self is Sequence
    }

    pub open spec fn spec_is_null(self) -> bool {
        self is Null
    }

    /// Items of a sequence node.
    pub open spec fn spec_items(self) -> Seq<YamlValue> {
        match self {
            YamlValue::Sequence(v) => v@,
            _ => Seq::empty(),
        }
    }

    /// Look up `key` in a mapping node.
    pub fn get(&self, key: &str) -> (r: Option<&YamlValue>)
        ensures
            match r {
                Some(v) => self.spec_get(key@) == Some(*v),
                None => self.spec_get(key@) is None,
            },
    {
        match self {
            YamlValue::Mapping(es) => {
                let mut i: usize = 0;
                assert(es@.skip(0) =~= es@);
                while i < es.len()
                    invariant
                        i <= es.len(),
                        self.spec_get(key@) == entries_lookup(es@, key@),
                        entries_lookup(es@, key@) == entries_lookup(es@.skip(i as int), key@),
                    decreases es.len() - i,
                {
                    assert(es@.skip(i as int)[0] == es@[i as int]);
                    let hit = match &es[i].key {
                        Some(k) => text_eq(k.as_str(), key),
                        None => false,
                    };
                    if hit {
                        assert(es@.skip(i as int).len() > 0);
                        assert(entries_lookup(es@.skip(i as int), key@) == Some(es@[i as int].value));
                        return Some(&es[i].value);
                    }
                    assert(es@.skip(i as int).drop_first() =~= es@.skip(i + 1));
                    i = i + 1;
                }
                None
            },
            _ => None,
        }
    }

    pub fn as_str(&self) -> (r: Option<&str>)
        ensures
            match r {
                Some(s) => self.spec_as_str() == Some(s@),
                None => self.spec_as_str() is None,
            },
    {
        match self {
            YamlValue::Str(s) => Some(s.as_str()),
            _ => None,
        }
    }

    pub fn as_u64(&self) -> (r: Option<u64>)
        ensures
            r == self.spec_as_u64(),
    {
        match self {
            YamlValue::PosInt(n) => Some(*n),
            _ => None,
        }
    }

    pub fn as_i64(&self) -> (r: Option<i64>)
        ensures
            r == self.spec_as_i64(),
    {
        match self {
            YamlValue::PosInt(n) => if *n <= 9223372036854775807u64 {
                Some(*n as i64)
            } else {
                None
            },
            YamlValue::NegInt(n) => Some(*n),
            _ => None,
        }
    }

    pub fn is_mapping(&self) -> (r: bool)
        ensures
            r == self.spec_is_mapping(),
    {
        match self {
            YamlValue::Mapping(_) => true,
            _ => false,
        }
    }

    pub fn is_sequence(&self) -> (r: bool)
        ensures
            r == self.spec_is_sequence(),
    {
        match self {
            YamlValue::Sequence(_) => true,
            _ => false,
        }
    }

    pub fn is_null(&self) -> (r: bool)
        ensures
            r == self.spec_is_null(),
    {
        match self {
            YamlValue::Null => true,
            _ => false,
        }
    }

    pub fn as_sequence(&self) -> (r: Option<&Vec<YamlValue>>)
        ensures
            match r {
                Some(v) => self.spec_is_sequence() && v@ == self.spec_items(),
                None => !self.spec_is_sequence(),
            },
    {
        match self {
            YamlValue::Sequence(v) => Some(v),
            _ => None,
        }
    }
}

/// What `serde_yaml` reads from the text `raw` as one document: the tree of
/// the document, or the text of the error it reports.
pub uninterp spec fn yaml_read(raw: Seq<char>) -> core::result::Result<YamlValue, Seq<char>>;

/// The error reported for YAML text that could not be read, whose reader
/// said `reason`.
pub open spec fn yaml_syntax_error(reason: Seq<char>) -> ErrorView {
    err_view(ErrorKind::Serialization, "yaml parse error: "@ + reason)
}

/// `serde_yaml`'s document tree, carried opaquely.
#[verifier::external_type_specification]
#[verifier::external_body]
pub struct ExYamlNode(Value);

/// Converts a node of `serde_yaml`'s document tree into [`YamlValue`], one
/// variant for one variant: tags are dropped, a number becomes `PosInt`
/// when it is a `u64`, `NegInt` when it is an `i64`, `Float` otherwise.
#[verifier::external_body]
fn yaml_node(v: &Value) -> YamlValue {
    match v {
        Value::Null => YamlValue::Null,
        Value::Bool(b) => YamlValue::Bool(*b),
        Value::Number(n) => match (n.as_u64(), n.as_i64()) {
            (Some(u), _) => YamlValue::PosInt(u),
            (None, Some(i)) => YamlValue::NegInt(i),
            (None, None) => YamlValue::Float,
        },
        Value::String(s) => YamlValue::Str(s.clone()),
        Value::Sequence(items) => YamlValue::Sequence(items.iter().map(yaml_node).collect()),
        Value::Mapping(m) => YamlValue::Mapping(m.iter().map(|(k, v)| yaml_entry(k, v)).collect()),
        Value::Tagged(t) => yaml_node(&t.value),
    }
}

/// Converts one mapping entry: the key keeps its text only when it is a
/// string.
#[verifier::external_body]
fn yaml_entry(k: &Value, v: &Value) -> YamlEntry {
    let key = match k {
        Value::String(t) => Some(t.clone()),
        _ => None,
    };
    YamlEntry { key, value: yaml_node(v) }
}

/// Reads `raw` with `serde_yaml::from_str` as a `serde_yaml::Value`. The
/// contract claims that the outcome is a function of the text alone
/// (named [`yaml_read`]): the converted tree, or the error's display text.
#[verifier::external_body]
pub(crate) fn read_yaml(raw: &str) -> (r: core::result::Result<YamlValue, String>)
    ensures
        match r {
            Ok(v) => yaml_read(raw@) == Ok::<YamlValue, Seq<char>>(v),
            Err(e) => yaml_read(raw@) == Err::<YamlValue, Seq<char>>(e@),
        },
{
    match serde_yaml::from_str::<Value>(raw) {
        Ok(v) => Ok(yaml_node(&v)),
        Err(e) => Err(e.to_string()),
    }
}

} // verus!
