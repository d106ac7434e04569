//! View helpers for optional texts and the shared shape of collection
//! parsing (first failing item wins).
use vstd::prelude::*;
use crate::error::ErrorView;
use crate::yaml::YamlValue;

verus! {

pub open spec fn opt_str_view(o: Option<&str>) -> Option<Seq<char>> {
    match o {
        Some(s) => Some(s@),
        None => None,
    }
}

pub open spec fn opt_string_view(o: Option<String>) -> Option<Seq<char>> {
    match o {
        Some(s) => Some(s@),
        None => None,
    }
}

/// Borrow the text of an optional owned text.
pub fn opt_as_str(o: &Option<String>) -> (r: Option<&str>)
    ensures
        opt_str_view(r) == opt_string_view(*o),
{
    match o {
        Some(s) => Some(s.as_str()),
        None => None,
    }
}

/// Owned copy of an optional text.
pub fn opt_owned(o: Option<&str>) -> (r: Option<String>)
    ensures
        opt_string_view(r) == opt_str_view(o),
{
    match o {
        Some(s) => Some(crate::text::owned(s)),
        None => None,
    }
}

/// Parse every item with `f`, in order; the first failure is the result.
pub open spec fn parse_all<V>(
    items: Seq<YamlValue>,
    f: spec_fn(YamlValue) -> core::result::Result<V, ErrorView>,
) -> core::result::Result<Seq<V>, ErrorView>
    decreases items.len(),
{
    if items.len() == 0 {
        Ok(Seq::empty())
    } else {
        match parse_all(items.drop_last(), f) {
            Err(e) => Err(e),
            Ok(prev) => match f(items.last()) {
                Err(e) => Err(e),
                Ok(v) => Ok(prev.push(v)),
            },
        }
    }
}

/// One more item: the outcome of the longer prefix.
pub proof fn lemma_parse_all_step<V>(
    items: Seq<YamlValue>,
    f: spec_fn(YamlValue) -> core::result::Result<V, ErrorView>,
    i: int,
)
    requires
        0 <= i < items.len(),
    ensures
        parse_all(items.take(i + 1), f) == match parse_all(items.take(i), f) {
            Err(e) => Err(e),
            Ok(prev) => match f(items[i]) {
                Err(e) => Err(e),
                Ok(v) => Ok(prev.push(v)),
            },
        },
{
    assert(items.take(i + 1).drop_last() =~= items.take(i));
    assert(items.take(i + 1).last() == items[i]);
}

/// Once a prefix fails, the whole sequence fails the same way.
pub proof fn lemma_parse_all_err_sticks<V>(
    items: Seq<YamlValue>,
    f: spec_fn(YamlValue) -> core::result::Result<V, ErrorView>,
    k: int,
)
    requires
        0 <= k <= items.len(),
        parse_all(items.take(k), f) is Err,
    ensures
        parse_all(items, f) == parse_all(items.take(k), f),
    decreases items.len() - k,
{
    if k < items.len() {
        lemma_parse_all_step(items, f, k);
        lemma_parse_all_err_sticks(items, f, k + 1);
    } else {
        assert(items.take(k) =~= items);
    }
}

pub proof fn lemma_parse_all_full<V>(
    items: Seq<YamlValue>,
    f: spec_fn(YamlValue) -> core::result::Result<V, ErrorView>,
)
    ensures
        parse_all(items.take(items.len() as int), f) == parse_all(items, f),
{
    assert(items.take(items.len() as int) =~= items);
}

/// The text under `key` of a YAML mapping, when it is a string.
pub open spec fn yaml_text(root: YamlValue, key: Seq<char>) -> Option<Seq<char>> {
    match root.spec_get(key) {
        Some(v) => v.spec_as_str(),
        None => None,
    }
}

/// A successful parse of every item has one result per item, each the
/// item's own result.
pub proof fn lemma_parse_all_ok<V>(
    items: Seq<YamlValue>,
    f: spec_fn(YamlValue) -> core::result::Result<V, ErrorView>,
    out: Seq<V>,
)
    requires
        parse_all(items, f) == Ok::<Seq<V>, ErrorView>(out),
    ensures
        out.len() == items.len(),
        forall|i: int| 0 <= i < items.len() ==> #[trigger] f(items[i]) == Ok::<V, ErrorView>(out[i]),
    decreases items.len(),
{
    if items.len() > 0 {
        let t = items.drop_last();
        match parse_all(t, f) {
            Ok(prev) => {
                lemma_parse_all_ok(t, f, prev);
                assert forall|i: int| 0 <= i < items.len() implies #[trigger] f(items[i]) == Ok::<
                    V,
                    ErrorView,
                >(out[i]) by {
                    if i < items.len() - 1 {
                        assert(t[i] == items[i]);
                    }
                }
            },
            Err(_) => {},
        }
    }
}

pub proof fn lemma_parse_all_empty<V>(
    items: Seq<YamlValue>,
    f: spec_fn(YamlValue) -> core::result::Result<V, ErrorView>,
)
    ensures
        parse_all(items.take(0), f) == Ok::<Seq<V>, ErrorView>(Seq::empty()),
{
    assert(items.take(0).len() == 0);
}

} // verus!

verus! {

/// Optional non-empty text field `field` of mapping `root`; an absent or
/// null field is `None`. Messages are prefixed with `prefix`.
pub open spec fn opt_text_field(root: YamlValue, prefix: Seq<char>, field: Seq<char>) -> core::result::Result<
    Option<Seq<char>>,
    ErrorView,
> {
    match root.spec_get(field) {
        None => Ok(None),
        Some(v) => if v.spec_is_null() {
            Ok(None)
        } else {
            match v.spec_as_str() {
                None => Err(crate::spec::version::ser(prefix + field + " must be string"@)),
                Some(s) => if s.len() == 0 {
                    Err(crate::spec::version::ser(prefix + field + " must not be empty"@))
                } else {
                    Ok(Some(s))
                },
            }
        },
    }
}

/// Required non-empty text field `field` of mapping `root`.
pub open spec fn req_text_field(root: YamlValue, prefix: Seq<char>, field: Seq<char>) -> core::result::Result<
    Seq<char>,
    ErrorView,
> {
    match root.spec_get(field) {
        None => Err(crate::spec::version::ser(prefix + field + " required"@)),
        Some(v) => match v.spec_as_str() {
            None => Err(crate::spec::version::ser(prefix + field + " must be string"@)),
            Some(s) => if s.len() == 0 {
                Err(crate::spec::version::ser(prefix + field + " must not be empty"@))
            } else {
                Ok(s)
            },
        },
    }
}

pub fn field_err(prefix: &str, field: &str, what: &str) -> (e: crate::error::Error)
    ensures
        e@ == crate::spec::version::ser(prefix@ + field@ + what@),
{
    crate::error::Error::serialization(crate::text::concat3(prefix, field, what))
}

pub fn opt_text_field_exec(root: &YamlValue, prefix: &str, field: &str) -> (r:
    crate::error::Result<Option<String>>)
    ensures
        match r {
            Ok(o) => opt_text_field(*root, prefix@, field@) == Ok::<Option<Seq<char>>, ErrorView>(
                opt_string_view(o),
            ),
            Err(e) => opt_text_field(*root, prefix@, field@) == Err::<Option<Seq<char>>, ErrorView>(
                e@,
            ),
        },
{
    let v = match root.get(field) {
        None => return Ok(None),
        Some(v) => v,
    };
    if v.is_null() {
        return Ok(None);
    }
    match v.as_str() {
        None => Err(field_err(prefix, field, " must be string")),
        Some(s) => {
            if s.unicode_len() == 0 {
                Err(field_err(prefix, field, " must not be empty"))
            } else {
                Ok(Some(crate::text::owned(s)))
            }
        },
    }
}

pub fn req_text_field_exec(root: &YamlValue, prefix: &str, field: &str) -> (r:
    crate::error::Result<String>)
    ensures
        match r {
            Ok(s) => req_text_field(*root, prefix@, field@) == Ok::<Seq<char>, ErrorView>(s@),
            Err(e) => req_text_field(*root, prefix@, field@) == Err::<Seq<char>, ErrorView>(e@),
        },
{
    let v = match root.get(field) {
        None => return Err(field_err(prefix, field, " required")),
        Some(v) => v,
    };
    match v.as_str() {
        None => Err(field_err(prefix, field, " must be string")),
        Some(s) => {
            if s.unicode_len() == 0 {
                Err(field_err(prefix, field, " must not be empty"))
            } else {
                Ok(crate::text::owned(s))
            }
        },
    }
}

} // verus!
