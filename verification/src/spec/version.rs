//! Shared check of the top-level `version` field (must be the integer 1).
use vstd::prelude::*;
use crate::error::{err_view, Error, ErrorKind, ErrorView, Result};
use crate::yaml::{yaml_syntax_error, YamlValue};
use crate::text::{concat2, owned};

verus! {

/// Serialization error with message `m`.
pub open spec fn ser(m: Seq<char>) -> ErrorView {
    err_view(ErrorKind::Serialization, m)
}

/// A result seen through its views.
pub open spec fn res_view<T: View>(r: core::result::Result<T, Error>) -> core::result::Result<
    T::V,
    ErrorView,
> {
    match r {
        Ok(t) => Ok(t@),
        Err(e) => Err(e@),
    }
}

/// The error for YAML text that could not be read, whose reader said `reason`.
pub fn yaml_error(reason: &str) -> (e: Error)
    ensures
        e@ == yaml_syntax_error(reason@),
{
    Error::serialization(concat2("yaml parse error: ", reason))
}

pub fn ser_err(m: &str) -> (e: Error)
    ensures
        e@ == ser(m@),
{
    Error::serialization(owned(m))
}

/// Outcome of the version check on a document: the version (always 1), or
/// the error for a missing, non-integer or unsupported version.
pub open spec fn version_check(yaml: YamlValue) -> core::result::Result<u32, ErrorView> {
    match yaml.spec_get("version"@) {
        None => Err(ser("missing 'version'"@)),
        Some(v) => if v.spec_as_i64() is None && v.spec_as_u64() is None {
            Err(ser("'version' must be integer"@))
        } else if v == YamlValue::PosInt(1) {
            Ok(1u32)
        } else {
            Err(ser("unsupported version (expected 1)"@))
        },
    }
}

/// Validate that `yaml` carries an integer `version` equal to 1.
pub fn validate_version(yaml: &YamlValue) -> (r: Result<u32>)
    ensures
        match r {
            Ok(v) => version_check(*yaml) == Ok::<u32, ErrorView>(v),
            Err(e) => version_check(*yaml) == Err::<u32, ErrorView>(e@),
        },
{
    let version_val = match yaml.get("version") {
        Some(v) => v,
        None => return Err(ser_err("missing 'version'")),
    };
    let as_i = version_val.as_i64();
    let as_u = version_val.as_u64();
    if as_i.is_none() && as_u.is_none() {
        return Err(ser_err("'version' must be integer"));
    }
    match version_val {
        YamlValue::PosInt(n) => {
            if *n == 1 {
                return Ok(1);
            }
        },
        _ => {},
    }
    Err(ser_err("unsupported version (expected 1)"))
}

} // verus!
