//! Required/optional policy: resolve a key through the full engine,
//! convert what was found, and report every failure as a typed error.
//!
//! A missing key is an error only for a required value; a value that is
//! present but fails a conversion step, or a hard failure of the file
//! source, is an error in either case.  Turning one of these errors into a
//! process-terminating report is left to the caller at the boundary.

use vstd::prelude::*;
use crate::cache::{Cache, Source, Resolution, spec_resolve};
use crate::conversion::{
    Value,
    ValueModel,
    ConversionStep,
    ConversionError,
    chain_wf,
    spec_run,
    conv_error_at,
    convert,
};
use crate::envfiles;
use crate::envmap::EnvMap;
use crate::filestore::FileStore;

verus! {

/// Why a required or optional lookup failed.
#[derive(Debug, Clone, Copy, PartialEq, Eq, Structural)]
pub enum Error {
    /// The key is not defined by any source (required lookups only).
    MissingValue,
    /// The indirection path is set but the file cannot be opened.
    CannotOpenFile,
    /// The indirection file exists but cannot be read.
    CannotReadFile,
    /// A value was found but some conversion step rejected it.
    CannotConvertValue(ConversionError),
}

/// What [`get_required`] returns, as a relation between the result and the
/// models: the resolved raw value converted through the chain, an error
/// naming the failure otherwise.
pub open spec fn required_matches(
    r: Result<Value, Error>,
    envm: Map<Seq<char>, Seq<char>>,
    filesm: Map<Seq<char>, Option<Seq<char>>>,
    dots: Seq<Map<Seq<char>, Seq<char>>>,
    key: Seq<char>,
    chain: Seq<ConversionStep>,
) -> bool {
    match spec_resolve(envm, filesm, dots, key, "_FILE"@) {
        Resolution::FoundFile(c) => converted_matches(r, c, chain),
        Resolution::FoundVariable(c) => converted_matches(r, c, chain),
        Resolution::FoundDotenv(c) => converted_matches(r, c, chain),
        Resolution::Missing => r == Err::<Value, Error>(Error::MissingValue),
        Resolution::OpenFailed => r == Err::<Value, Error>(Error::CannotOpenFile),
        Resolution::ReadFailed => r == Err::<Value, Error>(Error::CannotReadFile),
    }
}

/// The result of converting the raw value `c` through `chain`.
pub open spec fn converted_matches(
    r: Result<Value, Error>,
    c: Seq<char>,
    chain: Seq<ConversionStep>,
) -> bool {
    match spec_run(ValueModel::Text(c), chain) {
        Ok(v) => r matches Ok(x) && x@ == v,
        Err(j) => r == Err::<Value, Error>(Error::CannotConvertValue(conv_error_at(chain, j))),
    }
}

/// What [`get_optional`] returns: as [`required_matches`], except that a
/// missing key yields `Ok(None)` instead of an error.
pub open spec fn optional_matches(
    r: Result<Option<Value>, Error>,
    envm: Map<Seq<char>, Seq<char>>,
    filesm: Map<Seq<char>, Option<Seq<char>>>,
    dots: Seq<Map<Seq<char>, Seq<char>>>,
    key: Seq<char>,
    chain: Seq<ConversionStep>,
) -> bool {
    match spec_resolve(envm, filesm, dots, key, "_FILE"@) {
        Resolution::FoundFile(c) => opt_converted_matches(r, c, chain),
        Resolution::FoundVariable(c) => opt_converted_matches(r, c, chain),
        Resolution::FoundDotenv(c) => opt_converted_matches(r, c, chain),
        Resolution::Missing => r == Ok::<Option<Value>, Error>(None),
        Resolution::OpenFailed => r == Err::<Option<Value>, Error>(Error::CannotOpenFile),
        Resolution::ReadFailed => r == Err::<Option<Value>, Error>(Error::CannotReadFile),
    }
}

/// As [`converted_matches`], with the value wrapped in `Some`.
pub open spec fn opt_converted_matches(
    r: Result<Option<Value>, Error>,
    c: Seq<char>,
    chain: Seq<ConversionStep>,
) -> bool {
    match spec_run(ValueModel::Text(c), chain) {
        Ok(v) => r matches Ok(Some(x)) && x@ == v,
        Err(j) => r == Err::<Option<Value>, Error>(
            Error::CannotConvertValue(conv_error_at(chain, j)),
        ),
    }
}

/// Get a required value: resolve `key` with the `_FILE` suffix through the
/// engine and convert what was found through `chain`.  Every failure,
/// a missing key included, is a typed error.
pub fn get_required(
    cache: &Cache,
    env: &EnvMap,
    files: &FileStore,
    key: &str,
    chain: &Vec<ConversionStep>,
) -> (r: Result<Value, Error>)
    requires
        chain_wf(chain@),
    ensures
        required_matches(r, env@, files@, cache@, key@, chain@),
{
    match cache.resolve(env, files, key, "_FILE") {
        Source::FromFile(raw) => convert_found(raw, chain),
        Source::FromVariable(raw) => convert_found(raw, chain),
        Source::FromDotenv(raw) => convert_found(raw, chain),
        Source::NotFound => Err(Error::MissingValue),
        Source::Failed(envfiles::Error::CannotOpenFile) => Err(Error::CannotOpenFile),
        Source::Failed(envfiles::Error::CannotReadFile) => Err(Error::CannotReadFile),
        Source::Failed(_) => vstd::pervasive::unreached(),
    }
}

/// Get an optional value: as [`get_required`], but a key defined by no
/// source yields `Ok(None)` rather than an error.  A value that is present
/// but malformed is an error even for an optional key.
pub fn get_optional(
    cache: &Cache,
    env: &EnvMap,
    files: &FileStore,
    key: &str,
    chain: &Vec<ConversionStep>,
) -> (r: Result<Option<Value>, Error>)
    requires
        chain_wf(chain@),
    ensures
        optional_matches(r, env@, files@, cache@, key@, chain@),
{
    match cache.resolve(env, files, key, "_FILE") {
        Source::FromFile(raw) => opt_convert_found(raw, chain),
        Source::FromVariable(raw) => opt_convert_found(raw, chain),
        Source::FromDotenv(raw) => opt_convert_found(raw, chain),
        Source::NotFound => Ok(None),
        Source::Failed(envfiles::Error::CannotOpenFile) => Err(Error::CannotOpenFile),
        Source::Failed(envfiles::Error::CannotReadFile) => Err(Error::CannotReadFile),
        Source::Failed(_) => vstd::pervasive::unreached(),
    }
}

/// Convert a found raw value, mapping a conversion failure to [`Error`].
fn convert_found(raw: String, chain: &Vec<ConversionStep>) -> (r: Result<Value, Error>)
    requires
        chain_wf(chain@),
    ensures
        converted_matches(r, raw@, chain@),
{
    match convert(raw.as_str(), chain) {
        Ok(v) => Ok(v),
        Err(e) => Err(Error::CannotConvertValue(e)),
    }
}

/// As [`convert_found`], with the value wrapped in `Some`.
fn opt_convert_found(raw: String, chain: &Vec<ConversionStep>) -> (r: Result<Option<Value>, Error>)
    requires
        chain_wf(chain@),
    ensures
        opt_converted_matches(r, raw@, chain@),
{
    match convert(raw.as_str(), chain) {
        Ok(v) => Ok(Some(v)),
        Err(e) => Err(Error::CannotConvertValue(e)),
    }
}

} // verus!
