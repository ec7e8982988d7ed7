//! The file-indirection source: an environment variable holds the path of
//! a file whose full contents are the configuration value.
//!
//! An unset indirection variable is an abstention.  A path that cannot be
//! opened, or a file that cannot be read, is a hard failure: resolution
//! must stop rather than fall back to a lower-priority source.

use vstd::prelude::*;
use crate::envmap::EnvMap;
use crate::filestore::FileStore;
use crate::conversion::{
    Value,
    ValueModel,
    ConversionStep,
    ConversionError,
    chain_wf,
    spec_run,
    conv_error_at,
    convert,
};

verus! {

/// Why the file source produced no value.
#[derive(Debug, Clone, Copy, PartialEq, Eq, Structural)]
pub enum Error {
    /// The indirection environment variable is not set; the source abstains.
    CannotReadEnvVar,
    /// The file at the indicated path cannot be opened (hard failure).
    CannotOpenFile,
    /// The file exists but its contents cannot be read (hard failure).
    CannotReadFile,
    /// The contents were read but some conversion step rejected them.
    CannotConvertValue(ConversionError),
}

/// What [`read`] returns, as a relation between the result and the
/// environment and filesystem models.  `key` is the full name of the
/// indirection variable.
pub open spec fn read_matches(
    r: Result<String, Error>,
    envm: Map<Seq<char>, Seq<char>>,
    filesm: Map<Seq<char>, Option<Seq<char>>>,
    key: Seq<char>,
) -> bool {
    if !envm.contains_key(key) {
        r == Err::<String, Error>(Error::CannotReadEnvVar)
    } else {
        let path = envm[key];
        if !filesm.contains_key(path) {
            r == Err::<String, Error>(Error::CannotOpenFile)
        } else {
            match filesm[path] {
                None => r == Err::<String, Error>(Error::CannotReadFile),
                Some(c) => r matches Ok(data) && data@ == c,
            }
        }
    }
}

/// Read the raw contents of the file whose path is held by the environment
/// variable named `key` (the full indirection name, suffix included).
pub fn read(env: &EnvMap, files: &FileStore, key: &str) -> (r: Result<String, Error>)
    ensures
        read_matches(r, env@, files@, key@),
{
    match env.lookup(key) {
        None => Err(Error::CannotReadEnvVar),
        Some(path) => match files.read(path.as_str()) {
            None => Err(Error::CannotOpenFile),
            Some(None) => Err(Error::CannotReadFile),
            Some(Some(data)) => Ok(data),
        },
    }
}

/// What [`get`] returns, as a relation between the result and the models.
pub open spec fn get_matches(
    r: Result<Value, Error>,
    envm: Map<Seq<char>, Seq<char>>,
    filesm: Map<Seq<char>, Option<Seq<char>>>,
    key: Seq<char>,
    chain: Seq<ConversionStep>,
) -> bool {
    if !envm.contains_key(key) {
        r == Err::<Value, Error>(Error::CannotReadEnvVar)
    } else {
        let path = envm[key];
        if !filesm.contains_key(path) {
            r == Err::<Value, Error>(Error::CannotOpenFile)
        } else {
            match filesm[path] {
                None => r == Err::<Value, Error>(Error::CannotReadFile),
                Some(c) => match spec_run(ValueModel::Text(c), chain) {
                    Ok(v) => r matches Ok(x) && x@ == v,
                    Err(j) => r == Err::<Value, Error>(
                        Error::CannotConvertValue(conv_error_at(chain, j)),
                    ),
                },
            }
        }
    }
}

/// Read the file named by the indirection variable `key` and convert its
/// contents through `chain`.
pub fn get(env: &EnvMap, files: &FileStore, key: &str, chain: &Vec<ConversionStep>) -> (r: Result<
    Value,
    Error,
>)
    requires
        chain_wf(chain@),
    ensures
        get_matches(r, env@, files@, key@, chain@),
{
    match read(env, files, key) {
        Err(e) => Err(e),
        Ok(data) => match convert(data.as_str(), chain) {
            Ok(v) => Ok(v),
            Err(e) => Err(Error::CannotConvertValue(e)),
        },
    }
}

} // verus!
