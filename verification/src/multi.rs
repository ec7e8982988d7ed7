//! Two-source lookup with explicitly named sources, the layer the
//! required/optional policy is built on.
//!
//! This mirrors [`crate::any`], with variants naming the source kind; the
//! file source is consulted first here too.

use vstd::prelude::*;
use crate::conversion::{Value, ConversionStep, chain_wf};
use crate::envmap::EnvMap;
use crate::filestore::FileStore;
use crate::envvars;
use crate::envfiles;

verus! {

/// The way a looked-up value was obtained.
#[derive(Debug, PartialEq, Eq)]
pub enum Source {
    /// No source had the key.
    NotFound,
    /// The result was obtained from the direct environment variable.
    EnvVar(Result<Value, envvars::Error>),
    /// The result was obtained from the file named by the indirection
    /// variable.
    EnvFile(Result<Value, envfiles::Error>),
}

/// Get a value from the first available source and convert it through
/// `chain`, returning how the value was retrieved.
///
/// The file source is tried first, using the variable named `key` plus
/// `key_suffix_file`; if it abstains, the direct variable named `key` is
/// tried; if both abstain the result is [`Source::NotFound`].  Any other
/// error, hard failures included, is returned inside the source's variant.
pub fn get(
    env: &EnvMap,
    files: &FileStore,
    key: &str,
    key_suffix_file: &str,
    chain: &Vec<ConversionStep>,
) -> (r: Source)
    requires
        chain_wf(chain@),
    ensures
        env@.contains_key(key@ + key_suffix_file@) ==> (r matches Source::EnvFile(res)
            && envfiles::get_matches(res, env@, files@, key@ + key_suffix_file@, chain@)),
        !env@.contains_key(key@ + key_suffix_file@) && env@.contains_key(key@) ==> (r
            matches Source::EnvVar(res) && envvars::get_matches(res, env@, key@, chain@)),
        !env@.contains_key(key@ + key_suffix_file@) && !env@.contains_key(key@) ==> r
            == Source::NotFound,
{
    let file_key = key.to_owned().concat(key_suffix_file);
    let v = envfiles::get(env, files, file_key.as_str(), chain);
    match v {
        Err(envfiles::Error::CannotReadEnvVar) => {},
        _ => {
            return Source::EnvFile(v);
        },
    }

    let v = envvars::get(env, key, chain);
    match v {
        Err(envvars::Error::CannotReadEnvVar) => {},
        _ => {
            return Source::EnvVar(v);
        },
    }

    Source::NotFound
}

impl Source {
    /// Returns the contained value.
    ///
    /// The caller must know the lookup succeeded: the panic the like-named
    /// standard operation performs on a failed one is ruled out here by
    /// the precondition.
    pub fn expect(self, msg: &str) -> (r: Value)
        requires
            (self matches Source::EnvVar(v) && v is Ok) || (self matches Source::EnvFile(v)
                && v is Ok),
        ensures
            (match self {
                Source::EnvVar(v) => v matches Ok(x) && r == x,
                Source::EnvFile(v) => v matches Ok(x) && r == x,
                Source::NotFound => false,
            }),
    {
        match self {
            Source::EnvVar(Ok(v)) => v,
            Source::EnvFile(Ok(v)) => v,
            _ => vstd::pervasive::unreached(),
        }
    }

    /// Returns the contained value; see [`Source::expect`].
    pub fn unwrap(self) -> (r: Value)
        requires
            (self matches Source::EnvVar(v) && v is Ok) || (self matches Source::EnvFile(v)
                && v is Ok),
        ensures
            (match self {
                Source::EnvVar(v) => v matches Ok(x) && r == x,
                Source::EnvFile(v) => v matches Ok(x) && r == x,
                Source::NotFound => false,
            }),
    {
        self.expect("called `Source::unwrap()` on an invalid variant, such as `NotFound` or `_(Err(_))`")
    }
}

} // verus!
