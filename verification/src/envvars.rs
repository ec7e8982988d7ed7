//! The direct environment-variable source: read a variable and convert its
//! value.  An unset variable is an abstention, not a hard failure.

use vstd::prelude::*;
use crate::envmap::EnvMap;
use crate::conversion::{
    Value,
    ValueModel,
    ConversionStep,
    ConversionError,
    chain_wf,
    spec_run,
    conv_error_at,
    convert,
};

verus! {

/// Why the variable source produced no value.
#[derive(Debug, Clone, Copy, PartialEq, Eq, Structural)]
pub enum Error {
    /// The environment variable is not set; the source abstains.
    CannotReadEnvVar,
    /// The value was found but some conversion step rejected it.
    CannotConvertValue(ConversionError),
}

/// What [`get`] returns, as a relation between the result and the
/// environment model.
pub open spec fn get_matches(
    r: Result<Value, Error>,
    envm: Map<Seq<char>, Seq<char>>,
    key: Seq<char>,
    chain: Seq<ConversionStep>,
) -> bool {
    if !envm.contains_key(key) {
        r == Err::<Value, Error>(Error::CannotReadEnvVar)
    } else {
        match spec_run(ValueModel::Text(envm[key]), chain) {
            Ok(v) => r matches Ok(x) && x@ == v,
            Err(j) => r == Err::<Value, Error>(Error::CannotConvertValue(conv_error_at(chain, j))),
        }
    }
}

/// Get the environment variable named `key` and convert its value through
/// `chain`.
pub fn get(env: &EnvMap, key: &str, chain: &Vec<ConversionStep>) -> (r: Result<Value, Error>)
    requires
        chain_wf(chain@),
    ensures
        get_matches(r, env@, key@, chain@),
{
    match env.lookup(key) {
        None => Err(Error::CannotReadEnvVar),
        Some(data) => match convert(data.as_str(), chain) {
            Ok(v) => Ok(v),
            Err(e) => Err(Error::CannotConvertValue(e)),
        },
    }
}

} // verus!
