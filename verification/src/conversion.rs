//! The conversion pipeline: a raw string fetched from a source is run
//! through an ordered chain of typed conversion steps, stopping at the
//! first failing step.

use vstd::prelude::*;
use crate::strutil::{is_digit, digit_value, str_eq};

verus! {

/// A typed configuration value, the result of running a conversion chain.
#[derive(Debug, Clone, PartialEq, Eq)]
pub enum Value {
    /// A plain string.
    Text(String),
    /// An unsigned integer.
    Uint(u64),
    /// A boolean.
    Truth(bool),
    /// A caller-defined wrapper around an unsigned integer.
    Custom(u64),
}

/// The mathematical shape of a [`Value`].
pub enum ValueModel {
    Text(Seq<char>),
    Uint(u64),
    Truth(bool),
    Custom(u64),
}

impl View for Value {
    type V = ValueModel;

    open spec fn view(&self) -> ValueModel {
        match self {
            Value::Text(s) => ValueModel::Text(s@),
            Value::Uint(u) => ValueModel::Uint(*u),
            Value::Truth(b) => ValueModel::Truth(*b),
            Value::Custom(u) => ValueModel::Custom(*u),
        }
    }
}

/// The type a value or a conversion step works on.
#[derive(Debug, Clone, Copy, PartialEq, Eq, Structural)]
pub enum Kind {
    Text,
    Uint,
    Truth,
    Custom,
}

/// One step of a conversion chain.
///
/// `ParseUint` and `ParseTruth` parse a string (they can fail),
/// `TextToText` and `UintToCustom` are infallible conversions, and
/// `NarrowUint` is a fallible conversion that checks an upper bound.
#[derive(Debug, Clone, Copy, PartialEq, Eq, Structural)]
pub enum ConversionStep {
    /// Parse a decimal unsigned integer from a string.
    ParseUint,
    /// Parse `true` or `false` from a string.
    ParseTruth,
    /// Keep a string as it is.
    TextToText,
    /// Wrap an unsigned integer in the caller-defined wrapper.
    UintToCustom,
    /// Keep an unsigned integer, failing when it exceeds the bound.
    NarrowUint(u64),
}

/// Why a conversion chain failed: the first failing step, which is either a
/// parsing step or a fallible conversion.  Later steps are never attempted.
#[derive(Debug, Clone, Copy, PartialEq, Eq, Structural)]
pub enum ConversionError {
    /// A parsing step rejected its input string.
    ParseFailed { step_index: usize },
    /// A fallible conversion rejected its input value.
    ConversionFailed { step_index: usize },
}

pub open spec fn value_kind(v: ValueModel) -> Kind {
    match v {
        ValueModel::Text(_) => Kind::Text,
        ValueModel::Uint(_) => Kind::Uint,
        ValueModel::Truth(_) => Kind::Truth,
        ValueModel::Custom(_) => Kind::Custom,
    }
}

pub open spec fn step_input(s: ConversionStep) -> Kind {
    match s {
        ConversionStep::ParseUint => Kind::Text,
        ConversionStep::ParseTruth => Kind::Text,
        ConversionStep::TextToText => Kind::Text,
        ConversionStep::UintToCustom => Kind::Uint,
        ConversionStep::NarrowUint(_) => Kind::Uint,
    }
}

pub open spec fn step_output(s: ConversionStep) -> Kind {
    match s {
        ConversionStep::ParseUint => Kind::Uint,
        ConversionStep::ParseTruth => Kind::Truth,
        ConversionStep::TextToText => Kind::Text,
        ConversionStep::UintToCustom => Kind::Custom,
        ConversionStep::NarrowUint(_) => Kind::Uint,
    }
}

/// Whether a step parses a string (as opposed to converting a typed value).
pub open spec fn step_is_parse(s: ConversionStep) -> bool {
    match s {
        ConversionStep::ParseUint => true,
        ConversionStep::ParseTruth => true,
        _ => false,
    }
}

/// A chain is well formed when its first step consumes a string and every
/// later step consumes the type the step before it produces.
pub open spec fn chain_wf(chain: Seq<ConversionStep>) -> bool {
    forall|i: int|
        0 <= i < chain.len() ==> #[trigger] step_input(chain[i]) == (if i == 0 {
            Kind::Text
        } else {
            step_output(chain[i - 1])
        })
}

/// The numeric value of a digit string, most significant digit first.
pub open spec fn digits_val(s: Seq<char>) -> int
    decreases s.len(),
{
    if s.len() == 0 {
        0
    } else {
        10 * digits_val(s.drop_last()) + digit_value(s.last())
    }
}

pub open spec fn all_digits(s: Seq<char>) -> bool {
    forall|i: int| 0 <= i < s.len() ==> is_digit(#[trigger] s[i])
}

/// What parsing a decimal unsigned integer yields: defined exactly for a
/// non-empty all-digit string whose value fits in a `u64`.
pub open spec fn spec_parse_uint(s: Seq<char>) -> Option<u64> {
    if s.len() > 0 && all_digits(s) && digits_val(s) <= u64::MAX {
        Some(digits_val(s) as u64)
    } else {
        None
    }
}

/// What parsing a boolean yields: exactly `true` and `false` are accepted.
pub open spec fn spec_parse_truth(s: Seq<char>) -> Option<bool> {
    if s == "true"@ {
        Some(true)
    } else if s == "false"@ {
        Some(false)
    } else {
        None
    }
}

proof fn lemma_digits_val_nonneg(s: Seq<char>)
    requires
        all_digits(s),
    ensures
        digits_val(s) >= 0,
    decreases s.len(),
{
    if s.len() > 0 {
        assert(all_digits(s.drop_last()));
        lemma_digits_val_nonneg(s.drop_last());
    }
}

/// The value of a digit string is at least the value of any of its prefixes.
proof fn lemma_digits_val_prefix_le(s: Seq<char>, i: int)
    requires
        all_digits(s),
        0 <= i <= s.len(),
    ensures
        digits_val(s.take(i)) <= digits_val(s),
    decreases s.len() - i,
{
    if i < s.len() {
        lemma_digits_val_prefix_le(s, i + 1);
        assert(s.take(i + 1).drop_last() =~= s.take(i));
        assert(all_digits(s.take(i)));
        lemma_digits_val_nonneg(s.take(i));
        assert(digits_val(s.take(i + 1)) == 10 * digits_val(s.take(i)) + digit_value(
            s.take(i + 1).last(),
        ));
        assert(is_digit(s[i]));
    } else {
        assert(s.take(i) =~= s);
    }
}

/// Parse a decimal unsigned integer: non-empty, digits only, within `u64`.
pub fn parse_uint(s: &str) -> (r: Option<u64>)
    ensures
        r == spec_parse_uint(s@),
{
    let n = s.unicode_len();
    if n == 0 {
        return None;
    }
    let mut acc: u64 = 0;
    let mut i: usize = 0;
    while i < n
        invariant
            i <= n,
            n == s@.len(),
            all_digits(s@.take(i as int)),
            acc == digits_val(s@.take(i as int)),
        decreases n - i,
    {
        let c = s.get_char(i);
        let u = c as u32;
        proof {
            assert(s@.take(i + 1).drop_last() =~= s@.take(i as int));
            assert(s@.take(i + 1).last() == s@[i as int]);
        }
        if !(48 <= u && u <= 57) {
            proof {
                assert(!is_digit(s@[i as int]));
                assert(!all_digits(s@));
            }
            return None;
        }
        let d = (u - 48) as u64;
        if acc > (u64::MAX - d) / 10 {
            proof {
                let m = u64::MAX - d;
                assert(m == 10 * (m / 10) + m % 10);
                assert(10 * acc + d > u64::MAX);
                assert(digits_val(s@.take(i + 1)) > u64::MAX);
                if all_digits(s@) {
                    lemma_digits_val_prefix_le(s@, i + 1);
                }
            }
            return None;
        }
        proof {
            let m = u64::MAX - d;
            assert(m == 10 * (m / 10) + m % 10);
            assert(10 * acc + d <= u64::MAX);
        }
        acc = acc * 10 + d;
        i += 1;
    }
    proof {
        assert(s@.take(n as int) =~= s@);
    }
    Some(acc)
}

/// Parse a boolean: exactly `true` and `false` are accepted.
pub fn parse_truth(s: &str) -> (r: Option<bool>)
    ensures
        r == spec_parse_truth(s@),
{
    if str_eq(s, "true") {
        Some(true)
    } else if str_eq(s, "false") {
        Some(false)
    } else {
        None
    }
}

/// What one step yields on a value of its input kind; `None` is failure.
pub open spec fn spec_apply(v: ValueModel, step: ConversionStep) -> Option<ValueModel> {
    match (v, step) {
        (ValueModel::Text(s), ConversionStep::ParseUint) => match spec_parse_uint(s) {
            Some(u) => Some(ValueModel::Uint(u)),
            None => None,
        },
        (ValueModel::Text(s), ConversionStep::ParseTruth) => match spec_parse_truth(s) {
            Some(b) => Some(ValueModel::Truth(b)),
            None => None,
        },
        (ValueModel::Text(s), ConversionStep::TextToText) => Some(ValueModel::Text(s)),
        (ValueModel::Uint(u), ConversionStep::UintToCustom) => Some(ValueModel::Custom(u)),
        (ValueModel::Uint(u), ConversionStep::NarrowUint(bound)) => if u <= bound {
            Some(ValueModel::Uint(u))
        } else {
            None
        },
        _ => None,
    }
}

/// Run a chain on a value: the result, or the index of the first failing
/// step.  Steps after a failure are not applied.
pub open spec fn spec_run(v: ValueModel, chain: Seq<ConversionStep>) -> Result<ValueModel, int>
    decreases chain.len(),
{
    if chain.len() == 0 {
        Ok(v)
    } else {
        match spec_apply(v, chain[0]) {
            None => Err(0),
            Some(v2) => match spec_run(v2, chain.drop_first()) {
                Ok(r) => Ok(r),
                Err(j) => Err(j + 1),
            },
        }
    }
}

/// The same outcome with a failure index moved `i` steps later.
pub open spec fn shift_err(r: Result<ValueModel, int>, i: int) -> Result<ValueModel, int> {
    match r {
        Ok(v) => Ok(v),
        Err(j) => Err(j + i),
    }
}

/// The error reported when step `j` of `chain` fails.
pub open spec fn conv_error_at(chain: Seq<ConversionStep>, j: int) -> ConversionError {
    if step_is_parse(chain[j]) {
        ConversionError::ParseFailed { step_index: j as usize }
    } else {
        ConversionError::ConversionFailed { step_index: j as usize }
    }
}

/// Apply a conversion chain to a raw string, stopping at the first failing
/// step and reporting its index.
#[verifier::rlimit(50)]
pub fn convert(raw: &str, chain: &Vec<ConversionStep>) -> (r: Result<Value, ConversionError>)
    requires
        chain_wf(chain@),
    ensures
        spec_run(ValueModel::Text(raw@), chain@) matches Ok(v) ==> r matches Ok(x) && x@ == v,
        spec_run(ValueModel::Text(raw@), chain@) matches Err(j) ==> r == Err::<Value,
            ConversionError,
        >(conv_error_at(chain@, j)),
{
    let ghost v0 = ValueModel::Text(raw@);
    let mut cur = Value::Text(raw.to_owned());
    let n = chain.len();
    let mut i: usize = 0;
    proof {
        assert(chain@.skip(0) =~= chain@);
        assert(spec_run(v0, chain@) == shift_err(spec_run(v0, chain@.skip(0)), 0));
    }
    while i < n
        invariant
            i <= n,
            n == chain@.len(),
            chain_wf(chain@),
            v0 == ValueModel::Text(raw@),
            i < n ==> value_kind(cur@) == step_input(chain@[i as int]),
            spec_run(v0, chain@) == shift_err(spec_run(cur@, chain@.skip(i as int)), i as int),
        decreases n - i,
    {
        let step = chain[i];
        let ghost prev = cur@;
        proof {
            assert(chain@.skip(i as int)[0] == chain@[i as int]);
            assert(chain@.skip(i as int).drop_first() =~= chain@.skip(i + 1));
        }
        let next: Value = match (cur, step) {
            (Value::Text(s), ConversionStep::ParseUint) => match parse_uint(s.as_str()) {
                Some(u) => Value::Uint(u),
                None => {
                    proof {
                        assert(spec_apply(prev, chain@[i as int]) is None);
                        assert(spec_run(prev, chain@.skip(i as int)) == Err::<ValueModel, int>(0));
                        assert(spec_run(v0, chain@) == Err::<ValueModel, int>(i as int));
                    }
                    return Err(ConversionError::ParseFailed { step_index: i });
                },
            },
            (Value::Text(s), ConversionStep::ParseTruth) => match parse_truth(s.as_str()) {
                Some(b) => Value::Truth(b),
                None => {
                    proof {
                        assert(spec_apply(prev, chain@[i as int]) is None);
                        assert(spec_run(prev, chain@.skip(i as int)) == Err::<ValueModel, int>(0));
                        assert(spec_run(v0, chain@) == Err::<ValueModel, int>(i as int));
                    }
                    return Err(ConversionError::ParseFailed { step_index: i });
                },
            },
            (Value::Text(s), ConversionStep::TextToText) => Value::Text(s),
            (Value::Uint(u), ConversionStep::UintToCustom) => Value::Custom(u),
            (Value::Uint(u), ConversionStep::NarrowUint(bound)) => {
                if u <= bound {
                    Value::Uint(u)
                } else {
                    proof {
                        assert(spec_apply(prev, chain@[i as int]) is None);
                        assert(spec_run(prev, chain@.skip(i as int)) == Err::<ValueModel, int>(0));
                        assert(spec_run(v0, chain@) == Err::<ValueModel, int>(i as int));
                    }
                    return Err(ConversionError::ConversionFailed { step_index: i });
                }
            },
            _ => vstd::pervasive::unreached(),
        };
        proof {
            assert(spec_apply(prev, chain@[i as int]) == Some(next@));
            assert(spec_run(prev, chain@.skip(i as int)) == shift_err(
                spec_run(next@, chain@.skip(i + 1)),
                1,
            ));
            assert(spec_run(v0, chain@) == shift_err(spec_run(next@, chain@.skip(i + 1)), i + 1));
        }
        cur = next;
        i += 1;
    }
    proof {
        assert(chain@.skip(n as int) =~= Seq::<ConversionStep>::empty());
    }
    Ok(cur)
}

/// Executable form of [`step_input`].
pub fn input_kind(s: &ConversionStep) -> (r: Kind)
    ensures
        r == step_input(*s),
{
    match s {
        ConversionStep::ParseUint => Kind::Text,
        ConversionStep::ParseTruth => Kind::Text,
        ConversionStep::TextToText => Kind::Text,
        ConversionStep::UintToCustom => Kind::Uint,
        ConversionStep::NarrowUint(_) => Kind::Uint,
    }
}

/// Executable form of [`step_output`].
pub fn output_kind(s: &ConversionStep) -> (r: Kind)
    ensures
        r == step_output(*s),
{
    match s {
        ConversionStep::ParseUint => Kind::Uint,
        ConversionStep::ParseTruth => Kind::Truth,
        ConversionStep::TextToText => Kind::Text,
        ConversionStep::UintToCustom => Kind::Custom,
        ConversionStep::NarrowUint(_) => Kind::Uint,
    }
}

/// Check that a chain is well formed; see [`chain_wf`].
pub fn chain_is_wf(chain: &Vec<ConversionStep>) -> (r: bool)
    ensures
        r == chain_wf(chain@),
{
    let n = chain.len();
    let mut expected = Kind::Text;
    let mut i: usize = 0;
    while i < n
        invariant
            i <= n,
            n == chain@.len(),
            expected == (if i == 0 {
                Kind::Text
            } else {
                step_output(chain@[i - 1])
            }),
            forall|j: int|
                0 <= j < i ==> #[trigger] step_input(chain@[j]) == (if j == 0 {
                    Kind::Text
                } else {
                    step_output(chain@[j - 1])
                }),
        decreases n - i,
    {
        if input_kind(&chain[i]) != expected {
            return false;
        }
        expected = output_kind(&chain[i]);
        i += 1;
    }
    true
}

} // verus!
