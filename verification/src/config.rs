//! Declarative configuration blocks as a runtime registry: a list of
//! (key, conversion chain, optionality) descriptors becomes a set of
//! memoized accessors.
//!
//! Each accessor computes its value at most once: the first fetch resolves
//! and converts the key, every later fetch returns the stored outcome and
//! leaves the accessor untouched, whatever environment it is handed.

use vstd::prelude::*;
use crate::cache::Cache;
use crate::conversion::{Value, ConversionStep, chain_wf};
use crate::envmap::EnvMap;
use crate::filestore::FileStore;
use crate::handle;
use crate::strutil::str_eq;

verus! {

/// The outcome an accessor stores: a value, an absence (optional keys
/// only), or a typed error.
pub type Outcome = Result<Option<Value>, handle::Error>;

/// One declared configuration value: its key, the conversion chain applied
/// to the raw string, and whether the value may be absent.
#[derive(Debug)]
pub struct Descriptor {
    pub key: String,
    pub chain: Vec<ConversionStep>,
    pub optional: bool,
}

/// A memoized accessor for one declared configuration value.
#[derive(Debug)]
pub struct Accessor {
    key: String,
    chain: Vec<ConversionStep>,
    optional: bool,
    cached: Option<Outcome>,
}

/// What a fresh fetch of a key yields: the optional policy for an optional
/// key, the required policy (with the value wrapped in `Some`) otherwise.
pub open spec fn outcome_matches(
    r: Outcome,
    optional: bool,
    envm: Map<Seq<char>, Seq<char>>,
    filesm: Map<Seq<char>, Option<Seq<char>>>,
    dots: Seq<Map<Seq<char>, Seq<char>>>,
    key: Seq<char>,
    chain: Seq<ConversionStep>,
) -> bool {
    if optional {
        handle::optional_matches(r, envm, filesm, dots, key, chain)
    } else {
        match r {
            Ok(v) => v matches Some(x) && handle::required_matches(
                Ok(x),
                envm,
                filesm,
                dots,
                key,
                chain,
            ),
            Err(e) => handle::required_matches(Err(e), envm, filesm, dots, key, chain),
        }
    }
}

/// An exact copy of a value.
fn clone_value(v: &Value) -> (r: Value)
    ensures
        r == v,
{
    match v {
        Value::Text(s) => Value::Text(s.clone()),
        Value::Uint(u) => Value::Uint(*u),
        Value::Truth(b) => Value::Truth(*b),
        Value::Custom(u) => Value::Custom(*u),
    }
}

/// An exact copy of a stored outcome.
fn clone_outcome(o: &Outcome) -> (r: Outcome)
    ensures
        r == o,
{
    match o {
        Ok(Some(v)) => Ok(Some(clone_value(v))),
        Ok(None) => Ok(None),
        Err(e) => Err(*e),
    }
}

impl Accessor {
    /// The key this accessor answers for.
    pub closed spec fn spec_key(&self) -> Seq<char> {
        self.key@
    }

    /// The conversion chain this accessor applies.
    pub closed spec fn spec_chain(&self) -> Seq<ConversionStep> {
        self.chain@
    }

    /// Whether this accessor's value may be absent.
    pub closed spec fn spec_optional(&self) -> bool {
        self.optional
    }

    /// The stored outcome, once one fetch has happened.
    pub closed spec fn memo(&self) -> Option<Outcome> {
        self.cached
    }

    /// Fetch the value: the first call resolves `key` and converts it, and
    /// stores the outcome; every later call returns the stored outcome
    /// unchanged, whatever environment it is handed.
    pub fn fetch(&mut self, cache: &Cache, env: &EnvMap, files: &FileStore) -> (r: Outcome)
        requires
            chain_wf(old(self).spec_chain()),
        ensures
            final(self).spec_key() == old(self).spec_key(),
            final(self).spec_chain() == old(self).spec_chain(),
            final(self).spec_optional() == old(self).spec_optional(),
            final(self).memo() == Some(r),
            (match old(self).memo() {
                Some(o) => r == o && *final(self) == *old(self),
                None => outcome_matches(
                    r,
                    old(self).spec_optional(),
                    env@,
                    files@,
                    cache@,
                    old(self).spec_key(),
                    old(self).spec_chain(),
                ),
            }),
    {
        if let Some(o) = &self.cached {
            return clone_outcome(o);
        }
        let out: Outcome = if self.optional {
            handle::get_optional(cache, env, files, self.key.as_str(), &self.chain)
        } else {
            match handle::get_required(cache, env, files, self.key.as_str(), &self.chain) {
                Ok(v) => Ok(Some(v)),
                Err(e) => Err(e),
            }
        };
        self.cached = Some(clone_outcome(&out));
        out
    }
}

/// A set of memoized accessors, looked up by key.
#[derive(Debug)]
pub struct Registry {
    pub items: Vec<Accessor>,
}

/// Every accessor of the registry carries a well-formed chain.
pub open spec fn registry_wf(items: Seq<Accessor>) -> bool {
    forall|i: int| 0 <= i < items.len() ==> chain_wf(#[trigger] items[i].spec_chain())
}

/// The position of the first accessor answering for `key`, or the length.
pub open spec fn first_key_index(items: Seq<Accessor>, key: Seq<char>) -> int
    decreases items.len(),
{
    if items.len() == 0 {
        0
    } else if items[0].spec_key() == key {
        0
    } else {
        1 + first_key_index(items.drop_first(), key)
    }
}

proof fn lemma_first_key_index_at(items: Seq<Accessor>, key: Seq<char>, i: int)
    requires
        0 <= i < items.len(),
        items[i].spec_key() == key,
        forall|j: int| 0 <= j < i ==> #[trigger] items[j].spec_key() != key,
    ensures
        first_key_index(items, key) == i,
    decreases i,
{
    if i > 0 {
        lemma_first_key_index_at(items.drop_first(), key, i - 1);
    }
}

/// Build the registry of accessors described by a configuration block:
/// one lazily-initialized, memoized accessor per descriptor.
pub fn config(descriptors: Vec<Descriptor>) -> (r: Registry)
    requires
        forall|i: int|
            0 <= i < descriptors@.len() ==> chain_wf(#[trigger] descriptors@[i].chain@),
    ensures
        r.items@.len() == descriptors@.len(),
        forall|i: int|
            0 <= i < descriptors@.len() ==> {
                &&& (#[trigger] r.items@[i]).spec_key() == descriptors@[i].key@
                &&& r.items@[i].spec_chain() == descriptors@[i].chain@
                &&& r.items@[i].spec_optional() == descriptors@[i].optional
                &&& r.items@[i].memo() is None
            },
        registry_wf(r.items@),
{
    let ghost ds0 = descriptors@;
    let mut descriptors = descriptors;
    let mut items: Vec<Accessor> = Vec::new();
    proof {
        assert(descriptors@ =~= ds0.skip(0));
    }
    while descriptors.len() > 0
        invariant
            items@.len() + descriptors@.len() == ds0.len(),
            descriptors@ == ds0.skip(items@.len() as int),
            forall|i: int|
                0 <= i < ds0.len() ==> chain_wf(#[trigger] ds0[i].chain@),
            forall|i: int|
                0 <= i < items@.len() ==> {
                    &&& (#[trigger] items@[i]).spec_key() == ds0[i].key@
                    &&& items@[i].spec_chain() == ds0[i].chain@
                    &&& items@[i].spec_optional() == ds0[i].optional
                    &&& items@[i].memo() is None
                },
        decreases descriptors@.len(),
    {
        let ghost k = items@.len() as int;
        let d = descriptors.remove(0);
        proof {
            assert(d == ds0.skip(k)[0]);
            assert(ds0.skip(k)[0] == ds0[k]);
            assert(ds0.skip(k).remove(0) =~= ds0.skip(k + 1));
        }
        items.push(
            Accessor { key: d.key, chain: d.chain, optional: d.optional, cached: None },
        );
    }
    Registry { items }
}

impl Registry {
    /// Fetch the value of the first accessor answering for `key`, or
    /// `None` when no accessor does.  The accessor memoizes its outcome as
    /// [`Accessor::fetch`] describes; every other accessor is untouched.
    pub fn fetch(&mut self, cache: &Cache, env: &EnvMap, files: &FileStore, key: &str) -> (r:
        Option<Outcome>)
        requires
            registry_wf(old(self).items@),
        ensures
            registry_wf(final(self).items@),
            (forall|j: int|
                0 <= j < old(self).items@.len() ==> (#[trigger] old(self).items@[j]).spec_key()
                    != key@) ==> r is None && *final(self) == *old(self),
            (exists|j: int|
                0 <= j < old(self).items@.len() && (#[trigger] old(self).items@[j]).spec_key()
                    == key@) ==> {
                let i = first_key_index(old(self).items@, key@);
                let before = old(self).items@[i];
                let after = final(self).items@[i];
                &&& r matches Some(out)
                &&& final(self).items@ == old(self).items@.update(i, after)
                &&& after.spec_key() == before.spec_key()
                &&& after.spec_chain() == before.spec_chain()
                &&& after.spec_optional() == before.spec_optional()
                &&& after.memo() == Some(r.unwrap())
                &&& (match before.memo() {
                    Some(o) => r == Some(o) && after == before,
                    None => outcome_matches(
                        r.unwrap(),
                        before.spec_optional(),
                        env@,
                        files@,
                        cache@,
                        before.spec_key(),
                        before.spec_chain(),
                    ),
                })
            },
    {
        let n = self.items.len();
        let mut i: usize = 0;
        while i < n
            invariant
                i <= n,
                n == self.items@.len(),
                *self == *old(self),
                registry_wf(self.items@),
                forall|j: int| 0 <= j < i ==> (#[trigger] self.items@[j]).spec_key() != key@,
            decreases n - i,
        {
            if str_eq(self.items[i].key_str(), key) {
                proof {
                    lemma_first_key_index_at(self.items@, key@, i as int);
                }
                let ghost items0 = self.items@;
                let mut acc = self.items.remove(i);
                proof {
                    assert(chain_wf(items0[i as int].spec_chain()));
                }
                let out = acc.fetch(cache, env, files);
                let r = clone_outcome(&out);
                self.items.insert(i, acc);
                proof {
                    assert(self.items@ =~= items0.update(i as int, self.items@[i as int]));
                    assert forall|j: int|
                        0 <= j < self.items@.len() implies chain_wf(
                        (#[trigger] self.items@[j]).spec_chain(),
                    ) by {
                        if j != i as int {
                            assert(self.items@[j] == items0[j]);
                        }
                    }
                }
                return Some(r);
            }
            i += 1;
        }
        None
    }
}

impl Accessor {
    /// The key this accessor answers for.
    pub fn key_str(&self) -> (r: &str)
        ensures
            r@ == self.spec_key(),
    {
        self.key.as_str()
    }
}

} // verus!
