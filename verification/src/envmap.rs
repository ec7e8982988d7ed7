//! A snapshot of the process environment, modelled as a list of
//! key/value pairs viewed as a mathematical map.

use vstd::prelude::*;
use crate::strutil::str_eq;

verus! {

/// The map described by a pair list: pairs are inserted in order, so a later
/// pair for the same key overrides an earlier one.
pub open spec fn pairs_map(s: Seq<(String, String)>) -> Map<Seq<char>, Seq<char>>
    decreases s.len(),
{
    if s.len() == 0 {
        Map::empty()
    } else {
        pairs_map(s.drop_last()).insert(s.last().0@, s.last().1@)
    }
}

/// Appending a pair inserts its binding into the map view.
pub proof fn lemma_pairs_map_push(s: Seq<(String, String)>, p: (String, String))
    ensures
        pairs_map(s.push(p)) == pairs_map(s).insert(p.0@, p.1@),
{
    assert(s.push(p).drop_last() =~= s);
    assert(s.push(p).last() == p);
}

/// Look up `key` among `entries`; the last matching pair wins, so the result
/// agrees with [`pairs_map`].
pub fn lookup_pairs(entries: &Vec<(String, String)>, key: &str) -> (r: Option<String>)
    ensures
        (match r {
            Some(v) => pairs_map(entries@).contains_key(key@) && v@ == pairs_map(entries@)[key@],
            None => !pairs_map(entries@).contains_key(key@),
        }),
{
    let n = entries.len();
    let mut found: Option<String> = None;
    let mut i: usize = 0;
    while i < n
        invariant
            i <= n,
            n == entries@.len(),
            (match found {
                Some(v) => pairs_map(entries@.take(i as int)).contains_key(key@) && v@
                    == pairs_map(entries@.take(i as int))[key@],
                None => !pairs_map(entries@.take(i as int)).contains_key(key@),
            }),
        decreases n - i,
    {
        proof {
            assert(entries@.take(i + 1).drop_last() =~= entries@.take(i as int));
            assert(entries@.take(i + 1).last() == entries@[i as int]);
        }
        if str_eq(entries[i].0.as_str(), key) {
            found = Some(entries[i].1.clone());
        }
        i += 1;
    }
    proof {
        assert(entries@.take(n as int) =~= entries@);
    }
    found
}

/// A snapshot of the process environment: a set of named string variables.
///
/// The snapshot is a plain value; building one from the real process
/// environment is the caller's concern.
#[derive(Debug, Clone)]
pub struct EnvMap {
    entries: Vec<(String, String)>,
}

impl View for EnvMap {
    type V = Map<Seq<char>, Seq<char>>;

    closed spec fn view(&self) -> Map<Seq<char>, Seq<char>> {
        pairs_map(self.entries@)
    }
}

impl Default for EnvMap {
    /// An empty environment.
    fn default() -> (r: EnvMap)
        ensures
            r@ == Map::<Seq<char>, Seq<char>>::empty(),
    {
        EnvMap::new()
    }
}

impl EnvMap {
    /// An empty environment.
    pub fn new() -> (r: EnvMap)
        ensures
            r@ == Map::<Seq<char>, Seq<char>>::empty(),
    {
        EnvMap { entries: Vec::new() }
    }

    /// Bind `key` to `value`, replacing any earlier binding.
    pub fn set(&mut self, key: &str, value: &str)
        ensures
            final(self)@ == old(self)@.insert(key@, value@),
    {
        let pair = (key.to_owned(), value.to_owned());
        proof {
            lemma_pairs_map_push(self.entries@, pair);
        }
        self.entries.push(pair);
    }

    /// The value bound to `key`, if any.
    pub fn lookup(&self, key: &str) -> (r: Option<String>)
        ensures
            (match r {
                Some(v) => self@.contains_key(key@) && v@ == self@[key@],
                None => !self@.contains_key(key@),
            }),
    {
        lookup_pairs(&self.entries, key)
    }
}

} // verus!
