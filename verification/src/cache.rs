//! The resolution engine: sources are consulted in a fixed priority order
//! and the first hit wins.
//!
//! The order is: the file named by the indirection variable first, then the
//! direct environment variable, then the registered dotenv files (in
//! registration order).  File-based secrets are expected to override
//! convenience environment variables, which in turn override developer
//! dotenv defaults; this ordering is part of the contract.  A hard failure
//! of the file source (path set but file unopenable or unreadable) stops
//! resolution at once: it is never treated as an absence.

use vstd::prelude::*;
use crate::envdot::{DotEnv, parse_dotenv, dotenv_map};
use crate::envfiles;
use crate::envmap::EnvMap;
use crate::filestore::FileStore;

verus! {

/// The outcome of a resolution, with the provenance of the value.
#[derive(Debug, Clone, PartialEq, Eq)]
pub enum Source {
    /// The value is the contents of the file named by the indirection
    /// variable.
    FromFile(String),
    /// The value comes from the direct environment variable.
    FromVariable(String),
    /// The value comes from a registered dotenv file.
    FromDotenv(String),
    /// No source has the key.
    NotFound,
    /// The file source failed hard; resolution stopped there.
    Failed(envfiles::Error),
}

/// The mathematical shape of a resolution outcome.
pub enum Resolution {
    FoundFile(Seq<char>),
    FoundVariable(Seq<char>),
    FoundDotenv(Seq<char>),
    Missing,
    OpenFailed,
    ReadFailed,
}

impl View for Source {
    type V = Resolution;

    open spec fn view(&self) -> Resolution {
        match self {
            Source::FromFile(v) => Resolution::FoundFile(v@),
            Source::FromVariable(v) => Resolution::FoundVariable(v@),
            Source::FromDotenv(v) => Resolution::FoundDotenv(v@),
            Source::NotFound => Resolution::Missing,
            Source::Failed(envfiles::Error::CannotOpenFile) => Resolution::OpenFailed,
            Source::Failed(_) => Resolution::ReadFailed,
        }
    }
}

/// The first dotenv file (in registration order) holding `key`, if any.
pub open spec fn dots_lookup(dots: Seq<Map<Seq<char>, Seq<char>>>, key: Seq<char>) -> Option<
    Seq<char>,
>
    decreases dots.len(),
{
    if dots.len() == 0 {
        None
    } else if dots[0].contains_key(key) {
        Some(dots[0][key])
    } else {
        dots_lookup(dots.drop_first(), key)
    }
}

/// What resolving `key` yields, given the environment, the filesystem and
/// the registered dotenv files: the file source first, then the variable,
/// then the dotenv files, stopping at the first hit or hard failure.
pub open spec fn spec_resolve(
    envm: Map<Seq<char>, Seq<char>>,
    filesm: Map<Seq<char>, Option<Seq<char>>>,
    dots: Seq<Map<Seq<char>, Seq<char>>>,
    key: Seq<char>,
    suffix: Seq<char>,
) -> Resolution {
    let file_key = key + suffix;
    if envm.contains_key(file_key) {
        let path = envm[file_key];
        if !filesm.contains_key(path) {
            Resolution::OpenFailed
        } else {
            match filesm[path] {
                None => Resolution::ReadFailed,
                Some(c) => Resolution::FoundFile(c),
            }
        }
    } else if envm.contains_key(key) {
        Resolution::FoundVariable(envm[key])
    } else {
        match dots_lookup(dots, key) {
            Some(v) => Resolution::FoundDotenv(v),
            None => Resolution::Missing,
        }
    }
}

/// The resolution engine: the registered dotenv files, in priority order.
///
/// The environment and filesystem snapshots are passed to each lookup, so
/// the engine itself holds only the parsed dotenv files.
#[derive(Debug, Clone)]
pub struct Cache {
    /// Parsed dotenv files, in order of access priority: the file
    /// registered first wins among dotenv sources.
    pub envdot: Vec<DotEnv>,
}

impl View for Cache {
    type V = Seq<Map<Seq<char>, Seq<char>>>;

    open spec fn view(&self) -> Seq<Map<Seq<char>, Seq<char>>> {
        self.envdot@.map_values(|d: DotEnv| d@)
    }
}

impl Default for Cache {
    /// A cache with no dotenv file registered.
    fn default() -> (r: Cache)
        ensures
            r@ == Seq::<Map<Seq<char>, Seq<char>>>::empty(),
    {
        Cache::new()
    }
}

impl Cache {
    /// Initialize a new cache, with no dotenv file registered yet.
    ///
    /// The conventional default files (`./.env.local` first, then
    /// `./.env`) are registered by whatever reads them, through
    /// [`Cache::envdot_register`].
    pub fn new() -> (r: Cache)
        ensures
            r@ == Seq::<Map<Seq<char>, Seq<char>>>::empty(),
    {
        let c = Cache { envdot: Vec::new() };
        proof {
            assert(c@ =~= Seq::<Map<Seq<char>, Seq<char>>>::empty());
        }
        c
    }

    /// Register a new dotenv file in the cache, if it exists: `contents`
    /// is the full text of the file, or `None` for a file that does not
    /// exist, which is silently skipped.
    pub fn envdot_register(&mut self, contents: Option<&str>)
        ensures
            (match contents {
                Some(c) => final(self)@ == old(self)@.push(dotenv_map(c@)),
                None => *final(self) == *old(self),
            }),
    {
        match contents {
            Some(c) => {
                let dotenv = parse_dotenv(c);
                proof {
                    assert(self.envdot@.push(dotenv).map_values(|d: DotEnv| d@) =~= self.envdot@
                        .map_values(|d: DotEnv| d@).push(dotenv@));
                }
                self.envdot.push(dotenv);
            },
            None => {},
        }
    }

    /// The raw value from the file-indirection source: the contents of the
    /// file named by the `key + "_FILE"` variable.
    pub fn get_from_envfiles(&self, env: &EnvMap, files: &FileStore, key: &str) -> (r: Result<
        String,
        envfiles::Error,
    >)
        ensures
            envfiles::read_matches(r, env@, files@, key@ + "_FILE"@),
    {
        let file_key = key.to_owned().concat("_FILE");
        envfiles::read(env, files, file_key.as_str())
    }

    /// The raw value from the direct environment variable.
    pub fn get_from_envvars(&self, env: &EnvMap, key: &str) -> (r: Option<String>)
        ensures
            (match r {
                Some(v) => env@.contains_key(key@) && v@ == env@[key@],
                None => !env@.contains_key(key@),
            }),
    {
        env.lookup(key)
    }

    /// The raw value from the first registered dotenv file holding `key`.
    pub fn get_from_envdot(&self, key: &str) -> (r: Option<String>)
        ensures
            (match r {
                Some(v) => dots_lookup(self@, key@) == Some(v@),
                None => dots_lookup(self@, key@) is None,
            }),
    {
        let n = self.envdot.len();
        let mut i: usize = 0;
        proof {
            assert(self@.skip(0) =~= self@);
        }
        while i < n
            invariant
                i <= n,
                n == self.envdot@.len(),
                self@.len() == n,
                dots_lookup(self@, key@) == dots_lookup(self@.skip(i as int), key@),
            decreases n - i,
        {
            proof {
                assert(self@.skip(i as int)[0] == self@[i as int]);
                assert(self@.skip(i as int).drop_first() =~= self@.skip(i + 1));
                assert(self@[i as int] == self.envdot@[i as int]@);
            }
            let value = self.envdot[i].var(key);
            if let Some(v) = value {
                return Some(v);
            }
            i += 1;
        }
        proof {
            assert(self@.skip(n as int) =~= Seq::<Map<Seq<char>, Seq<char>>>::empty());
        }
        None
    }

    /// Resolve `key` against the three sources in priority order.
    ///
    /// The clauses below restate the precedence one case at a time:
    /// a readable indirection file always wins, even over a set direct
    /// variable; a hard file failure stops resolution even when the direct
    /// variable is set; the direct variable beats the dotenv files; and
    /// `NotFound` comes only when every source abstains.
    pub fn resolve(&self, env: &EnvMap, files: &FileStore, key: &str, suffix: &str) -> (r: Source)
        ensures
            r@ == spec_resolve(env@, files@, self@, key@, suffix@),
            env@.contains_key(key@ + suffix@) && files@.contains_key(env@[key@ + suffix@]) ==> (
            match files@[env@[key@ + suffix@]] {
                Some(c) => r matches Source::FromFile(v) && v@ == c,
                None => r == Source::Failed(envfiles::Error::CannotReadFile),
            }),
            env@.contains_key(key@ + suffix@) && !files@.contains_key(env@[key@ + suffix@]) ==> r
                == Source::Failed(envfiles::Error::CannotOpenFile),
            !env@.contains_key(key@ + suffix@) && env@.contains_key(key@) ==> (r
                matches Source::FromVariable(v) && v@ == env@[key@]),
            !env@.contains_key(key@ + suffix@) && !env@.contains_key(key@) ==> (
            match dots_lookup(self@, key@) {
                Some(c) => r matches Source::FromDotenv(v) && v@ == c,
                None => r == Source::NotFound,
            }),
    {
        let file_key = key.to_owned().concat(suffix);
        match envfiles::read(env, files, file_key.as_str()) {
            Ok(data) => {
                return Source::FromFile(data);
            },
            Err(envfiles::Error::CannotOpenFile) => {
                return Source::Failed(envfiles::Error::CannotOpenFile);
            },
            Err(envfiles::Error::CannotReadFile) => {
                return Source::Failed(envfiles::Error::CannotReadFile);
            },
            Err(envfiles::Error::CannotReadEnvVar) => {},
            Err(envfiles::Error::CannotConvertValue(_)) => {
                // `read` never converts, so it never reports this.
                return vstd::pervasive::unreached();
            },
        }
        if let Some(v) = env.lookup(key) {
            return Source::FromVariable(v);
        }
        match self.get_from_envdot(key) {
            Some(v) => Source::FromDotenv(v),
            None => Source::NotFound,
        }
    }

    /// Get a value from the cache, trying the sources in priority order:
    /// the indirection file, then the direct variable, then the dotenv
    /// files.  The caller must rule out a hard failure of the file source;
    /// [`Cache::resolve`] reports such failures instead.
    pub fn get(&self, env: &EnvMap, files: &FileStore, key: &str) -> (r: Option<String>)
        requires
            !(spec_resolve(env@, files@, self@, key@, "_FILE"@) is OpenFailed),
            !(spec_resolve(env@, files@, self@, key@, "_FILE"@) is ReadFailed),
        ensures
            (match spec_resolve(env@, files@, self@, key@, "_FILE"@) {
                Resolution::FoundFile(c) => r matches Some(v) && v@ == c,
                Resolution::FoundVariable(c) => r matches Some(v) && v@ == c,
                Resolution::FoundDotenv(c) => r matches Some(v) && v@ == c,
                Resolution::Missing => r is None,
                _ => false,
            }),
    {
        match self.resolve(env, files, key, "_FILE") {
            Source::FromFile(v) => Some(v),
            Source::FromVariable(v) => Some(v),
            Source::FromDotenv(v) => Some(v),
            Source::NotFound => None,
            Source::Failed(_) => vstd::pervasive::unreached(),
        }
    }
}

/// The dotenv-file list kept by the oldest layer of the crate's interface.
#[derive(Debug, Clone)]
pub struct MicronfigCache {
    /// Parsed dotenv files, in order of access priority.
    pub dotenvs: Vec<DotEnv>,
}

impl Default for MicronfigCache {
    /// A cache with no dotenv file registered.
    fn default() -> (r: MicronfigCache)
        ensures
            r.dotenvs@.len() == 0,
    {
        MicronfigCache { dotenvs: Vec::new() }
    }
}

impl MicronfigCache {
    /// Parse the given dotenv file contents and append them to the list.
    pub fn add_envdot(&mut self, contents: &str)
        ensures
            final(self).dotenvs@.len() == old(self).dotenvs@.len() + 1,
            final(self).dotenvs@.drop_last() == old(self).dotenvs@,
            final(self).dotenvs@.last()@ == dotenv_map(contents@),
    {
        let dotenv = parse_dotenv(contents);
        proof {
            assert(self.dotenvs@.push(dotenv).drop_last() =~= self.dotenvs@);
        }
        self.dotenvs.push(dotenv);
    }
}

} // verus!
