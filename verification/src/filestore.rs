//! A snapshot of the files a resolution may touch, modelled as a map from
//! path to either readable contents or a marker for a file that exists but
//! cannot be read.

use vstd::prelude::*;
use crate::strutil::str_eq;

verus! {

/// What opening and fully reading one file yields.
#[derive(Debug, Clone)]
pub enum FileEntry {
    /// The file exists and its full contents were read.
    Readable(String),
    /// The file exists but reading it fails.
    Unreadable,
}

/// The contents an entry stands for: `None` for an unreadable file.
pub open spec fn entry_contents(e: FileEntry) -> Option<Seq<char>> {
    match e {
        FileEntry::Readable(c) => Some(c@),
        FileEntry::Unreadable => None,
    }
}

/// The map described by a path/entry list; a later entry for the same path
/// overrides an earlier one.  A path outside the map is a file that cannot
/// be opened.
pub open spec fn file_pairs_map(s: Seq<(String, FileEntry)>) -> Map<
    Seq<char>,
    Option<Seq<char>>,
>
    decreases s.len(),
{
    if s.len() == 0 {
        Map::empty()
    } else {
        file_pairs_map(s.drop_last()).insert(s.last().0@, entry_contents(s.last().1))
    }
}

/// A snapshot of the local files visible to a resolution: a map from path to
/// contents (or to an unreadable marker).  A path absent from the store is a
/// file that cannot be opened.
///
/// The snapshot is a plain value; filling one from the real filesystem is
/// the caller's concern.
#[derive(Debug, Clone)]
pub struct FileStore {
    entries: Vec<(String, FileEntry)>,
}

impl View for FileStore {
    type V = Map<Seq<char>, Option<Seq<char>>>;

    closed spec fn view(&self) -> Map<Seq<char>, Option<Seq<char>>> {
        file_pairs_map(self.entries@)
    }
}

impl Default for FileStore {
    /// A store without any files.
    fn default() -> (r: FileStore)
        ensures
            r@ == Map::<Seq<char>, Option<Seq<char>>>::empty(),
    {
        FileStore::new()
    }
}

impl FileStore {
    /// A store without any files.
    pub fn new() -> (r: FileStore)
        ensures
            r@ == Map::<Seq<char>, Option<Seq<char>>>::empty(),
    {
        FileStore { entries: Vec::new() }
    }

    /// Record that the file at `path` has the given contents.
    pub fn put_readable(&mut self, path: &str, contents: &str)
        ensures
            final(self)@ == old(self)@.insert(path@, Some(contents@)),
    {
        let pair = (path.to_owned(), FileEntry::Readable(contents.to_owned()));
        proof {
            assert(self.entries@.push(pair).drop_last() =~= self.entries@);
        }
        self.entries.push(pair);
    }

    /// Record that the file at `path` exists but cannot be read.
    pub fn put_unreadable(&mut self, path: &str)
        ensures
            final(self)@ == old(self)@.insert(path@, None),
    {
        let pair = (path.to_owned(), FileEntry::Unreadable);
        proof {
            assert(self.entries@.push(pair).drop_last() =~= self.entries@);
        }
        self.entries.push(pair);
    }

    /// Open and read the file at `path` in this snapshot: `None` when it
    /// cannot be opened, `Some(None)` when it exists but cannot be read,
    /// `Some(Some(contents))` otherwise.
    pub fn read(&self, path: &str) -> (r: Option<Option<String>>)
        ensures
            (match r {
                Some(Some(c)) => self@.contains_key(path@) && self@[path@] == Some(c@),
                Some(None) => self@.contains_key(path@) && self@[path@] is None,
                None => !self@.contains_key(path@),
            }),
    {
        let n = self.entries.len();
        let mut found: Option<Option<String>> = None;
        let mut i: usize = 0;
        while i < n
            invariant
                i <= n,
                n == self.entries@.len(),
                (match found {
                    Some(Some(c)) => file_pairs_map(self.entries@.take(i as int)).contains_key(
                        path@,
                    ) && file_pairs_map(self.entries@.take(i as int))[path@] == Some(c@),
                    Some(None) => file_pairs_map(self.entries@.take(i as int)).contains_key(path@)
                        && file_pairs_map(self.entries@.take(i as int))[path@] is None,
                    None => !file_pairs_map(self.entries@.take(i as int)).contains_key(path@),
                }),
            decreases n - i,
        {
            proof {
                assert(self.entries@.take(i + 1).drop_last() =~= self.entries@.take(i as int));
                assert(self.entries@.take(i + 1).last() == self.entries@[i as int]);
            }
            if str_eq(self.entries[i].0.as_str(), path) {
                found = match &self.entries[i].1 {
                    FileEntry::Readable(c) => Some(Some(c.clone())),
                    FileEntry::Unreadable => Some(None),
                };
            }
            i += 1;
        }
        proof {
            assert(self.entries@.take(n as int) =~= self.entries@);
        }
        found
    }
}

} // verus!
