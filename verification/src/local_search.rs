//! Local-first search over indexed files, in the shape of MCP resources.
//!
//! Each indexed file is recorded as a resource (URI, name, description,
//! path); a search matches a keyword case-insensitively against the name,
//! the path and the description.  The file system is probed by the
//! caller; indexing decides on what the probe found.

use vstd::prelude::*;

use crate::text::{contains, lowercase, owned, push_str, str_contains, to_lowercase};

verus! {

/// An indexed resource.
#[derive(Debug, Clone, PartialEq, Eq)]
pub struct SearchEntry {
    /// Resource URI (`file://` and the canonical path).
    pub uri: String,
    /// Resource name (the file name).
    pub name: String,
    /// Resource description.
    pub description: String,
    /// The path as given.
    pub path: String,
}

impl SearchEntry {
    /// A copy of the entry.
    pub fn copy(&self) -> (r: SearchEntry)
        ensures
            r == *self,
    {
        SearchEntry {
            uri: self.uri.clone(),
            name: self.name.clone(),
            description: self.description.clone(),
            path: self.path.clone(),
        }
    }
}

/// The result of a search.
#[derive(Debug, Clone, PartialEq, Eq)]
pub struct SearchResult {
    pub entries: Vec<SearchEntry>,
    pub total: usize,
}

/// What the file system reported about a path to index.
#[derive(Debug, PartialEq, Eq)]
pub enum PathProbe {
    /// The path does not exist.
    Missing,
    /// The path exists but is not a regular file.
    NotFile,
    /// A regular file: its file name (when it has one) and its canonical
    /// path, or the error that canonicalising gave.
    File { file_name: Option<String>, canonical: Result<String, String> },
}

/// Whether an entry matches a lower-cased keyword.
pub open spec fn entry_matches(e: SearchEntry, kw: Seq<char>) -> bool {
    contains(lowercase(e.name@), kw) || contains(lowercase(e.path@), kw) || contains(
        lowercase(e.description@),
        kw,
    )
}

/// Local file search index.
#[derive(Debug, Clone)]
pub struct LocalSearchIndex {
    entries: Vec<SearchEntry>,
}

impl View for LocalSearchIndex {
    type V = Seq<SearchEntry>;

    /// The indexed entries, in indexing order.
    closed spec fn view(&self) -> Seq<SearchEntry> {
        self.entries@
    }
}

/// The entries of `s` that match `kw`, in order.
pub open spec fn matching(s: Seq<SearchEntry>, kw: Seq<char>) -> Seq<SearchEntry>
    decreases s.len(),
{
    if s.len() == 0 {
        Seq::empty()
    } else if entry_matches(s.last(), kw) {
        matching(s.drop_last(), kw).push(s.last())
    } else {
        matching(s.drop_last(), kw)
    }
}

impl LocalSearchIndex {
    /// An empty index.
    pub fn new() -> (i: Self)
        ensures
            i@ == Seq::<SearchEntry>::empty(),
    {
        LocalSearchIndex { entries: Vec::new() }
    }

    /// Indexes a file, given what the file system reported about `path`.
    ///
    /// A missing path or a path that is not a file is an error; so is a
    /// canonicalisation error.  A file whose URI is already indexed is
    /// skipped.  Otherwise an entry is added: URI `file://` + canonical
    /// path, the file name (`unknown` when there is none), the description
    /// `Local file: ` + path, and the path.
    pub fn index_file(&mut self, path: &str, probe: &PathProbe) -> (r: Result<(), String>)
        ensures
            probe is Missing ==> r is Err && r->Err_0@ == "file not found: "@ + path@
                && final(self)@ == old(self)@,
            probe is NotFile ==> r is Err && r->Err_0@ == "not a file: "@ + path@ && final(self)@
                == old(self)@,
            probe matches PathProbe::File { file_name, canonical } ==> match canonical {
                Err(e) => r is Err && r->Err_0@ == e@ && final(self)@ == old(self)@,
                Ok(c) => {
                    let uri = "file://"@ + c@;
                    &&& r is Ok
                    &&& (exists|i: int| 0 <= i < old(self)@.len() && old(self)@[i].uri@ == uri)
                        ==> final(self)@ == old(self)@
                    &&& !(exists|i: int| 0 <= i < old(self)@.len() && old(self)@[i].uri@ == uri)
                        ==> final(self)@.len() == old(self)@.len() + 1 && final(self)@.drop_last()
                        == old(self)@ && final(self)@.last().uri@ == uri
                        && final(self)@.last().name@ == match file_name {
                        Some(n) => n@,
                        None => "unknown"@,
                    } && final(self)@.last().description@ == "Local file: "@ + path@
                        && final(self)@.last().path@ == path@
                },
            },
    {
        match probe {
            PathProbe::Missing => {
                let mut m = owned("file not found: ");
                push_str(&mut m, path);
                Err(m)
            },
            PathProbe::NotFile => {
                let mut m = owned("not a file: ");
                push_str(&mut m, path);
                Err(m)
            },
            PathProbe::File { file_name, canonical } => {
                let name = match file_name {
                    Some(n) => n.clone(),
                    None => owned("unknown"),
                };
                let c = match canonical {
                    Ok(c) => c,
                    Err(e) => return Err(e.clone()),
                };
                let mut uri = owned("file://");
                push_str(&mut uri, c.as_str());
                let mut i: usize = 0;
                while i < self.entries.len()
                    invariant
                        i <= self.entries.len(),
                        self@ == old(self)@,
                        uri@ == "file://"@ + c@,
                        probe matches PathProbe::File { canonical: Ok(cc), .. } && cc@ == c@,
                        forall|j: int| 0 <= j < i ==> self@[j].uri@ != uri@,
                    decreases self.entries.len() - i,
                {
                    if crate::text::str_eq(self.entries[i].uri.as_str(), uri.as_str()) {
                        return Ok(());
                    }
                    i += 1;
                }
                let mut description = owned("Local file: ");
                push_str(&mut description, path);
                self.entries.push(SearchEntry { uri, name, description, path: owned(path) });
                proof {
                    assert(self@.drop_last() =~= old(self)@);
                }
                Ok(())
            },
        }
    }

    /// The entries that match `keyword`, case-insensitively, in order.
    pub fn search(&self, keyword: &str) -> (r: SearchResult)
        ensures
            r.entries@ == matching(self@, lowercase(keyword@)),
            r.total == r.entries@.len(),
    {
        let kw = to_lowercase(keyword);
        let mut matched: Vec<SearchEntry> = Vec::new();
        let mut i: usize = 0;
        while i < self.entries.len()
            invariant
                i <= self.entries.len(),
                kw@ == lowercase(keyword@),
                matched@ == matching(self@.take(i as int), kw@),
            decreases self.entries.len() - i,
        {
            proof {
                assert(self@.take(i + 1).drop_last() =~= self@.take(i as int));
            }
            let e = &self.entries[i];
            let hit = str_contains(to_lowercase(e.name.as_str()).as_str(), kw.as_str())
                || str_contains(to_lowercase(e.path.as_str()).as_str(), kw.as_str())
                || str_contains(to_lowercase(e.description.as_str()).as_str(), kw.as_str());
            if hit {
                matched.push(e.copy());
            }
            i += 1;
        }
        assert(self@.take(self@.len() as int) =~= self@);
        let total = matched.len();
        SearchResult { entries: matched, total }
    }

    /// All indexed resources, in order (MCP `resources/list`).
    pub fn list_resources(&self) -> (v: Vec<&SearchEntry>)
        ensures
            v@.map_values(|e: &SearchEntry| *e) == self@,
    {
        let mut v: Vec<&SearchEntry> = Vec::new();
        let mut i: usize = 0;
        while i < self.entries.len()
            invariant
                i <= self.entries.len(),
                v@.map_values(|e: &SearchEntry| *e) == self@.take(i as int),
            decreases self.entries.len() - i,
        {
            let ghost prev = v@.map_values(|e: &SearchEntry| *e);
            v.push(&self.entries[i]);
            assert(v@.map_values(|e: &SearchEntry| *e) =~= prev.push(self@[i as int]));
            assert(self@.take(i + 1) =~= self@.take(i as int).push(self@[i as int]));
            i += 1;
        }
        assert(self@.take(self@.len() as int) =~= self@);
        v
    }

    /// Number of indexed resources.
    pub fn len(&self) -> (n: usize)
        ensures
            n == self@.len(),
    {
        self.entries.len()
    }

    /// Whether nothing is indexed.
    pub fn is_empty(&self) -> (b: bool)
        ensures
            b == (self@.len() == 0),
    {
        self.entries.len() == 0
    }
}

impl Default for LocalSearchIndex {
    fn default() -> (i: Self)
        ensures
            i@ == Seq::<SearchEntry>::empty(),
    {
        Self::new()
    }
}

} // verus!
