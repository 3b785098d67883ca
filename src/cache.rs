//! The persisted cache: the file list of a music directory and the metadata of its songs,
//! each entry checked against the file's size and modification time.
use vstd::prelude::*;
use crate::metadata::{SongMetadata, MetadataView};

verus! {

/// A point in time: whole seconds and nanoseconds since the Unix epoch.
#[derive(Clone, Copy, PartialEq, Eq, Structural, Debug)]
pub struct Timestamp {
    pub secs: u64,
    pub nanos: u32,
}

/// A file's size and modification time; two fingerprints match when both fields do.
#[derive(Clone, Copy, PartialEq, Eq, Structural, Debug)]
pub struct Fingerprint {
    pub size: u64,
    pub modified: Timestamp,
}

/// A cached song: its metadata and the fingerprint of the file it was read from.
pub struct CachedMetadata {
    pub metadata: SongMetadata,
    pub fingerprint: Fingerprint,
}

/// The cache of one music directory.
pub struct FileCache {
    pub directory: String,
    pub last_scan: Timestamp,
    pub files: Vec<String>,
    /// Entries by path; no path occurs twice.
    pub entries: Vec<(String, CachedMetadata)>,
}

pub struct FileCacheView {
    pub directory: Seq<char>,
    pub last_scan: Timestamp,
    pub files: Seq<Seq<char>>,
    pub entries: Map<Seq<char>, (MetadataView, Fingerprint)>,
}

pub open spec fn entry_key(e: (String, CachedMetadata)) -> Seq<char> {
    e.0@
}

pub open spec fn entry_value(e: (String, CachedMetadata)) -> (MetadataView, Fingerprint) {
    (e.1.metadata@, e.1.fingerprint)
}

/// The entries as a map from path to cached value.
pub open spec fn entry_map(es: Seq<(String, CachedMetadata)>) -> Map<Seq<char>, (MetadataView, Fingerprint)>
    decreases es.len(),
{
    if es.len() == 0 {
        Map::empty()
    } else {
        entry_map(es.drop_last()).insert(entry_key(es.last()), entry_value(es.last()))
    }
}

/// The metadata cached for `path`, if its entry's fingerprint is `current`.
pub open spec fn lookup_spec(c: FileCacheView, path: Seq<char>, current: Fingerprint) -> Option<MetadataView> {
    if c.entries.contains_key(path) && c.entries[path].1 == current {
        Some(c.entries[path].0)
    } else {
        None
    }
}

impl View for FileCache {
    type V = FileCacheView;

    open spec fn view(&self) -> FileCacheView {
        FileCacheView {
            directory: self.directory@,
            last_scan: self.last_scan,
            files: self.files@.map_values(|s: String| s@),
            entries: entry_map(self.entries@),
        }
    }
}

proof fn lemma_entry_map_index(es: Seq<(String, CachedMetadata)>, i: int)
    requires
        0 <= i < es.len(),
        forall|j: int, k: int| 0 <= j < k < es.len() ==> es[j].0@ != es[k].0@,
    ensures
        entry_map(es).contains_key(es[i].0@),
        entry_map(es)[es[i].0@] == entry_value(es[i]),
    decreases es.len(),
{
    if i < es.len() - 1 {
        lemma_entry_map_index(es.drop_last(), i);
    }
}

proof fn lemma_entry_map_keys(es: Seq<(String, CachedMetadata)>, k: Seq<char>)
    ensures
        entry_map(es).contains_key(k) <==> exists|i: int| 0 <= i < es.len() && #[trigger] es[i].0@ == k,
    decreases es.len(),
{
    if es.len() > 0 {
        lemma_entry_map_keys(es.drop_last(), k);
        if entry_map(es.drop_last()).contains_key(k) {
            let i = choose|i: int| 0 <= i < es.drop_last().len() && #[trigger] es.drop_last()[i].0@ == k;
            assert(es[i].0@ == k);
        }
        if exists|i: int| 0 <= i < es.len() && #[trigger] es[i].0@ == k {
            let i = choose|i: int| 0 <= i < es.len() && #[trigger] es[i].0@ == k;
            if i < es.len() - 1 {
                assert(es.drop_last()[i].0@ == k);
            }
        }
    }
}

proof fn lemma_entry_map_update(es: Seq<(String, CachedMetadata)>, i: int, e: (String, CachedMetadata))
    requires
        0 <= i < es.len(),
        es[i].0@ == e.0@,
        forall|j: int, k: int| 0 <= j < k < es.len() ==> es[j].0@ != es[k].0@,
    ensures
        entry_map(es.update(i, e)) == entry_map(es).insert(e.0@, entry_value(e)),
    decreases es.len(),
{
    let es2 = es.update(i, e);
    if i == es.len() - 1 {
        assert(es2.drop_last() =~= es.drop_last());
        assert(!entry_map(es.drop_last()).contains_key(e.0@)) by {
            lemma_entry_map_keys(es.drop_last(), e.0@);
        }
        assert(entry_map(es2) =~= entry_map(es).insert(e.0@, entry_value(e)));
    } else {
        assert(es2.drop_last() =~= es.drop_last().update(i, e));
        lemma_entry_map_update(es.drop_last(), i, e);
        assert(es2.last() == es.last());
        assert(entry_map(es2) =~= entry_map(es).insert(e.0@, entry_value(e)));
    }
}

impl FileCache {
    /// No path has two entries.
    pub open spec fn wf(&self) -> bool {
        forall|j: int, k: int|
            0 <= j < k < self.entries@.len() ==> self.entries@[j].0@ != self.entries@[k].0@
    }

    /// A cache of `directory` that lists `files` and holds no metadata yet.
    pub fn new(directory: String, last_scan: Timestamp, files: Vec<String>) -> (r: FileCache)
        ensures
            r.wf(),
            r@.directory == directory@,
            r@.last_scan == last_scan,
            r@.files == files@.map_values(|s: String| s@),
            r@.entries == Map::<Seq<char>, (MetadataView, Fingerprint)>::empty(),
    {
        FileCache { directory, last_scan, files, entries: Vec::new() }
    }

    /// Position of `path`'s entry, if it has one.
    fn find(&self, path: &str) -> (r: Option<usize>)
        requires
            self.wf(),
        ensures
            match r {
                Some(i) => i < self.entries@.len() && self.entries@[i as int].0@ == path@,
                None => !self@.entries.contains_key(path@),
            },
    {
        let key = path.to_owned();
        let mut i: usize = 0;
        while i < self.entries.len()
            invariant
                key@ == path@,
                i <= self.entries@.len(),
                forall|j: int| 0 <= j < i ==> self.entries@[j].0@ != path@,
            decreases self.entries@.len() - i,
        {
            if self.entries[i].0 == key {
                return Some(i);
            }
            i = i + 1;
        }
        proof {
            lemma_entry_map_keys(self.entries@, path@);
        }
        None
    }

    /// The metadata cached for `path`, when the file's fingerprint is still `current`;
    /// a changed size or modification time is a miss.
    pub fn lookup(&self, path: &str, current: Fingerprint) -> (r: Option<SongMetadata>)
        requires
            self.wf(),
        ensures
            match r {
                Some(m) => lookup_spec(self@, path@, current) == Some(m@),
                None => lookup_spec(self@, path@, current) is None,
            },
    {
        match self.find(path) {
            Some(i) => {
                proof {
                    lemma_entry_map_index(self.entries@, i as int);
                }
                let e = &self.entries[i].1;
                if e.fingerprint == current {
                    Some(e.metadata.duplicate())
                } else {
                    None
                }
            },
            None => None,
        }
    }

    /// Records `metadata` for `path`, read from a file with `fingerprint`, replacing any
    /// earlier entry of `path`.
    pub fn upsert(&mut self, path: String, metadata: SongMetadata, fingerprint: Fingerprint)
        requires
            old(self).wf(),
        ensures
            final(self).wf(),
            final(self)@.entries == old(self)@.entries.insert(path@, (metadata@, fingerprint)),
            final(self)@.directory == old(self)@.directory,
            final(self)@.files == old(self)@.files,
            final(self)@.last_scan == old(self)@.last_scan,
    {
        let ghost p = path@;
        let entry = (path, CachedMetadata { metadata, fingerprint });
        match self.find(entry.0.as_str()) {
            Some(i) => {
                let ghost es = self.entries@;
                proof {
                    lemma_entry_map_update(es, i as int, entry);
                }
                self.entries.set(i, entry);
                assert(self.entries@ == es.update(i as int, entry));
            },
            None => {
                let ghost es = self.entries@;
                proof {
                    lemma_entry_map_keys(es, p);
                }
                self.entries.push(entry);
                assert(self.entries@.drop_last() =~= es);
            },
        }
    }

    /// A cache of `directory` put back together from its parts, as they were saved: the
    /// entries are recorded in order, so a later record of a path replaces an earlier one.
    pub fn from_records(
        directory: String,
        last_scan: Timestamp,
        files: Vec<String>,
        records: Vec<(String, CachedMetadata)>,
    ) -> (r: FileCache)
        ensures
            r.wf(),
            r@.directory == directory@,
            r@.last_scan == last_scan,
            r@.files == files@.map_values(|s: String| s@),
            r@.entries == entry_map(records@),
    {
        let ghost all = records@;
        let n = records.len();
        let mut rest = records;
        let mut reversed: Vec<(String, CachedMetadata)> = Vec::new();
        while rest.len() > 0
            invariant
                rest@ + reversed@.reverse() == all,
            decreases rest.len(),
        {
            let ghost r0 = rest@;
            let ghost v0 = reversed@;
            let e = rest.pop().unwrap();
            reversed.push(e);
            assert(reversed@.reverse() =~= seq![e] + v0.reverse());
            assert(rest@ + reversed@.reverse() =~= r0 + v0.reverse());
        }
        assert(reversed@.reverse() =~= all);
        let mut cache = FileCache::new(directory, last_scan, files);
        let mut k: usize = 0;
        assert(all.take(0) =~= Seq::<(String, CachedMetadata)>::empty());
        while reversed.len() > 0
            invariant
                k + reversed@.len() == n,
                n == all.len(),
                forall|j: int| 0 <= j < reversed@.len() ==> #[trigger] reversed@[j] == all[n - 1 - j],
                cache.wf(),
                cache@.entries == entry_map(all.take(k as int)),
                cache@.directory == directory@,
                cache@.last_scan == last_scan,
                cache@.files == files@.map_values(|s: String| s@),
            decreases reversed.len(),
        {
            let ghost v0 = reversed@;
            let e = reversed.pop().unwrap();
            assert(e == all[k as int]);
            assert(all.take(k + 1).drop_last() =~= all.take(k as int));
            cache.upsert(e.0, e.1.metadata, e.1.fingerprint);
            assert forall|j: int| 0 <= j < reversed@.len() implies #[trigger] reversed@[j] == all[n - 1 - j] by {
                assert(reversed@[j] == v0[j]);
            }
            k = k + 1;
        }
        assert(all.take(n as int) =~= all);
        cache
    }

    /// Number of songs with cached metadata.
    pub fn entry_count(&self) -> (r: usize)
        ensures
            r == self.entries@.len(),
    {
        self.entries.len()
    }
}

/// Whether `cache` belongs to `current_dir`: a cache of another directory is never used.
pub fn is_cache_valid(cache: &FileCache, current_dir: &str) -> (r: bool)
    ensures
        r == (cache@.directory == current_dir@),
{
    let dir = current_dir.to_owned();
    cache.directory == dir
}

/// A cache entry whose fingerprint differs from the file's current one is a miss.
pub proof fn lemma_fingerprint_invalidation(c: FileCacheView, path: Seq<char>, current: Fingerprint)
    requires
        c.entries.contains_key(path),
        c.entries[path].1 != current,
    ensures
        lookup_spec(c, path, current) is None,
{
}

/// Records with distinct paths give the same entries in whatever order they are read back,
/// so a cache saved and loaded again holds the entries it held.
pub proof fn lemma_records_order_free(a: Seq<(String, CachedMetadata)>, b: Seq<(String, CachedMetadata)>)
    requires
        a.to_multiset() == b.to_multiset(),
        forall|j: int, k: int| 0 <= j < k < a.len() ==> a[j].0@ != a[k].0@,
        forall|j: int, k: int| 0 <= j < k < b.len() ==> b[j].0@ != b[k].0@,
    ensures
        entry_map(a) == entry_map(b),
{
    broadcast use {vstd::seq_lib::group_to_multiset_ensures, vstd::multiset::group_multiset_axioms};

    assert forall|key: Seq<char>| #[trigger] entry_map(a).contains_key(key) implies entry_map(b).contains_key(key)
        && entry_map(b)[key] == entry_map(a)[key] by {
        lemma_entry_map_keys(a, key);
        let i = choose|i: int| 0 <= i < a.len() && #[trigger] a[i].0@ == key;
        assert(a.to_multiset().count(a[i]) > 0);
        assert(b.contains(a[i]));
        let j = choose|j: int| 0 <= j < b.len() && b[j] == a[i];
        lemma_entry_map_index(a, i);
        lemma_entry_map_index(b, j);
    }
    assert forall|key: Seq<char>| #[trigger] entry_map(b).contains_key(key) implies entry_map(a).contains_key(key) by {
        lemma_entry_map_keys(b, key);
        let j = choose|j: int| 0 <= j < b.len() && #[trigger] b[j].0@ == key;
        assert(b.to_multiset().count(b[j]) > 0);
        assert(a.contains(b[j]));
        let i = choose|i: int| 0 <= i < a.len() && a[i] == b[j];
        lemma_entry_map_index(a, i);
    }
    assert(entry_map(a) =~= entry_map(b));
}

/// After metadata is recorded for a path, a lookup with the same fingerprint hits and
/// gives that metadata.
pub proof fn lemma_upsert_then_hit(
    c: FileCacheView,
    path: Seq<char>,
    m: MetadataView,
    f: Fingerprint,
)
    ensures
        lookup_spec(
            FileCacheView { entries: c.entries.insert(path, (m, f)), ..c },
            path,
            f,
        ) == Some(m),
{
}

} // verus!
