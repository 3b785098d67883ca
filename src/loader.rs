//! The decisions of the background loader, one path at a time. The loader's thread reads
//! fingerprints and tags and pushes the updates; what it does with them is decided here.
use vstd::prelude::*;
use crate::cache::{FileCache, Fingerprint, lookup_spec};
use crate::metadata::SongMetadata;
use crate::playlist::PendingUpdate;

verus! {

/// Slot `index` (the song at `path`) served from the cache, when the file's current
/// fingerprint is known and its entry still matches it. On a miss the caller reads the tags.
pub fn resolve_cached(cache: &FileCache, index: usize, path: &String, current: Option<Fingerprint>) -> (r: Option<PendingUpdate>)
    requires
        cache.wf(),
    ensures
        match current {
            Some(f) => match lookup_spec(cache@, path@, f) {
                Some(m) => r matches Some(u) && u@.index == index && u@.path == path@ && u@.metadata == m,
                None => r is None,
            },
            None => r is None,
        },
{
    match current {
        Some(f) => match cache.lookup(path.as_str(), f) {
            Some(m) => Some(PendingUpdate { index, path: path.clone(), metadata: m }),
            None => None,
        },
        None => None,
    }
}

/// Slot `index` resolved from freshly read `metadata`: the update to push, and, when the
/// file's fingerprint is known, the metadata recorded in the cache under it. Returns the
/// update and whether the cache changed.
pub fn resolve_fresh(
    cache: &mut FileCache,
    index: usize,
    path: &String,
    metadata: SongMetadata,
    current: Option<Fingerprint>,
) -> (r: (PendingUpdate, bool))
    requires
        old(cache).wf(),
    ensures
        final(cache).wf(),
        r.0@.index == index,
        r.0@.path == path@,
        r.0@.metadata == metadata@,
        r.1 == current is Some,
        final(cache)@.directory == old(cache)@.directory,
        final(cache)@.files == old(cache)@.files,
        final(cache)@.last_scan == old(cache)@.last_scan,
        match current {
            Some(f) => final(cache)@.entries == old(cache)@.entries.insert(path@, (metadata@, f)),
            None => final(cache)@ == old(cache)@,
        },
{
    match current {
        Some(f) => {
            cache.upsert(path.clone(), metadata.duplicate(), f);
            (PendingUpdate { index, path: path.clone(), metadata }, true)
        },
        None => (PendingUpdate { index, path: path.clone(), metadata }, false),
    }
}

/// One run of the background loader over a playlist's paths, taken in order. For the path
/// at `next` the thread first reads the file's fingerprint and offers it to `try_cached`;
/// only on a miss does it read the tags and hand them to `fresh`.
pub struct MetadataLoader {
    pub paths: Vec<String>,
    pub cache: FileCache,
    /// Position of the path to resolve next.
    pub next: usize,
    /// Whether some metadata was recorded in the cache during this run.
    pub cache_updated: bool,
}

impl MetadataLoader {
    pub open spec fn wf(&self) -> bool {
        &&& self.cache.wf()
        &&& self.next <= self.paths@.len()
    }

    /// A run over `paths` that starts from `cache`.
    pub fn new(paths: Vec<String>, cache: FileCache) -> (r: MetadataLoader)
        requires
            cache.wf(),
        ensures
            r.wf(),
            r.paths == paths,
            r.cache == cache,
            r.next == 0,
            !r.cache_updated,
    {
        MetadataLoader { paths, cache, next: 0, cache_updated: false }
    }

    /// The path to resolve now, none once every path has had its turn.
    pub fn current(&self) -> (r: Option<&String>)
        requires
            self.wf(),
        ensures
            self.next < self.paths@.len() ==> r == Some(&self.paths@[self.next as int]),
            self.next >= self.paths@.len() ==> r is None,
    {
        if self.next < self.paths.len() {
            Some(&self.paths[self.next])
        } else {
            None
        }
    }

    /// Serves the current path from the cache when the file still has fingerprint
    /// `current`, and moves on; on a miss nothing changes and the tags are to be read.
    pub fn try_cached(&mut self, current: Option<Fingerprint>) -> (r: Option<PendingUpdate>)
        requires
            old(self).wf(),
            old(self).next < old(self).paths@.len(),
        ensures
            final(self).wf(),
            final(self).paths == old(self).paths,
            final(self).cache == old(self).cache,
            final(self).cache_updated == old(self).cache_updated,
            match current {
                Some(f) => match lookup_spec(old(self).cache@, old(self).paths@[old(self).next as int]@, f) {
                    Some(m) => r matches Some(u) && u@.index == old(self).next && u@.path
                        == old(self).paths@[old(self).next as int]@ && u@.metadata == m
                        && final(self).next == old(self).next + 1,
                    None => r is None && final(self).next == old(self).next,
                },
                None => r is None && final(self).next == old(self).next,
            },
    {
        let n = self.paths.len();
        let r = resolve_cached(&self.cache, self.next, &self.paths[self.next], current);
        if r.is_some() {
            assert(self.next < n);
            self.next = self.next + 1;
        }
        r
    }

    /// Resolves the current path from freshly read tags, or leaves its slot unresolved when
    /// they could not be read, and moves on. Fresh metadata is recorded in the cache when
    /// the file's fingerprint is known.
    pub fn fresh(&mut self, extracted: Option<SongMetadata>, current: Option<Fingerprint>) -> (r: Option<PendingUpdate>)
        requires
            old(self).wf(),
            old(self).next < old(self).paths@.len(),
        ensures
            final(self).wf(),
            final(self).paths == old(self).paths,
            final(self).next == old(self).next + 1,
            match extracted {
                Some(m) => {
                    &&& r matches Some(u) && u@.index == old(self).next && u@.path
                        == old(self).paths@[old(self).next as int]@ && u@.metadata == m@
                    &&& match current {
                        Some(f) => final(self).cache@.entries == old(self).cache@.entries.insert(
                            old(self).paths@[old(self).next as int]@,
                            (m@, f),
                        ) && final(self).cache_updated,
                        None => final(self).cache@ == old(self).cache@
                            && final(self).cache_updated == old(self).cache_updated,
                    }
                },
                None => r is None && final(self).cache@ == old(self).cache@
                    && final(self).cache_updated == old(self).cache_updated,
            },
            final(self).cache@.directory == old(self).cache@.directory,
            final(self).cache@.files == old(self).cache@.files,
    {
        let i = self.next;
        let n = self.paths.len();
        assert(i < n);
        self.next = i + 1;
        match extracted {
            Some(m) => {
                let ghost before = self.cache@;
                let (u, changed) = resolve_fresh(&mut self.cache, i, &self.paths[i], m, current);
                if changed {
                    self.cache_updated = true;
                } else {
                    assert(self.cache@ == before);
                }
                Some(u)
            },
            None => None,
        }
    }

    /// Ends the run: the cache to save, when this run recorded anything in it.
    pub fn finish(self) -> (r: Option<FileCache>)
        ensures
            self.cache_updated ==> r == Some(self.cache),
            !self.cache_updated ==> r is None,
    {
        if self.cache_updated {
            Some(self.cache)
        } else {
            None
        }
    }
}

} // verus!
