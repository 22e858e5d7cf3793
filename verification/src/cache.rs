//! The perceptual-hash cache: entries keyed by path with a freshness
//! check on file size and whole-second modification time, an
//! in-memory backend, and the row semantics shared with any
//! persistent backend.

use vstd::prelude::*;

use crate::error::CacheError;
use crate::hashval::HashAlgorithmKind;

verus! {

/// One cached hash entry. Times are in whole seconds since the epoch,
/// the precision of the persistent store.
#[derive(Debug, Clone)]
pub struct CacheEntry {
    /// Path of the photo.
    pub path: String,
    /// The computed hash bytes.
    pub hash: Vec<u8>,
    /// Algorithm that produced the hash.
    pub algorithm: HashAlgorithmKind,
    /// File size when the hash was computed.
    pub file_size: u64,
    /// File modification time when the hash was computed, in seconds.
    pub file_modified: u64,
    /// When the entry was cached, in seconds.
    pub cached_at: u64,
}

impl CacheEntry {
    /// Freshness: the entry still applies to a file exactly when the
    /// size and the whole-second modification time both match.
    pub fn is_valid_for(&self, file_size: u64, file_modified: u64) -> (r: bool)
        ensures
            r == (self.file_size == file_size && self.file_modified == file_modified),
    {
        self.file_size == file_size && self.file_modified == file_modified
    }
}

/// Cache statistics.
#[derive(Debug, Clone)]
pub struct CacheStats {
    /// Number of entries.
    pub total_entries: usize,
    /// Total size of the cached hash bytes, saturating.
    pub total_size_bytes: u64,
    /// Earliest `cached_at` over the entries.
    pub oldest_entry: Option<u64>,
    /// Latest `cached_at` over the entries.
    pub newest_entry: Option<u64>,
}

/// Whether two entries carry the same data.
pub open spec fn entry_eq(a: CacheEntry, b: CacheEntry) -> bool {
    &&& a.path@ == b.path@
    &&& a.hash@ == b.hash@
    &&& a.algorithm == b.algorithm
    &&& a.file_size == b.file_size
    &&& a.file_modified == b.file_modified
    &&& a.cached_at == b.cached_at
}

/// The entry stored under a path, if any: the latest row with that
/// path.
pub open spec fn cache_lookup(rows: Seq<CacheEntry>, path: Seq<char>) -> Option<CacheEntry>
    decreases rows.len(),
{
    if rows.len() == 0 {
        None
    } else if rows.last().path@ == path {
        Some(rows.last())
    } else {
        cache_lookup(rows.drop_last(), path)
    }
}

/// Whether two optional entries agree: both absent, or present with
/// the same data.
pub open spec fn opt_entry_eq(a: Option<CacheEntry>, b: Option<CacheEntry>) -> bool {
    match (a, b) {
        (Some(x), Some(y)) => entry_eq(x, y),
        (None, None) => true,
        _ => false,
    }
}

/// The lookup after upserting each of `entries`, in order, onto
/// `rows`: the latest entry for the path wins, else the stored row.
pub open spec fn batch_lookup(
    rows: Seq<CacheEntry>,
    entries: Seq<CacheEntry>,
    p: Seq<char>,
) -> Option<CacheEntry>
    decreases entries.len(),
{
    if entries.len() == 0 {
        cache_lookup(rows, p)
    } else if entries.last().path@ == p {
        Some(entries.last())
    } else {
        batch_lookup(rows, entries.drop_last(), p)
    }
}

/// Total size of the stored hash bytes.
pub open spec fn rows_size_sum(rows: Seq<CacheEntry>) -> int
    decreases rows.len(),
{
    if rows.len() == 0 {
        0
    } else {
        rows_size_sum(rows.drop_last()) + rows.last().hash@.len()
    }
}

/// Saturation at the largest `u64`.
pub open spec fn spec_sat64(x: int) -> int {
    if x <= 0xFFFF_FFFF_FFFF_FFFF {
        x
    } else {
        0xFFFF_FFFF_FFFF_FFFF
    }
}

/// Earliest `cached_at` over the rows.
pub open spec fn rows_oldest(rows: Seq<CacheEntry>) -> Option<u64>
    decreases rows.len(),
{
    if rows.len() == 0 {
        None
    } else {
        match rows_oldest(rows.drop_last()) {
            None => Some(rows.last().cached_at),
            Some(m) => if rows.last().cached_at < m {
                Some(rows.last().cached_at)
            } else {
                Some(m)
            },
        }
    }
}

/// Latest `cached_at` over the rows.
pub open spec fn rows_newest(rows: Seq<CacheEntry>) -> Option<u64>
    decreases rows.len(),
{
    if rows.len() == 0 {
        None
    } else {
        match rows_newest(rows.drop_last()) {
            None => Some(rows.last().cached_at),
            Some(m) => if rows.last().cached_at > m {
                Some(rows.last().cached_at)
            } else {
                Some(m)
            },
        }
    }
}

/// A cache backend: a mutable table of entries keyed by path.
///
/// `rows` is the abstract content; the operations describe their
/// effect on it through `cache_lookup`.
pub trait CacheBackend: Sized {
    /// The rows the cache currently holds.
    spec fn rows(&self) -> Seq<CacheEntry>;

    /// Get the cached entry for a path exactly when it exists and is
    /// fresh: the stored size equals the current size and the stored
    /// whole-second modification time equals the current one.
    /// A mismatch or a missing entry is `None`; a storage failure is
    /// an error, never a silent miss.
    fn get(&self, path: &String, current_size: u64, current_modified: u64) -> (r: Result<
        Option<CacheEntry>,
        CacheError,
    >)
        ensures
            match r {
                Ok(Some(e)) => match cache_lookup(self.rows(), path@) {
                    Some(s) => entry_eq(e, s) && e.file_size == current_size
                        && e.file_modified == current_modified,
                    None => false,
                },
                Ok(None) => match cache_lookup(self.rows(), path@) {
                    Some(e) => e.file_size != current_size || e.file_modified != current_modified,
                    None => true,
                },
                Err(_) => true,
            },
    ;

    /// Insert or replace the entry under its path.
    fn set(&mut self, entry: CacheEntry) -> (r: Result<(), CacheError>)
        ensures
            r is Ok ==> {
                &&& cache_lookup(final(self).rows(), entry.path@) == Some(entry)
                &&& forall|p: Seq<char>|
                    p != entry.path@ ==> #[trigger] cache_lookup(final(self).rows(), p)
                        == cache_lookup(old(self).rows(), p)
            },
    ;

    /// Insert or replace several entries in one step; a later entry
    /// for the same path wins.
    fn set_batch(&mut self, entries: &Vec<CacheEntry>) -> (r: Result<(), CacheError>)
        ensures
            r is Ok ==> forall|p: Seq<char>| #[trigger] opt_entry_eq(
                cache_lookup(final(self).rows(), p),
                batch_lookup(old(self).rows(), entries@, p),
            ),
    ;

    /// Remove the entry under a path, if present.
    fn remove(&mut self, path: &String) -> (r: Result<(), CacheError>)
        ensures
            r is Ok ==> {
                &&& cache_lookup(final(self).rows(), path@) is None
                &&& forall|p: Seq<char>|
                    p != path@ ==> #[trigger] cache_lookup(final(self).rows(), p) == cache_lookup(
                        old(self).rows(),
                        p,
                    )
            },
    ;

    /// Remove every entry.
    fn clear(&mut self) -> (r: Result<(), CacheError>)
        ensures
            r is Ok ==> final(self).rows() =~= Seq::<CacheEntry>::empty(),
    ;

    /// Statistics over the stored entries: the row count, the total
    /// hash size (saturating), and the earliest and latest cache
    /// times.
    fn stats(&self) -> (r: Result<CacheStats, CacheError>)
        ensures
            match r {
                Ok(s) => {
                    &&& s.total_entries == self.rows().len()
                    &&& s.total_size_bytes as int == spec_sat64(rows_size_sum(self.rows()))
                    &&& s.oldest_entry == rows_oldest(self.rows())
                    &&& s.newest_entry == rows_newest(self.rows())
                },
                Err(_) => true,
            },
    ;
}

/// In-memory cache backend, for tests and single runs.
pub struct InMemoryCache {
    /// The stored entries, one per path.
    pub entries: Vec<CacheEntry>,
}

/// Copy of a byte vector.
pub fn clone_bytes_of(v: &Vec<u8>) -> (r: Vec<u8>)
    ensures
        r@ == v@,
{
    let mut r: Vec<u8> = Vec::new();
    let mut i: usize = 0;
    while i < v.len()
        invariant
            i <= v@.len(),
            r@ =~= v@.take(i as int),
        decreases v@.len() - i,
    {
        r.push(v[i]);
        proof {
            assert(r@ =~= v@.take(i + 1 as int));
        }
        i = i + 1;
    }
    proof {
        assert(v@.take(v@.len() as int) =~= v@);
    }
    r
}

impl InMemoryCache {
    /// Create an empty in-memory cache.
    pub fn new() -> (r: InMemoryCache)
        ensures
            r.rows() =~= Seq::<CacheEntry>::empty(),
    {
        InMemoryCache { entries: Vec::new() }
    }

    /// Index of the latest entry stored under `path`, if any.
    fn index_of_last(&self, path: &String) -> (r: Option<usize>)
        ensures
            match r {
                Some(i) => i < self.entries@.len() && self.entries@[i as int].path@ == path@
                    && forall|j: int|
                    i < j < self.entries@.len() ==> (#[trigger] self.entries@[j]).path@ != path@,
                None => forall|j: int|
                    0 <= j < self.entries@.len() ==> (#[trigger] self.entries@[j]).path@ != path@,
            },
    {
        let mut i: usize = self.entries.len();
        while i > 0
            invariant
                i <= self.entries@.len(),
                forall|j: int|
                    i <= j < self.entries@.len() ==> (#[trigger] self.entries@[j]).path@ != path@,
            decreases i,
        {
            i = i - 1;
            if self.entries[i].path == *path {
                return Some(i);
            }
        }
        None
    }

    /// Duplicate an entry value.
    fn clone_entry(e: &CacheEntry) -> (r: CacheEntry)
        ensures
            entry_eq(r, *e),
    {
        CacheEntry {
            path: e.path.clone(),
            hash: clone_bytes_of(&e.hash),
            algorithm: e.algorithm,
            file_size: e.file_size,
            file_modified: e.file_modified,
            cached_at: e.cached_at,
        }
    }

    /// Remove every row stored under `path`.
    fn remove_all(&mut self, path: &String)
        ensures
            cache_lookup(final(self).rows(), path@) is None,
            forall|p: Seq<char>|
                p != path@ ==> #[trigger] cache_lookup(final(self).rows(), p) == cache_lookup(
                    old(self).rows(),
                    p,
                ),
            final(self).rows().len() <= old(self).rows().len(),
    {
        let ghost orig = self.entries@;
        loop
            invariant
                self.entries@.len() <= orig.len(),
                orig == old(self).entries@,
                forall|p: Seq<char>|
                    p != path@ ==> #[trigger] cache_lookup(self.entries@, p) == cache_lookup(
                        orig,
                        p,
                    ),
            decreases self.entries@.len(),
        {
            match self.index_of_last(path) {
                Some(i) => {
                    let ghost rows_pre = self.entries@;
                    self.entries.remove(i);
                    proof {
                        assert forall|p: Seq<char>| p != path@ implies #[trigger] cache_lookup(
                            self.entries@,
                            p,
                        ) == cache_lookup(orig, p) by {
                            lemma_remove_keeps(rows_pre, i as int, p);
                            assert(self.entries@ == rows_pre.remove(i as int));
                            assert(cache_lookup(self.entries@, p) == cache_lookup(rows_pre, p));
                            assert(cache_lookup(rows_pre, p) == cache_lookup(orig, p));
                        }
                    }
                },
                None => {
                    proof {
                        lemma_lookup_absent(self.entries@, path@);
                    }
                    return ;
                },
            }
        }
    }

    /// Remove entries whose paths no longer exist on disk; the caller
    /// passes the stored paths it found missing. Returns how many
    /// entries were removed.
    pub fn prune_orphans(&mut self, missing: &Vec<String>) -> (r: usize)
        ensures
            forall|k: int|
                0 <= k < missing@.len() ==> cache_lookup(
                    final(self).rows(),
                    (#[trigger] missing@[k])@,
                ) is None,
            forall|p: Seq<char>|
                (forall|k: int| 0 <= k < missing@.len() ==> (#[trigger] missing@[k])@ != p)
                    ==> #[trigger] cache_lookup(final(self).rows(), p) == cache_lookup(
                    old(self).rows(),
                    p,
                ),
            r + final(self).rows().len() == old(self).rows().len(),
    {
        let mut removed: usize = 0;
        let mut k: usize = 0;
        let n0 = self.entries.len();
        while k < missing.len()
            invariant
                k <= missing@.len(),
                removed + self.entries@.len() == n0,
                forall|kk: int|
                    0 <= kk < k ==> cache_lookup(self.rows(), (#[trigger] missing@[kk])@) is None,
                forall|p: Seq<char>|
                    (forall|kk: int| 0 <= kk < k ==> (#[trigger] missing@[kk])@ != p)
                        ==> #[trigger] cache_lookup(self.rows(), p) == cache_lookup(
                        old(self).rows(),
                        p,
                    ),
            decreases missing@.len() - k,
        {
            let ghost rows_pre = self.rows();
            let before = self.entries.len();
            self.remove_all(&missing[k]);
            proof {
                assert forall|kk: int| 0 <= kk < k + 1 implies cache_lookup(
                    self.rows(),
                    (#[trigger] missing@[kk])@,
                ) is None by {
                    if kk < k && missing@[kk]@ != missing@[k as int]@ {
                        assert(cache_lookup(self.rows(), missing@[kk]@) == cache_lookup(
                            rows_pre,
                            missing@[kk]@,
                        ));
                    }
                }
                assert forall|p: Seq<char>|
                    (forall|kk: int| 0 <= kk < k + 1 ==> (#[trigger] missing@[kk])@
                        != p) implies #[trigger] cache_lookup(self.rows(), p) == cache_lookup(
                    old(self).rows(),
                    p,
                ) by {
                    assert(missing@[k as int]@ != p);
                    assert(cache_lookup(self.rows(), p) == cache_lookup(rows_pre, p));
                    assert(cache_lookup(rows_pre, p) == cache_lookup(old(self).rows(), p));
                }
            }
            let after = self.entries.len();
            proof {
                assert(after <= before);
                assert(removed + before == n0);
            }
            removed = removed + (before - after);
            k = k + 1;
        }
        removed
    }
}

/// The latest row with a path is what lookup finds.
proof fn lemma_lookup_at(rows: Seq<CacheEntry>, i: int)
    requires
        0 <= i < rows.len(),
        forall|j: int| i < j < rows.len() ==> (#[trigger] rows[j]).path@ != rows[i].path@,
    ensures
        cache_lookup(rows, rows[i].path@) == Some(rows[i]),
    decreases rows.len(),
{
    if i == rows.len() - 1 {
    } else {
        assert(rows.last().path@ != rows[i].path@);
        assert(rows.drop_last()[i] == rows[i]);
        assert(forall|j: int|
            i < j < rows.len() - 1 ==> (#[trigger] rows.drop_last()[j]).path@ != rows[i].path@);
        lemma_lookup_at(rows.drop_last(), i);
    }
}

/// A path on no row looks up to nothing.
proof fn lemma_lookup_absent(rows: Seq<CacheEntry>, path: Seq<char>)
    requires
        forall|i: int| 0 <= i < rows.len() ==> (#[trigger] rows[i]).path@ != path,
    ensures
        cache_lookup(rows, path) is None,
    decreases rows.len(),
{
    if rows.len() > 0 {
        lemma_lookup_absent(rows.drop_last(), path);
    }
}

/// Replacing the latest row with a path rewrites that path's lookup
/// and keeps every other lookup.
proof fn lemma_lookup_update(rows: Seq<CacheEntry>, i: int, e: CacheEntry, p: Seq<char>)
    requires
        0 <= i < rows.len(),
        rows[i].path@ == e.path@,
        forall|j: int| i < j < rows.len() ==> (#[trigger] rows[j]).path@ != e.path@,
    ensures
        cache_lookup(rows.update(i, e), e.path@) == Some(e),
        p != e.path@ ==> cache_lookup(rows.update(i, e), p) == cache_lookup(rows, p),
    decreases rows.len(),
{
    let rows2 = rows.update(i, e);
    if i == rows.len() - 1 {
        assert(rows2.last() == e);
        if p != e.path@ {
            assert(rows2.drop_last() =~= rows.drop_last());
        }
    } else {
        assert(rows2.last() == rows.last());
        assert(rows.last().path@ != e.path@);
        assert(rows2.drop_last() =~= rows.drop_last().update(i, e));
        assert(rows.drop_last()[i] == rows[i]);
        assert(forall|j: int|
            i < j < rows.len() - 1 ==> (#[trigger] rows.drop_last()[j]).path@ != e.path@);
        lemma_lookup_update(rows.drop_last(), i, e, p);
    }
}

/// Appending a row rewrites its path's lookup and keeps every other
/// lookup.
proof fn lemma_lookup_push(rows: Seq<CacheEntry>, e: CacheEntry, p: Seq<char>)
    ensures
        cache_lookup(rows.push(e), e.path@) == Some(e),
        p != e.path@ ==> cache_lookup(rows.push(e), p) == cache_lookup(rows, p),
{
    assert(rows.push(e).last() == e);
    if p != e.path@ {
        assert(rows.push(e).drop_last() =~= rows);
    }
}

/// Removing a row keeps the lookup of every other path.
proof fn lemma_remove_keeps(rows: Seq<CacheEntry>, i: int, p: Seq<char>)
    requires
        0 <= i < rows.len(),
        rows[i].path@ != p,
    ensures
        cache_lookup(rows.remove(i), p) == cache_lookup(rows, p),
    decreases rows.len(),
{
    let rows2 = rows.remove(i);
    if i == rows.len() - 1 {
        assert(rows2 =~= rows.drop_last());
    } else {
        assert(rows2.last() == rows.last());
        assert(rows2.drop_last() =~= rows.drop_last().remove(i));
        assert(rows.drop_last()[i] == rows[i]);
        lemma_remove_keeps(rows.drop_last(), i, p);
    }
}

impl CacheBackend for InMemoryCache {
    open spec fn rows(&self) -> Seq<CacheEntry> {
        self.entries@
    }

    fn get(&self, path: &String, current_size: u64, current_modified: u64) -> (r: Result<
        Option<CacheEntry>,
        CacheError,
    >)
        ensures
            r is Ok,
    {
        match self.index_of_last(path) {
            Some(i) => {
                proof {
                    lemma_lookup_at(self.entries@, i as int);
                }
                let e = &self.entries[i];
                if e.is_valid_for(current_size, current_modified) {
                    Ok(Some(InMemoryCache::clone_entry(e)))
                } else {
                    Ok(None)
                }
            },
            None => {
                proof {
                    lemma_lookup_absent(self.entries@, path@);
                }
                Ok(None)
            },
        }
    }

    fn set(&mut self, entry: CacheEntry) -> (r: Result<(), CacheError>)
        ensures
            r is Ok,
    {
        match self.index_of_last(&entry.path) {
            Some(i) => {
                proof {
                    assert forall|p: Seq<char>| p != entry.path@ implies cache_lookup(
                        old(self).entries@.update(i as int, entry),
                        p,
                    ) == cache_lookup(old(self).entries@, p) by {
                        lemma_lookup_update(old(self).entries@, i as int, entry, p);
                    }
                    lemma_lookup_update(old(self).entries@, i as int, entry, entry.path@);
                }
                self.entries[i] = entry;
                Ok(())
            },
            None => {
                proof {
                    assert forall|p: Seq<char>| p != entry.path@ implies cache_lookup(
                        old(self).entries@.push(entry),
                        p,
                    ) == cache_lookup(old(self).entries@, p) by {
                        lemma_lookup_push(old(self).entries@, entry, p);
                    }
                    lemma_lookup_push(old(self).entries@, entry, entry.path@);
                }
                self.entries.push(entry);
                Ok(())
            },
        }
    }

    fn set_batch(&mut self, entries: &Vec<CacheEntry>) -> (r: Result<(), CacheError>)
        ensures
            r is Ok,
    {
        let mut k: usize = 0;
        proof {
            assert(entries@.take(0) =~= Seq::<CacheEntry>::empty());
        }
        while k < entries.len()
            invariant
                k <= entries@.len(),
                forall|p: Seq<char>| #[trigger] opt_entry_eq(
                    cache_lookup(self.rows(), p),
                    batch_lookup(old(self).rows(), entries@.take(k as int), p),
                ),
            decreases entries@.len() - k,
        {
            let ghost rows_pre = self.rows();
            let e = InMemoryCache::clone_entry(&entries[k]);
            match self.set(e) {
                Ok(u) => u,
                Err(er) => {
                    return Err(er);
                },
            };
            proof {
                assert(entries@.take(k + 1).drop_last() =~= entries@.take(k as int));
                assert(entries@.take(k + 1).last() == entries@[k as int]);
                assert forall|p: Seq<char>| true implies #[trigger] opt_entry_eq(
                    cache_lookup(self.rows(), p),
                    batch_lookup(old(self).rows(), entries@.take(k + 1), p),
                ) by {
                    if p == entries@[k as int].path@ {
                        assert(cache_lookup(self.rows(), p) == Some(e));
                    } else {
                        assert(cache_lookup(self.rows(), p) == cache_lookup(rows_pre, p));
                        assert(opt_entry_eq(
                            cache_lookup(rows_pre, p),
                            batch_lookup(old(self).rows(), entries@.take(k as int), p),
                        ));
                    }
                }
            }
            k = k + 1;
        }
        proof {
            assert(entries@.take(entries@.len() as int) =~= entries@);
        }
        Ok(())
    }

    fn remove(&mut self, path: &String) -> (r: Result<(), CacheError>)
        ensures
            r is Ok,
    {
        self.remove_all(path);
        Ok(())
    }

    fn clear(&mut self) -> (r: Result<(), CacheError>)
        ensures
            r is Ok,
    {
        self.entries.clear();
        Ok(())
    }

    fn stats(&self) -> (r: Result<CacheStats, CacheError>)
        ensures
            r is Ok,
    {
        let mut total_size: u64 = 0;
        let mut oldest: Option<u64> = None;
        let mut newest: Option<u64> = None;
        let mut i: usize = 0;
        proof {
            assert(self.entries@.take(0) =~= Seq::<CacheEntry>::empty());
        }
        while i < self.entries.len()
            invariant
                i <= self.entries@.len(),
                total_size as int == spec_sat64(rows_size_sum(self.entries@.take(i as int))),
                oldest == rows_oldest(self.entries@.take(i as int)),
                newest == rows_newest(self.entries@.take(i as int)),
            decreases self.entries@.len() - i,
        {
            proof {
                assert(self.entries@.take(i + 1).drop_last() =~= self.entries@.take(i as int));
                assert(self.entries@.take(i + 1).last() == self.entries@[i as int]);
            }
            let e = &self.entries[i];
            let hlen = e.hash.len() as u64;
            total_size = if total_size <= u64::MAX - hlen {
                total_size + hlen
            } else {
                u64::MAX
            };
            oldest = match oldest {
                Some(o) => if e.cached_at < o {
                    Some(e.cached_at)
                } else {
                    Some(o)
                },
                None => Some(e.cached_at),
            };
            newest = match newest {
                Some(o) => if e.cached_at > o {
                    Some(e.cached_at)
                } else {
                    Some(o)
                },
                None => Some(e.cached_at),
            };
            i = i + 1;
        }
        proof {
            assert(self.entries@.take(self.entries@.len() as int) =~= self.entries@);
        }
        Ok(
            CacheStats {
                total_entries: self.entries.len(),
                total_size_bytes: total_size,
                oldest_entry: oldest,
                newest_entry: newest,
            },
        )
    }
}

/// Directory scan state recorded beside the hash rows by persistent
/// backends.
#[derive(Debug, Clone)]
pub struct ScanState {
    /// Directory that was scanned.
    pub directory: String,
    /// When the scan was performed, in seconds since the epoch.
    pub last_scan_time: u64,
    /// Number of photos found.
    pub file_count: usize,
}

} // verus!
