use vstd::prelude::*;

use crate::key::{
    cache_file_name, default_key_hash, hash_key_fields, is_cache_file_name,
    lemma_cache_file_name_is_cache_file, spec_cache_file_name, spec_is_cache_file_name,
};
use crate::path::{
    ends_with_component, extends_with_component, has_verbatim_prefix, join_component, joined_path,
};
use crate::settings::{
    cache_root, caching_enabled, is_cache_root, opt_chars, opt_str_chars, spec_caching_enabled,
};

verus! {

/// A content-addressed cache of compiled PTX, kept as files in one directory.
pub struct PtxCache {
    cache_dir: String,
    enabled: bool,
}

/// What a `PtxCache` is: its directory and whether caching is on.
pub struct PtxCacheView {
    pub dir: Seq<char>,
    pub enabled: bool,
}

impl View for PtxCache {
    type V = PtxCacheView;

    closed spec fn view(&self) -> PtxCacheView {
        PtxCacheView { dir: self.cache_dir@, enabled: self.enabled }
    }
}

/// Statistics about the cache: how many cache files it holds and their size.
#[derive(Debug, Clone, Copy)]
pub struct CacheStats {
    pub entry_count: usize,
    pub total_bytes: u64,
}

impl Default for CacheStats {
    fn default() -> (stats: Self)
        ensures
            stats.entry_count == 0,
            stats.total_bytes == 0,
    {
        CacheStats { entry_count: 0, total_bytes: 0 }
    }
}

/// One entry of a listing of the cache directory, as plain values: its file
/// name, its length in bytes (`None` when its metadata could not be read) and
/// its modification time in nanoseconds since the Unix epoch (`None` when the
/// metadata or the time could not be read).
pub struct DirEntryInfo {
    pub name: String,
    pub len: Option<u64>,
    pub modified: Option<i128>,
}

/// An entry counts in the statistics when it is a cache file whose metadata
/// could be read.
pub open spec fn is_counted(e: DirEntryInfo) -> bool {
    spec_is_cache_file_name(e.name@) && e.len is Some
}

/// The number of counted entries of a listing.
pub open spec fn counted_entries(entries: Seq<DirEntryInfo>) -> nat
    decreases entries.len(),
{
    if entries.len() == 0 {
        0
    } else {
        counted_entries(entries.drop_last()) + if is_counted(entries.last()) {
            1nat
        } else {
            0nat
        }
    }
}

/// The total length of the counted entries of a listing.
pub open spec fn counted_bytes(entries: Seq<DirEntryInfo>) -> nat
    decreases entries.len(),
{
    if entries.len() == 0 {
        0
    } else {
        counted_bytes(entries.drop_last()) + if is_counted(entries.last()) {
            entries.last().len.unwrap() as nat
        } else {
            0nat
        }
    }
}

/// An entry is old enough to evict when it is a cache file modified before
/// the cutoff.
pub open spec fn is_expired(e: DirEntryInfo, cutoff: i128) -> bool {
    &&& spec_is_cache_file_name(e.name@)
    &&& e.modified matches Some(m)
    &&& m < cutoff
}

/// The file name of the entry of a cache key.
pub open spec fn key_file_name(
    bitcode: Seq<u8>,
    arch: Seq<char>,
    opt_level: Seq<char>,
    nvvm_version: (i32, i32),
) -> Seq<char> {
    spec_cache_file_name(default_key_hash(bitcode, arch, opt_level, nvvm_version.0, nvvm_version.1))
}

/// The path of the cache file of a key: the key's file name joined to the
/// cache directory.
pub open spec fn key_path(
    cache: PtxCacheView,
    bitcode: Seq<u8>,
    arch: Seq<char>,
    opt_level: Seq<char>,
    nvvm_version: (i32, i32),
) -> Seq<char> {
    joined_path(cache.dir, key_file_name(bitcode, arch, opt_level, nvvm_version))
}

proof fn lemma_counted_bound(entries: Seq<DirEntryInfo>)
    ensures
        counted_entries(entries) <= entries.len(),
    decreases entries.len(),
{
    if entries.len() > 0 {
        lemma_counted_bound(entries.drop_last());
    }
}

/// Tallies the statistics of a listing of the cache directory: the number of
/// cache files whose metadata could be read, and their total length.
pub fn tally_stats(entries: &Vec<DirEntryInfo>) -> (stats: CacheStats)
    requires
        counted_bytes(entries@) <= u64::MAX,
    ensures
        stats.entry_count == counted_entries(entries@),
        stats.total_bytes == counted_bytes(entries@),
{
    let mut stats = CacheStats::default();
    let mut i: usize = 0;
    while i < entries.len()
        invariant
            i <= entries.len(),
            counted_bytes(entries@) <= u64::MAX,
            stats.entry_count == counted_entries(entries@.take(i as int)),
            stats.total_bytes == counted_bytes(entries@.take(i as int)),
        decreases entries.len() - i,
    {
        let e = &entries[i];
        proof {
            assert(entries@.take(i + 1).drop_last() =~= entries@.take(i as int));
            assert(entries@.take(i + 1).last() == entries@[i as int]);
            lemma_counted_bound(entries@.take(i as int));
            lemma_counted_prefix(entries@, i + 1);
        }
        if is_cache_file_name(e.name.as_str()) {
            match e.len {
                Some(len) => {
                    stats.entry_count = stats.entry_count + 1;
                    stats.total_bytes = stats.total_bytes + len;
                },
                None => {},
            }
        }
        i = i + 1;
    }
    assert(entries@.take(entries.len() as int) =~= entries@);
    stats
}

/// The statistics of a single entry: one file of its length exactly when it is
/// a cache file whose metadata could be read, nothing otherwise.
pub proof fn lemma_counted_single(entry: DirEntryInfo)
    ensures
        counted_entries(seq![entry]) == if spec_is_cache_file_name(entry.name@) && entry.len is Some {
            1nat
        } else {
            0nat
        },
        counted_bytes(seq![entry]) == if spec_is_cache_file_name(entry.name@) && entry.len is Some {
            entry.len->0 as nat
        } else {
            0nat
        },
{
    let single = seq![entry];
    assert(single.drop_last() =~= Seq::<DirEntryInfo>::empty());
    assert(counted_entries(Seq::<DirEntryInfo>::empty()) == 0);
    assert(counted_bytes(Seq::<DirEntryInfo>::empty()) == 0);
    assert(single.last() == entry);
}

/// The statistics of a listing are the sum of those of its parts: each entry
/// counts on its own, wherever it stands and whatever stands before it.
pub proof fn lemma_counted_concat(s: Seq<DirEntryInfo>, t: Seq<DirEntryInfo>)
    ensures
        counted_entries(s + t) == counted_entries(s) + counted_entries(t),
        counted_bytes(s + t) == counted_bytes(s) + counted_bytes(t),
    decreases t.len(),
{
    if t.len() == 0 {
        assert(s + t =~= s);
    } else {
        lemma_counted_concat(s, t.drop_last());
        assert((s + t).drop_last() =~= s + t.drop_last());
        assert((s + t).last() == t.last());
    }
}

/// The counts over a prefix of a listing are at most those over the listing.
proof fn lemma_counted_prefix(entries: Seq<DirEntryInfo>, n: int)
    requires
        0 <= n <= entries.len(),
    ensures
        counted_bytes(entries.take(n)) <= counted_bytes(entries),
    decreases entries.len() - n,
{
    if n < entries.len() {
        lemma_counted_prefix(entries, n + 1);
        assert(entries.take(n + 1).drop_last() =~= entries.take(n));
    } else {
        assert(entries.take(n) =~= entries);
    }
}

impl DirEntryInfo {
    /// Whether this entry is a cache file modified before `cutoff`
    /// (nanoseconds since the Unix epoch).
    pub fn is_expired(&self, cutoff: i128) -> (expired: bool)
        ensures
            expired == is_expired(*self, cutoff),
    {
        if is_cache_file_name(self.name.as_str()) {
            match self.modified {
                Some(m) => m < cutoff,
                None => false,
            }
        } else {
            false
        }
    }
}

impl PtxCache {
    /// Sets the cache up from the values of `RUST_CUDA_PTX_CACHE_DISABLE`,
    /// `RUST_CUDA_PTX_CACHE`, `HOME` and `USERPROFILE` (each `None` when unset
    /// or not Unicode).
    pub fn new(
        disable_var: Option<&str>,
        cache_var: Option<String>,
        home: Option<String>,
        userprofile: Option<String>,
    ) -> (cache: Self)
        ensures
            cache@.enabled == spec_caching_enabled(opt_str_chars(disable_var)),
            is_cache_root(opt_chars(cache_var), opt_chars(home), opt_chars(userprofile), cache@.dir),
            cache@.enabled == !(disable_var matches Some(v) && v@ == seq!['1']),
            cache_var matches Some(d) ==> cache@.dir == d@,
            cache_var is None && home is Some ==> cache@.dir == joined_path(home->0@, seq!['.', 'r', 'u', 's', 't', '-', 'c', 'u', 'd', 'a', '-', 'c', 'a', 'c', 'h', 'e']),
            cache_var is None && home is None && userprofile is Some ==> cache@.dir == joined_path(
                userprofile->0@,
                seq!['.', 'r', 'u', 's', 't', '-', 'c', 'u', 'd', 'a', '-', 'c', 'a', 'c', 'h', 'e'],
            ),
            cache_var is None && home is None && userprofile is None ==> cache@.dir == joined_path(
                seq!['.'],
                seq!['.', 'r', 'u', 's', 't', '-', 'c', 'u', 'd', 'a', '-', 'c', 'a', 'c', 'h', 'e'],
            ),
    {
        let enabled = caching_enabled(disable_var);
        let cache_dir = cache_root(cache_var, home, userprofile);
        PtxCache { cache_dir, enabled }
    }

    /// The cache directory.
    pub fn cache_dir(&self) -> (dir: &str)
        ensures
            dir@ == self@.dir,
    {
        self.cache_dir.as_str()
    }

    /// Whether caching is on.
    pub fn is_enabled(&self) -> (enabled: bool)
        ensures
            enabled == self@.enabled,
    {
        self.enabled
    }

    /// The hash of a cache key: the bitcode, the target architecture, the
    /// optimization level and the NVVM version that compiles them.
    pub fn compute_hash(
        &self,
        bitcode: &[u8],
        arch: &str,
        opt_level: &str,
        nvvm_version: (i32, i32),
    ) -> (hash: u64)
        ensures
            hash == default_key_hash(bitcode@, arch@, opt_level@, nvvm_version.0, nvvm_version.1),
    {
        let (major, minor) = nvvm_version;
        hash_key_fields(bitcode, arch, opt_level, major, minor)
    }

    /// The path of the cache file that holds the entry of `hash`.
    pub fn cache_path(&self, hash: u64) -> (path: String)
        ensures
            path@ == joined_path(self@.dir, spec_cache_file_name(hash)),
            ends_with_component(self@.dir, spec_cache_file_name(hash), path@),
            !has_verbatim_prefix(self@.dir) ==> extends_with_component(
                self@.dir,
                spec_cache_file_name(hash),
                path@,
            ),
    {
        let name = cache_file_name(hash);
        proof {
            lemma_cache_file_name_is_cache_file(hash);
        }
        join_component(self.cache_dir.as_str(), name.as_str())
    }

    /// The path of the cache file of a key, which both a lookup and a store
    /// use; `None` when caching is off, and nothing is read or written then.
    pub fn entry_path(
        &self,
        bitcode: &[u8],
        arch: &str,
        opt_level: &str,
        nvvm_version: (i32, i32),
    ) -> (path: Option<String>)
        ensures
            path is None <==> !self@.enabled,
            path matches Some(p) ==> p@ == key_path(self@, bitcode@, arch@, opt_level@, nvvm_version),
            path matches Some(p) ==> ends_with_component(
                self@.dir,
                key_file_name(bitcode@, arch@, opt_level@, nvvm_version),
                p@,
            ),
            path matches Some(p) ==> (!has_verbatim_prefix(self@.dir) ==> extends_with_component(
                self@.dir,
                key_file_name(bitcode@, arch@, opt_level@, nvvm_version),
                p@,
            )),
    {
        if !self.enabled {
            return None;
        }
        let hash = self.compute_hash(bitcode, arch, opt_level, nvvm_version);
        Some(self.cache_path(hash))
    }

    /// The statistics of the cache, given a listing of its directory; all
    /// zero when caching is off.
    pub fn stats(&self, entries: &Vec<DirEntryInfo>) -> (stats: CacheStats)
        requires
            self@.enabled ==> counted_bytes(entries@) <= u64::MAX,
        ensures
            self@.enabled ==> stats.entry_count == counted_entries(entries@),
            self@.enabled ==> stats.total_bytes == counted_bytes(entries@),
            !self@.enabled ==> stats.entry_count == 0 && stats.total_bytes == 0,
    {
        if !self.enabled {
            return CacheStats::default();
        }
        tally_stats(entries)
    }

    /// The age, in seconds, beyond which eviction removes an entry.
    pub fn max_age_secs(max_age_days: u64) -> (secs: u64)
        requires
            max_age_days * 86400 <= u64::MAX,
        ensures
            secs == max_age_days * 86400,
    {
        max_age_days * 86400
    }

    /// Whether eviction with the given cutoff (nanoseconds since the Unix
    /// epoch) removes this entry; never when caching is off.
    pub fn evicts(&self, entry: &DirEntryInfo, cutoff: i128) -> (evicted: bool)
        ensures
            evicted == (self@.enabled && is_expired(*entry, cutoff)),
    {
        self.enabled && entry.is_expired(cutoff)
    }

    /// Whether clearing the cache removes this entry; never when caching is
    /// off.
    pub fn clears(&self, entry: &DirEntryInfo) -> (removed: bool)
        ensures
            removed == (self@.enabled && spec_is_cache_file_name(entry.name@)),
    {
        self.enabled && is_cache_file_name(entry.name.as_str())
    }
}

} // verus!
