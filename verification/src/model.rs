use vstd::prelude::*;

use crate::cache::{
    counted_bytes, counted_entries, is_expired, key_file_name, key_path, DirEntryInfo, PtxCacheView,
};
use crate::key::{
    default_key_hash, lemma_cache_file_name_is_cache_file, lemma_cache_file_names_distinct,
    spec_is_cache_file_name,
};
use crate::path::{ends_with_component, joined_path, lemma_joined_distinct};

verus! {

/// Files by path. A lookup reads, and a store writes, the path that
/// `PtxCache::entry_path` gives, which is `key_path` of the cache and the key.
pub type DirFiles = Map<Seq<char>, Seq<u8>>;

/// `path` is a cache file of the cache directory: a cache-file name joined to
/// the directory, as a listing of the directory gives its entries' paths.
pub open spec fn is_cache_file_path(cache: PtxCacheView, path: Seq<char>) -> bool {
    exists|name: Seq<char>| spec_is_cache_file_name(name) && path == joined_path(cache.dir, name)
}

/// What a lookup of a key finds in a cache directory: the content of the key's
/// file, if there is one and caching is on.
pub open spec fn lookup_in(
    cache: PtxCacheView,
    files: DirFiles,
    bitcode: Seq<u8>,
    arch: Seq<char>,
    opt_level: Seq<char>,
    nvvm_version: (i32, i32),
) -> Option<Seq<u8>> {
    let path = key_path(cache, bitcode, arch, opt_level, nvvm_version);
    if cache.enabled && files.contains_key(path) {
        Some(files[path])
    } else {
        None
    }
}

/// The cache directory after storing PTX under a key: the key's file holds
/// the PTX; nothing changes when caching is off.
pub open spec fn store_in(
    cache: PtxCacheView,
    files: DirFiles,
    bitcode: Seq<u8>,
    arch: Seq<char>,
    opt_level: Seq<char>,
    nvvm_version: (i32, i32),
    ptx: Seq<u8>,
) -> DirFiles {
    if cache.enabled {
        files.insert(key_path(cache, bitcode, arch, opt_level, nvvm_version), ptx)
    } else {
        files
    }
}

/// The cache directory after clearing: every cache file is gone, other files
/// stay; nothing changes when caching is off.
pub open spec fn clear_in(cache: PtxCacheView, files: DirFiles) -> DirFiles {
    if cache.enabled {
        files.restrict(files.dom().filter(|path: Seq<char>| !is_cache_file_path(cache, path)))
    } else {
        files
    }
}

/// A lookup after a store of the same key finds what was stored.
pub proof fn lemma_lookup_after_store(
    cache: PtxCacheView,
    files: DirFiles,
    bitcode: Seq<u8>,
    arch: Seq<char>,
    opt_level: Seq<char>,
    nvvm_version: (i32, i32),
    ptx: Seq<u8>,
)
    requires
        cache.enabled,
    ensures
        lookup_in(
            cache,
            store_in(cache, files, bitcode, arch, opt_level, nvvm_version, ptx),
            bitcode,
            arch,
            opt_level,
            nvvm_version,
        ) == Some(ptx),
{
}

/// A second store of a key replaces what the first stored.
pub proof fn lemma_store_replaces(
    cache: PtxCacheView,
    files: DirFiles,
    bitcode: Seq<u8>,
    arch: Seq<char>,
    opt_level: Seq<char>,
    nvvm_version: (i32, i32),
    first: Seq<u8>,
    second: Seq<u8>,
)
    requires
        cache.enabled,
    ensures
        lookup_in(
            cache,
            store_in(
                cache,
                store_in(cache, files, bitcode, arch, opt_level, nvvm_version, first),
                bitcode,
                arch,
                opt_level,
                nvvm_version,
                second,
            ),
            bitcode,
            arch,
            opt_level,
            nvvm_version,
        ) == Some(second),
        store_in(
            cache,
            store_in(cache, files, bitcode, arch, opt_level, nvvm_version, first),
            bitcode,
            arch,
            opt_level,
            nvvm_version,
            second,
        ).dom() == store_in(cache, files, bitcode, arch, opt_level, nvvm_version, first).dom(),
{
    let once = store_in(cache, files, bitcode, arch, opt_level, nvvm_version, first);
    let twice = store_in(cache, once, bitcode, arch, opt_level, nvvm_version, second);
    assert(twice.dom() =~= once.dom());
}

/// A store under one key leaves what a lookup of another key finds unchanged,
/// when the two keys hash differently.
pub proof fn lemma_store_keeps_other_keys(
    cache: PtxCacheView,
    files: DirFiles,
    bitcode: Seq<u8>,
    arch: Seq<char>,
    opt_level: Seq<char>,
    nvvm_version: (i32, i32),
    ptx: Seq<u8>,
    other_bitcode: Seq<u8>,
    other_arch: Seq<char>,
    other_opt_level: Seq<char>,
    other_nvvm_version: (i32, i32),
)
    requires
        default_key_hash(bitcode, arch, opt_level, nvvm_version.0, nvvm_version.1)
            != default_key_hash(
            other_bitcode,
            other_arch,
            other_opt_level,
            other_nvvm_version.0,
            other_nvvm_version.1,
        ),
        ends_with_component(
            cache.dir,
            key_file_name(bitcode, arch, opt_level, nvvm_version),
            key_path(cache, bitcode, arch, opt_level, nvvm_version),
        ),
        ends_with_component(
            cache.dir,
            key_file_name(other_bitcode, other_arch, other_opt_level, other_nvvm_version),
            key_path(cache, other_bitcode, other_arch, other_opt_level, other_nvvm_version),
        ),
    ensures
        lookup_in(
            cache,
            store_in(cache, files, bitcode, arch, opt_level, nvvm_version, ptx),
            other_bitcode,
            other_arch,
            other_opt_level,
            other_nvvm_version,
        ) == lookup_in(cache, files, other_bitcode, other_arch, other_opt_level, other_nvvm_version),
{
    lemma_distinct_keys_distinct_paths(
        cache,
        bitcode,
        arch,
        opt_level,
        nvvm_version,
        other_bitcode,
        other_arch,
        other_opt_level,
        other_nvvm_version,
    );
}

/// With caching off, a lookup finds nothing and a store changes nothing.
pub proof fn lemma_disabled_cache_is_inert(
    cache: PtxCacheView,
    files: DirFiles,
    bitcode: Seq<u8>,
    arch: Seq<char>,
    opt_level: Seq<char>,
    nvvm_version: (i32, i32),
    ptx: Seq<u8>,
)
    requires
        !cache.enabled,
    ensures
        lookup_in(cache, files, bitcode, arch, opt_level, nvvm_version) is None,
        store_in(cache, files, bitcode, arch, opt_level, nvvm_version, ptx) == files,
{
}

/// After clearing, a lookup of any key finds nothing.
pub proof fn lemma_lookup_after_clear(
    cache: PtxCacheView,
    files: DirFiles,
    bitcode: Seq<u8>,
    arch: Seq<char>,
    opt_level: Seq<char>,
    nvvm_version: (i32, i32),
)
    ensures
        lookup_in(cache, clear_in(cache, files), bitcode, arch, opt_level, nvvm_version) is None,
{
    lemma_cache_file_name_is_cache_file(
        default_key_hash(bitcode, arch, opt_level, nvvm_version.0, nvvm_version.1),
    );
    let name = key_file_name(bitcode, arch, opt_level, nvvm_version);
    assert(spec_is_cache_file_name(name) && key_path(cache, bitcode, arch, opt_level, nvvm_version)
        == joined_path(cache.dir, name));
}

/// Keys that hash differently have their files at different paths of one
/// cache: the paths that `PtxCache::entry_path` gives for them differ.
pub proof fn lemma_distinct_keys_distinct_paths(
    cache: PtxCacheView,
    bitcode: Seq<u8>,
    arch: Seq<char>,
    opt_level: Seq<char>,
    nvvm_version: (i32, i32),
    other_bitcode: Seq<u8>,
    other_arch: Seq<char>,
    other_opt_level: Seq<char>,
    other_nvvm_version: (i32, i32),
)
    requires
        default_key_hash(bitcode, arch, opt_level, nvvm_version.0, nvvm_version.1)
            != default_key_hash(
            other_bitcode,
            other_arch,
            other_opt_level,
            other_nvvm_version.0,
            other_nvvm_version.1,
        ),
        ends_with_component(
            cache.dir,
            key_file_name(bitcode, arch, opt_level, nvvm_version),
            key_path(cache, bitcode, arch, opt_level, nvvm_version),
        ),
        ends_with_component(
            cache.dir,
            key_file_name(other_bitcode, other_arch, other_opt_level, other_nvvm_version),
            key_path(cache, other_bitcode, other_arch, other_opt_level, other_nvvm_version),
        ),
    ensures
        key_path(cache, bitcode, arch, opt_level, nvvm_version) != key_path(
            cache,
            other_bitcode,
            other_arch,
            other_opt_level,
            other_nvvm_version,
        ),
{
    let h1 = default_key_hash(bitcode, arch, opt_level, nvvm_version.0, nvvm_version.1);
    let h2 = default_key_hash(
        other_bitcode,
        other_arch,
        other_opt_level,
        other_nvvm_version.0,
        other_nvvm_version.1,
    );
    lemma_cache_file_names_distinct(h1, h2);
    lemma_cache_file_name_is_cache_file(h1);
    lemma_cache_file_name_is_cache_file(h2);
    lemma_joined_distinct(
        cache.dir,
        key_file_name(bitcode, arch, opt_level, nvvm_version),
        key_file_name(other_bitcode, other_arch, other_opt_level, other_nvvm_version),
        key_path(cache, bitcode, arch, opt_level, nvvm_version),
        key_path(cache, other_bitcode, other_arch, other_opt_level, other_nvvm_version),
    );
}

/// A listing without cache files has empty statistics.
pub proof fn lemma_listing_without_cache_files_counts_nothing(entries: Seq<DirEntryInfo>)
    requires
        forall|i: int| 0 <= i < entries.len() ==> !spec_is_cache_file_name(#[trigger] entries[i].name@),
    ensures
        counted_entries(entries) == 0,
        counted_bytes(entries) == 0,
    decreases entries.len(),
{
    if entries.len() > 0 {
        let rest = entries.drop_last();
        assert forall|i: int| 0 <= i < rest.len() implies !spec_is_cache_file_name(
            #[trigger] rest[i].name@,
        ) by {
            assert(rest[i] == entries[i]);
        }
        lemma_listing_without_cache_files_counts_nothing(rest);
        assert(!spec_is_cache_file_name(entries[entries.len() - 1].name@));
    }
}

/// Eviction with a cutoff removes an entry: caching is on and the entry is a
/// cache file modified before the cutoff (what `PtxCache::evicts` decides).
pub open spec fn evicted_by(cache: PtxCacheView, entry: DirEntryInfo, cutoff: i128) -> bool {
    cache.enabled && is_expired(entry, cutoff)
}

/// The entries that eviction with a cutoff keeps.
pub open spec fn kept_by_eviction(cache: PtxCacheView, cutoff: i128) -> spec_fn(DirEntryInfo) -> bool {
    |entry: DirEntryInfo| !evicted_by(cache, entry, cutoff)
}

/// The listing of the cache directory after eviction with a cutoff.
pub open spec fn remaining_after_eviction(
    cache: PtxCacheView,
    entries: Seq<DirEntryInfo>,
    cutoff: i128,
) -> Seq<DirEntryInfo> {
    entries.filter(kept_by_eviction(cache, cutoff))
}

/// An earlier cutoff (a longer maximum age) evicts no entry that a later one
/// keeps: what eviction with a longer age removes, eviction with a shorter
/// age removes too.
pub proof fn lemma_eviction_monotone(
    cache: PtxCacheView,
    entry: DirEntryInfo,
    earlier: i128,
    later: i128,
)
    requires
        earlier <= later,
        evicted_by(cache, entry, earlier),
    ensures
        evicted_by(cache, entry, later),
{
}

/// Evicting again with the same cutoff removes nothing more.
pub proof fn lemma_eviction_idempotent(cache: PtxCacheView, entries: Seq<DirEntryInfo>, cutoff: i128)
    ensures
        forall|i: int|
            0 <= i < remaining_after_eviction(cache, entries, cutoff).len() ==> !evicted_by(
                cache,
                #[trigger] remaining_after_eviction(cache, entries, cutoff)[i],
                cutoff,
            ),
        remaining_after_eviction(cache, remaining_after_eviction(cache, entries, cutoff), cutoff)
            == remaining_after_eviction(cache, entries, cutoff),
{
    let kept = remaining_after_eviction(cache, entries, cutoff);
    assert forall|i: int| 0 <= i < kept.len() implies !evicted_by(cache, #[trigger] kept[i], cutoff) by {
        entries.lemma_filter_pred(kept_by_eviction(cache, cutoff), i);
    }
    lemma_filter_keeps_all(kept, kept_by_eviction(cache, cutoff));
}

/// Filtering a sequence all of whose items pass leaves it unchanged.
proof fn lemma_filter_keeps_all(s: Seq<DirEntryInfo>, pred: spec_fn(DirEntryInfo) -> bool)
    requires
        forall|i: int| 0 <= i < s.len() ==> pred(#[trigger] s[i]),
    ensures
        s.filter(pred) == s,
    decreases s.len(),
{
    reveal(Seq::filter);
    if s.len() > 0 {
        assert forall|i: int| 0 <= i < s.drop_last().len() implies pred(
            #[trigger] s.drop_last()[i],
        ) by {
            assert(s.drop_last()[i] == s[i]);
        }
        lemma_filter_keeps_all(s.drop_last(), pred);
        assert(pred(s[s.len() - 1]));
        assert(s.filter(pred) =~= s.drop_last().push(s.last()));
        assert(s.drop_last().push(s.last()) =~= s);
    }
}

} // verus!
