use std::collections::hash_map::DefaultHasher;
use std::hash::{Hash, Hasher};

use ptx_cache::{
    cache_file_name, cache_root, caching_enabled, is_cache_file_name, tally_stats, CacheStats,
    DirEntryInfo, PtxCache,
};

fn entry(name: &str, len: Option<u64>, modified: Option<i128>) -> DirEntryInfo {
    DirEntryInfo { name: name.to_string(), len, modified }
}

#[test]
fn file_names_are_sixteen_hex_digits_and_ptx() {
    assert_eq!(cache_file_name(0), "0000000000000000.ptx");
    assert_eq!(cache_file_name(0x0123456789abcdef), "0123456789abcdef.ptx");
    assert_eq!(cache_file_name(u64::MAX), "ffffffffffffffff.ptx");
    assert_eq!(cache_file_name(0xa5), "00000000000000a5.ptx");
    assert_eq!(cache_file_name(0xdead_beef), format!("{:016x}.ptx", 0xdead_beefu64));
}

#[test]
fn file_names_of_distinct_hashes_differ() {
    assert_ne!(cache_file_name(1), cache_file_name(16));
    assert_ne!(cache_file_name(0x10), cache_file_name(0x100));
}

#[test]
fn cache_file_names_are_recognised() {
    assert!(is_cache_file_name("0123456789abcdef.ptx"));
    assert!(is_cache_file_name(&cache_file_name(42)));
    assert!(is_cache_file_name("a.ptx"));
    assert!(is_cache_file_name("..ptx"));
    assert!(is_cache_file_name("x.y.ptx"));
    assert!(!is_cache_file_name(".ptx"));
    assert!(!is_cache_file_name("ptx"));
    assert!(!is_cache_file_name("a.ptx.bak"));
    assert!(!is_cache_file_name("a.PTX"));
    assert!(!is_cache_file_name("a.ptxx"));
    assert!(!is_cache_file_name("a."));
    assert!(!is_cache_file_name(""));
    assert!(!is_cache_file_name(".."));
}

#[test]
fn disable_variable_switches_caching_off_only_when_one() {
    assert!(caching_enabled(None));
    assert!(!caching_enabled(Some("1")));
    assert!(caching_enabled(Some("0")));
    assert!(caching_enabled(Some("")));
    assert!(caching_enabled(Some("11")));
    assert!(caching_enabled(Some("true")));
}

#[test]
fn cache_directory_choice() {
    assert_eq!(
        cache_root(Some("/x/cache".to_string()), Some("/home/u".to_string()), None),
        "/x/cache"
    );
    assert_eq!(cache_root(Some(String::new()), None, None), "");
    assert_eq!(
        cache_root(None, Some("/home/u".to_string()), Some("/p".to_string())),
        "/home/u/.rust-cuda-cache"
    );
    assert_eq!(cache_root(None, None, Some("/p".to_string())), "/p/.rust-cuda-cache");
    assert_eq!(cache_root(None, None, None), "./.rust-cuda-cache");
    assert_eq!(cache_root(None, Some("/h/".to_string()), None), "/h/.rust-cuda-cache");
    assert_eq!(cache_root(None, Some(String::new()), None), ".rust-cuda-cache");
}

#[test]
fn new_cache_settings() {
    let cache = PtxCache::new(None, None, Some("/home/u".to_string()), None);
    assert!(cache.is_enabled());
    assert_eq!(cache.cache_dir(), "/home/u/.rust-cuda-cache");
    let off = PtxCache::new(Some("1"), Some("/c".to_string()), None, None);
    assert!(!off.is_enabled());
    assert_eq!(off.cache_dir(), "/c");
}

#[test]
fn hash_is_std_default_hasher_over_the_key_fields() {
    let cache = PtxCache::new(None, Some("/c".to_string()), None, None);
    let bitcode: &[u8] = b"some bitcode";
    let mut hasher = DefaultHasher::new();
    bitcode.hash(&mut hasher);
    "compute_70".hash(&mut hasher);
    "3".hash(&mut hasher);
    7i32.hash(&mut hasher);
    1i32.hash(&mut hasher);
    let expected = hasher.finish();
    assert_eq!(cache.compute_hash(bitcode, "compute_70", "3", (7, 1)), expected);
    assert_ne!(
        cache.compute_hash(bitcode, "compute_70", "3", (7, 1)),
        cache.compute_hash(bitcode, "compute_70", "3", (7, 2))
    );
}

#[test]
fn paths_join_directory_and_file_name() {
    let cache = PtxCache::new(None, Some("/c".to_string()), None, None);
    assert_eq!(cache.cache_path(0xab), "/c/00000000000000ab.ptx");
    let path = cache.entry_path(b"bc", "compute_70", "3", (1, 0)).unwrap();
    let hash = cache.compute_hash(b"bc", "compute_70", "3", (1, 0));
    assert_eq!(path, format!("/c/{:016x}.ptx", hash));
    let off = PtxCache::new(Some("1"), Some("/c".to_string()), None, None);
    assert_eq!(off.entry_path(b"bc", "compute_70", "3", (1, 0)), None);
}

#[test]
fn stats_count_cache_files_with_metadata() {
    let entries = vec![
        entry("0000000000000001.ptx", Some(10), None),
        entry("0000000000000002.ptx", Some(32), Some(5)),
        entry("notes.txt", Some(1000), None),
        entry("0000000000000003.ptx", None, None),
        entry(".ptx", Some(7), None),
    ];
    let stats = tally_stats(&entries);
    assert_eq!(stats.entry_count, 2);
    assert_eq!(stats.total_bytes, 42);

    let cache = PtxCache::new(None, Some("/c".to_string()), None, None);
    let s = cache.stats(&entries);
    assert_eq!((s.entry_count, s.total_bytes), (2, 42));

    let off = PtxCache::new(Some("1"), Some("/c".to_string()), None, None);
    let s = off.stats(&entries);
    assert_eq!((s.entry_count, s.total_bytes), (0, 0));

    let empty = CacheStats::default();
    assert_eq!((empty.entry_count, empty.total_bytes), (0, 0));
    assert_eq!(tally_stats(&Vec::new()).entry_count, 0);
}

#[test]
fn eviction_takes_old_cache_files_only() {
    let cache = PtxCache::new(None, Some("/c".to_string()), None, None);
    let cutoff = 1_000;
    assert!(cache.evicts(&entry("a.ptx", Some(1), Some(999)), cutoff));
    assert!(!cache.evicts(&entry("a.ptx", Some(1), Some(1_000)), cutoff));
    assert!(!cache.evicts(&entry("a.ptx", Some(1), Some(5_000)), cutoff));
    assert!(!cache.evicts(&entry("a.ptx", None, None), cutoff));
    assert!(!cache.evicts(&entry("a.txt", Some(1), Some(0)), cutoff));
    assert!(cache.evicts(&entry("a.ptx", Some(1), Some(-5)), cutoff));
    assert!(entry("b.ptx", None, Some(3)).is_expired(4));
    let off = PtxCache::new(Some("1"), Some("/c".to_string()), None, None);
    assert!(!off.evicts(&entry("a.ptx", Some(1), Some(0)), cutoff));
}

#[test]
fn clearing_takes_cache_files_only() {
    let cache = PtxCache::new(None, Some("/c".to_string()), None, None);
    assert!(cache.clears(&entry("0123456789abcdef.ptx", None, None)));
    assert!(!cache.clears(&entry("keep.me", Some(1), None)));
    let off = PtxCache::new(Some("1"), Some("/c".to_string()), None, None);
    assert!(!off.clears(&entry("0123456789abcdef.ptx", None, None)));
}

#[test]
fn eviction_age_in_seconds() {
    assert_eq!(PtxCache::max_age_secs(0), 0);
    assert_eq!(PtxCache::max_age_secs(1), 86_400);
    assert_eq!(PtxCache::max_age_secs(30), 2_592_000);
    let max_days = u64::MAX / 86_400;
    assert_eq!(PtxCache::max_age_secs(max_days), max_days * 86_400);
}

#[test]
fn one_key_one_path() {
    let cache = PtxCache::new(None, None, Some("/home/user".to_string()), None);
    assert_eq!(cache.cache_dir(), "/home/user/.rust-cuda-cache");
    let first = cache.entry_path(b"bc", "compute_70", "3", (1, 0)).unwrap();
    let second = cache.entry_path(b"bc", "compute_70", "3", (1, 0)).unwrap();
    assert_eq!(first, second);
    assert_eq!(
        std::path::Path::new(&first).parent().unwrap(),
        std::path::Path::new("/home/user/.rust-cuda-cache")
    );
    let other = cache.entry_path(b"bc", "compute_80", "3", (1, 0)).unwrap();
    assert_ne!(first, other);
}

#[test]
fn eviction_is_monotone_and_idempotent() {
    let cache = PtxCache::new(None, Some("/c".to_string()), None, None);
    let entries = vec![
        entry("0000000000000001.ptx", Some(1), Some(100)),
        entry("0000000000000002.ptx", Some(1), Some(500)),
        entry("0000000000000003.ptx", Some(1), Some(900)),
        entry("old.txt", Some(1), Some(0)),
    ];
    let evicted_at = |cutoff: i128, list: &[DirEntryInfo]| -> Vec<String> {
        list.iter().filter(|e| cache.evicts(e, cutoff)).map(|e| e.name.clone()).collect()
    };
    // a later cutoff (shorter maximum age) evicts a superset
    assert_eq!(evicted_at(200, &entries), vec!["0000000000000001.ptx".to_string()]);
    assert_eq!(evicted_at(600, &entries).len(), 2);
    // after evicting, evicting again with the same cutoff takes nothing
    let remaining: Vec<DirEntryInfo> = entries
        .into_iter()
        .filter(|e| !cache.evicts(e, 600))
        .collect();
    assert_eq!(remaining.len(), 2);
    assert!(evicted_at(600, &remaining).is_empty());
}
