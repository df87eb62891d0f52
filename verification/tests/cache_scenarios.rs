use std::collections::BTreeMap;

use ptx_cache::{CacheStats, DirEntryInfo, PtxCache};

const NVVM_VERSION: (i32, i32) = (2, 0);

/// A cache directory held in memory: file path to content.
struct Disk {
    files: BTreeMap<String, Vec<u8>>,
}

impl Disk {
    fn new() -> Disk {
        Disk { files: BTreeMap::new() }
    }

    fn get(&self, cache: &PtxCache, bitcode: &[u8], arch: &str, opt_level: &str) -> Option<Vec<u8>> {
        let path = cache.entry_path(bitcode, arch, opt_level, NVVM_VERSION)?;
        self.files.get(&path).cloned()
    }

    fn put(&mut self, cache: &PtxCache, bitcode: &[u8], arch: &str, opt_level: &str, ptx: &[u8]) {
        if let Some(path) = cache.entry_path(bitcode, arch, opt_level, NVVM_VERSION) {
            self.files.insert(path, ptx.to_vec());
        }
    }

    fn listing(&self, cache: &PtxCache) -> Vec<DirEntryInfo> {
        let prefix = format!("{}/", cache.cache_dir());
        self.files
            .iter()
            .filter_map(|(path, content)| {
                path.strip_prefix(&prefix).map(|name| DirEntryInfo {
                    name: name.to_string(),
                    len: Some(content.len() as u64),
                    modified: Some(0),
                })
            })
            .collect()
    }

    fn stats(&self, cache: &PtxCache) -> CacheStats {
        cache.stats(&self.listing(cache))
    }

    fn clear(&mut self, cache: &PtxCache) {
        let prefix = format!("{}/", cache.cache_dir());
        for entry in self.listing(cache) {
            if cache.clears(&entry) {
                self.files.remove(&format!("{}{}", prefix, entry.name));
            }
        }
    }
}

fn temp_cache() -> PtxCache {
    PtxCache::new(None, Some("/tmp/rust-cuda-test".to_string()), None, None)
}

#[test]
fn test_cache_roundtrip() {
    let cache = temp_cache();
    let mut disk = Disk::new();

    let bitcode = b"test bitcode content";
    let arch = "compute_70";
    let opt_level = "3";
    let ptx = b"test ptx output";

    assert!(disk.get(&cache, bitcode, arch, opt_level).is_none());

    disk.put(&cache, bitcode, arch, opt_level, ptx);

    let cached = disk.get(&cache, bitcode, arch, opt_level).expect("cache hit");
    assert_eq!(cached, ptx);

    disk.clear(&cache);
}

#[test]
fn test_cache_key_sensitivity() {
    let cache = temp_cache();
    let mut disk = Disk::new();

    let bitcode1 = b"bitcode v1";
    let bitcode2 = b"bitcode v2";
    let arch = "compute_70";
    let opt_level = "3";
    let ptx = b"ptx output";

    disk.put(&cache, bitcode1, arch, opt_level, ptx);

    assert!(disk.get(&cache, bitcode2, arch, opt_level).is_none());
    assert!(disk.get(&cache, bitcode1, "compute_80", opt_level).is_none());
    assert!(disk.get(&cache, bitcode1, arch, "0").is_none());
    assert!(disk.get(&cache, bitcode1, arch, opt_level).is_some());

    disk.clear(&cache);
}

#[test]
fn test_cache_stats() {
    let cache = temp_cache();
    let mut disk = Disk::new();

    let stats_empty = disk.stats(&cache);
    assert_eq!(stats_empty.entry_count, 0);

    disk.put(&cache, b"bc1", "compute_70", "3", b"ptx1");
    disk.put(&cache, b"bc2", "compute_80", "3", b"ptx2");

    let stats = disk.stats(&cache);
    assert_eq!(stats.entry_count, 2);
    assert!(stats.total_bytes > 0);

    disk.clear(&cache);
}

#[test]
fn test_cache_disable() {
    let cache = PtxCache::new(Some("1"), Some("/tmp/rust-cuda-test".to_string()), None, None);
    let mut disk = Disk::new();
    assert!(!cache.is_enabled());

    let bitcode = b"test";
    let arch = "compute_70";
    let opt_level = "3";
    let ptx = b"ptx";

    disk.put(&cache, bitcode, arch, opt_level, ptx);

    assert!(disk.get(&cache, bitcode, arch, opt_level).is_none());
}

#[test]
fn test_cache_clear() {
    let cache = temp_cache();
    let mut disk = Disk::new();

    disk.put(&cache, b"bc1", "compute_70", "3", b"ptx1");
    disk.put(&cache, b"bc2", "compute_80", "3", b"ptx2");

    let stats_before = disk.stats(&cache);
    assert_eq!(stats_before.entry_count, 2);

    disk.clear(&cache);

    let stats_after = disk.stats(&cache);
    assert_eq!(stats_after.entry_count, 0);
}
