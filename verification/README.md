# ptx_cache

A content-addressed cache of compiled PTX, verified with Verus.

The cache key is a hash of the LLVM bitcode, the target architecture, the
optimization level and the NVVM version; the entry of a key is the file
`{hash:016x}.ptx` in the cache directory (`RUST_CUDA_PTX_CACHE`, else
`~/.rust-cuda-cache`). Setting `RUST_CUDA_PTX_CACHE_DISABLE=1` turns caching off.

- `src/key.rs`: the key hash, the file names and the recognition of cache files.
- `src/path.rs`: adjoining a file name to the cache directory.
- `src/settings.rs`: whether caching is on and which directory it uses.
- `src/cache.rs`: `PtxCache`, `CacheStats` and the decisions over a listing of
  the cache directory (statistics, clearing, eviction).
- `src/model.rs`: storing, looking up, clearing and evicting over a model of the directory,
  and the laws that hold of it.
- `app/`: the file system, the environment, logging, the `xtask cache`
  commands and the GPU programs.
