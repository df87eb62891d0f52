//! Content-addressed storage of compiled PTX: the cache key, the names of the
//! cache files, the choice of the cache directory and the bookkeeping over a
//! listing of that directory. The reads, writes and listings themselves are
//! the caller's; this crate decides what they touch and what they mean.

pub mod cache;
pub mod key;
pub mod model;
pub mod path;
pub mod settings;

pub use cache::{tally_stats, CacheStats, DirEntryInfo, PtxCache, PtxCacheView};
pub use key::{cache_file_name, is_cache_file_name};
pub use settings::{cache_root, caching_enabled};
