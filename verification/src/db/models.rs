//! The rows of the metadata store.
use vstd::prelude::*;

verus! {

/// A directory under which cuboids are cached.
#[derive(Clone, Debug, PartialEq, Eq)]
pub struct CacheRoot {
    pub id: i32,
    /// Absolute path of the directory.
    pub path: String,
}

/// A cache root that has no row yet.
#[derive(Clone, Debug, PartialEq, Eq)]
pub struct NewCacheRoot {
    pub path: String,
}

/// A cached cuboid and how it has been used.
///
/// Times are microseconds since the Unix epoch, without a time zone.
#[derive(Clone, Debug, PartialEq, Eq)]
pub struct Cuboid {
    pub id: i64,
    /// Row id of the cache root that holds the cuboid's file.
    pub cache_root: i32,
    /// Path of the cuboid's file below its cache root.
    pub cube_key: String,
    /// How often the cuboid has been asked for.
    pub requests: i64,
    pub created: i64,
    pub last_accessed: i64,
}

/// A cuboid that has no row yet.
#[derive(Clone, Debug, PartialEq, Eq)]
pub struct NewCuboid {
    pub cache_root: i32,
    pub cube_key: String,
    pub requests: i64,
}

} // verus!
