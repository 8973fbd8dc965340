//! Process-wide configuration, read once at startup and handed to every
//! component that needs it.

use vstd::prelude::*;

use crate::cache::Cache;

verus! {

/// Where transformed media entries are stored.
#[derive(Debug)]
pub enum MediaCacheType {
    Redis,
    RAM,
    S3 { bucket: String, region: String, access_key: String, secret_key: String },
}

/// Upper bounds the media pipeline enforces.
pub struct ImageConfig {
    pub max_width: usize,
    pub max_height: usize,
}

/// Classes of media a deployment may restrict.
#[derive(Clone, Copy, Debug, PartialEq, Eq, Structural)]
pub enum RestrictedImages {
    NSFW,
}

/// Which backend serves the general key/value cache.
#[derive(Clone, Copy, Debug, PartialEq, Eq, Structural)]
pub enum DynamicCacheType {
    REDIS,
    RAM,
}

/// Everything the process reads from its environment.
pub struct EnvConfig {
    pub dynamic_cache_type: DynamicCacheType,
    /// Seconds between reaper sweeps of the in-process store.
    pub dynamic_cache_gc_interval: usize,
    pub redis_url: Option<String>,
    pub ram_limit_objects: usize,
    pub images_cache_type: MediaCacheType,
    pub image_max_width: usize,
    pub image_max_height: usize,
    /// Empty means open mode: every request is admitted.
    pub restricted_pubkeys: Vec<String>,
    pub restricted_images: Vec<RestrictedImages>,
    pub cache_ttl_nip05: usize,
    pub cache_ttl_images: usize,
    pub cache_ttl_webpreview: usize,
    pub cache_ttl_signature: usize,
}

/// What a request handler receives: the shared cache store handle.
pub struct WebStates {
    pub cache: Cache,
}

} // verus!
