//! A caching media-transformation gateway's core: dimension resolution
//! for partial size hints, a key/value cache store with per-entry expiry
//! and a reaping sweep, the fetch/resize/re-encode media pipeline built
//! on both, and a replay-protected signature gate in front of it all.
//!
//! Origin fetching, HTTP routing and the networked cache backend are
//! collaborators wired up outside the library.

pub mod cache;
pub mod config;
pub mod digits;
pub mod image_cache;
pub mod images;
pub mod og_extractor;
pub mod ram_cache;
pub mod security;
pub mod url;
