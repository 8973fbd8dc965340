use media_gateway::cache::{get_media_cache, normalize_file_name, set_media_cache, Cache, CacheError};
use media_gateway::ram_cache::RamCache;

#[test]
fn round_trip_bytes_before_expiry() {
    let mut cache = Cache::new();
    let now: usize = 1000;
    cache.set_bytes("k", vec![1, 2, 3], 60, now).unwrap();
    assert_eq!(cache.get_bytes("k").unwrap(), vec![1, 2, 3]);
    // One reaper cycle before the expiry instant keeps the entry.
    cache.ram.gc(now + 59);
    assert_eq!(cache.get_bytes("k").unwrap(), vec![1, 2, 3]);
}

#[test]
fn expired_entry_reads_as_absent_after_one_sweep() {
    let mut cache = Cache::new();
    let now: usize = 1000;
    cache.set_bytes("k", vec![9, 9], 60, now).unwrap();
    cache.set_str("t", "hello", 60, now).unwrap();
    // The sweep at (or after) the expiry instant drops both entries.
    cache.ram.gc(now + 60);
    assert_eq!(cache.get_bytes("k"), Err(CacheError::NotFound));
    assert_eq!(cache.get_str("t"), Err(CacheError::NotFound));
}

#[test]
fn set_overwrites_existing_key() {
    let mut cache = Cache::new();
    cache.set_str("k", "a", 60, 0).unwrap();
    cache.set_str("k", "b", 60, 0).unwrap();
    assert_eq!(cache.get_str("k").unwrap(), "b");
}

#[test]
fn stores_are_independent() {
    let mut cache = Cache::new();
    cache.set_str("k", "text", 60, 0).unwrap();
    assert_eq!(cache.get_bytes("k"), Err(CacheError::NotFound));
}

#[test]
fn ram_cache_stores_images_and_texts() {
    let mut ram = RamCache::new();
    assert!(ram.get_image("k").is_none());
    ram.set_image("k", &vec![5, 6], 60, 100);
    assert_eq!(ram.get_image("k").unwrap(), &vec![5, 6]);
    ram.set_str("k", String::from("text"), 60, 100);
    assert_eq!(ram.get_str("k").unwrap(), "text");
    // Entries written at 100 with a 60-second time-to-live survive a
    // sweep at 159 and are gone at 160.
    ram.gc(159);
    assert!(ram.get_image("k").is_some());
    ram.gc(160);
    assert!(ram.get_image("k").is_none());
    assert!(ram.get_str("k").is_none());
}

#[test]
fn calc_ttl_is_absolute_and_saturates() {
    assert_eq!(RamCache::calc_ttl(1000, 600), 1600);
    assert_eq!(RamCache::calc_ttl(usize::MAX - 1, 600), usize::MAX);
}

#[test]
fn normalizes_file_names() {
    assert_eq!(
        normalize_file_name("https://hello.world").as_str(),
        "https___hello.world"
    );
    assert_eq!(normalize_file_name("a-b_c.9Z").as_str(), "a_b_c.9Z");
    assert_eq!(normalize_file_name("").as_str(), "");
}

#[test]
fn media_entries_read_back_with_a_guessed_type() {
    let mut cache = Cache::new();
    set_media_cache("some/file.png", vec![1, 2, 3], &mut cache, 60, 0);
    let (bytes, mime) = get_media_cache("some/file.png", &cache).unwrap();
    assert_eq!(bytes, vec![1, 2, 3]);
    assert_eq!(mime.as_str(), "image/png");
}

#[test]
fn empty_media_entries_read_as_misses() {
    let mut cache = Cache::new();
    set_media_cache("f", Vec::new(), &mut cache, 60, 0);
    assert!(get_media_cache("f", &cache).is_none());
    assert!(get_media_cache("absent", &cache).is_none());
}
