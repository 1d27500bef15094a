use screen_capture_diagnostic::apexlol::{apex_lol_result, ApexLolAugmentResult};
use screen_capture_diagnostic::cache::{
    cached_apex_lol_result, empty_apex_lol_cache, store_apex_lol_result, ApexLolCacheFile,
    APEX_LOL_CACHE_VERSION,
};

fn result(rating: &str, cache_hit: bool) -> ApexLolAugmentResult {
    apex_lol_result(
        "Ahri".to_string(),
        "Tank".to_string(),
        "u".to_string(),
        "t".to_string(),
        cache_hit,
        "ok",
        rating,
        "",
        "",
        None,
    )
}

#[test]
fn empty_cache_has_current_version_and_nothing_in_it() {
    let cache = empty_apex_lol_cache();
    assert_eq!(cache.version(), APEX_LOL_CACHE_VERSION);
    assert_eq!(APEX_LOL_CACHE_VERSION, 1);
    assert_eq!(cache.len(), 0);
    assert!(cached_apex_lol_result(&cache, "AHRI::TANK").is_none());
}

#[test]
fn read_after_write_gives_the_result_marked_as_hit() {
    let mut cache = empty_apex_lol_cache();
    store_apex_lol_result(&mut cache, "AHRI::TANK".to_string(), &result("S", true));
    let stored = &cache.entries()[0].1;
    assert!(!stored.cache_hit);
    let read = cached_apex_lol_result(&cache, "AHRI::TANK").unwrap();
    assert!(read.cache_hit);
    assert_eq!(read.rating, "S");
}

#[test]
fn write_replaces_same_key_and_keeps_others() {
    let mut cache = empty_apex_lol_cache();
    store_apex_lol_result(&mut cache, "A".to_string(), &result("S", false));
    store_apex_lol_result(&mut cache, "B".to_string(), &result("A", false));
    store_apex_lol_result(&mut cache, "A".to_string(), &result("B", false));
    assert_eq!(cache.len(), 2);
    assert_eq!(cached_apex_lol_result(&cache, "A").unwrap().rating, "B");
    assert_eq!(cached_apex_lol_result(&cache, "B").unwrap().rating, "A");
    assert!(cached_apex_lol_result(&cache, "C").is_none());
}

#[test]
fn old_version_is_brought_up_to_date() {
    let mut cache = ApexLolCacheFile::new(7);
    assert_eq!(cache.version(), 7);
    cache.normalize_version();
    assert_eq!(cache.version(), APEX_LOL_CACHE_VERSION);
}

#[test]
fn insert_and_get_raw_entries() {
    let mut cache = ApexLolCacheFile::new(1);
    cache.insert("K".to_string(), result("C", true));
    assert!(cache.get("K").unwrap().cache_hit);
    assert!(cache.get("k").is_none());
}
