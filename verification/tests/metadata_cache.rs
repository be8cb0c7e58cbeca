use pcli2::metadata_cache::AssetMetadataCache;

#[test]
fn a_cached_asset_is_found_again_under_its_key() {
    let mut cache: AssetMetadataCache<u32> = AssetMetadataCache::new();
    assert_eq!(cache.get("NX/1.prt"), None);
    cache.insert("NX/1.prt".to_string(), 7);
    cache.insert("NX/2.prt".to_string(), 8);
    assert_eq!(cache.get("NX/1.prt"), Some(&7));
    cache.insert("NX/1.prt".to_string(), 9);
    assert_eq!(cache.get("NX/1.prt"), Some(&9));
    assert_eq!(cache.get("NX/2.prt"), Some(&8));
    assert_eq!(cache.get("nx/1.prt"), None);
}
