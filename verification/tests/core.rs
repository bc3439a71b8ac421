use lust::cache::Cache;
use lust::config::ImageKind;
use lust::config::SizingPreset;
use lust::keys::render_cache_key;
use lust::limits::Limiter;
use lust::limits::LimiterChoice;
use lust::limits::resolve_limiter;
use lust::storage::backends::gcp_cloud_storage::format_path;
use lust::storage::backends::gcp_cloud_storage::purge_plan;
use lust::storage::template::StorageBackend;
use lust::storage::memory::MemoryStorageBackend;
use lust::utils::crc_hash;
use lust::utils::sha256_hash;

#[test]
fn sha256_hash_known_digest() {
    let id = sha256_hash(b"abc");
    assert_eq!(
        id,
        "ba7816bf8f01cfea414140de5dae2223b00361a396177a9cb410ff61f20015ad"
    );
}

#[test]
fn sha256_hash_idempotent() {
    let payload = vec![0u8, 255, 7, 42];
    assert_eq!(sha256_hash(&payload), sha256_hash(&payload));
    assert_ne!(sha256_hash(&payload), sha256_hash(b"other"));
}

#[test]
fn crc_hash_deterministic() {
    assert_eq!(crc_hash("thumb"), crc_hash("thumb"));
    assert_ne!(crc_hash("thumb"), crc_hash("large"));
}

#[test]
fn cache_key_format_and_distinctness() {
    let k = render_cache_key(1, 2, "abc", ImageKind::Png);
    assert_eq!(k, "1:2:abc:png");
    let base = render_cache_key(1, 2, "abc", ImageKind::Png);
    assert_ne!(base, render_cache_key(2, 2, "abc", ImageKind::Png));
    assert_ne!(base, render_cache_key(1, 3, "abc", ImageKind::Png));
    assert_ne!(base, render_cache_key(1, 2, "abd", ImageKind::Png));
    assert_ne!(base, render_cache_key(1, 2, "abc", ImageKind::Gif));
    // the digit boundary cases that naive formats can collide on
    assert_ne!(
        render_cache_key(12, 3, "abc", ImageKind::Png),
        render_cache_key(1, 23, "abc", ImageKind::Png)
    );
}

#[test]
fn image_kind_extensions_and_content_types() {
    assert_eq!(ImageKind::Png.as_file_extension(), "png");
    assert_eq!(ImageKind::Jpeg.as_file_extension(), "jpeg");
    assert_eq!(ImageKind::Webp.as_file_extension(), "webp");
    assert_eq!(ImageKind::Gif.as_file_extension(), "gif");
    assert_eq!(ImageKind::Jpeg.as_content_type(), "image/jpeg");
    assert_eq!(ImageKind::variants().len(), 4);
}

#[test]
fn sizing_preset_id_is_name_hash() {
    let preset = SizingPreset::new("thumb".to_string(), 64, 64);
    assert_eq!(preset.sizing_id, crc_hash("thumb"));
    assert_eq!(preset.width, 64);
    assert_eq!(preset.height, 64);
}

#[test]
fn cache_get_insert_invalidate() {
    let mut cache = Cache::new();
    let key = "1:0:abc:png".to_string();
    assert!(cache.get(&key).is_none());
    cache.insert(key.clone(), vec![1, 2, 3]);
    assert_eq!(cache.get(&key), Some(vec![1, 2, 3]));
    cache.insert(key.clone(), vec![9]);
    assert_eq!(cache.get(&key), Some(vec![9]));
    cache.invalidate(&key);
    assert!(cache.get(&key).is_none());
    // invalidating an absent key is a no-op
    cache.invalidate(&key);
    assert!(cache.get(&key).is_none());
}

#[test]
fn limiter_capacity_counts() {
    let mut limiter = Limiter::new(1);
    assert!(limiter.try_acquire());
    assert!(!limiter.try_acquire());
    limiter.release();
    assert!(limiter.try_acquire());
}

#[test]
fn limiter_close_refuses() {
    let mut limiter = Limiter::new(2);
    limiter.close();
    assert!(!limiter.try_acquire());
}

#[test]
fn limiter_choice_global_precedence() {
    assert_eq!(resolve_limiter(true, true), LimiterChoice::Global);
    assert_eq!(resolve_limiter(true, false), LimiterChoice::Global);
    assert_eq!(resolve_limiter(false, true), LimiterChoice::Local);
    assert_eq!(resolve_limiter(false, false), LimiterChoice::Unlimited);
}

#[test]
fn memory_backend_round_trip() {
    let mut backend = MemoryStorageBackend::new();
    let id = "abc".to_string();
    backend
        .store(1, &id, ImageKind::Png, 0, vec![1, 2])
        .unwrap();
    backend
        .store(1, &id, ImageKind::Webp, 9, vec![3])
        .unwrap();
    assert_eq!(
        backend.fetch(1, &id, ImageKind::Png, 0).unwrap(),
        Some(vec![1, 2])
    );
    assert_eq!(backend.fetch(1, &id, ImageKind::Gif, 0).unwrap(), None);
    let purged = backend.delete(1, &id).unwrap();
    assert_eq!(purged.len(), 2);
    assert!(purged.contains(&(0, ImageKind::Png)));
    assert!(purged.contains(&(9, ImageKind::Webp)));
    assert_eq!(backend.fetch(1, &id, ImageKind::Png, 0).unwrap(), None);
}

#[test]
fn memory_backend_overwrites_same_key() {
    let mut backend = MemoryStorageBackend::new();
    let id = "abc".to_string();
    backend.store(1, &id, ImageKind::Png, 0, vec![1]).unwrap();
    backend.store(1, &id, ImageKind::Png, 0, vec![2]).unwrap();
    assert_eq!(
        backend.fetch(1, &id, ImageKind::Png, 0).unwrap(),
        Some(vec![2])
    );
}

#[test]
fn object_path_format() {
    assert_eq!(format_path(1, 0, "abc", ImageKind::Png), "1/0/abc.png");
    assert_eq!(format_path(42, 7, "x", ImageKind::Webp), "42/7/x.webp");
}

#[test]
fn purge_plan_covers_all_variants() {
    let config = lust::config::BucketConfig {
        max_concurrency: None,
        default_serving_preset: None,
        mode: lust::config::ProcessingMode::Aot,
        formats: lust::config::ImageFormats {
            original_image_store_format: ImageKind::Png,
        },
        sizing_presets: vec![SizingPreset::new("thumb".to_string(), 64, 64)],
    };
    let (paths, pairs) = purge_plan(&config, 3, "abc");
    // two sizing ids (0 and the thumb hash) times four encodings
    assert_eq!(paths.len(), 8);
    assert_eq!(pairs.len(), 8);
    assert_eq!(pairs[0], (0, ImageKind::Png));
    assert_eq!(paths[0], "3/0/abc.png");
    let thumb_id = crc_hash("thumb");
    assert_eq!(pairs[4], (thumb_id, ImageKind::Png));
}
