use image::{DynamicImage, GenericImageView, RgbaImage};
use sh_images::viewer_core::image_cache::{estimate_bytes, estimate_loaded_bytes, ImageCache};
use sh_images::viewer_core::image_loader::{AnimatedFrame, AnimatedImage, LoadedImage};
use sh_images::viewer_core::thumbnail_cache::ThumbnailCache;
use std::time::Duration;

const MIB: u64 = 1024 * 1024;

fn rgba(w: u32, h: u32) -> DynamicImage {
    DynamicImage::ImageRgba8(RgbaImage::new(w, h))
}

fn s(p: &str) -> String {
    p.to_string()
}

#[test]
fn estimate_bytes_counts_channels() {
    assert_eq!(estimate_bytes(&rgba(16, 16)), 16 * 16 * 4);
    let rgb = DynamicImage::ImageRgb8(image::RgbImage::new(16, 16));
    assert_eq!(estimate_bytes(&rgb), 16 * 16 * 3);
}

#[test]
fn estimate_bytes_counts_high_depth_and_float_channels() {
    let rgb16 = DynamicImage::ImageRgb16(image::ImageBuffer::new(4, 4));
    let rgba16 = DynamicImage::ImageRgba16(image::ImageBuffer::new(4, 4));
    assert_eq!(estimate_bytes(&rgb16), 4 * 4 * 6);
    assert_eq!(estimate_bytes(&rgba16), 4 * 4 * 8);
}

#[test]
fn default_matches_settings_default() {
    let cache = ImageCache::default();
    assert_eq!(cache.memory_limit_mb(), 512);
    assert_eq!(cache.len(), 0);
    assert!(cache.is_empty());
}

#[test]
fn new_with_limit_exposes_limit() {
    let cache = ImageCache::new(64);
    assert_eq!(cache.memory_limit_mb(), 64);
}

#[test]
fn is_empty_reflects_state() {
    let mut cache = ImageCache::new(1);
    assert!(cache.is_empty());
    cache.insert(s("a.png"), rgba(16, 16));
    assert!(!cache.is_empty());
    assert_eq!(cache.len(), 1);
}

#[test]
fn insert_then_get_roundtrips_small_image() {
    let mut cache = ImageCache::new(1);
    let res = cache.insert(s("a.png"), rgba(64, 32));
    assert!(res.cached);
    assert!(res.evicted_keys.is_empty());
    let got = cache.get("a.png").expect("debería estar cacheada");
    assert_eq!(got.dimensions(), (64, 32));
}

#[test]
fn image_cache_get_on_missing_path_returns_none() {
    let mut cache = ImageCache::new(1);
    assert!(cache.get("nope.png").is_none());
}

#[test]
fn insert_existing_path_replaces_entry() {
    let mut cache = ImageCache::new(1);
    cache.insert(s("a.png"), rgba(256, 256));
    let res = cache.insert(s("a.png"), rgba(128, 128));
    assert!(res.cached);
    assert_eq!(cache.len(), 1);
    assert_eq!(cache.memory_used(), 128 * 128 * 4);
    assert_eq!(cache.get("a.png").expect("cacheada").dimensions(), (128, 128));
}

#[test]
fn oversized_image_is_not_cached_all_or_nothing() {
    let mut cache = ImageCache::new(1);
    cache.insert(s("a.png"), rgba(256, 256));
    let res = cache.insert(s("big.png"), rgba(1024, 1024));
    assert!(!res.cached);
    assert!(res.evicted_keys.is_empty());
    assert_eq!(cache.len(), 1);
    assert!(cache.get("a.png").is_some());
    assert!(cache.get("big.png").is_none());
}

#[test]
fn zero_dimension_image_fits() {
    let mut cache = ImageCache::new(1);
    let res = cache.insert(s("zero.png"), rgba(0, 64));
    assert!(res.cached);
    assert_eq!(cache.memory_used(), 0);
}

#[test]
fn zero_memory_limit_rejects_normal_image() {
    let mut cache = ImageCache::new(0);
    let res = cache.insert(s("a.png"), rgba(16, 16));
    assert!(!res.cached);
    assert_eq!(cache.len(), 0);
}

#[test]
fn eviction_removes_least_recently_used_first() {
    let mut cache = ImageCache::new(1);
    for name in ["a.png", "b.png", "c.png", "d.png"] {
        cache.insert(s(name), rgba(256, 256));
    }
    assert_eq!(cache.len(), 4);
    assert_eq!(cache.memory_used(), 4 * 256 * 256 * 4);
    let res = cache.insert(s("e.png"), rgba(256, 256));
    assert!(res.cached);
    assert_eq!(res.evicted_keys, vec![s("a.png")]);
    assert_eq!(cache.len(), 4);
    assert!(cache.get("a.png").is_none());
    for name in ["b.png", "c.png", "d.png", "e.png"] {
        assert!(cache.get(name).is_some());
    }
}

#[test]
fn get_moves_entry_to_most_recent() {
    let mut cache = ImageCache::new(1);
    for name in ["a.png", "b.png", "c.png", "d.png"] {
        cache.insert(s(name), rgba(256, 256));
    }
    assert!(cache.get("a.png").is_some());
    let res = cache.insert(s("e.png"), rgba(256, 256));
    assert_eq!(res.evicted_keys, vec![s("b.png")]);
    assert!(cache.get("a.png").is_some());
    assert!(cache.get("b.png").is_none());
}

#[test]
fn memory_used_never_exceeds_limit() {
    let mut cache = ImageCache::new(1);
    for i in 0..50 {
        let name = format!("img_{i}.png");
        cache.insert(name, rgba(64, 64));
        assert!(cache.memory_used() <= MIB);
    }
}

#[test]
fn replace_that_exceeds_limit_evicts_lru_entries() {
    let mut cache = ImageCache::new(1);
    for i in 0..100 {
        let name = format!("img_{i:03}.png");
        cache.insert(name, rgba(32, 80));
    }
    assert_eq!(cache.memory_used(), 100 * 32 * 80 * 4);
    assert_eq!(cache.len(), 100);
    let res = cache.insert(s("img_000.png"), rgba(480, 480));
    assert!(res.cached);
    assert!(!res.evicted_keys.is_empty(), "reemplazo grande debe evictar");
    assert!(cache.memory_used() <= MIB, "memory_used debe quedar bajo el límite");
    assert!(cache.get("img_000.png").is_some());
}

#[test]
fn memory_used_and_len_correct_after_evictions() {
    let mut cache = ImageCache::new(1);
    for name in ["a.png", "b.png", "c.png", "d.png", "e.png"] {
        cache.insert(s(name), rgba(256, 256));
    }
    assert_eq!(cache.len(), 4);
    assert_eq!(cache.memory_used(), 4 * 256 * 256 * 4);
    for name in ["b.png", "c.png", "d.png", "e.png"] {
        assert!(cache.get(name).is_some());
    }
    assert!(cache.get("a.png").is_none());
}

#[test]
fn hit_ratio_tracks_hits_and_misses() {
    let mut cache = ImageCache::new(1);
    cache.insert(s("a.png"), rgba(16, 16));
    assert_eq!(cache.hit_count(), 0);
    assert_eq!(cache.miss_count(), 0);
    assert!(cache.get("a.png").is_some());
    assert!(cache.get("a.png").is_some());
    assert!(cache.get("b.png").is_none());
    assert_eq!(cache.hit_count(), 2);
    assert_eq!(cache.miss_count(), 1);
    let ratio = cache.hit_count() as f64 / (cache.hit_count() + cache.miss_count()) as f64;
    assert!((ratio - 2.0 / 3.0).abs() < 1e-3);
}

#[test]
fn contains_is_true_for_cached_path() {
    let mut cache = ImageCache::new(1);
    cache.insert(s("a.png"), rgba(16, 16));
    assert!(cache.contains("a.png"));
}

#[test]
fn contains_is_false_for_missing_path() {
    let cache = ImageCache::new(1);
    assert!(!cache.contains("a.png"));
}

#[test]
fn contains_does_not_reorder_lru() {
    let mut cache = ImageCache::new(1);
    for name in ["a.png", "b.png", "c.png", "d.png"] {
        cache.insert(s(name), rgba(256, 256));
    }
    assert!(cache.contains("a.png"));
    let res = cache.insert(s("e.png"), rgba(256, 256));
    assert_eq!(res.evicted_keys, vec![s("a.png")]);
}

#[test]
fn contains_does_not_count_hits() {
    let mut cache = ImageCache::new(1);
    cache.insert(s("a.png"), rgba(16, 16));
    assert!(cache.contains("a.png"));
    assert!(cache.contains("a.png"));
    assert_eq!(cache.hit_count(), 0);
    assert_eq!(cache.miss_count(), 0);
}

fn animated() -> LoadedImage {
    LoadedImage::Animated(AnimatedImage {
        frames: vec![
            AnimatedFrame { image: rgba(16, 16), delay: Duration::from_millis(100) },
            AnimatedFrame { image: rgba(16, 16), delay: Duration::from_millis(200) },
        ],
        total_duration: Duration::from_millis(300),
    })
}

fn animated_big() -> LoadedImage {
    LoadedImage::Animated(AnimatedImage {
        frames: vec![
            AnimatedFrame { image: rgba(256, 256), delay: Duration::from_millis(100) },
            AnimatedFrame { image: rgba(256, 256), delay: Duration::from_millis(100) },
        ],
        total_duration: Duration::from_millis(200),
    })
}

#[test]
fn insert_animated_counts_sum_of_frames() {
    let mut cache = ImageCache::new(4);
    let res = cache.insert_loaded(s("anim.gif"), animated());
    assert!(res.cached);
    assert_eq!(cache.memory_used(), 2 * 16 * 16 * 4);
}

#[test]
fn estimate_loaded_bytes_sums_frames() {
    assert_eq!(estimate_loaded_bytes(&animated()), 2 * 16 * 16 * 4);
    assert_eq!(estimate_loaded_bytes(&LoadedImage::Static(rgba(8, 8))), 8 * 8 * 4);
}

#[test]
fn animated_entry_is_readable_and_flagged() {
    let mut cache = ImageCache::new(4);
    cache.insert_loaded(s("anim.gif"), animated());
    let entry = cache.get("anim.gif").expect("debería estar cacheada");
    assert!(entry.is_animated());
    assert_eq!(entry.dimensions(), (16, 16));
}

#[test]
fn inserting_empty_animated_image_is_not_cached() {
    let mut cache = ImageCache::new(4);
    let empty = LoadedImage::Animated(AnimatedImage { frames: Vec::new(), total_duration: Duration::ZERO });
    let res = cache.insert_loaded(s("empty.gif"), empty);
    assert!(!res.cached);
    assert!(res.evicted_keys.is_empty());
    assert_eq!(cache.len(), 0);
    assert_eq!(cache.memory_used(), 0);
    assert!(cache.get("empty.gif").is_none());
    assert!(!cache.contains("empty.gif"));
}

#[test]
fn animated_lru_eviction_respects_summed_size() {
    let mut cache = ImageCache::new(1);
    let res = cache.insert_loaded(s("a.gif"), animated_big());
    assert!(res.cached);
    let res2 = cache.insert_loaded(s("b.gif"), animated_big());
    assert!(res2.cached);
    assert_eq!(cache.len(), 2);
    let res3 = cache.insert_loaded(s("c.gif"), animated_big());
    assert!(res3.cached);
    assert_eq!(cache.len(), 2);
    assert!(cache.get("a.gif").is_none());
    assert!(cache.get("b.gif").is_some());
    assert!(cache.get("c.gif").is_some());
}

#[test]
fn insert_then_get_roundtrips_dimensions() {
    let mut cache = ThumbnailCache::new();
    cache.insert(s("a.png"), rgba(96, 54));
    let got = cache.get("a.png").expect("debería estar cacheada");
    assert_eq!(got.dimensions(), (96, 54));
}

#[test]
fn thumbnail_cache_get_on_missing_path_returns_none() {
    let mut cache = ThumbnailCache::new();
    assert!(cache.get("nope.png").is_none());
}

#[test]
fn contains_reflects_state() {
    let mut cache = ThumbnailCache::new();
    assert!(!cache.contains("a.png"));
    cache.insert(s("a.png"), rgba(96, 54));
    assert!(cache.contains("a.png"));
}

#[test]
fn clear_empties_the_cache() {
    let mut cache = ThumbnailCache::new();
    cache.insert(s("a.png"), rgba(96, 54));
    cache.insert(s("b.png"), rgba(96, 54));
    assert_eq!(cache.len(), 2);
    assert!(!cache.is_empty());
    cache.clear();
    assert_eq!(cache.len(), 0);
    assert!(cache.is_empty());
    assert!(cache.get("a.png").is_none());
}

#[test]
fn overwrite_same_key_replaces_entry() {
    let mut cache = ThumbnailCache::new();
    cache.insert(s("a.png"), rgba(96, 54));
    cache.insert(s("a.png"), rgba(50, 30));
    assert_eq!(cache.len(), 1);
    assert_eq!(cache.get("a.png").expect("cacheada").dimensions(), (50, 30));
}

#[test]
fn eviction_respects_byte_limit() {
    let mut cache = ThumbnailCache::with_limit(1);
    for i in 0..10 {
        cache.insert(format!("img_{i}.png"), rgba(200, 200));
    }
    assert!(cache.memory_used() <= 1024 * 1024);
    assert!(cache.len() < 10);
}

#[test]
fn oversized_thumbnail_is_not_cached() {
    let mut cache = ThumbnailCache::with_limit(1);
    cache.insert(s("big.png"), rgba(2000, 2000));
    assert!(!cache.contains("big.png"));
    assert!(cache.is_empty());
}

#[test]
fn get_moves_to_front() {
    let mut cache = ThumbnailCache::with_limit(1);
    cache.insert(s("a.png"), rgba(100, 100));
    cache.insert(s("b.png"), rgba(100, 100));
    cache.insert(s("c.png"), rgba(100, 100));
    assert!(cache.get("a.png").is_some());
    cache.insert(s("d.png"), rgba(100, 100));
    assert!(cache.get("a.png").is_some());
}

#[test]
fn thumbnail_cache_default_limit() {
    let cache = ThumbnailCache::new();
    assert_eq!(cache.memory_limit_mb(), 64);
    assert_eq!(cache.memory_used(), 0);
}
