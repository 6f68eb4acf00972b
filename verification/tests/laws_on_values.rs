use image::{DynamicImage, RgbaImage};
use sh_images::viewer_core::image_cache::ImageCache;
use sh_images::viewer_core::navigation::Navigation;
use sh_images::viewer_core::preload::preload_targets;
use sh_images::viewer_core::thumbnail_cache::ThumbnailCache;
use sh_images::viewer_core::thumbnail_gen::thumbnail_size;

fn rgba(w: u32, h: u32) -> DynamicImage {
    DynamicImage::ImageRgba8(RgbaImage::new(w, h))
}

fn never(_: &String) -> bool {
    false
}

#[test]
fn insert_never_evicts_its_own_path() {
    // 300 x 300 RGBA is 360 000 bytes: two fit in one mebibyte, three do not.
    let mut cache = ImageCache::new(1);
    assert!(cache.insert("a".to_string(), rgba(300, 300)).evicted_keys.is_empty());
    assert!(cache.insert("b".to_string(), rgba(300, 300)).evicted_keys.is_empty());
    let r = cache.insert("c".to_string(), rgba(300, 300));
    assert!(r.cached);
    assert_eq!(r.evicted_keys, vec!["a".to_string()]);
    assert!(!cache.contains("a") && cache.contains("b") && cache.contains("c"));
    assert!(cache.get("b").is_some());
    let r = cache.insert("d".to_string(), rgba(300, 300));
    assert_eq!(r.evicted_keys, vec!["c".to_string()]);
    assert!(cache.contains("b") && cache.contains("d") && !cache.contains("c"));
    let r = cache.insert("b".to_string(), rgba(300, 300));
    assert!(r.cached && r.evicted_keys.is_empty());
    assert_eq!(cache.len(), 2);
    assert!(cache.memory_used() <= 1024 * 1024);
}

#[test]
fn eviction_drops_only_as_many_as_needed() {
    // 100 x 100 RGBA is 40 000 bytes; the big one takes 960 400.
    let mut cache = ImageCache::new(1);
    for k in ["p", "q", "r"] {
        cache.insert(k.to_string(), rgba(100, 100));
    }
    let r = cache.insert("big".to_string(), rgba(490, 490));
    assert_eq!(r.evicted_keys, vec!["p".to_string()]);
    assert_eq!(cache.memory_used(), 960_400 + 2 * 40_000);
    assert!(cache.contains("q") && cache.contains("r") && cache.contains("big"));
}

#[test]
fn thumbnail_cache_keeps_its_bound() {
    let mut cache = ThumbnailCache::with_limit(1);
    for i in 0..10 {
        cache.insert(format!("t{i}"), rgba(200, 200));
        assert!(cache.contains(&format!("t{i}")));
        assert!(cache.memory_used() <= 1024 * 1024);
    }
    assert_eq!(cache.len(), 6);
}

#[test]
fn shrunk_thumbnails_keep_their_longest_side() {
    for (w, h) in [(97, 50), (1000, 999), (4000, 3), (3, 4000), (129, 4096), (u32::MAX, 7)] {
        let (nw, nh) = thumbnail_size(w, h, 96);
        assert!(nw <= w && nh <= h);
        assert_eq!(if w >= h { nw } else { nh }, 96);
        assert!(nw >= 1 && nh >= 1);
    }
    assert_eq!(thumbnail_size(97, 50, 96), (96, 49));
    assert_eq!(thumbnail_size(1000, 999, 96), (96, 96));
    assert_eq!(thumbnail_size(4000, 3, 96), (96, 1));
}

#[test]
fn preload_lists_every_uncached_neighbour_once() {
    let nav = Navigation { images: (0..5).map(|i| format!("{i}.png")).collect(), current: 0 };
    let t = preload_targets(&nav, 2, never, never);
    assert_eq!(t, vec!["1.png", "4.png", "2.png", "3.png"]);
    let small = Navigation { images: (0..3).map(|i| format!("{i}.png")).collect(), current: 1 };
    let t = preload_targets(&small, 5, never, never);
    assert_eq!(t, vec!["2.png", "0.png"]);
    let t = preload_targets(&nav, 2, |p: &String| p == "4.png", |p: &String| p == "2.png");
    assert_eq!(t, vec!["1.png", "3.png"]);
}
