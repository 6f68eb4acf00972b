use sh_images::viewer_core::navigation::{has_supported_extension, Navigation, SUPPORTED_EXTENSIONS};
use sh_images::viewer_core::preload::{preload_targets, PRELOAD_DEPTH};
use sh_images::viewer_core::slideshow::{default_interval, elapsed_reached, faster, slower};
use sh_images::viewer_core::thumb_queue::{PopStep, ThumbQueue};
use std::time::Duration;

fn listing() -> Vec<String> {
    ["/pics/b.png", "/pics/a.jpg", "/pics/c.txt", "/pics/d.JPG"].iter().map(|s| s.to_string()).collect()
}

fn nav_at(image: &str) -> Navigation {
    Navigation::from_listing(image, listing(), &SUPPORTED_EXTENSIONS)
}

#[test]
fn from_folder_filters_by_extension() {
    let nav = nav_at("/pics/a.jpg");
    assert_eq!(nav.images.len(), 3);
    for p in &nav.images {
        assert!(has_supported_extension(p, &SUPPORTED_EXTENSIONS));
    }
}

#[test]
fn from_folder_sorts_alphabetically() {
    let nav = nav_at("/pics/a.jpg");
    assert_eq!(nav.images, vec!["/pics/a.jpg", "/pics/b.png", "/pics/d.JPG"]);
}

#[test]
fn from_folder_sets_current_to_matching_path() {
    let nav = nav_at("/pics/d.JPG");
    assert_eq!(nav.current, 2);
}

#[test]
fn from_folder_falls_back_to_zero_if_not_found() {
    let nav = nav_at("/pics/zzz.png");
    assert_eq!(nav.current, 0);
}

#[test]
fn next_wraps_circularly() {
    let mut nav = nav_at("/pics/a.jpg");
    nav.next();
    assert_eq!(nav.current, 1);
    nav.next();
    assert_eq!(nav.current, 2);
    nav.next();
    assert_eq!(nav.current, 0);
}

#[test]
fn prev_wraps_circularly() {
    let mut nav = nav_at("/pics/a.jpg");
    nav.prev();
    assert_eq!(nav.current, 2);
}

#[test]
fn next_on_empty_is_noop() {
    let mut nav = Navigation::from_listing("/pics/nothing.png", Vec::new(), &SUPPORTED_EXTENSIONS);
    assert!(nav.images.is_empty());
    nav.next();
    nav.prev();
    assert_eq!(nav.current, 0);
    assert!(nav.current_path().is_none());
}

#[test]
fn next_then_prev_returns_to_the_same_image() {
    let mut nav = nav_at("/pics/b.png");
    let start = nav.current;
    nav.next();
    nav.prev();
    assert_eq!(nav.current, start);
    assert_eq!(nav.current_path().map(|s| s.as_str()), Some("/pics/b.png"));
}

#[test]
fn extension_matching_ignores_case() {
    assert!(has_supported_extension("x/photo.JpEg", &SUPPORTED_EXTENSIONS));
    assert!(!has_supported_extension("x/notes.txt", &SUPPORTED_EXTENSIONS));
    assert!(!has_supported_extension("x/png", &SUPPORTED_EXTENSIONS));
}

fn nav(images: &[&str], current: usize) -> Navigation {
    Navigation { images: images.iter().map(|s| s.to_string()).collect(), current }
}

fn never(_p: &String) -> bool {
    false
}

fn strings(v: &[&str]) -> Vec<String> {
    v.iter().map(|s| s.to_string()).collect()
}

#[test]
fn preloads_prev_and_next_in_priority_order() {
    let n = nav(&["0.png", "1.png", "2.png", "3.png"], 2);
    assert_eq!(preload_targets(&n, 1, never, never), strings(&["3.png", "1.png"]));
}

#[test]
fn wraps_circularly() {
    let n = nav(&["0.png", "1.png", "2.png"], 0);
    assert_eq!(preload_targets(&n, 1, never, never), strings(&["1.png", "2.png"]));
}

#[test]
fn skips_cached_paths() {
    let n = nav(&["0.png", "1.png", "2.png", "3.png"], 1);
    let targets = preload_targets(&n, 1, |p: &String| p == "2.png", never);
    assert_eq!(targets, strings(&["0.png"]));
}

#[test]
fn skips_in_flight_paths() {
    let n = nav(&["0.png", "1.png", "2.png", "3.png"], 1);
    let targets = preload_targets(&n, 1, never, |p: &String| p == "2.png");
    assert_eq!(targets, strings(&["0.png"]));
}

#[test]
fn depth_two_preloads_four_in_order() {
    let n = nav(&["0.png", "1.png", "2.png", "3.png", "4.png", "5.png"], 3);
    assert_eq!(preload_targets(&n, 2, never, never), strings(&["4.png", "2.png", "5.png", "1.png"]));
}

#[test]
fn skips_current_image() {
    let n = nav(&["0.png"], 0);
    assert!(preload_targets(&n, 3, never, never).is_empty());
}

#[test]
fn no_duplicates_when_depth_exceeds_size() {
    let n = nav(&["0.png", "1.png", "2.png"], 1);
    let targets = preload_targets(&n, 5, never, never);
    assert_eq!(targets.len(), 2);
}

#[test]
fn default_depth_preloads_both_neighbours() {
    let n = nav(&["0.png", "1.png", "2.png", "3.png"], 0);
    assert_eq!(preload_targets(&n, PRELOAD_DEPTH, never, never), strings(&["1.png", "3.png"]));
}

#[test]
fn default_interval_is_five_seconds() {
    assert_eq!(default_interval(), Duration::from_secs(5));
}

#[test]
fn faster_halves_interval() {
    assert_eq!(faster(Duration::from_secs(5)), Duration::from_millis(2500));
}

#[test]
fn faster_clamps_at_one_second() {
    assert_eq!(faster(Duration::from_secs(1)), Duration::from_secs(1));
    assert_eq!(faster(Duration::from_secs(2)), Duration::from_secs(1));
}

#[test]
fn faster_subsecond_interval_clamps_up_to_minimum() {
    assert_eq!(faster(Duration::from_millis(500)), Duration::from_secs(1));
    assert_eq!(faster(Duration::ZERO), Duration::from_secs(1));
}

#[test]
fn slower_doubles_interval() {
    assert_eq!(slower(Duration::from_secs(5)), Duration::from_secs(10));
}

#[test]
fn slower_clamps_at_sixty_seconds() {
    assert_eq!(slower(Duration::from_secs(60)), Duration::from_secs(60));
    assert_eq!(slower(Duration::from_secs(30)), Duration::from_secs(60));
}

#[test]
fn elapsed_reached_compares_correctly() {
    assert!(elapsed_reached(Duration::from_secs(5), Duration::from_secs(5)));
    assert!(!elapsed_reached(Duration::from_secs(4), Duration::from_secs(5)));
}

#[test]
fn intervals_stay_between_one_and_sixty_seconds() {
    let mut d = default_interval();
    for _ in 0..10 {
        d = faster(d);
        assert!(d >= Duration::from_secs(1));
    }
    for _ in 0..10 {
        d = slower(d);
        assert!(d <= Duration::from_secs(60));
    }
    assert_eq!(d, Duration::from_secs(60));
}

fn p(name: &str) -> String {
    format!("tests/fixtures/{name}")
}

#[test]
fn pushing_then_popping_in_fifo_order() {
    let mut queue = ThumbQueue::new();
    queue.push(p("a.jpg"));
    queue.push(p("b.jpg"));
    queue.push(p("c.jpg"));
    assert_eq!(queue.pop(), Some(p("a.jpg")));
    assert_eq!(queue.pop(), Some(p("b.jpg")));
    assert_eq!(queue.pop(), Some(p("c.jpg")));
    assert_eq!(queue.len(), 0);
    assert!(queue.is_empty());
}

#[test]
fn drain_discards_pending_paths() {
    let mut queue = ThumbQueue::new();
    queue.push(p("a.jpg"));
    queue.push(p("b.jpg"));
    queue.drain();
    assert_eq!(queue.len(), 0);
    assert!(queue.is_empty());
}

#[test]
fn drain_does_not_affect_future_pushes() {
    let mut queue = ThumbQueue::new();
    queue.push(p("a.jpg"));
    queue.drain();
    queue.push(p("b.jpg"));
    assert_eq!(queue.pop(), Some(p("b.jpg")));
}

#[test]
fn pop_returns_pending_paths_even_after_close() {
    let mut queue = ThumbQueue::from_paths(vec![p("a.jpg"), p("b.jpg")]);
    queue.close();
    assert_eq!(queue.pop(), Some(p("a.jpg")));
    assert_eq!(queue.pop(), Some(p("b.jpg")));
    assert_eq!(queue.pop(), None);
}

#[test]
fn from_paths_preserves_order() {
    let mut queue = ThumbQueue::from_paths(vec![p("x.jpg"), p("y.jpg"), p("z.jpg")]);
    assert_eq!(queue.pop(), Some(p("x.jpg")));
    assert_eq!(queue.pop(), Some(p("y.jpg")));
    assert_eq!(queue.pop(), Some(p("z.jpg")));
}

#[test]
fn try_pop_on_open_empty_queue_waits() {
    let mut queue = ThumbQueue::new();
    assert_eq!(queue.try_pop(), PopStep::Wait);
    queue.close();
    assert_eq!(queue.try_pop(), PopStep::Closed);
    queue.push(p("late.jpg"));
    assert_eq!(queue.try_pop(), PopStep::Item(p("late.jpg")));
}
